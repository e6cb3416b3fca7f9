use noise_hoihoi::backend::NativeBackend;
use noise_hoihoi::compute::{
    cpu_processor, device_selection, disambiguate_duplicate_ids, find_processor, gpu_id,
    gpu_processors, processor_rank, processors, AdapterDescription, AdapterType,
    ComputeProcessor, ComputeRuntime, DeviceChoice, GpuSelector, ProcessorKind,
    ProcessorSelector, RuntimeError,
};
use noise_hoihoi::config::EngineConfig;
use noise_hoihoi::error::EngineError;

fn cpu() -> ComputeProcessor {
    ComputeProcessor {
        id: "cpu".to_owned(),
        name: "Test CPU".to_owned(),
        kind: ProcessorKind::Cpu,
        selector: ProcessorSelector::Cpu,
    }
}

fn gpu() -> ComputeProcessor {
    ComputeProcessor {
        id: "test-gpu".to_owned(),
        name: "Test GPU".to_owned(),
        kind: ProcessorKind::DiscreteGpu,
        selector: ProcessorSelector::Wgpu(GpuSelector::DiscreteGpu(0)),
    }
}

#[test]
fn cpu_exposes_only_flex() {
    let processor = cpu();
    assert_eq!(processor.runtimes(), vec![ComputeRuntime::Flex]);
    assert_eq!(processor.default_runtime(), ComputeRuntime::Flex);
    assert!(!processor.is_gpu());
    assert!(device_selection(&processor, ComputeRuntime::Flex).is_ok());
}

#[test]
fn rejects_wgpu_on_the_flex_cpu() {
    assert!(device_selection(&cpu(), ComputeRuntime::Wgpu).is_err());
}

#[test]
fn gpu_exposes_only_wgpu() {
    let processor = gpu();
    assert_eq!(processor.runtimes(), vec![ComputeRuntime::Wgpu]);
    assert_eq!(processor.default_runtime(), ComputeRuntime::Wgpu);
    assert!(processor.is_gpu());
}

#[test]
fn device_selection_names_the_refused_pair() {
    assert_eq!(
        device_selection(&gpu(), ComputeRuntime::Wgpu).unwrap(),
        DeviceChoice::Wgpu(GpuSelector::DiscreteGpu(0))
    );
    assert_eq!(
        device_selection(&cpu(), ComputeRuntime::Flex).unwrap(),
        DeviceChoice::Flex
    );
    let error = device_selection(&gpu(), ComputeRuntime::Flex).unwrap_err();
    assert_eq!(
        error.message(),
        "Flex is not supported by processor 'Test GPU'"
    );
    assert_eq!(
        RuntimeError::WgpuInitialization("Test GPU".into()).message(),
        "WGPU could not initialize processor 'Test GPU'"
    );
}

fn adapter(name: &str, device_type: AdapterType, device: u32) -> AdapterDescription {
    AdapterDescription {
        name: name.to_owned(),
        vendor: 0x10de,
        device,
        device_type,
        backend: "Vulkan".to_owned(),
        pci_bus_id: " 0000:01:00.0 ".to_owned(),
    }
}

#[test]
fn gpu_ids_encode_the_adapter() {
    assert_eq!(
        gpu_id(&adapter("  NVIDIA GeForce RTX 4090 ", AdapterType::DiscreteGpu, 0x2684)),
        "wgpu:Vulkan:DiscreteGpu:000010de:00002684:0000:01:00.0:nvidia-geforce-rtx-4090"
    );
}

#[test]
fn gpus_are_numbered_per_class_made_unique_and_ordered() {
    let adapters = vec![
        adapter("Integrated", AdapterType::IntegratedGpu, 1),
        adapter("Zeta", AdapterType::DiscreteGpu, 2),
        adapter("llvmpipe", AdapterType::Cpu, 3),
        adapter("Alpha", AdapterType::DiscreteGpu, 4),
        adapter("Zeta", AdapterType::DiscreteGpu, 2),
        adapter("Virtual", AdapterType::VirtualGpu, 5),
        adapter("Unknown", AdapterType::Other, 6),
    ];
    let found = gpu_processors(&adapters);
    let summary: Vec<(&str, ProcessorKind, ProcessorSelector)> = found
        .iter()
        .map(|p| (p.name.as_str(), p.kind, p.selector))
        .collect();
    assert_eq!(
        summary,
        vec![
            ("Alpha", ProcessorKind::DiscreteGpu, ProcessorSelector::Wgpu(GpuSelector::DiscreteGpu(1))),
            ("Zeta", ProcessorKind::DiscreteGpu, ProcessorSelector::Wgpu(GpuSelector::DiscreteGpu(0))),
            ("Zeta (2)", ProcessorKind::DiscreteGpu, ProcessorSelector::Wgpu(GpuSelector::DiscreteGpu(2))),
            ("Integrated", ProcessorKind::IntegratedGpu, ProcessorSelector::Wgpu(GpuSelector::IntegratedGpu(0))),
            ("Virtual", ProcessorKind::VirtualGpu, ProcessorSelector::Wgpu(GpuSelector::VirtualGpu(0))),
        ]
    );
    assert_eq!(found[2].id, format!("{}#1", found[1].id));
}

#[test]
fn repeated_ids_are_numbered_from_one() {
    let unique = disambiguate_duplicate_ids(vec![cpu(), gpu(), gpu(), gpu(), cpu()]);
    let ids: Vec<&str> = unique.iter().map(|p| p.id.as_str()).collect();
    let names: Vec<&str> = unique.iter().map(|p| p.name.as_str()).collect();
    assert_eq!(ids, ["cpu", "test-gpu", "test-gpu#1", "test-gpu#2", "cpu#1"]);
    assert_eq!(
        names,
        ["Test CPU", "Test GPU", "Test GPU (2)", "Test GPU (3)", "Test CPU (2)"]
    );
}

#[test]
fn cpu_is_named_after_the_first_reported_brand() {
    let brands = vec!["   ".to_owned(), "  AMD Ryzen 9 7950X  ".to_owned(), "Other".to_owned()];
    let processor = cpu_processor(&brands);
    assert_eq!(processor.id, "cpu");
    assert_eq!(processor.name, "AMD Ryzen 9 7950X");
    assert_eq!(processor.kind, ProcessorKind::Cpu);
    assert_eq!(cpu_processor(&Vec::new()).name, "CPU");
    assert_eq!(cpu_processor(&vec![String::new()]).name, "CPU");
}

#[test]
fn the_cpu_comes_first() {
    let list = processors(
        &vec!["Test CPU".to_owned()],
        &vec![adapter("GPU", AdapterType::DiscreteGpu, 7)],
    );
    assert_eq!(list.len(), 2);
    assert_eq!(list[0].id, "cpu");
    assert_eq!(list[0].name, "Test CPU");
    assert!(list[1].is_gpu());
    assert_eq!(processor_rank(ProcessorKind::DiscreteGpu), 0);
    assert_eq!(processor_rank(ProcessorKind::Cpu), 3);
}

#[test]
fn linux_rejects_unavailable_processor_before_opening_audio() {
    // An unavailable processor must not select a different physical GPU.
    let discovered = processors(&vec!["Test CPU".to_owned()], &Vec::new());
    let devices = NativeBackend.processors(&discovered);
    assert_eq!(devices[0].id(), "cpu");
    assert!(!devices[0].is_gpu());
    let config = EngineConfig::new("unused-test-microphone".to_string());
    assert!(config.validate().is_ok());
    let result = NativeBackend.start_processor(&discovered, Some("unavailable-processor"));
    assert!(matches!(result, Err(EngineError::NoiseReduction(message))
        if message == "selected processor is no longer available"));
}

#[test]
fn the_backend_presents_and_finds_processors() {
    let discovered = vec![cpu(), gpu()];
    let shown = NativeBackend.processors(&discovered);
    assert_eq!(shown[0].default_runtime(), "Flex");
    assert_eq!(shown[1].default_runtime(), "WGPU");
    assert_eq!(shown[1].name(), "Test GPU");
    assert!(shown[1].is_gpu());
    assert!(NativeBackend.start_processor(&discovered, None).unwrap().is_none());
    let chosen = NativeBackend
        .start_processor(&discovered, Some("test-gpu"))
        .unwrap()
        .unwrap();
    assert_eq!(chosen.name, "Test GPU");
    assert_eq!(find_processor(&discovered, "cpu").unwrap().name, "Test CPU");
}
