use noise_hoihoi::error::NoiseNetError;
use noise_hoihoi::inference::{
    check_available, cpu_model, device_entry, message_end, CpuModel, Device,
};

fn device(uri: &str) -> Device {
    Device {
        uri: uri.to_owned(),
        name: "GPU".to_owned(),
        integrated: false,
    }
}

#[test]
fn only_the_cpu_and_listed_devices_can_be_opened() {
    let devices = vec![device("vulkan://uuid-1"), device("vulkan://uuid-2")];
    assert!(check_available("cpu", &Vec::new()).is_ok());
    assert!(check_available("vulkan://uuid-2", &devices).is_ok());
    assert_eq!(
        check_available("vulkan://uuid-3", &devices),
        Err("selected processor is no longer available")
    );
    assert!(check_available("CPU", &devices).is_err());
}

#[test]
fn the_avx2_model_needs_both_features_on_x86_64() {
    assert_eq!(cpu_model(true, true, true), CpuModel::Avx2);
    assert_eq!(cpu_model(true, true, false), CpuModel::Portable);
    assert_eq!(cpu_model(true, false, true), CpuModel::Portable);
    assert_eq!(cpu_model(false, true, true), CpuModel::Portable);
}

#[test]
fn network_errors_name_the_model() {
    assert_eq!(
        NoiseNetError::Initialization("no adapter".into()).message(),
        "Burn could not initialize or load DeepFilterNet3: no adapter"
    );
}

#[test]
fn discovered_devices_are_opened_by_their_vulkan_path() {
    let integrated = device_entry("uuid-7", "Radeon", 1);
    assert_eq!(integrated.uri, "vulkan://uuid-7");
    assert_eq!(integrated.name, "Radeon");
    assert!(integrated.integrated);
    assert!(!device_entry("uuid-8", "GeForce", 0).integrated);
    assert!(!device_entry("uuid-9", "Other", 2).integrated);
}

#[test]
fn runtime_errors_end_at_the_first_nul() {
    assert_eq!(message_end(b"no device\0garbage"), 9);
    assert_eq!(message_end(b"\0"), 0);
    assert_eq!(message_end(b"unterminated"), 12);
    assert_eq!(message_end(b""), 0);
}
