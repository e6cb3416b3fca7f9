use noise_hoihoi::error::EngineError;
use noise_hoihoi::pulse::{
    abandoned_modules, check_input_listed, check_microphone_free, check_server, check_streams,
    ServerState, SERVER_LOST, STREAMS_LOST, error, input_devices, is_input, module_load_failure,
    sink_arguments, source_arguments, ModuleInfo, SourceInfo, MICROPHONE_OCCUPIED,
    OUTPUT_MICROPHONE_NAME, SINK_NAME, SOURCE_NAME, plan_linux_route,
};
use noise_hoihoi::config::{AudioDevice, EngineConfig};

#[test]
fn excludes_monitor_and_own_virtual_sources() {
    assert!(is_input("alsa_input.usb_microphone", false));
    assert!(!is_input("alsa_output.monitor", true));
    assert!(!is_input("noise_hoihoi_microphone", false));
    assert!(!is_input("noise_hoihoi_output.monitor", false));
}

#[test]
fn module_arguments_name_the_virtual_endpoints() {
    assert_eq!(
        sink_arguments(),
        "sink_name=noise_hoihoi_output rate=48000 channels=1 channel_map=mono sink_properties=device.description=NoiseHoiHoi_Output"
    );
    assert_eq!(
        source_arguments(),
        "master=noise_hoihoi_output.monitor source_name=noise_hoihoi_microphone channels=1 channel_map=mono master_channel_map=mono source_properties=\"device.description='NoiseHoiHoi Microphone'\""
    );
    assert_eq!(SINK_NAME, "noise_hoihoi_output");
    assert_eq!(SOURCE_NAME, "noise_hoihoi_microphone");
    assert_eq!(OUTPUT_MICROPHONE_NAME, "NoiseHoiHoi Microphone");
}

fn source(name: Option<&str>, description: Option<&str>, monitor: bool) -> SourceInfo {
    SourceInfo {
        name: name.map(str::to_owned),
        description: description.map(str::to_owned),
        monitor_of_sink: monitor,
    }
}

#[test]
fn lists_microphones_default_first_then_by_name() {
    let sources = vec![
        source(Some("alsa_input.b"), Some("Zeta"), false),
        source(Some("alsa_output.monitor"), Some("Monitor"), true),
        source(Some("alsa_input.a"), Some("Alpha"), false),
        source(Some("noise_hoihoi_microphone"), Some("Own"), false),
        source(Some("alsa_input.c"), None, false),
        source(None, Some("Nameless"), false),
        source(Some("alsa_input.d"), Some("Mid"), false),
    ];
    let devices = input_devices(Some("alsa_input.d".to_owned()), sources);
    let listed: Vec<(&str, &str, bool)> = devices
        .iter()
        .map(|d| (d.id.as_str(), d.name.as_str(), d.is_default))
        .collect();
    assert_eq!(
        listed,
        vec![
            ("alsa_input.d", "Mid", true),
            ("alsa_input.a", "Alpha", false),
            ("alsa_input.b", "Zeta", false),
            ("alsa_input.c", "alsa_input.c", false),
        ]
    );
}

#[test]
fn equal_names_keep_their_listing_order() {
    let sources = vec![
        source(Some("second"), Some("Same"), false),
        source(Some("first"), Some("Same"), false),
    ];
    let devices = input_devices(None, sources);
    assert_eq!(devices[0].id, "second");
    assert_eq!(devices[1].id, "first");
    assert!(!devices[0].is_default && !devices[1].is_default);
}

#[test]
fn abandoned_modules_are_removed_source_first() {
    let module = |name: &str, argument: String, index: u32| ModuleInfo {
        name: Some(name.to_owned()),
        argument: Some(argument),
        index,
    };
    let modules = vec![
        module("module-null-sink", sink_arguments(), 3),
        module("module-remap-source", source_arguments(), 9),
        module("module-null-sink", "sink_name=other".to_owned(), 4),
        module("module-remap-source", source_arguments(), 5),
        ModuleInfo { name: None, argument: None, index: 1 },
        module("module-null-sink", sink_arguments(), 2),
    ];
    assert_eq!(
        abandoned_modules(&modules),
        vec![(false, 5), (false, 9), (true, 2), (true, 3)]
    );
    assert!(abandoned_modules(&Vec::new()).is_empty());
}

#[test]
fn linux_errors_are_start_failures() {
    match error("cannot create audio context") {
        EngineError::Start(message) => {
            assert_eq!(message, "Linux audio: cannot create audio context")
        }
        other => panic!("unexpected {other:?}"),
    }
    match module_load_failure("module-null-sink") {
        EngineError::Start(message) => assert_eq!(
            message,
            "Linux audio: cannot load module-null-sink; the audio server must allow virtual microphone modules"
        ),
        other => panic!("unexpected {other:?}"),
    }
}

#[test]
fn refuses_an_existing_virtual_microphone() {
    let names = |list: &[&str]| list.iter().map(|n| Some((*n).to_owned())).collect::<Vec<_>>();
    assert!(check_microphone_free(&names(&["other_sink"]), &names(&["alsa_input.a"])).is_ok());
    assert!(check_microphone_free(&vec![None], &Vec::new()).is_ok());
    match check_microphone_free(&names(&["noise_hoihoi_output"]), &Vec::new()) {
        Err(EngineError::Start(message)) => {
            assert_eq!(message, format!("Linux audio: {MICROPHONE_OCCUPIED}"))
        }
        other => panic!("unexpected {other:?}"),
    }
    assert!(check_microphone_free(&Vec::new(), &names(&["noise_hoihoi_microphone"])).is_err());
}

#[test]
fn lost_streams_and_servers_fail_the_route() {
    assert!(check_streams(ServerState::Ready, ServerState::Connecting).is_ok());
    match check_streams(ServerState::Ready, ServerState::Terminated) {
        Err(EngineError::Start(message)) => {
            assert_eq!(message, format!("Linux audio: {STREAMS_LOST}"))
        }
        other => panic!("unexpected {other:?}"),
    }
    assert!(check_streams(ServerState::Failed, ServerState::Ready).is_err());
    assert!(check_server(true, ServerState::Ready).is_ok());
    assert!(check_server(false, ServerState::Ready).is_err());
    match check_server(true, ServerState::Failed) {
        Err(EngineError::Start(message)) => {
            assert_eq!(message, format!("Linux audio: {SERVER_LOST}"))
        }
        other => panic!("unexpected {other:?}"),
    }
}

#[test]
fn the_configured_microphone_must_be_listed() {
    let devices = vec![noise_hoihoi::config::AudioDevice {
        id: "alsa_input.a".into(),
        name: "A".into(),
        is_default: false,
    }];
    assert!(check_input_listed(&devices, "alsa_input.a").is_ok());
    match check_input_listed(&devices, "alsa_input.b") {
        Err(EngineError::InputDeviceNotFound(id)) => assert_eq!(id, "alsa_input.b"),
        other => panic!("unexpected {other:?}"),
    }
}

#[test]
fn a_linux_route_checks_its_start_decisions_in_order() {
    let devices = vec![AudioDevice {
        id: "alsa_input.usb".to_owned(),
        name: "USB".to_owned(),
        is_default: true,
    }];
    let config = EngineConfig::new("alsa_input.usb".to_owned());
    let plan = plan_linux_route(&config, &devices, &vec![None], &vec![]).unwrap();
    assert_eq!(plan.target_output_frames, 1_920);
    assert_eq!(plan.output_capacity, 8_192);
    assert_eq!(plan.input_capacity, 8_192);
    assert!(matches!(
        plan_linux_route(&EngineConfig::new("".to_owned()), &devices, &vec![], &vec![]),
        Err(EngineError::InvalidConfiguration(_))
    ));
    match plan_linux_route(&EngineConfig::new("other".to_owned()), &devices, &vec![], &vec![]) {
        Err(EngineError::InputDeviceNotFound(id)) => assert_eq!(id, "other"),
        other => panic!("unexpected {other:?}"),
    }
    let occupied = vec![Some(SINK_NAME.to_owned())];
    match plan_linux_route(&config, &devices, &occupied, &vec![]) {
        Err(EngineError::Start(message)) => {
            assert_eq!(message, format!("Linux audio: {MICROPHONE_OCCUPIED}"))
        }
        other => panic!("unexpected {other:?}"),
    }
}
