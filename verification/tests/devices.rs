use noise_hoihoi::config::AudioDevice;
use noise_hoihoi::devices::{
    check_endpoint_formats, find_input_device, handle_input_stream_error, handle_output_stream_error, order_capture_devices,
    StreamErrorKind, find_vb_cable_playback_device, input_devices, reject_dsd,
    sample_format_rank, vb_cable_output_format, EndpointInfo, OutputFormatRange, SampleEncoding,
    find_route_endpoints, plan_route_formats, InputFormat, RouteEndpoints,
};
use noise_hoihoi::config::EngineConfig;
use noise_hoihoi::error::EngineError;
use noise_hoihoi::metrics::{EngineState, SharedMetrics};

fn endpoint(id: Option<&str>, name: Option<&str>) -> EndpointInfo {
    EndpointInfo {
        id: id.map(str::to_owned),
        name: name.map(str::to_owned),
    }
}

#[test]
fn capture_endpoints_exclude_the_cable_and_sort_case_insensitively() {
    let endpoints = vec![
        endpoint(Some("{b}"), Some("Zeta Microphone")),
        endpoint(Some("{cable}"), Some("CABLE Output (VB-Audio Virtual Cable)")),
        endpoint(Some("{a}"), Some("alpha Microphone")),
        endpoint(None, Some("No identifier")),
        endpoint(Some("{n}"), None),
        endpoint(Some("{d}"), Some("ÄUSSERES Mikrofon")),
        endpoint(Some("{c}"), Some("Gamma Microphone")),
    ];
    let devices = input_devices(Some("{c}".to_owned()), endpoints);
    let ids: Vec<&str> = devices.iter().map(|d| d.id.as_str()).collect();
    assert_eq!(ids, ["{c}", "{a}", "{b}", "{d}"]);
    assert!(devices[0].is_default);
    assert!(!devices[1].is_default);
    assert_eq!(devices[3].name, "ÄUSSERES Mikrofon");
}

#[test]
fn input_device_is_found_by_identifier() {
    let ids = vec![None, Some("{a}".to_owned()), Some("{b}".to_owned()), Some("{a}".to_owned())];
    assert_eq!(find_input_device(&ids, "{a}").unwrap(), 1);
    match find_input_device(&ids, "{z}") {
        Err(EngineError::InputDeviceNotFound(id)) => assert_eq!(id, "{z}"),
        other => panic!("unexpected {other:?}"),
    }
}

#[test]
fn cable_playback_is_found_by_name() {
    let names = vec![
        Some("Speakers".to_owned()),
        None,
        Some("CABLE Input (VB-Audio Virtual Cable)".to_owned()),
    ];
    assert_eq!(find_vb_cable_playback_device(&names), Some(2));
    assert_eq!(find_vb_cable_playback_device(&vec![Some("Speakers".to_owned())]), None);
}

#[test]
fn float_output_is_preferred_and_dsd_is_refused() {
    let range = |encoding, min, max| OutputFormatRange {
        channels: 2,
        encoding,
        min_sample_rate: min,
        max_sample_rate: max,
    };
    let ranges = vec![
        range(SampleEncoding::I16, 8_000, 192_000),
        range(SampleEncoding::F32, 8_000, 44_100),
        range(SampleEncoding::Dsd, 8_000, 192_000),
        range(SampleEncoding::F32, 48_000, 48_000),
        range(SampleEncoding::F32, 44_100, 96_000),
    ];
    assert_eq!(vb_cable_output_format(&ranges).unwrap(), 3);
    let only_dsd = vec![range(SampleEncoding::Dsd, 48_000, 48_000)];
    match vb_cable_output_format(&only_dsd) {
        Err(EngineError::UnsupportedFormat(message)) => assert_eq!(
            message,
            "CABLE Input (VB-Audio Virtual Cable) must support 48 kHz PCM"
        ),
        other => panic!("unexpected {other:?}"),
    }
    assert_eq!(sample_format_rank(SampleEncoding::F32), 0);
    assert_eq!(sample_format_rank(SampleEncoding::I24), 2);
    assert_eq!(sample_format_rank(SampleEncoding::Other), 5);
    assert_eq!(sample_format_rank(SampleEncoding::Dsd), u8::MAX);
    assert!(reject_dsd(SampleEncoding::I16, "i16", "input").is_ok());
    match reject_dsd(SampleEncoding::Dsd, "dsd_u8", "input") {
        Err(EngineError::UnsupportedFormat(message)) => {
            assert_eq!(message, "input uses unsupported DSD format dsd_u8")
        }
        other => panic!("unexpected {other:?}"),
    }
}

#[test]
fn capture_entries_order_by_the_given_names() {
    let entry = |id: &str, default: bool, key: &str| {
        (
            AudioDevice {
                id: id.to_owned(),
                name: id.to_uppercase(),
                is_default: default,
            },
            key.chars().collect::<Vec<char>>(),
        )
    };
    let sorted = order_capture_devices(vec![
        entry("c", false, "b"),
        entry("a", false, "a"),
        entry("d", true, "z"),
        entry("b", false, "b"),
    ]);
    let ids: Vec<&str> = sorted.iter().map(|(d, _)| d.id.as_str()).collect();
    assert_eq!(ids, ["d", "a", "c", "b"]);
}

#[test]
fn stream_errors_update_the_metrics() {
    let mut metrics = SharedMetrics::default();
    handle_input_stream_error(&mut metrics, StreamErrorKind::Xrun, "xrun");
    handle_output_stream_error(&mut metrics, StreamErrorKind::Xrun, "xrun");
    handle_output_stream_error(&mut metrics, StreamErrorKind::DeviceChanged, "changed");
    handle_input_stream_error(&mut metrics, StreamErrorKind::RealtimeDenied, "denied");
    let snapshot = metrics.snapshot();
    assert_eq!(snapshot.input_discontinuities, 1);
    assert_eq!(snapshot.output_discontinuities, 1);
    assert_eq!(snapshot.stream_faults, 0);
    handle_output_stream_error(&mut metrics, StreamErrorKind::Other, "device invalidated");
    handle_input_stream_error(&mut metrics, StreamErrorKind::Other, "later");
    assert_eq!(metrics.snapshot().stream_faults, 2);
    assert_eq!(metrics.snapshot().state, EngineState::Faulted);
    assert_eq!(
        metrics.last_error().as_deref(),
        Some("VB-CABLE output stream: device invalidated")
    );
}

#[test]
fn endpoints_must_report_a_rate_and_channels() {
    assert!(check_endpoint_formats(48_000, 2, 2).is_ok());
    for (rate, input, output) in [(0, 2, 2), (48_000, 0, 2), (48_000, 2, 0)] {
        match check_endpoint_formats(rate, input, output) {
            Err(EngineError::UnsupportedFormat(message)) => {
                assert_eq!(message, "an endpoint reported zero channels or sample rate")
            }
            other => panic!("unexpected {other:?}"),
        }
    }
}

fn input_ids() -> Vec<Option<String>> {
    vec![None, Some("{other}".to_owned()), Some("{mic}".to_owned())]
}

fn output_names() -> Vec<Option<String>> {
    vec![
        Some("Speakers".to_owned()),
        Some("CABLE Input (VB-Audio Virtual Cable)".to_owned()),
    ]
}

#[test]
fn a_windows_route_finds_its_endpoints_in_order() {
    let config = EngineConfig::new("{mic}".to_owned());
    assert_eq!(
        find_route_endpoints(&config, &input_ids(), &output_names()).unwrap(),
        RouteEndpoints { input: 2, output: 1 }
    );
    let blank = EngineConfig::new(" ".to_owned());
    assert!(matches!(
        find_route_endpoints(&blank, &input_ids(), &vec![]),
        Err(EngineError::InvalidConfiguration(_))
    ));
    let missing = EngineConfig::new("{gone}".to_owned());
    match find_route_endpoints(&missing, &input_ids(), &vec![]) {
        Err(EngineError::InputDeviceNotFound(id)) => assert_eq!(id, "{gone}"),
        other => panic!("unexpected {other:?}"),
    }
    match find_route_endpoints(&config, &input_ids(), &vec![Some("Speakers".to_owned())]) {
        Err(EngineError::VirtualOutputUnavailable(name)) => {
            assert_eq!(name, "CABLE Input (VB-Audio Virtual Cable)")
        }
        other => panic!("unexpected {other:?}"),
    }
}

fn mic_format(encoding: SampleEncoding, rate: u32, channels: u16) -> InputFormat {
    InputFormat {
        encoding,
        encoding_name: "f32".to_owned(),
        sample_rate: rate,
        channels,
    }
}

fn cable_ranges() -> Vec<OutputFormatRange> {
    vec![
        OutputFormatRange {
            channels: 8,
            encoding: SampleEncoding::I16,
            min_sample_rate: 8_000,
            max_sample_rate: 192_000,
        },
        OutputFormatRange {
            channels: 2,
            encoding: SampleEncoding::F32,
            min_sample_rate: 48_000,
            max_sample_rate: 48_000,
        },
    ]
}

#[test]
fn a_windows_route_plans_formats_and_rings() {
    let config = EngineConfig::new("{mic}".to_owned());
    let formats = plan_route_formats(
        &config,
        Ok(mic_format(SampleEncoding::F32, 96_000, 1)),
        Ok(cable_ranges()),
    )
    .unwrap();
    assert_eq!(formats.output_format, 1);
    assert_eq!(formats.output_channels, 2);
    assert_eq!(formats.input_rate, 96_000);
    assert_eq!(formats.input_channels, 1);
    assert_eq!(formats.buffers.target_output_frames, 1_920);
    assert_eq!(formats.buffers.output_capacity, 8_192);
    assert_eq!(formats.buffers.input_capacity, 16_384);
}

#[test]
fn a_windows_route_reports_each_format_failure() {
    let config = EngineConfig::new("{mic}".to_owned());
    let unsupported = |r: Result<_, EngineError>| match r {
        Err(EngineError::UnsupportedFormat(message)) => message,
        other => panic!("unexpected {other:?}"),
    };
    assert_eq!(
        unsupported(plan_route_formats(&config, Err("no default".to_owned()), Ok(cable_ranges()))),
        "no default"
    );
    let mut dsd = mic_format(SampleEncoding::Dsd, 48_000, 2);
    dsd.encoding_name = "DsdU8".to_owned();
    assert_eq!(
        unsupported(plan_route_formats(&config, Ok(dsd), Ok(cable_ranges()))),
        "input uses unsupported DSD format DsdU8"
    );
    assert_eq!(
        unsupported(plan_route_formats(
            &config,
            Ok(mic_format(SampleEncoding::F32, 48_000, 2)),
            Err("no ranges".to_owned())
        )),
        "no ranges"
    );
    assert_eq!(
        unsupported(plan_route_formats(
            &config,
            Ok(mic_format(SampleEncoding::F32, 48_000, 2)),
            Ok(vec![])
        )),
        "CABLE Input (VB-Audio Virtual Cable) must support 48 kHz PCM"
    );
    assert_eq!(
        unsupported(plan_route_formats(
            &config,
            Ok(mic_format(SampleEncoding::F32, 0, 2)),
            Ok(cable_ranges())
        )),
        "an endpoint reported zero channels or sample rate"
    );
    let mut silent = cable_ranges();
    silent[1].channels = 0;
    assert_eq!(
        unsupported(plan_route_formats(
            &config,
            Ok(mic_format(SampleEncoding::F32, 48_000, 2)),
            Ok(silent)
        )),
        "an endpoint reported zero channels or sample rate"
    );
    let mut no_channels = mic_format(SampleEncoding::F32, 48_000, 0);
    no_channels.encoding_name = "f32".to_owned();
    assert_eq!(
        unsupported(plan_route_formats(&config, Ok(no_channels), Ok(cable_ranges()))),
        "an endpoint reported zero channels or sample rate"
    );
}
