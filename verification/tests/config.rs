use noise_hoihoi::buffers::{
    buffered_output_frames, input_chunk_frames, plan_buffers, playback_chunk_bytes,
    MIN_OUTPUT_RING_FRAMES, SIGNAL_MONITOR_RING_FRAMES,
};
use noise_hoihoi::config::{
    latency_frames, scale_frames_to_rate, EngineConfig, DEFAULT_TARGET_LATENCY_MS,
};
use noise_hoihoi::error::EngineError;

#[test]
fn default_configuration_is_valid() {
    assert!(EngineConfig::new("device-id".to_string()).validate().is_ok());
}

#[test]
fn rejects_empty_device_id() {
    assert!(EngineConfig::new("  ".to_string()).validate().is_err());
}

#[test]
fn rejects_excessive_latency() {
    let mut config = EngineConfig::new("device-id".to_string());
    config.target_latency_ms = 251;
    assert!(config.validate().is_err());
}

#[test]
fn converts_latency_to_frames() {
    assert_eq!(latency_frames(48_000, 40).unwrap(), 1_920);
}

#[test]
fn scales_ring_capacity_to_the_input_sample_rate() {
    assert_eq!(scale_frames_to_rate(8_192, 48_000).unwrap(), 8_192);
    assert_eq!(scale_frames_to_rate(8_192, 96_000).unwrap(), 16_384);
    assert_eq!(scale_frames_to_rate(8_192, 44_100).unwrap(), 7_527);
}

#[test]
fn new_configuration_uses_the_default_latency() {
    let config = EngineConfig::new("mic".to_string());
    assert_eq!(config.input_device_id, "mic");
    assert_eq!(config.target_latency_ms, DEFAULT_TARGET_LATENCY_MS);
    assert_eq!(config.target_latency_ms, 40);
}

#[test]
fn latency_bounds_are_inclusive() {
    let mut config = EngineConfig::new("mic".to_string());
    config.target_latency_ms = 10;
    assert!(config.validate().is_ok());
    config.target_latency_ms = 250;
    assert!(config.validate().is_ok());
    config.target_latency_ms = 9;
    assert!(matches!(config.validate(), Err(EngineError::InvalidConfiguration(_))));
}

#[test]
fn blank_device_id_is_an_invalid_configuration() {
    let config = EngineConfig::new("\t \n".to_string());
    assert!(matches!(config.validate(), Err(EngineError::InvalidConfiguration(_))));
}

#[test]
fn latency_frames_round_down() {
    assert_eq!(latency_frames(44_100, 10).unwrap(), 441);
    assert_eq!(latency_frames(44_100, 1).unwrap(), 44);
    assert_eq!(latency_frames(48_000, 0).unwrap(), 0);
}

#[test]
fn scaling_rounds_up() {
    assert_eq!(scale_frames_to_rate(1, 44_100).unwrap(), 1);
    assert_eq!(scale_frames_to_rate(0, 44_100).unwrap(), 0);
    assert_eq!(scale_frames_to_rate(8_192, 0).unwrap(), 0);
    assert_eq!(scale_frames_to_rate(48_000, 1).unwrap(), 1);
}

#[test]
fn plans_rings_for_the_default_latency() {
    let config = EngineConfig::new("mic".to_string());
    let plan = plan_buffers(&config, 48_000).unwrap();
    assert_eq!(plan.target_output_frames, 1_920);
    assert_eq!(plan.output_capacity, MIN_OUTPUT_RING_FRAMES);
    assert_eq!(plan.input_capacity, 8_192);
    assert_eq!(plan.monitor_capacity, SIGNAL_MONITOR_RING_FRAMES);
}

#[test]
fn plans_four_targets_for_long_latencies() {
    let mut config = EngineConfig::new("mic".to_string());
    config.target_latency_ms = 250;
    let plan = plan_buffers(&config, 96_000).unwrap();
    assert_eq!(plan.target_output_frames, 12_000);
    assert_eq!(plan.output_capacity, 48_000);
    assert_eq!(plan.input_capacity, 96_000);
}

#[test]
fn planning_rejects_a_zero_input_rate_and_invalid_configurations() {
    let config = EngineConfig::new("mic".to_string());
    match plan_buffers(&config, 0) {
        Err(EngineError::UnsupportedFormat(message)) => {
            assert_eq!(message, "input sample rate is zero")
        }
        other => panic!("unexpected {other:?}"),
    }
    let blank = EngineConfig::new(String::new());
    match plan_buffers(&blank, 0) {
        Err(EngineError::InvalidConfiguration(message)) => {
            assert_eq!(message, "an input device must be selected")
        }
        other => panic!("unexpected {other:?}"),
    }
    let mut slow = EngineConfig::new("mic".to_string());
    slow.target_latency_ms = 500;
    match plan_buffers(&slow, 48_000) {
        Err(EngineError::InvalidConfiguration(message)) => {
            assert_eq!(message, "target latency must be between 10 and 250 ms")
        }
        other => panic!("unexpected {other:?}"),
    }
}

#[test]
fn chunk_and_ring_helpers() {
    assert_eq!(input_chunk_frames(48_000), 480);
    assert_eq!(input_chunk_frames(44_100), 441);
    assert_eq!(input_chunk_frames(100), 4);
    assert_eq!(buffered_output_frames(8_192, 6_000), 2_192);
    assert_eq!(buffered_output_frames(100, 200), 0);
    assert_eq!(playback_chunk_bytes(7), 4);
    assert_eq!(playback_chunk_bytes(4_000), 1_920);
    assert_eq!(playback_chunk_bytes(1_919), 1_916);
}
