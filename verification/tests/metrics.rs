use std::sync::Arc;

use noise_hoihoi::metrics::{EngineMetrics, EngineState, MetricsHandle, SharedMetrics};

#[test]
fn snapshot_reflects_atomic_updates() {
    let mut shared = SharedMetrics::default();
    shared.set_state(EngineState::Running);
    shared.set_input_peak_bits(0.75_f32.to_bits());
    shared.add_dropped_input_frames(2);
    shared.add_inserted_silence_frames(3);
    shared.add_input_discontinuity();
    shared.add_output_discontinuity();
    shared.add_processed_frames(480);
    shared.observe_processing(std::time::Duration::from_micros(750).as_micros(), 2);
    shared.observe_processing(std::time::Duration::from_micros(500).as_micros(), 0);
    shared.set_buffered_output_frames(1_920);
    shared.add_dropped_signal_monitor_frames(4);
    shared.mark_stream_fault("output stream: device invalidated".to_string());

    let handle = MetricsHandle(Arc::new(shared));
    let snapshot = handle.snapshot();
    assert_eq!(snapshot.state, EngineState::Faulted);
    assert_eq!(snapshot.input_peak_bits, 0.75_f32.to_bits());
    assert_eq!(snapshot.dropped_input_frames, 2);
    assert_eq!(snapshot.inserted_silence_frames, 3);
    assert_eq!(snapshot.input_discontinuities, 1);
    assert_eq!(snapshot.output_discontinuities, 1);
    assert_eq!(snapshot.processed_frames, 480);
    assert_eq!(snapshot.max_processing_time_us, 750);
    assert_eq!(snapshot.processing_deadline_misses, 2);
    assert_eq!(snapshot.buffered_output_frames, 1_920);
    assert_eq!(snapshot.dropped_signal_monitor_frames, 4);
    assert_eq!(
        handle.last_error().as_deref(),
        Some("output stream: device invalidated")
    );
}

#[test]
fn preserves_the_first_fault_message() {
    let mut shared = SharedMetrics::default();
    shared.mark_stream_fault("root cause".to_string());
    shared.mark_stream_fault("follow-on failure".to_string());

    let handle = MetricsHandle(Arc::new(shared));
    assert_eq!(handle.snapshot().stream_faults, 2);
    assert_eq!(handle.last_error().as_deref(), Some("root cause"));
}

#[test]
fn fresh_metrics_are_stopped_and_zero() {
    let handle = MetricsHandle(Arc::new(SharedMetrics::default()));
    let snapshot = handle.snapshot();
    let zero = EngineMetrics::default();
    assert_eq!(snapshot.state, EngineState::Stopped);
    assert_eq!(snapshot.stream_faults, zero.stream_faults);
    assert_eq!(snapshot.processing_calls, 0);
    assert!(handle.last_error().is_none());
}

#[test]
fn observation_counts_calls_and_total_time() {
    let mut shared = SharedMetrics::default();
    shared.observe_processing(1_000, 0);
    shared.observe_processing(3_000, 1);
    shared.observe_processing(u128::MAX, 0);
    let snapshot = MetricsHandle(Arc::new(shared)).snapshot();
    assert_eq!(snapshot.processing_calls, 3);
    assert_eq!(snapshot.max_processing_time_us, u64::MAX);
    assert_eq!(snapshot.processing_total_time_us, 3_999);
    assert_eq!(snapshot.processing_deadline_misses, 1);
}

#[test]
fn counters_wrap_and_buffered_frames_saturate() {
    let mut shared = SharedMetrics::default();
    shared.add_dropped_input_frames(u64::MAX);
    shared.add_dropped_input_frames(2);
    shared.set_buffered_output_frames(usize::MAX);
    let snapshot = MetricsHandle(Arc::new(shared)).snapshot();
    assert_eq!(snapshot.dropped_input_frames, 1);
    assert_eq!(snapshot.buffered_output_frames, u32::MAX);
}

#[test]
fn state_codes_round_trip() {
    for state in [
        EngineState::Starting,
        EngineState::Running,
        EngineState::Faulted,
        EngineState::Stopped,
    ] {
        assert_eq!(EngineState::from_u8(state.to_u8()), state);
    }
    assert_eq!(EngineState::Running.to_u8(), 1);
    assert_eq!(EngineState::from_u8(200), EngineState::Stopped);
    assert_eq!(EngineState::default(), EngineState::Stopped);
}

#[test]
fn any_number_of_faults_keeps_the_first_message() {
    let mut shared = SharedMetrics::default();
    assert!(shared.last_error().is_none());
    shared.add_processed_frames(1);
    assert!(shared.last_error().is_none());
    for (k, message) in ["first", "second", "third"].into_iter().enumerate() {
        shared.mark_stream_fault(message.to_string());
        shared.add_input_discontinuity();
        assert_eq!(shared.last_error().as_deref(), Some("first"));
        assert_eq!(shared.snapshot().stream_faults, k as u64 + 1);
    }
}

#[test]
fn a_chunk_of_calls_counts_each_call_and_its_total_time() {
    let mut shared = SharedMetrics::default();
    shared.observe_processing_calls(3, 9_000, 4_000, 1);
    shared.observe_processing_calls(2, 2_000, 1_500, 0);
    let metrics = shared.snapshot();
    assert_eq!(metrics.processing_calls, 5);
    assert_eq!(metrics.processing_total_time_us, 11_000);
    assert_eq!(metrics.max_processing_time_us, 4_000);
    assert_eq!(metrics.processing_deadline_misses, 1);
    shared.observe_processing_calls(1, u128::MAX, u128::MAX, 0);
    assert_eq!(shared.snapshot().max_processing_time_us, u64::MAX);
}
