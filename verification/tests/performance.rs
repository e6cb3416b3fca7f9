use noise_hoihoi::metrics::{EngineMetrics, EngineState};
use noise_hoihoi::performance::{PerformanceCheck, Verdict, CHECK_DURATION_NS};

fn running() -> EngineMetrics {
    EngineMetrics {
        state: EngineState::Running,
        ..EngineMetrics::default()
    }
}

fn measured(mean_us: u64) -> EngineMetrics {
    EngineMetrics {
        processing_calls: 1000,
        processing_total_time_us: mean_us * 1000,
        processed_frames: 480_000,
        ..running()
    }
}

fn verdict(end: EngineMetrics) -> Verdict {
    let now = 1_000_000_000;
    let mut check = PerformanceCheck::default();
    check.start(now, running(), "test".into());
    check.poll(now + CHECK_DURATION_NS, end);
    check.report().unwrap().verdict
}

fn mean_ms(calls: u64, total_time_us: u64) -> f64 {
    total_time_us as f64 / calls as f64 / 1000.0
}

#[test]
fn distinguishes_headroom_spikes_slow_compute_and_route_faults() {
    assert_eq!(verdict(measured(4000)), Verdict::Headroom);
    assert_eq!(verdict(measured(9000)), Verdict::Limited);
    assert_eq!(verdict(measured(14000)), Verdict::TooSlow);
    assert_eq!(
        verdict(EngineMetrics {
            processing_deadline_misses: 1,
            ..measured(4000)
        }),
        Verdict::Limited
    );
    assert_eq!(
        verdict(EngineMetrics {
            dropped_input_frames: 480,
            ..measured(4000)
        }),
        Verdict::Interruptions
    );
    assert_eq!(
        verdict(EngineMetrics {
            inserted_silence_frames: 1,
            ..measured(4000)
        }),
        Verdict::Interruptions
    );
    assert_eq!(
        verdict(EngineMetrics {
            state: EngineState::Faulted,
            ..running()
        }),
        Verdict::Interruptions
    );
    assert_eq!(verdict(running()), Verdict::InsufficientData);
    assert_eq!(
        verdict(EngineMetrics {
            processing_calls: 20,
            processing_total_time_us: 80000,
            ..running()
        }),
        Verdict::InsufficientData
    );
}

#[test]
fn uses_window_deltas_and_clears_cancelled_or_stale_results() {
    let now = 5_000_000_000;
    let mut check = PerformanceCheck::default();
    let start = EngineMetrics {
        dropped_input_frames: 2000,
        processing_deadline_misses: 100,
        max_processing_time_us: 90000,
        ..measured(14000)
    };
    check.start(now, start, "Test GPU".into());
    check.poll(now + 9_000_000_000, start);
    assert!(check.is_running());
    check.poll(
        now + CHECK_DURATION_NS,
        EngineMetrics {
            processing_calls: 2000,
            processing_total_time_us: 18_000_000,
            processed_frames: 960_000,
            ..start
        },
    );
    let report = check.report().unwrap();
    assert_eq!(report.verdict, Verdict::Headroom);
    assert!((mean_ms(report.calls, report.total_time_us) - 4.0).abs() < 1e-6);
    assert_eq!(report.dropped_input_frames, 0);
    check.clear();
    assert!(check.report().is_none());
    check.start(now, start, "test".into());
    check.poll(now + CHECK_DURATION_NS, measured(4000));
    assert_eq!(check.report().unwrap().verdict, Verdict::InsufficientData);
    check.start(now, running(), "test".into());
    check.clear();
    check.poll(now + CHECK_DURATION_NS, measured(4000));
    assert!(check.report().is_none());
}

#[test]
fn a_check_starts_only_on_a_running_route() {
    let mut check = PerformanceCheck::default();
    check.start(0, EngineMetrics::default(), "stopped".into());
    assert!(!check.is_running());
    check.start(0, running(), "first".into());
    check.start(0, running(), "second".into());
    check.poll(CHECK_DURATION_NS, measured(4000));
    assert_eq!(check.report().unwrap().combination, "first");
}

#[test]
fn remaining_time_counts_down_and_saturates() {
    let mut check = PerformanceCheck::default();
    assert_eq!(check.remaining(0), None);
    check.start(100, running(), "test".into());
    assert_eq!(check.remaining(100), Some(CHECK_DURATION_NS));
    assert_eq!(check.remaining(4_000_000_100), Some(6_000_000_000));
    assert_eq!(check.remaining(50), Some(CHECK_DURATION_NS));
    assert_eq!(check.remaining(u64::MAX), Some(0));
}

#[test]
fn a_stopped_route_ends_the_window_early() {
    let mut check = PerformanceCheck::default();
    check.start(0, running(), "test".into());
    check.poll(
        1_000_000_000,
        EngineMetrics {
            state: EngineState::Stopped,
            ..measured(4000)
        },
    );
    assert!(!check.is_running());
    let report = check.report().unwrap();
    assert_eq!(report.verdict, Verdict::InsufficientData);
    assert_eq!(report.elapsed_ns, 1_000_000_000);
    assert_eq!(report.title(), "Not enough audio to judge");
}

#[test]
fn counter_rollback_is_inconclusive_and_discontinuities_add_up() {
    let start = EngineMetrics {
        input_discontinuities: 3,
        output_discontinuities: 1,
        ..measured(4000)
    };
    let mut check = PerformanceCheck::default();
    check.start(0, start, "test".into());
    check.poll(
        CHECK_DURATION_NS,
        EngineMetrics {
            input_discontinuities: 5,
            output_discontinuities: 4,
            processing_calls: 3000,
            processing_total_time_us: 12_000_000,
            processed_frames: 1_440_000,
            ..start
        },
    );
    let report = check.report().unwrap();
    assert_eq!(report.discontinuities, 5);
    assert_eq!(report.verdict, Verdict::Interruptions);
    assert_eq!(report.title(), "Audio interruptions detected");

    check.start(0, start, "test".into());
    check.poll(
        CHECK_DURATION_NS,
        EngineMetrics {
            processing_calls: 10,
            ..start
        },
    );
    assert_eq!(check.report().unwrap().verdict, Verdict::InsufficientData);
}
