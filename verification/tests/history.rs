use noise_hoihoi::config::PIPELINE_SAMPLE_RATE;
use noise_hoihoi::history::SignalHistory;

#[derive(Clone, Copy, Debug, Default, PartialEq)]
struct MonitorSample {
    input: f32,
    output: f32,
}

const HISTORY_FRAMES: usize = PIPELINE_SAMPLE_RATE as usize;

#[test]
fn history_retains_latest_second_and_preserves_impulses_in_envelope() {
    let mut history = SignalHistory::new(HISTORY_FRAMES);
    history.append(&vec![MonitorSample::default(); HISTORY_FRAMES]);
    history.append(&[MonitorSample {
        input: 1.0,
        output: 0.25,
    }]);
    assert_eq!(history.len(), HISTORY_FRAMES);
    let samples = history.to_vec();
    let last = *samples.last().unwrap();
    assert_eq!(last.input, 1.0);
    assert_eq!((last.input - last.output).to_bits(), 0.75_f32.to_bits());
    assert!(samples[..HISTORY_FRAMES - 1]
        .iter()
        .all(|sample| *sample == MonitorSample::default()));
}

#[test]
fn partial_history_is_right_aligned_and_pass_through_difference_is_zero() {
    let mut history = SignalHistory::new(HISTORY_FRAMES);
    let sample = MonitorSample {
        input: -0.25,
        output: -0.25,
    };
    history.append(&vec![sample; HISTORY_FRAMES / 2]);
    let samples = history.to_vec();
    assert_eq!(samples.len(), HISTORY_FRAMES / 2);
    assert!(samples
        .iter()
        .all(|s| (s.input - s.output).to_bits() == 0.0_f32.to_bits()));
    history.clear();
    assert_eq!(history.len(), 0);
    assert!(history.to_vec().is_empty());
}

#[test]
fn a_long_append_keeps_only_the_newest_samples() {
    let mut history = SignalHistory::new(3);
    history.append(&[1_u32, 2, 3, 4, 5]);
    assert_eq!(history.to_vec(), vec![3, 4, 5]);
    history.append(&[6]);
    assert_eq!(history.to_vec(), vec![4, 5, 6]);
}
