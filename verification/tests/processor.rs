use std::collections::VecDeque;

use noise_hoihoi::pipeline::{align_input, ProcessReport, ProcessorPipeline};
use noise_hoihoi::processor::{AudioProcessor, PassThrough};

#[test]
fn pass_through_is_bit_exact() {
    let mut samples = [-1.0_f32, -0.25, 0.0, 0.5, 1.0];
    let expected = samples;

    PassThrough.process(&mut samples[..]);

    assert_eq!(samples.map(f32::to_bits), expected.map(f32::to_bits));
}

#[test]
fn pass_through_has_no_block_or_content_delay() {
    assert_eq!(AudioProcessor::<f32>::frame_size(&PassThrough), None);
    assert_eq!(AudioProcessor::<f32>::latency_samples(&PassThrough), 0);
}

#[derive(Clone, Copy)]
struct Doubler;

impl AudioProcessor<f32> for Doubler {
    fn process(&mut self, samples: &mut [f32]) {
        for sample in samples {
            *sample *= 2.0;
        }
    }

    fn frame_size(&self) -> Option<usize> {
        Some(4)
    }

    fn latency_samples(&self) -> usize {
        2
    }
}

#[test]
fn fixed_frames_survive_arbitrary_chunk_boundaries_and_align_monitor_input() {
    let mut pipeline = ProcessorPipeline::new(Doubler, 0.0).unwrap();
    assert_eq!(pipeline.frame_size(), Some(4));
    let mut published = Vec::new();

    let (report, frames) = pipeline.process(&[1.0, 2.0, 3.0]);
    assert_eq!(report.processed_samples, 0);
    published.extend(frames);
    let (report, frames) = pipeline.process(&[4.0, 5.0, 6.0, 7.0, 8.0, 9.0]);
    assert_eq!(report.processed_samples, 8);
    published.extend(frames);
    assert_eq!(
        published,
        vec![
            (vec![0.0, 0.0, 1.0, 2.0], vec![2.0, 4.0, 6.0, 8.0]),
            (vec![3.0, 4.0, 5.0, 6.0], vec![10.0, 12.0, 14.0, 16.0]),
        ]
    );
}

#[test]
fn arbitrary_processor_publishes_each_chunk_without_delay() {
    let mut pipeline = ProcessorPipeline::new(PassThrough, 0.0_f32).unwrap();
    let (report, published) = pipeline.process(&[0.25, -0.5]);

    assert_eq!(report.processed_samples, 2);
    assert_eq!(published, vec![(vec![0.25, -0.5], vec![0.25, -0.5])]);
}

#[test]
fn zero_frame_size_is_refused() {
    match ProcessorPipeline::with_framing(PassThrough, Some(0), 0, 0_i32) {
        Err(message) => assert_eq!(message, "processor reported a zero frame size"),
        Ok(_) => panic!("a zero frame size must be refused"),
    }
    assert!(ProcessorPipeline::with_framing(PassThrough, Some(3), 1, 0_i32).is_ok());
}

#[test]
fn empty_chunk_is_still_one_call_without_framing() {
    let mut pipeline = ProcessorPipeline::new(PassThrough, 0_i32).unwrap();
    let (report, published) = pipeline.process(&[]);
    assert_eq!(report.processed_samples, 0);
    assert_eq!(published, vec![(Vec::new(), Vec::new())]);
}

#[test]
fn fixed_framing_with_latency_keeps_the_remainder() {
    let mut pipeline = ProcessorPipeline::with_framing(PassThrough, Some(2), 1, 0_i32).unwrap();
    let (report, published) = pipeline.process(&[1, 2, 3, 4, 5]);
    assert_eq!(report.processed_samples, 4);
    assert_eq!(
        published,
        vec![(vec![0, 1], vec![1, 2]), (vec![2, 3], vec![3, 4])]
    );
    let (report, published) = pipeline.process(&[6]);
    assert_eq!(report.processed_samples, 2);
    assert_eq!(published, vec![(vec![4, 5], vec![5, 6])]);
}

#[test]
fn delay_line_keeps_its_length() {
    let mut delay: VecDeque<i32> = VecDeque::from(vec![0, 0]);
    assert_eq!(align_input(&mut delay, &[1, 2, 3]), vec![0, 0, 1]);
    assert_eq!(delay, VecDeque::from(vec![2, 3]));
    assert_eq!(align_input(&mut delay, &[]), Vec::<i32>::new());
    assert_eq!(delay.len(), 2);
}

#[test]
fn report_counts_deadline_misses_against_the_block_length() {
    let mut report = ProcessReport::default();
    report.observe(480, 10_000_000);
    assert_eq!(report.deadline_misses, 0);
    report.observe(480, 10_000_001);
    assert_eq!(report.deadline_misses, 1);
    assert_eq!(report.processed_samples, 960);
    assert_eq!(report.max_processing_time_ns, 10_000_001);
    report.observe(0, 1);
    assert_eq!(report.deadline_misses, 2);
    report.observe(0, 0);
    assert_eq!(report.deadline_misses, 2);
    let mut full = ProcessReport {
        deadline_misses: u64::MAX,
        ..ProcessReport::default()
    };
    full.observe(480, 1);
    assert_eq!(full.deadline_misses, u64::MAX);
}

#[test]
fn pass_through_publishes_blocks_unchanged() {
    let mut pipeline = ProcessorPipeline::with_framing(PassThrough, Some(3), 0, 0_i32).unwrap();
    let mut outputs = Vec::new();
    for chunk in [&[1, 2][..], &[3, 4, 5, 6, 7][..], &[8, 9][..]] {
        let (_, published) = pipeline.process(chunk);
        for (aligned, output) in published {
            assert_eq!(aligned, output);
            outputs.extend(output);
        }
    }
    assert_eq!(outputs, (1..=9).collect::<Vec<i32>>());
}

#[test]
fn report_sums_call_times_and_saturates() {
    let mut report = ProcessReport::default();
    report.observe(480, 3_000);
    report.observe(480, 5_000);
    assert_eq!(report.total_processing_time_ns, 8_000);
    assert_eq!(report.max_processing_time_ns, 5_000);
    report.observe(480, u128::MAX);
    assert_eq!(report.total_processing_time_ns, u128::MAX);
}

#[test]
fn readiness_counts_the_samples_the_next_call_hands_out() {
    let mut pipeline = ProcessorPipeline::new(Doubler, 0.0_f32).unwrap();
    // Nothing pending: a chunk of 6 completes one block of 4.
    assert!(pipeline.ready_for(6, 4, 6));
    assert!(!pipeline.ready_for(6, 3, 6));
    assert!(!pipeline.ready_for(5, 100, 6));
    let (_, frames) = pipeline.process(&[0.0; 6]);
    assert_eq!(frames.len(), 1);
    // Two samples pending: a chunk of 6 now completes two blocks.
    assert!(!pipeline.ready_for(6, 7, 6));
    assert!(pipeline.ready_for(6, 8, 6));
    let mut free = ProcessorPipeline::new(PassThrough, 0_i32).unwrap();
    assert!(free.ready_for(3, 3, 3));
    assert!(!free.ready_for(3, 2, 3));
    let (_, frames) = free.process(&[1, 2, 3]);
    assert_eq!(frames, vec![(vec![1, 2, 3], vec![1, 2, 3])]);
}

#[test]
fn many_calls_process_every_complete_block_in_order() {
    let mut pipeline = ProcessorPipeline::new(Doubler, 0.0_f32).unwrap();
    let chunks: [&[f32]; 4] = [&[1.0], &[2.0, 3.0, 4.0, 5.0, 6.0], &[], &[7.0, 8.0, 9.0]];
    let mut aligned = Vec::new();
    let mut outputs = Vec::new();
    let mut processed = 0;
    for chunk in chunks {
        let (report, frames) = pipeline.process(chunk);
        processed += report.processed_samples;
        for (input, output) in frames {
            assert_eq!(output.len(), 4);
            aligned.extend(input);
            outputs.extend(output);
        }
    }
    assert_eq!(outputs, vec![2.0, 4.0, 6.0, 8.0, 10.0, 12.0, 14.0, 16.0]);
    assert_eq!(aligned, vec![0.0, 0.0, 1.0, 2.0, 3.0, 4.0, 5.0, 6.0]);
    assert_eq!(processed, 8);
}
