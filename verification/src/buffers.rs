//! Ring sizes of a route and the worker's view of its output ring.

use vstd::prelude::*;

use crate::config::{
    config_is_valid, validation_message, latency_frames, scale_frames_to_rate, spec_latency_frames,
    spec_scaled_frames, EngineConfig, PIPELINE_SAMPLE_RATE,
};
use crate::error::EngineError;

verus! {

/// Smallest output ring, in frames at the pipeline rate.
pub const MIN_OUTPUT_RING_FRAMES: usize = 8_192;

/// Capacity of the signal-monitor ring: one second at the pipeline rate.
pub const SIGNAL_MONITOR_RING_FRAMES: usize = 48_000;

/// Length of one processing chunk, in milliseconds.
pub const PROCESSING_CHUNK_MS: usize = 10;

/// Ring sizes for one route.
#[derive(Clone, Copy, Debug, PartialEq, Eq, Structural)]
pub struct BufferPlan {
    /// Silence pre-rolled into the output ring, the software latency target.
    pub target_output_frames: usize,
    pub output_capacity: usize,
    /// Input ring capacity at the input rate, holding as much time as the output ring.
    pub input_capacity: usize,
    pub monitor_capacity: usize,
}

/// Output ring capacity for a latency target: four targets, at least 8192 frames.
pub open spec fn spec_output_capacity(target: nat) -> nat {
    if target * 4 > MIN_OUTPUT_RING_FRAMES {
        target * 4
    } else {
        MIN_OUTPUT_RING_FRAMES as nat
    }
}

/// Sizes the rings of a route for a configuration and an input sample rate.
///
/// Fails as the configuration's validation fails; for a zero input rate; and when a ring
/// size does not fit.
pub fn plan_buffers(config: &EngineConfig, input_rate: u32) -> (r: Result<BufferPlan, EngineError>)
    ensures
        !config_is_valid(*config) ==> (r matches Err(EngineError::InvalidConfiguration(m))
            && m@ == validation_message(*config)),
        config_is_valid(*config) && input_rate == 0 ==> (r matches Err(
            EngineError::UnsupportedFormat(m),
        ) && m@ == "input sample rate is zero"@),
        config_is_valid(*config) && input_rate != 0 ==> match r {
            Ok(plan) => {
                let target = spec_latency_frames(PIPELINE_SAMPLE_RATE, config.target_latency_ms);
                &&& plan.target_output_frames == target
                &&& plan.output_capacity == spec_output_capacity(target)
                &&& plan.input_capacity == spec_scaled_frames(
                    spec_output_capacity(target),
                    input_rate as nat,
                )
                &&& plan.monitor_capacity == SIGNAL_MONITOR_RING_FRAMES
            },
            Err(EngineError::InvalidConfiguration(m)) => m@ == "audio buffer is too large"@ && 
                spec_output_capacity(spec_latency_frames(PIPELINE_SAMPLE_RATE, config.target_latency_ms))
                * input_rate > u64::MAX,
            Err(_) => false,
        },
{
    config.validate()?;
    if input_rate == 0 {
        return Err(EngineError::UnsupportedFormat(String::from_str("input sample rate is zero")));
    }
    let target = match latency_frames(PIPELINE_SAMPLE_RATE, config.target_latency_ms) {
        Ok(t) => t,
        Err(e) => {
            return Err(e);
        },
    };
    assert(target <= 12_000) by (nonlinear_arith)
        requires
            target as nat == (48_000 * config.target_latency_ms as nat) / 1000,
            config.target_latency_ms <= 250,
    ;
    let capacity = if target * 4 > MIN_OUTPUT_RING_FRAMES {
        target * 4
    } else {
        MIN_OUTPUT_RING_FRAMES
    };
    assert(capacity <= 48_000);
    let input_capacity = match scale_frames_to_rate(capacity, input_rate) {
        Ok(c) => c,
        Err(e) => {
            assert(capacity as nat * input_rate as nat <= 48_000 * u32::MAX) by (nonlinear_arith)
                requires
                    capacity <= 48_000,
            ;
            return Err(e);
        },
    };
    Ok(
        BufferPlan {
            target_output_frames: target,
            output_capacity: capacity,
            input_capacity,
            monitor_capacity: SIGNAL_MONITOR_RING_FRAMES,
        },
    )
}

/// Frames of input the resampler consumes per chunk: 10 ms at the input rate, at least 4.
pub fn input_chunk_frames(input_rate: u32) -> (frames: usize)
    ensures
        frames == (if input_rate as nat * 10 / 1000 > 4 {
            input_rate as nat * 10 / 1000
        } else {
            4
        }),
{
    let frames = (input_rate as u64) * 10 / 1000;
    assert(frames <= u32::MAX);
    if frames > 4 {
        frames as usize
    } else {
        4
    }
}

/// Frames waiting in the output ring, given its capacity and its free slots.
pub fn buffered_output_frames(output_capacity: usize, free_slots: usize) -> (frames: usize)
    ensures
        frames == (if output_capacity >= free_slots {
            output_capacity - free_slots
        } else {
            0
        }),
{
    output_capacity.saturating_sub(free_slots)
}

/// Largest block written to the playback stream per iteration, in bytes.
pub const PLAYBACK_BLOCK_BYTES: usize = 1_920;

/// Bytes of whole 4-byte samples to write to the playback stream: what it can take, at
/// most one block.
pub fn playback_chunk_bytes(writable: usize) -> (bytes: usize)
    ensures
        bytes == (if writable < PLAYBACK_BLOCK_BYTES {
            writable
        } else {
            PLAYBACK_BLOCK_BYTES
        }) / 4 * 4,
        bytes % 4 == 0,
        bytes <= writable,
        bytes <= PLAYBACK_BLOCK_BYTES,
{
    let limit = if writable < PLAYBACK_BLOCK_BYTES {
        writable
    } else {
        PLAYBACK_BLOCK_BYTES
    };
    limit / 4 * 4
}

} // verus!
