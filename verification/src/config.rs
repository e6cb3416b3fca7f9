//! Engine configuration and the buffer sizes derived from it.

use vstd::prelude::*;

use crate::error::EngineError;
use crate::text::{is_blank, is_blank_str};

verus! {

/// Canonical sample rate passed to the processor.
pub const PIPELINE_SAMPLE_RATE: u32 = 48_000;

/// Default software buffering target in milliseconds.
pub const DEFAULT_TARGET_LATENCY_MS: u32 = 40;

/// Smallest and largest accepted software buffering targets in milliseconds.
pub const MIN_TARGET_LATENCY_MS: u32 = 10;
pub const MAX_TARGET_LATENCY_MS: u32 = 250;

/// A physical microphone offered by the current audio host.
#[derive(Clone, Debug, PartialEq, Eq)]
pub struct AudioDevice {
    pub id: String,
    pub name: String,
    pub is_default: bool,
}

impl View for AudioDevice {
    /// Identifier, display name and whether it is the host's default.
    type V = (Seq<char>, Seq<char>, bool);

    open spec fn view(&self) -> (Seq<char>, Seq<char>, bool) {
        (self.id@, self.name@, self.is_default)
    }
}

/// User-selected settings needed to start the real-time engine.
#[derive(Clone, Debug, PartialEq, Eq)]
pub struct EngineConfig {
    pub input_device_id: String,
    /// Software buffering target. This excludes endpoint and driver latency.
    pub target_latency_ms: u32,
}

/// Whether a configuration names an input device and a buffering target in 10–250 ms.
pub open spec fn config_is_valid(config: EngineConfig) -> bool {
    !is_blank(config.input_device_id@) && MIN_TARGET_LATENCY_MS <= config.target_latency_ms
        <= MAX_TARGET_LATENCY_MS
}

/// Why an invalid configuration is refused: a blank device first, then the latency.
pub open spec fn validation_message(config: EngineConfig) -> Seq<char> {
    if is_blank(config.input_device_id@) {
        "an input device must be selected"@
    } else {
        "target latency must be between 10 and 250 ms"@
    }
}

impl EngineConfig {
    /// A configuration for the given input device with the default 40 ms target.
    pub fn new(input_device_id: String) -> (config: Self)
        ensures
            config.input_device_id == input_device_id,
            config.target_latency_ms == DEFAULT_TARGET_LATENCY_MS,
    {
        EngineConfig { input_device_id, target_latency_ms: DEFAULT_TARGET_LATENCY_MS }
    }

    /// Check the device selection and buffering bounds.
    ///
    /// Fails for an identifier that is empty after trimming white space, and otherwise
    /// for a latency outside 10–250 ms.
    pub fn validate(&self) -> (r: Result<(), EngineError>)
        ensures
            r is Ok <==> config_is_valid(*self),
            !config_is_valid(*self) ==> (r matches Err(EngineError::InvalidConfiguration(m))
                && m@ == validation_message(*self)),
            is_blank(self.input_device_id@) ==> (r matches Err(
                EngineError::InvalidConfiguration(m),
            ) && m@ == "an input device must be selected"@),
            !is_blank(self.input_device_id@) && !config_is_valid(*self) ==> (r matches Err(
                EngineError::InvalidConfiguration(m),
            ) && m@ == "target latency must be between 10 and 250 ms"@),
    {
        if is_blank_str(self.input_device_id.as_str()) {
            return Err(
                EngineError::InvalidConfiguration(
                    String::from_str("an input device must be selected"),
                ),
            );
        }
        if self.target_latency_ms < MIN_TARGET_LATENCY_MS || self.target_latency_ms
            > MAX_TARGET_LATENCY_MS {
            return Err(
                EngineError::InvalidConfiguration(
                    String::from_str("target latency must be between 10 and 250 ms"),
                ),
            );
        }
        Ok(())
    }
}

/// Frames covered by `latency_ms` milliseconds at `sample_rate` Hz, rounded down.
pub open spec fn spec_latency_frames(sample_rate: u32, latency_ms: u32) -> nat {
    (sample_rate as nat * latency_ms as nat / 1000) as nat
}

/// Frames covered by a latency at a sample rate, rounded down.
///
/// Fails when the count does not fit in `usize`.
pub fn latency_frames(sample_rate: u32, latency_ms: u32) -> (r: Result<usize, EngineError>)
    ensures
        match r {
            Ok(frames) => frames as nat == spec_latency_frames(sample_rate, latency_ms),
            Err(EngineError::InvalidConfiguration(m)) => spec_latency_frames(
                sample_rate,
                latency_ms,
            ) > usize::MAX && m@ == "latency does not fit this target"@,
            Err(_) => false,
        },
{
    assert(sample_rate as nat * latency_ms as nat <= u32::MAX as nat * u32::MAX as nat)
        by (nonlinear_arith);
    let product = (sample_rate as u64) * (latency_ms as u64);
    let frames = product / 1000;
    if frames > usize::MAX as u64 {
        Err(EngineError::InvalidConfiguration(String::from_str("latency does not fit this target")))
    } else {
        Ok(frames as usize)
    }
}

/// `output_frames` at the pipeline rate rescaled to `input_rate`, rounded up.
pub open spec fn spec_scaled_frames(output_frames: nat, input_rate: nat) -> nat {
    let numerator = output_frames * input_rate;
    if numerator % (PIPELINE_SAMPLE_RATE as nat) == 0 {
        numerator / (PIPELINE_SAMPLE_RATE as nat)
    } else {
        numerator / (PIPELINE_SAMPLE_RATE as nat) + 1
    }
}

/// Scales a frame count at 48 kHz to the input sample rate, rounding up, so that a ring
/// holds the same duration of audio at either rate.
///
/// Fails when the intermediate product exceeds `u64` or the result exceeds `usize`.
pub fn scale_frames_to_rate(output_frames: usize, input_rate: u32) -> (r: Result<
    usize,
    EngineError,
>)
    ensures
        match r {
            Ok(frames) => output_frames as nat * input_rate as nat <= u64::MAX
                && frames as nat == spec_scaled_frames(output_frames as nat, input_rate as nat),
            Err(EngineError::InvalidConfiguration(m)) => (output_frames as nat * input_rate as nat
                > u64::MAX || spec_scaled_frames(output_frames as nat, input_rate as nat)
                > usize::MAX) && m@ == "audio buffer is too large"@,
            Err(_) => false,
        },
{
    let frames = output_frames as u64;
    let numerator = match frames.checked_mul(input_rate as u64) {
        Some(n) => n,
        None => {
            return Err(
                EngineError::InvalidConfiguration(String::from_str("audio buffer is too large")),
            );
        },
    };
    let rate = PIPELINE_SAMPLE_RATE as u64;
    let scaled = if numerator % rate == 0 {
        numerator / rate
    } else {
        numerator / rate + 1
    };
    if scaled > usize::MAX as u64 {
        Err(EngineError::InvalidConfiguration(String::from_str("audio buffer is too large")))
    } else {
        Ok(scaled as usize)
    }
}


/// A new configuration is valid exactly when its device identifier is not blank: the
/// default latency lies within the accepted range.
pub proof fn lemma_default_configuration_is_valid(config: EngineConfig)
    requires
        config.target_latency_ms == DEFAULT_TARGET_LATENCY_MS,
    ensures
        config_is_valid(config) <==> !is_blank(config.input_device_id@),
{
}

/// A ring rescaled to the input rate holds at least the audio time of the pipeline-rate ring and
/// less than one extra pipeline frame's worth.
pub proof fn lemma_scaled_ring_covers_duration(output_frames: nat, input_rate: nat)
    ensures
        spec_scaled_frames(output_frames, input_rate) * PIPELINE_SAMPLE_RATE >= output_frames
            * input_rate,
        spec_scaled_frames(output_frames, input_rate) * PIPELINE_SAMPLE_RATE < output_frames
            * input_rate + PIPELINE_SAMPLE_RATE,
{
    let n = output_frames * input_rate;
    let d = PIPELINE_SAMPLE_RATE as nat;
    assert(n == (n / d) * d + n % d) by (nonlinear_arith)
        requires
            d > 0,
    ;
    assert(0 <= n % d < d) by (nonlinear_arith)
        requires
            d > 0,
    ;
}

} // verus!
