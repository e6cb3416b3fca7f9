//! Errors surfaced by the audio engine.

use vstd::prelude::*;

use crate::text::concat_str;

verus! {

/// Errors surfaced by the audio engine to the user interface.
#[derive(Clone, Debug)]
pub enum EngineError {
    UnsupportedPlatform,
    DeviceEnumeration(String),
    InputDeviceNotFound(String),
    VirtualOutputUnavailable(String),
    UnsupportedFormat(String),
    Start(String),
    NoiseReduction(String),
    InvalidConfiguration(String),
}

impl EngineError {
    /// The text shown for this error.
    pub open spec fn spec_message(&self) -> Seq<char> {
        match self {
            EngineError::UnsupportedPlatform => "no native audio backend is available for this platform"@,
            EngineError::DeviceEnumeration(s) => "failed to enumerate audio devices: "@ + s@,
            EngineError::InputDeviceNotFound(s) => "input device was not found: "@ + s@,
            EngineError::VirtualOutputUnavailable(s) => "virtual output is unavailable: "@ + s@,
            EngineError::UnsupportedFormat(s) => "audio device has an unsupported format: "@ + s@,
            EngineError::Start(s) => "failed to start audio: "@ + s@,
            EngineError::NoiseReduction(s) => "failed to initialize noise reduction: "@ + s@,
            EngineError::InvalidConfiguration(s) => "invalid engine configuration: "@ + s@,
        }
    }

    /// The text shown for this error (what `to_string` gives in the user interface).
    pub fn message(&self) -> (m: String)
        ensures
            m@ == self.spec_message(),
    {
        match self {
            EngineError::UnsupportedPlatform => String::from_str(
                "no native audio backend is available for this platform",
            ),
            EngineError::DeviceEnumeration(s) => concat_str(
                "failed to enumerate audio devices: ",
                s.as_str(),
            ),
            EngineError::InputDeviceNotFound(s) => concat_str(
                "input device was not found: ",
                s.as_str(),
            ),
            EngineError::VirtualOutputUnavailable(s) => concat_str(
                "virtual output is unavailable: ",
                s.as_str(),
            ),
            EngineError::UnsupportedFormat(s) => concat_str(
                "audio device has an unsupported format: ",
                s.as_str(),
            ),
            EngineError::Start(s) => concat_str("failed to start audio: ", s.as_str()),
            EngineError::NoiseReduction(s) => concat_str(
                "failed to initialize noise reduction: ",
                s.as_str(),
            ),
            EngineError::InvalidConfiguration(s) => concat_str(
                "invalid engine configuration: ",
                s.as_str(),
            ),
        }
    }
}

/// Failure of the noise-reduction network.
#[derive(Clone, Debug)]
pub enum NoiseNetError {
    /// The runtime, the processor or the embedded model could not be initialized.
    Initialization(String),
}

impl NoiseNetError {
    pub open spec fn spec_message(&self) -> Seq<char> {
        match self {
            NoiseNetError::Initialization(s) => "Burn could not initialize or load DeepFilterNet3: "@
                + s@,
        }
    }

    /// The text shown for this error.
    pub fn message(&self) -> (m: String)
        ensures
            m@ == self.spec_message(),
    {
        match self {
            NoiseNetError::Initialization(s) => concat_str(
                "Burn could not initialize or load DeepFilterNet3: ",
                s.as_str(),
            ),
        }
    }
}

} // verus!
