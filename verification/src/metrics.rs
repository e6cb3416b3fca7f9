//! Counters collected by the engine and read by the user interface.

use std::sync::Arc;

use vstd::prelude::*;
use vstd::wrapping::u64_specs::wrapping_add;

verus! {

/// Lifecycle state visible to the user interface.
#[derive(Clone, Copy, Debug, PartialEq, Eq, Structural)]
pub enum EngineState {
    Starting,
    Running,
    Faulted,
    Stopped,
}

impl EngineState {
    /// The one-byte code under which the state is stored.
    pub open spec fn spec_code(self) -> u8 {
        match self {
            EngineState::Starting => 0,
            EngineState::Running => 1,
            EngineState::Faulted => 2,
            EngineState::Stopped => 3,
        }
    }

    /// The one-byte code under which the state is stored.
    pub fn to_u8(self) -> (code: u8)
        ensures
            code == self.spec_code(),
    {
        match self {
            EngineState::Starting => 0,
            EngineState::Running => 1,
            EngineState::Faulted => 2,
            EngineState::Stopped => 3,
        }
    }

    /// Decodes a stored state; every unknown code reads as `Stopped`.
    pub fn from_u8(value: u8) -> (state: Self)
        ensures
            value <= 2 ==> state.spec_code() == value,
            value > 2 ==> state == EngineState::Stopped,
    {
        match value {
            0 => EngineState::Starting,
            1 => EngineState::Running,
            2 => EngineState::Faulted,
            _ => EngineState::Stopped,
        }
    }
}

impl Default for EngineState {
    fn default() -> (state: Self)
        ensures
            state == EngineState::Stopped,
    {
        EngineState::Stopped
    }
}

/// Point-in-time counters collected by the engine.
#[derive(Clone, Copy, Debug, PartialEq, Eq, Structural)]
pub struct EngineMetrics {
    pub state: EngineState,
    /// Bit pattern of the latest input peak, an `f32` clamped to 0–1.
    pub input_peak_bits: u32,
    /// Input frames dropped because the processing ring was full.
    pub dropped_input_frames: u64,
    /// Silence frames inserted because processed output was unavailable.
    pub inserted_silence_frames: u64,
    /// Recoverable discontinuities reported by the physical input stream.
    pub input_discontinuities: u64,
    /// Recoverable discontinuities reported by the virtual microphone output stream.
    pub output_discontinuities: u64,
    pub stream_faults: u64,
    pub processed_frames: u64,
    /// Longest individual processor call since this engine started.
    pub max_processing_time_us: u64,
    /// Processor calls that exceeded the duration of their audio block.
    pub processing_deadline_misses: u64,
    /// Observed processor calls.
    pub processing_calls: u64,
    /// Total time spent in observed processor calls.
    pub processing_total_time_us: u64,
    pub buffered_output_frames: u32,
    /// Signal-monitor frames dropped without affecting the audio route.
    pub dropped_signal_monitor_frames: u64,
}

/// All counters zero and the state `Stopped`.
pub open spec fn initial_metrics() -> EngineMetrics {
    EngineMetrics {
        state: EngineState::Stopped,
        input_peak_bits: 0,
        dropped_input_frames: 0,
        inserted_silence_frames: 0,
        input_discontinuities: 0,
        output_discontinuities: 0,
        stream_faults: 0,
        processed_frames: 0,
        max_processing_time_us: 0,
        processing_deadline_misses: 0,
        processing_calls: 0,
        processing_total_time_us: 0,
        buffered_output_frames: 0,
        dropped_signal_monitor_frames: 0,
    }
}

impl Default for EngineMetrics {
    fn default() -> (m: Self)
        ensures
            m == initial_metrics(),
    {
        EngineMetrics {
            state: EngineState::Stopped,
            input_peak_bits: 0,
            dropped_input_frames: 0,
            inserted_silence_frames: 0,
            input_discontinuities: 0,
            output_discontinuities: 0,
            stream_faults: 0,
            processed_frames: 0,
            max_processing_time_us: 0,
            processing_deadline_misses: 0,
            processing_calls: 0,
            processing_total_time_us: 0,
            buffered_output_frames: 0,
            dropped_signal_monitor_frames: 0,
        }
    }
}

/// Counters written by the audio threads and the first fault message of the route.
///
/// Counters wrap around at `u64::MAX`, as atomic additions do.
#[derive(Debug)]
pub struct SharedMetrics {
    metrics: EngineMetrics,
    fault_message: Option<String>,
}

impl SharedMetrics {
    /// The counters as a snapshot would report them.
    pub closed spec fn counters(&self) -> EngineMetrics {
        self.metrics
    }

    /// The first fault message recorded, if any.
    pub closed spec fn fault(&self) -> Option<String> {
        self.fault_message
    }

    pub fn set_state(&mut self, state: EngineState)
        ensures
            final(self).counters() == (EngineMetrics { state, ..old(self).counters() }),
            final(self).fault() == old(self).fault(),
    {
        self.metrics.state = state;
    }

    /// Stores the bit pattern of the input peak, already clamped to 0–1 by the caller.
    pub fn set_input_peak_bits(&mut self, bits: u32)
        ensures
            final(self).counters() == (EngineMetrics {
                input_peak_bits: bits,
                ..old(self).counters()
            }),
            final(self).fault() == old(self).fault(),
    {
        self.metrics.input_peak_bits = bits;
    }

    pub fn add_dropped_input_frames(&mut self, count: u64)
        ensures
            final(self).counters() == (EngineMetrics {
                dropped_input_frames: wrapping_add(old(self).counters().dropped_input_frames, count),
                ..old(self).counters()
            }),
            final(self).fault() == old(self).fault(),
    {
        self.metrics.dropped_input_frames = self.metrics.dropped_input_frames.wrapping_add(count);
    }

    pub fn add_inserted_silence_frames(&mut self, count: u64)
        ensures
            final(self).counters() == (EngineMetrics {
                inserted_silence_frames: wrapping_add(
                    old(self).counters().inserted_silence_frames,
                    count,
                ),
                ..old(self).counters()
            }),
            final(self).fault() == old(self).fault(),
    {
        self.metrics.inserted_silence_frames = self.metrics.inserted_silence_frames.wrapping_add(
            count,
        );
    }

    pub fn add_input_discontinuity(&mut self)
        ensures
            final(self).counters() == (EngineMetrics {
                input_discontinuities: wrapping_add(old(self).counters().input_discontinuities, 1),
                ..old(self).counters()
            }),
            final(self).fault() == old(self).fault(),
    {
        self.metrics.input_discontinuities = self.metrics.input_discontinuities.wrapping_add(1);
    }

    pub fn add_output_discontinuity(&mut self)
        ensures
            final(self).counters() == (EngineMetrics {
                output_discontinuities: wrapping_add(
                    old(self).counters().output_discontinuities,
                    1,
                ),
                ..old(self).counters()
            }),
            final(self).fault() == old(self).fault(),
    {
        self.metrics.output_discontinuities = self.metrics.output_discontinuities.wrapping_add(1);
    }

    /// Records a stream fault: keeps the first message, counts the fault and marks the
    /// engine as faulted.
    pub fn mark_stream_fault(&mut self, message: String)
        ensures
            final(self).counters() == (EngineMetrics {
                stream_faults: wrapping_add(old(self).counters().stream_faults, 1),
                state: EngineState::Faulted,
                ..old(self).counters()
            }),
            final(self).fault() == fault_update(old(self).fault(), Some(message)),
    {
        if self.fault_message.is_none() {
            self.fault_message = Some(message);
        }
        self.metrics.stream_faults = self.metrics.stream_faults.wrapping_add(1);
        self.set_state(EngineState::Faulted);
    }

    pub fn add_processed_frames(&mut self, count: u64)
        ensures
            final(self).counters() == (EngineMetrics {
                processed_frames: wrapping_add(old(self).counters().processed_frames, count),
                ..old(self).counters()
            }),
            final(self).fault() == old(self).fault(),
    {
        self.metrics.processed_frames = self.metrics.processed_frames.wrapping_add(count);
    }

    /// Records one processor call that took `elapsed_us` microseconds (saturated to
    /// `u64::MAX`) and missed `deadline_misses` deadlines.
    pub fn observe_processing(&mut self, elapsed_us: u128, deadline_misses: u64)
        ensures
            ({
                let us: u64 = if elapsed_us > u64::MAX as u128 {
                    u64::MAX
                } else {
                    elapsed_us as u64
                };
                let before = old(self).counters();
                final(self).counters() == (EngineMetrics {
                    max_processing_time_us: if us > before.max_processing_time_us {
                        us
                    } else {
                        before.max_processing_time_us
                    },
                    processing_deadline_misses: wrapping_add(
                        before.processing_deadline_misses,
                        deadline_misses,
                    ),
                    processing_calls: wrapping_add(before.processing_calls, 1),
                    processing_total_time_us: wrapping_add(before.processing_total_time_us, us),
                    ..before
                })
            }),
            final(self).fault() == old(self).fault(),
    {
        let us: u64 = if elapsed_us > u64::MAX as u128 {
            u64::MAX
        } else {
            elapsed_us as u64
        };
        if us > self.metrics.max_processing_time_us {
            self.metrics.max_processing_time_us = us;
        }
        self.metrics.processing_deadline_misses = self.metrics.processing_deadline_misses.wrapping_add(
            deadline_misses,
        );
        self.metrics.processing_calls = self.metrics.processing_calls.wrapping_add(1);
        self.metrics.processing_total_time_us = self.metrics.processing_total_time_us.wrapping_add(
            us,
        );
    }

    /// Records `calls` processor calls that took `total_us` microseconds together, the
    /// longest `longest_us`, and missed `deadline_misses` deadlines (times saturated to
    /// `u64::MAX`).
    pub fn observe_processing_calls(&mut self, calls: u64, total_us: u128, longest_us: u128, deadline_misses: u64)
        ensures
            ({
                let total: u64 = if total_us > u64::MAX as u128 {
                    u64::MAX
                } else {
                    total_us as u64
                };
                let longest: u64 = if longest_us > u64::MAX as u128 {
                    u64::MAX
                } else {
                    longest_us as u64
                };
                let before = old(self).counters();
                final(self).counters() == (EngineMetrics {
                    max_processing_time_us: if longest > before.max_processing_time_us {
                        longest
                    } else {
                        before.max_processing_time_us
                    },
                    processing_deadline_misses: wrapping_add(
                        before.processing_deadline_misses,
                        deadline_misses,
                    ),
                    processing_calls: wrapping_add(before.processing_calls, calls),
                    processing_total_time_us: wrapping_add(before.processing_total_time_us, total),
                    ..before
                })
            }),
            final(self).fault() == old(self).fault(),
    {
        let total: u64 = if total_us > u64::MAX as u128 {
            u64::MAX
        } else {
            total_us as u64
        };
        let longest: u64 = if longest_us > u64::MAX as u128 {
            u64::MAX
        } else {
            longest_us as u64
        };
        if longest > self.metrics.max_processing_time_us {
            self.metrics.max_processing_time_us = longest;
        }
        self.metrics.processing_deadline_misses = self.metrics.processing_deadline_misses.wrapping_add(
            deadline_misses,
        );
        self.metrics.processing_calls = self.metrics.processing_calls.wrapping_add(calls);
        self.metrics.processing_total_time_us = self.metrics.processing_total_time_us.wrapping_add(
            total,
        );
    }

    /// Stores the buffered output frame count, saturated to `u32::MAX`.
    pub fn set_buffered_output_frames(&mut self, count: usize)
        ensures
            final(self).counters() == (EngineMetrics {
                buffered_output_frames: if count > u32::MAX {
                    u32::MAX
                } else {
                    count as u32
                },
                ..old(self).counters()
            }),
            final(self).fault() == old(self).fault(),
    {
        let stored: u32 = if count > u32::MAX as usize {
            u32::MAX
        } else {
            count as u32
        };
        self.metrics.buffered_output_frames = stored;
    }

    pub fn add_dropped_signal_monitor_frames(&mut self, count: u64)
        ensures
            final(self).counters() == (EngineMetrics {
                dropped_signal_monitor_frames: wrapping_add(
                    old(self).counters().dropped_signal_monitor_frames,
                    count,
                ),
                ..old(self).counters()
            }),
            final(self).fault() == old(self).fault(),
    {
        self.metrics.dropped_signal_monitor_frames = self.metrics.dropped_signal_monitor_frames.wrapping_add(
            count,
        );
    }

    /// The counters as they stand.
    pub fn snapshot(&self) -> (m: EngineMetrics)
        ensures
            m == self.counters(),
    {
        self.metrics
    }

    /// The first fault message recorded for the route.
    pub fn last_error(&self) -> (m: Option<String>)
        ensures
            m == self.fault(),
    {
        match &self.fault_message {
            Some(message) => Some(message.clone()),
            None => None,
        }
    }
}

impl Default for SharedMetrics {
    fn default() -> (m: Self)
        ensures
            m.counters() == initial_metrics(),
            m.fault() is None,
    {
        SharedMetrics { metrics: EngineMetrics::default(), fault_message: None }
    }
}

/// Cheap cloneable view used by the user interface.
#[derive(Clone, Debug)]
pub struct MetricsHandle(pub Arc<SharedMetrics>);

impl MetricsHandle {
    pub fn snapshot(&self) -> (m: EngineMetrics)
        ensures
            m == (*self.0).counters(),
    {
        self.0.snapshot()
    }

    /// The first fault message recorded for the route.
    pub fn last_error(&self) -> (m: Option<String>)
        ensures
            m == (*self.0).fault(),
    {
        self.0.last_error()
    }
}


/// Distinct states are stored under distinct codes, so decoding a stored state gives it
/// back.
pub proof fn lemma_state_code_round_trip(a: EngineState, b: EngineState)
    ensures
        a.spec_code() == b.spec_code() ==> a == b,
        a.spec_code() <= 3,
        a.spec_code() == 3 <==> a == EngineState::Stopped,
{
}

/// The fault message after one update: a stream fault (`Some(message)`) records its
/// message only when none is recorded yet; any other update (`None`) leaves it as it was.
pub open spec fn fault_update(before: Option<String>, event: Option<String>) -> Option<String> {
    match before {
        Some(first) => Some(first),
        None => event,
    }
}

/// The message of the first stream fault among `events`, if any.
pub open spec fn first_fault(events: Seq<Option<String>>) -> Option<String>
    decreases events.len(),
{
    if events.len() == 0 {
        None
    } else {
        fault_update(first_fault(events.drop_last()), events.last())
    }
}

/// Over any sequence of metric updates starting without a fault, the recorded message (what
/// `last_error` reads) is the message of the first stream fault, or none when no fault
/// occurred. `mark_stream_fault` is an update with `Some(message)`; every other method,
/// and reading, is an update with `None`.
pub proof fn lemma_first_fault_is_kept(states: Seq<SharedMetrics>, events: Seq<Option<String>>)
    requires
        states.len() == events.len() + 1,
        states[0].fault() is None,
        forall|i: int|
            0 <= i < events.len() ==> #[trigger] states[i + 1].fault() == fault_update(
                states[i].fault(),
                events[i],
            ),
    ensures
        states.last().fault() == first_fault(events),
    decreases events.len(),
{
    if events.len() > 0 {
        let k = events.len() - 1;
        let earlier_states = states.take(states.len() - 1);
        let earlier_events = events.drop_last();
        assert forall|i: int| 0 <= i < earlier_events.len() implies #[trigger] earlier_states[i
            + 1].fault() == fault_update(earlier_states[i].fault(), earlier_events[i]) by {
            assert(earlier_states[i + 1] == states[i + 1]);
            assert(states[i + 1].fault() == fault_update(states[i].fault(), events[i]));
        }
        lemma_first_fault_is_kept(earlier_states, earlier_events);
        assert(states[k + 1].fault() == fault_update(states[k].fault(), events[k]));
    }
}

/// After stream faults with messages `messages[0]`, `messages[1]`, ... on metrics that had
/// none, the recorded message (what `MetricsHandle::last_error` reads) is the first one,
/// and none when there was no fault.
pub proof fn lemma_faults_keep_first_message(states: Seq<SharedMetrics>, messages: Seq<String>)
    requires
        states.len() == messages.len() + 1,
        states[0].fault() is None,
        forall|i: int|
            0 <= i < messages.len() ==> #[trigger] states[i + 1].fault() == fault_update(
                states[i].fault(),
                Some(messages[i]),
            ),
    ensures
        states.last().fault() == (if messages.len() == 0 {
            None
        } else {
            Some(messages[0])
        }),
    decreases messages.len(),
{
    if messages.len() > 0 {
        let earlier_states = states.take(states.len() - 1);
        let earlier = messages.drop_last();
        assert forall|i: int| 0 <= i < earlier.len() implies #[trigger] earlier_states[i + 1].fault()
            == fault_update(earlier_states[i].fault(), Some(earlier[i])) by {
            assert(earlier_states[i + 1] == states[i + 1]);
            assert(states[i + 1].fault() == fault_update(states[i].fault(), Some(messages[i])));
        }
        lemma_faults_keep_first_message(earlier_states, earlier);
        let k = messages.len() - 1;
        assert(states[k + 1].fault() == fault_update(states[k].fault(), Some(messages[k])));
        if k > 0 {
            assert(earlier[0] == messages[0]);
        }
    }
}

} // verus!
