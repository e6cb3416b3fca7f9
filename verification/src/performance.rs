//! Ten-second observation of the active audio route.
//!
//! Instants and the window's length are nanoseconds on a monotonic clock chosen by the
//! caller; processing times are the route metrics' microseconds.

use vstd::prelude::*;

use crate::metrics::{EngineMetrics, EngineState};

verus! {

/// Length of one observation window.
pub const CHECK_DURATION_NS: u64 = 10_000_000_000;

#[derive(Clone, Copy, Debug, PartialEq, Eq, Structural)]
pub enum Verdict {
    Headroom,
    Limited,
    TooSlow,
    Interruptions,
    InsufficientData,
}

/// Result of one observation window, measured as differences against its baseline.
#[derive(Clone, Debug)]
pub struct PerformanceReport {
    pub combination: String,
    pub elapsed_ns: u64,
    pub calls: u64,
    /// Total processing time of the `calls` processor calls.
    pub total_time_us: u64,
    pub deadline_misses: u64,
    pub dropped_input_frames: u64,
    pub inserted_silence_frames: u64,
    pub discontinuities: u64,
    pub verdict: Verdict,
}

pub open spec fn spec_title(verdict: Verdict) -> Seq<char> {
    match verdict {
        Verdict::Headroom => "Processing headroom available"@,
        Verdict::Limited => "Limited processing headroom"@,
        Verdict::TooSlow => "Processing cannot keep up"@,
        Verdict::Interruptions => "Audio interruptions detected"@,
        Verdict::InsufficientData => "Not enough audio to judge"@,
    }
}

impl PerformanceReport {
    pub fn title(&self) -> (t: &'static str)
        ensures
            t@ == spec_title(self.verdict),
    {
        match self.verdict {
            Verdict::Headroom => "Processing headroom available",
            Verdict::Limited => "Limited processing headroom",
            Verdict::TooSlow => "Processing cannot keep up",
            Verdict::Interruptions => "Audio interruptions detected",
            Verdict::InsufficientData => "Not enough audio to judge",
        }
    }
}

/// `a - b`, or zero when `b > a`.
pub open spec fn sat_sub(a: u64, b: u64) -> u64 {
    if a >= b {
        (a - b) as u64
    } else {
        0
    }
}

/// Input plus output discontinuities that occurred during the window.
pub open spec fn discontinuity_delta(start: EngineMetrics, end: EngineMetrics) -> nat {
    (sat_sub(end.input_discontinuities, start.input_discontinuities) + sat_sub(
        end.output_discontinuities,
        start.output_discontinuities,
    )) as nat
}

/// The verdict for a window from `start` to `end` that lasted `elapsed_ns`.
///
/// A counter that went backwards means the route restarted and the window proves nothing.
/// Any fault, drop, inserted silence or discontinuity is an interruption. A window that
/// did not run its full length, or saw no calls, is inconclusive. Otherwise the mean call
/// time decides: 10 ms or more cannot keep up; fewer calls than 90 % of the 10 ms blocks
/// that fit in the window are inconclusive; a missed deadline or a mean above 8 ms leaves
/// limited headroom.
pub open spec fn spec_verdict(start: EngineMetrics, end: EngineMetrics, elapsed_ns: u64) -> Verdict {
    let calls = sat_sub(end.processing_calls, start.processing_calls);
    let total = sat_sub(end.processing_total_time_us, start.processing_total_time_us);
    if end.processing_calls < start.processing_calls || end.processing_total_time_us
        < start.processing_total_time_us || end.processed_frames < start.processed_frames {
        Verdict::InsufficientData
    } else if end.state == EngineState::Faulted || end.stream_faults > start.stream_faults
        || sat_sub(end.dropped_input_frames, start.dropped_input_frames) > 0 || sat_sub(
        end.inserted_silence_frames,
        start.inserted_silence_frames,
    ) > 0 || discontinuity_delta(start, end) > 0 {
        Verdict::Interruptions
    } else if end.state != EngineState::Running || calls == 0 || elapsed_ns < CHECK_DURATION_NS {
        Verdict::InsufficientData
    } else if total >= 10_000 * calls {
        Verdict::TooSlow
    } else if 100_000_000 * calls < 9 * elapsed_ns {
        Verdict::InsufficientData
    } else if sat_sub(end.processing_deadline_misses, start.processing_deadline_misses) > 0 || total
        > 8_000 * calls {
        Verdict::Limited
    } else {
        Verdict::Headroom
    }
}

/// A window in progress.
#[derive(Debug)]
pub struct Observation {
    pub started_ns: u64,
    pub baseline: EngineMetrics,
    pub combination: String,
}

/// The report for the window `observation` ending at `now_ns` with counters `end`.
pub open spec fn spec_report(
    observation: Observation,
    now_ns: u64,
    end: EngineMetrics,
    report: PerformanceReport,
) -> bool {
    let start = observation.baseline;
    let elapsed = sat_sub(now_ns, observation.started_ns);
    &&& report.combination == observation.combination
    &&& report.elapsed_ns == elapsed
    &&& report.calls == sat_sub(end.processing_calls, start.processing_calls)
    &&& report.total_time_us == sat_sub(
        end.processing_total_time_us,
        start.processing_total_time_us,
    )
    &&& report.deadline_misses == sat_sub(
        end.processing_deadline_misses,
        start.processing_deadline_misses,
    )
    &&& report.dropped_input_frames == sat_sub(end.dropped_input_frames, start.dropped_input_frames)
    &&& report.inserted_silence_frames == sat_sub(
        end.inserted_silence_frames,
        start.inserted_silence_frames,
    )
    &&& report.discontinuities == discontinuity_delta(start, end)
    &&& report.verdict == spec_verdict(start, end, elapsed)
}

/// An observation of the running route over `CHECK_DURATION_NS`.
#[derive(Debug)]
pub struct PerformanceCheck {
    active: Option<Observation>,
    report: Option<PerformanceReport>,
}

impl Default for PerformanceCheck {
    fn default() -> (c: Self)
        ensures
            c.active_window() is None,
            c.finished_report() is None,
    {
        PerformanceCheck { active: None, report: None }
    }
}

impl PerformanceCheck {
    /// The window in progress, if any.
    pub closed spec fn active_window(&self) -> Option<Observation> {
        self.active
    }

    /// The result of the last finished window, if any.
    pub closed spec fn finished_report(&self) -> Option<PerformanceReport> {
        self.report
    }

    /// The window in progress, if any.
    pub fn observation(&self) -> (o: Option<&Observation>)
        ensures
            match self.active_window() {
                Some(a) => o == Some(&a),
                None => o is None,
            },
    {
        match &self.active {
            Some(a) => Some(a),
            None => None,
        }
    }

    /// Begins a window, but only while the route is running and no window is active.
    /// Failures before the start are excluded by the baseline.
    pub fn start(&mut self, now_ns: u64, metrics: EngineMetrics, combination: String)
        ensures
            metrics.state != EngineState::Running || old(self).active_window() is Some ==> *final(self)
                == *old(self),
            !(metrics.state != EngineState::Running || old(self).active_window() is Some) ==> final(self).finished_report() is None && final(self).active_window() == Some(
                Observation { started_ns: now_ns, baseline: metrics, combination },
            ),
    {
        if metrics.state != EngineState::Running || self.active.is_some() {
            return;
        }
        self.report = None;
        self.active = Some(Observation { started_ns: now_ns, baseline: metrics, combination });
    }

    pub fn is_running(&self) -> (r: bool)
        ensures
            r == self.active_window() is Some,
    {
        self.active.is_some()
    }

    /// Time left in the active window.
    pub fn remaining(&self, now_ns: u64) -> (r: Option<u64>)
        ensures
            match self.active_window() {
                Some(o) => r == Some(sat_sub(CHECK_DURATION_NS, sat_sub(now_ns, o.started_ns))),
                None => r is None,
            },
    {
        match &self.active {
            Some(observation) => Some(
                CHECK_DURATION_NS.saturating_sub(now_ns.saturating_sub(observation.started_ns)),
            ),
            None => None,
        }
    }

    pub fn report(&self) -> (r: Option<&PerformanceReport>)
        ensures
            match self.finished_report() {
                Some(rep) => r == Some(&rep),
                None => r is None,
            },
    {
        match &self.report {
            Some(report) => Some(report),
            None => None,
        }
    }

    /// Cancels a window or invalidates a result when the selected route changes.
    pub fn clear(&mut self)
        ensures
            final(self).active_window() is None,
            final(self).finished_report() is None,
    {
        self.active = None;
        self.report = None;
    }

    /// Ends the active window once it has lasted `CHECK_DURATION_NS` or the route is no
    /// longer running, and reports on it.
    pub fn poll(&mut self, now_ns: u64, metrics: EngineMetrics)
        requires
            old(self).active_window() matches Some(o) ==> discontinuity_delta(o.baseline, metrics)
                <= u64::MAX,
        ensures
            match old(self).active_window() {
                None => *final(self) == *old(self),
                Some(o) => if sat_sub(now_ns, o.started_ns) < CHECK_DURATION_NS && metrics.state
                    == EngineState::Running {
                    *final(self) == *old(self)
                } else {
                    final(self).active_window() is None && (final(self).finished_report() matches Some(rep)
                        && spec_report(o, now_ns, metrics, rep))
                },
            },
    {
        let ended = match &self.active {
            None => false,
            Some(active) => !(now_ns.saturating_sub(active.started_ns) < CHECK_DURATION_NS
                && metrics.state == EngineState::Running),
        };
        if !ended {
            return;
        }
        match self.active.take() {
            Some(active) => {
                self.report = Some(evaluate(active, now_ns, metrics));
            },
            None => {},
        }
    }
}

fn evaluate(observation: Observation, now_ns: u64, end: EngineMetrics) -> (report:
    PerformanceReport)
    requires
        discontinuity_delta(observation.baseline, end) <= u64::MAX,
    ensures
        spec_report(observation, now_ns, end, report),
{
    let start = observation.baseline;
    let elapsed = now_ns.saturating_sub(observation.started_ns);
    let calls = end.processing_calls.saturating_sub(start.processing_calls);
    let total_us = end.processing_total_time_us.saturating_sub(start.processing_total_time_us);
    let deadline_misses = end.processing_deadline_misses.saturating_sub(
        start.processing_deadline_misses,
    );
    let dropped_input_frames = end.dropped_input_frames.saturating_sub(start.dropped_input_frames);
    let inserted_silence_frames = end.inserted_silence_frames.saturating_sub(
        start.inserted_silence_frames,
    );
    let discontinuities = end.input_discontinuities.saturating_sub(start.input_discontinuities)
        + end.output_discontinuities.saturating_sub(start.output_discontinuities);
    let reset = end.processing_calls < start.processing_calls || end.processing_total_time_us
        < start.processing_total_time_us || end.processed_frames < start.processed_frames;
    let calls_wide = calls as u128;
    let verdict = if reset {
        Verdict::InsufficientData
    } else if end.state == EngineState::Faulted || end.stream_faults > start.stream_faults
        || dropped_input_frames > 0 || inserted_silence_frames > 0 || discontinuities > 0 {
        Verdict::Interruptions
    } else if end.state != EngineState::Running || calls == 0 || elapsed < CHECK_DURATION_NS {
        Verdict::InsufficientData
    } else if total_us as u128 >= 10_000 * calls_wide {
        Verdict::TooSlow
    } else if 100_000_000 * calls_wide < 9 * (elapsed as u128) {
        Verdict::InsufficientData
    } else if deadline_misses > 0 || total_us as u128 > 8_000 * calls_wide {
        Verdict::Limited
    } else {
        Verdict::Headroom
    };
    PerformanceReport {
        combination: observation.combination,
        elapsed_ns: elapsed,
        calls,
        total_time_us: total_us,
        deadline_misses,
        dropped_input_frames,
        inserted_silence_frames,
        discontinuities,
        verdict,
    }
}


/// A restarted route or a counter that went backwards never yields a positive verdict.
pub proof fn lemma_rollback_is_inconclusive(start: EngineMetrics, end: EngineMetrics, elapsed_ns: u64)
    requires
        end.processing_calls < start.processing_calls || end.processing_total_time_us
            < start.processing_total_time_us || end.processed_frames < start.processed_frames,
    ensures
        spec_verdict(start, end, elapsed_ns) == Verdict::InsufficientData,
{
}

/// Any fault, lost input, inserted silence or discontinuity during the window is reported
/// as an interruption, unless the counters show a restart.
pub proof fn lemma_interruptions_are_reported(start: EngineMetrics, end: EngineMetrics, elapsed_ns: u64)
    requires
        !(end.processing_calls < start.processing_calls || end.processing_total_time_us
            < start.processing_total_time_us || end.processed_frames < start.processed_frames),
        end.state == EngineState::Faulted || end.stream_faults > start.stream_faults
            || end.dropped_input_frames > start.dropped_input_frames
            || end.inserted_silence_frames > start.inserted_silence_frames
            || end.input_discontinuities > start.input_discontinuities
            || end.output_discontinuities > start.output_discontinuities,
    ensures
        spec_verdict(start, end, elapsed_ns) == Verdict::Interruptions,
{
}

/// A positive verdict requires a full window of a running route with calls: headroom and
/// limited headroom are only given after `CHECK_DURATION_NS`.
pub proof fn lemma_positive_verdict_needs_full_window(start: EngineMetrics, end: EngineMetrics, elapsed_ns: u64)
    requires
        spec_verdict(start, end, elapsed_ns) == Verdict::Headroom || spec_verdict(start, end, elapsed_ns)
            == Verdict::Limited || spec_verdict(start, end, elapsed_ns) == Verdict::TooSlow,
    ensures
        elapsed_ns >= CHECK_DURATION_NS,
        end.state == EngineState::Running,
        end.processing_calls > start.processing_calls,
{
}

/// Every count in a finished report is what happened during the window: the end counter
/// less the window's baseline, and 0 when the counter did not grow; the elapsed time is
/// the end instant less the start instant.
pub proof fn lemma_report_counts_window_deltas(
    observation: Observation,
    now_ns: u64,
    end: EngineMetrics,
    report: PerformanceReport,
)
    requires
        spec_report(observation, now_ns, end, report),
    ensures
        ({
            let base = observation.baseline;
            &&& now_ns >= observation.started_ns ==> report.elapsed_ns + observation.started_ns
                == now_ns
            &&& end.processing_calls >= base.processing_calls ==> report.calls
                + base.processing_calls == end.processing_calls
            &&& end.processing_total_time_us >= base.processing_total_time_us ==> report.total_time_us
                + base.processing_total_time_us == end.processing_total_time_us
            &&& end.processing_deadline_misses >= base.processing_deadline_misses
                ==> report.deadline_misses + base.processing_deadline_misses
                == end.processing_deadline_misses
            &&& end.dropped_input_frames >= base.dropped_input_frames ==> report.dropped_input_frames
                + base.dropped_input_frames == end.dropped_input_frames
            &&& end.inserted_silence_frames >= base.inserted_silence_frames
                ==> report.inserted_silence_frames + base.inserted_silence_frames
                == end.inserted_silence_frames
            &&& end.processing_calls <= base.processing_calls ==> report.calls == 0
            &&& end.processing_deadline_misses <= base.processing_deadline_misses
                ==> report.deadline_misses == 0
            &&& end.dropped_input_frames <= base.dropped_input_frames ==> report.dropped_input_frames
                == 0
            &&& end.inserted_silence_frames <= base.inserted_silence_frames
                ==> report.inserted_silence_frames == 0
            &&& end.input_discontinuities <= base.input_discontinuities
                && end.output_discontinuities <= base.output_discontinuities ==> report.discontinuities
                == 0
        }),
{
}

} // verus!
