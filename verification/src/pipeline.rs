//! Adapts variable audio chunks to a processor's fixed frame size and delay-aligns the
//! monitor input with the processor's content delay.
//!
//! The pipeline runs the processor on each frame and hands back the aligned input together
//! with the processed frame, for the caller to publish.

use std::collections::VecDeque;
use std::time::{Duration, Instant};

use vstd::prelude::*;

use crate::config::PIPELINE_SAMPLE_RATE;
use crate::processor::{AudioProcessor, PassThrough};

verus! {

/// The monotonic clock's instants, carried through without looking inside.
#[verifier::external_type_specification]
#[verifier::external_body]
pub struct ExInstant(Instant);

/// Reads the monotonic clock with `std::time::Instant::now`. Nothing is claimed of the
/// instant returned.
#[verifier::external_body]
fn clock_now() -> (now: Instant) {
    Instant::now()
}

/// Time passed since `start`, by `std::time::Instant::elapsed`. Nothing is claimed of the
/// duration returned: it is a measurement.
#[verifier::external_body]
fn elapsed_since(start: &Instant) -> (elapsed: Duration) {
    start.elapsed()
}

/// Whole nanoseconds in `duration`, by `std::time::Duration::as_nanos`. Nothing is claimed
/// of the count, since the duration itself is opaque here.
#[verifier::external_body]
fn whole_nanos(duration: &Duration) -> (nanos: u128) {
    duration.as_nanos()
}

/// `latency` copies of `silence` followed by `samples`: the stream as it leaves a delay
/// line of that length.
pub open spec fn delayed<T>(silence: T, latency: nat, samples: Seq<T>) -> Seq<T> {
    Seq::new(latency, |i: int| silence) + samples
}

/// Pushes `input` through the delay line `delay` and returns what falls out the far end.
///
/// Each sample is appended and the oldest sample is taken out, so the line keeps its
/// length and the output is the line's old contents followed by the input, cut to the
/// input's length.
pub fn align_input<T: Copy>(delay: &mut VecDeque<T>, input: &[T]) -> (aligned: Vec<T>)
    ensures
        aligned@ == (old(delay)@ + input@).take(input@.len() as int),
        final(delay)@ == (old(delay)@ + input@).skip(input@.len() as int),
{
    let ghost whole = delay@ + input@;
    let ghost l = delay@.len();
    let mut aligned: Vec<T> = Vec::new();
    let mut i: usize = 0;
    while i < input.len()
        invariant
            i <= input.len(),
            whole == old(delay)@ + input@,
            l == old(delay)@.len(),
            delay@ == whole.subrange(i as int, i + l),
            aligned@ == whole.take(i as int),
        decreases input.len() - i,
    {
        delay.push_back(input[i]);
        assert(delay@ == whole.subrange(i as int, i + l + 1));
        let out = delay.pop_front();
        match out {
            Some(sample) => {
                aligned.push(sample);
            },
            None => {},
        }
        i += 1;
        assert(aligned@ =~= whole.take(i as int));
        assert(delay@ =~= whole.subrange(i as int, i + l));
    }
    assert(whole.skip(input@.len() as int) =~= whole.subrange(
        input@.len() as int,
        input@.len() + l as int,
    ));
    aligned
}

/// Timing summary of the processor calls made for one chunk of input.
#[derive(Clone, Copy, Debug, PartialEq, Eq, Structural)]
pub struct ProcessReport {
    pub processed_samples: usize,
    /// Longest single call, in nanoseconds.
    pub max_processing_time_ns: u128,
    /// All calls together, in nanoseconds (saturated to `u128::MAX`).
    pub total_processing_time_ns: u128,
    /// Calls that took longer than the audio they processed lasts.
    pub deadline_misses: u64,
}

/// The longest of `durations`, or 0 when there are none.
pub open spec fn longest(durations: Seq<u128>) -> u128
    decreases durations.len(),
{
    if durations.len() == 0 {
        0
    } else if durations.last() > longest(durations.drop_last()) {
        durations.last()
    } else {
        longest(durations.drop_last())
    }
}

/// The sum of `durations`.
pub open spec fn sum_of(durations: Seq<u128>) -> int
    decreases durations.len(),
{
    if durations.len() == 0 {
        0
    } else {
        sum_of(durations.drop_last()) + durations.last()
    }
}

/// How many of `durations`, each the time of a call over `sample_count` samples, missed
/// their deadline.
pub open spec fn missed_calls(sample_count: usize, durations: Seq<u128>) -> nat
    decreases durations.len(),
{
    if durations.len() == 0 {
        0
    } else {
        missed_calls(sample_count, durations.drop_last()) + (if misses_deadline(
            sample_count,
            durations.last(),
        ) {
            1nat
        } else {
            0nat
        })
    }
}

/// Whether a call of `elapsed_ns` nanoseconds over `sample_count` samples at the pipeline
/// rate missed its deadline (the block length is counted in at most `u32::MAX` samples).
pub open spec fn misses_deadline(sample_count: usize, elapsed_ns: u128) -> bool {
    let counted: nat = if sample_count > u32::MAX {
        u32::MAX as nat
    } else {
        sample_count as nat
    };
    elapsed_ns as nat * PIPELINE_SAMPLE_RATE as nat > counted * 1_000_000_000
}

impl Default for ProcessReport {
    fn default() -> (r: Self)
        ensures
            r == (ProcessReport {
                processed_samples: 0,
                max_processing_time_ns: 0,
                total_processing_time_ns: 0,
                deadline_misses: 0,
            }),
    {
        ProcessReport {
            processed_samples: 0,
            max_processing_time_ns: 0,
            total_processing_time_ns: 0,
            deadline_misses: 0,
        }
    }
}

impl ProcessReport {
    /// Accounts for one processor call over `sample_count` samples that took `elapsed_ns`.
    pub fn observe(&mut self, sample_count: usize, elapsed_ns: u128)
        requires
            old(self).processed_samples + sample_count <= usize::MAX,
            misses_deadline(sample_count, elapsed_ns) ==> old(self).deadline_misses < u64::MAX,
        ensures
            final(self).processed_samples == old(self).processed_samples + sample_count,
            final(self).max_processing_time_ns == (if elapsed_ns > old(self).max_processing_time_ns {
                elapsed_ns
            } else {
                old(self).max_processing_time_ns
            }),
            final(self).total_processing_time_ns == (if old(self).total_processing_time_ns + elapsed_ns
                > u128::MAX {
                u128::MAX as int
            } else {
                old(self).total_processing_time_ns + elapsed_ns
            }),
            final(self).deadline_misses == old(self).deadline_misses + (if misses_deadline(
                sample_count,
                elapsed_ns,
            ) {
                1int
            } else {
                0int
            }),
    {
        self.processed_samples = self.processed_samples + sample_count;
        if elapsed_ns > self.max_processing_time_ns {
            self.max_processing_time_ns = elapsed_ns;
        }
        self.total_processing_time_ns = self.total_processing_time_ns.saturating_add(elapsed_ns);
        let counted: u32 = if sample_count > u32::MAX as usize {
            u32::MAX
        } else {
            sample_count as u32
        };
        if elapsed_ns >= u128::MAX / (PIPELINE_SAMPLE_RATE as u128) {
            assert(elapsed_ns as nat * PIPELINE_SAMPLE_RATE as nat > counted as nat * 1_000_000_000)
                by (nonlinear_arith)
                requires
                    elapsed_ns >= u128::MAX / 48000,
                    counted <= u32::MAX,
            ;
            self.deadline_misses = self.deadline_misses + 1;
        } else {
            let scaled = elapsed_ns * (PIPELINE_SAMPLE_RATE as u128);
            let budget = (counted as u128) * 1_000_000_000;
            if scaled > budget {
                self.deadline_misses = self.deadline_misses + 1;
            }
        }
    }
}

/// Fixed or arbitrary framing around a processor, with a delay line for the monitor input.
pub struct ProcessorPipeline<T, P> {
    processor: P,
    frame_size: Option<usize>,
    pending: VecDeque<T>,
    input_delay: VecDeque<T>,
    latency: usize,
    silence: T,
    chunk_waiting: bool,
    received: Ghost<Seq<T>>,
    emitted: Ghost<Seq<T>>,
    call_times: Ghost<Seq<u128>>,
}

impl<T: Copy, P: AudioProcessor<T>> ProcessorPipeline<T, P> {
    /// The processor run on each frame.
    pub closed spec fn spec_processor(&self) -> P {
        self.processor
    }

    /// Required processor block, or `None` for arbitrary chunks.
    pub closed spec fn spec_frame_size(&self) -> Option<usize> {
        self.frame_size
    }

    /// Content delay of the processor, in samples.
    pub closed spec fn spec_latency(&self) -> nat {
        self.latency as nat
    }

    /// Sample that fills the delay line before any input arrives.
    pub closed spec fn spec_silence(&self) -> T {
        self.silence
    }

    /// Every sample handed to `push_input` so far.
    pub closed spec fn received(&self) -> Seq<T> {
        self.received@
    }

    /// Every sample handed out in frames so far.
    pub closed spec fn emitted(&self) -> Seq<T> {
        self.emitted@
    }

    /// The durations of every processor call made so far, oldest first, in whole
    /// nanoseconds as the monotonic clock measured them around each call.
    pub closed spec fn call_times(&self) -> Seq<u128> {
        self.call_times@
    }

    /// Samples received but not yet handed out.
    pub closed spec fn pending(&self) -> Seq<T> {
        self.pending@
    }

    /// In arbitrary framing, whether the last chunk is still to be handed out.
    pub closed spec fn chunk_waiting(&self) -> bool {
        self.chunk_waiting
    }

    pub closed spec fn wf(&self) -> bool {
        &&& self.frame_size != Some(0usize)
        &&& self.received@ == self.emitted@ + self.pending@
        &&& self.input_delay@ == delayed(self.silence, self.latency as nat, self.emitted@).subrange(
            self.emitted@.len() as int,
            self.emitted@.len() + self.latency,
        )
        &&& (self.frame_size is Some ==> !self.chunk_waiting)
        &&& (self.frame_size is None && !self.chunk_waiting ==> self.pending@.len() == 0)
    }

    /// A pipeline around `processor`, with the block size and content delay that the
    /// processor reports; the delay line starts out filled with `silence`.
    ///
    /// Fails when the processor reports a zero block size.
    pub fn new(processor: P, silence: T) -> (r: Result<Self, &'static str>)
        ensures
            match r {
                Ok(p) => p.wf() && p.spec_processor() == processor && p.spec_silence() == silence
                    && p.received().len() == 0 && p.emitted().len() == 0 && p.pending().len() == 0
                    && !p.chunk_waiting() && p.call_times().len() == 0,
                Err(m) => m@ == "processor reported a zero frame size"@,
            },
    {
        let frame_size = processor.frame_size();
        let latency_samples = processor.latency_samples();
        Self::with_framing(processor, frame_size, latency_samples, silence)
    }

    /// A pipeline around `processor` with the given block size and content delay.
    ///
    /// Fails for a zero block size.
    pub fn with_framing(processor: P, frame_size: Option<usize>, latency_samples: usize, silence: T) -> (r: Result<
        Self,
        &'static str,
    >)
        ensures
            match r {
                Ok(p) => frame_size != Some(0usize) && p.wf() && p.spec_processor() == processor
                    && p.spec_frame_size() == frame_size && p.spec_latency() == latency_samples
                    && p.spec_silence() == silence && p.received().len() == 0 && p.emitted().len()
                    == 0 && p.pending().len() == 0 && !p.chunk_waiting() && p.call_times().len() == 0,
                Err(m) => frame_size == Some(0usize) && m@ == "processor reported a zero frame size"@,
            },
    {
        if frame_size == Some(0usize) {
            return Err("processor reported a zero frame size");
        }
        let mut input_delay: VecDeque<T> = VecDeque::new();
        let mut i: usize = 0;
        while i < latency_samples
            invariant
                i <= latency_samples,
                input_delay@ == Seq::new(i as nat, |k: int| silence),
            decreases latency_samples - i,
        {
            input_delay.push_back(silence);
            i += 1;
            assert(input_delay@ =~= Seq::new(i as nat, |k: int| silence));
        }
        let p = ProcessorPipeline {
            processor,
            frame_size,
            pending: VecDeque::new(),
            input_delay,
            latency: latency_samples,
            silence,
            chunk_waiting: false,
            received: Ghost(Seq::empty()),
            emitted: Ghost(Seq::empty()),
            call_times: Ghost(Seq::empty()),
        };
        assert(delayed(silence, latency_samples as nat, Seq::<T>::empty()).subrange(
            0,
            latency_samples as int,
        ) =~= Seq::new(latency_samples as nat, |k: int| silence));
        Ok(p)
    }

    pub fn frame_size(&self) -> (r: Option<usize>)
        ensures
            r == self.spec_frame_size(),
    {
        self.frame_size
    }

    /// Whether a worker can hand the next `chunk` samples to `process`: that many are
    /// waiting in its input, and its output has room for every sample the call will hand
    /// out (the complete blocks of what is pending plus the chunk).
    pub fn ready_for(&self, available_input: usize, free_output: usize, chunk: usize) -> (r: bool)
        requires
            self.wf(),
        ensures
            r == (available_input >= chunk && self.pending().len() + chunk <= usize::MAX
                && free_output >= frames_completed(self.spec_frame_size(), self.pending().len(), chunk as nat)
                * frame_length(self.spec_frame_size(), self.pending().len(), chunk as nat)),
    {
        if available_input < chunk {
            return false;
        }
        let queued = self.pending.len();
        if queued > usize::MAX - chunk {
            return false;
        }
        let total = queued + chunk;
        let produced = match self.frame_size {
            Some(n) => {
                assert(total / n * n <= total) by (nonlinear_arith)
                    requires
                        n > 0,
                ;
                assert(frames_completed(self.frame_size, queued as nat, chunk as nat) == total / n);
                assert(frame_length(self.frame_size, queued as nat, chunk as nat) == n);
                total / n * n
            },
            None => total,
        };
        free_output >= produced
    }

    /// Queues a chunk of input samples.
    fn push_input(&mut self, input: &[T])
        requires
            old(self).wf(),
        ensures
            final(self).wf(),
            final(self).received() == old(self).received() + input@,
            final(self).emitted() == old(self).emitted(),
            final(self).spec_frame_size() == old(self).spec_frame_size(),
            final(self).spec_latency() == old(self).spec_latency(),
            final(self).spec_silence() == old(self).spec_silence(),
            final(self).chunk_waiting() == (old(self).spec_frame_size() is None),
            final(self).spec_processor() == old(self).spec_processor(),
            final(self).call_times() == old(self).call_times(),
    {
        let mut i: usize = 0;
        let ghost before = self.pending@;
        let ghost frozen = *old(self);
        while i < input.len()
            invariant
                i <= input.len(),
                self.pending@ == before + input@.take(i as int),
                self.received == frozen.received,
                self.emitted == frozen.emitted,
                self.call_times == frozen.call_times,
                self.input_delay == frozen.input_delay,
                self.latency == frozen.latency,
                self.silence == frozen.silence,
                self.frame_size == frozen.frame_size,
                self.chunk_waiting == frozen.chunk_waiting,
                self.processor == frozen.processor,
                before == frozen.pending@,
            decreases input.len() - i,
        {
            self.pending.push_back(input[i]);
            i += 1;
            assert(self.pending@ =~= before + input@.take(i as int));
        }
        assert(input@.take(input@.len() as int) =~= input@);
        proof {
            self.received@ = self.received@ + input@;
        }
        assert(self.received@ =~= self.emitted@ + self.pending@);
        if self.frame_size.is_none() {
            self.chunk_waiting = true;
        }
    }

    /// Hands out the next frame and the input aligned with it, if one is complete.
    ///
    /// With a fixed block size a frame is the next `frame_size` pending samples; with
    /// arbitrary framing it is the whole chunk queued since the last frame, handed out
    /// once even when empty. The aligned input is the same stretch of the input stream
    /// delayed by the processor's latency.
    fn pop_frame(&mut self) -> (r: Option<(Vec<T>, Vec<T>)>)
        requires
            old(self).wf(),
        ensures
            final(self).wf(),
            final(self).received() == old(self).received(),
            final(self).spec_frame_size() == old(self).spec_frame_size(),
            final(self).spec_latency() == old(self).spec_latency(),
            final(self).spec_silence() == old(self).spec_silence(),
            final(self).spec_processor() == old(self).spec_processor(),
            final(self).call_times() == old(self).call_times(),
            !final(self).chunk_waiting(),
            ({
                let n: int = match old(self).spec_frame_size() {
                    Some(size) => size as int,
                    None => old(self).pending().len() as int,
                };
                let ready = match old(self).spec_frame_size() {
                    Some(size) => old(self).pending().len() >= size,
                    None => old(self).chunk_waiting(),
                };
                let start = old(self).emitted().len() as int;
                match r {
                    None => !ready && final(self).emitted() == old(self).emitted(),
                    Some((aligned, frame)) => ready && frame@ == old(self).received().subrange(
                        start,
                        start + n,
                    ) && final(self).emitted() == old(self).emitted() + frame@ && aligned@
                        == delayed(
                        old(self).spec_silence(),
                        old(self).spec_latency(),
                        final(self).emitted(),
                    ).subrange(start, start + n),
                }
            }),
    {
        let n: usize = match self.frame_size {
            Some(size) => {
                if self.pending.len() < size {
                    return None;
                }
                size
            },
            None => {
                if !self.chunk_waiting {
                    return None;
                }
                self.pending.len()
            },
        };
        let ghost pending0 = self.pending@;
        let ghost emitted0 = self.emitted@;
        let ghost delay0 = self.input_delay@;
        let ghost frozen = *self;
        let mut frame: Vec<T> = Vec::new();
        let mut i: usize = 0;
        while i < n
            invariant
                i <= n <= pending0.len(),
                self.received == frozen.received,
                self.emitted == frozen.emitted,
                self.call_times == frozen.call_times,
                self.input_delay == frozen.input_delay,
                self.latency == frozen.latency,
                self.silence == frozen.silence,
                self.frame_size == frozen.frame_size,
                self.chunk_waiting == frozen.chunk_waiting,
                self.processor == frozen.processor,
                frame@ == pending0.take(i as int),
                self.pending@ == pending0.skip(i as int),
            decreases n - i,
        {
            let sample = self.pending.pop_front();
            match sample {
                Some(s) => {
                    frame.push(s);
                },
                None => {},
            }
            i += 1;
            assert(frame@ =~= pending0.take(i as int));
            assert(self.pending@ =~= pending0.skip(i as int));
        }
        let aligned = align_input(&mut self.input_delay, frame.as_slice());
        let ghost d = delayed(self.silence, self.latency as nat, emitted0 + frame@);
        let ghost l = self.latency as int;
        assert(delay0 + frame@ =~= d.subrange(emitted0.len() as int, emitted0.len() + l + n));
        proof {
            self.emitted@ = emitted0 + frame@;
        }
        self.chunk_waiting = false;
        assert(self.received@ =~= self.emitted@ + self.pending@);
        assert(self.input_delay@ =~= d.subrange(
            (emitted0.len() + n) as int,
            emitted0.len() + n + l,
        ));
        assert(aligned@ =~= d.subrange(emitted0.len() as int, emitted0.len() + n));
        Some((aligned, frame))
    }

    /// Runs one chunk of input through the processor and returns, for each frame that the
    /// chunk completes, the monitor input aligned with it and the processed frame, in order,
    /// together with the timing of the processor calls.
    ///
    /// With a fixed block size every complete block is processed and the rest stays
    /// pending; with arbitrary framing the whole chunk is one frame, processed at once
    /// even when empty.
    #[verifier::spinoff_prover]
    pub fn process(&mut self, input: &[T]) -> (r: (
        ProcessReport,
        Vec<(Vec<T>, Vec<T>)>,
    ))
        requires
            old(self).wf(),
            old(self).pending().len() + input@.len() <= usize::MAX,
        ensures
            final(self).wf(),
            final(self).received() == old(self).received() + input@,
            final(self).spec_frame_size() == old(self).spec_frame_size(),
            final(self).spec_latency() == old(self).spec_latency(),
            final(self).spec_silence() == old(self).spec_silence(),
            !final(self).chunk_waiting(),
            ({
                let n = frame_length(
                    old(self).spec_frame_size(),
                    old(self).pending().len(),
                    input@.len(),
                );
                let count = frames_completed(
                    old(self).spec_frame_size(),
                    old(self).pending().len(),
                    input@.len(),
                );
                let e0 = old(self).emitted().len() as int;
                &&& r.1@.len() == count
                &&& final(self).emitted().len() == e0 + count * n
                &&& forall|k: int|
                    0 <= k < count ==> {
                        &&& (#[trigger] r.1@[k]).0@ == delayed(
                            old(self).spec_silence(),
                            old(self).spec_latency(),
                            final(self).emitted(),
                        ).subrange(e0 + k * n, e0 + k * n + n)
                        &&& r.1@[k].1@.len() == n
                    }
                &&& r.0.processed_samples == count * n
                &&& r.0.deadline_misses <= count
            }),
            ({
                let c0 = old(self).call_times().len() as int;
                let calls = final(self).call_times().skip(c0);
                let n = frame_length(
                    old(self).spec_frame_size(),
                    old(self).pending().len(),
                    input@.len(),
                );
                &&& final(self).call_times().len() == c0 + r.1@.len()
                &&& final(self).call_times().take(c0) == old(self).call_times()
                &&& r.0.max_processing_time_ns == longest(calls)
                &&& r.0.total_processing_time_ns == (if sum_of(calls) > u128::MAX {
                    u128::MAX as int
                } else {
                    sum_of(calls)
                })
                &&& r.0.deadline_misses == missed_calls(n as usize, calls)
            }),
            runs_through_blocks(
                final(self).received(),
                old(self).emitted().len() as int,
                frame_length(old(self).spec_frame_size(), old(self).pending().len(), input@.len())
                    as int,
                r.1@,
                old(self).spec_processor(),
                final(self).spec_processor(),
            ),
    {
        let ghost frame_size = self.frame_size;
        let ghost q = self.pending@.len();
        let ghost e0 = self.emitted@.len() as int;
        let ghost n = frame_length(self.frame_size, q, input@.len());
        let ghost silence = self.silence;
        let ghost latency = self.latency as nat;
        proof {
            lemma_pending_length(*self);
        }
        self.push_input(input);
        proof {
            lemma_pending_length(*self);
        }
        let ghost total = self.pending@.len();
        assert(total == q + input@.len());
        let mut published: Vec<(Vec<T>, Vec<T>)> = Vec::new();
        let mut report = ProcessReport::default();
        let ghost mut states: Seq<P> = seq![self.processor];
        let ghost mut calls: Seq<u128> = Seq::empty();
        let ghost first = old(self).spec_processor();
        loop
            invariant
                self.wf(),
                first == old(self).spec_processor(),
                runs_blocks(states, self.received(), e0, n as int, published@, first, self.spec_processor()),
                self.received() == old(self).received() + input@,
                self.spec_frame_size() == frame_size,
                self.spec_latency() == latency,
                self.spec_silence() == silence,
                frame_size == old(self).spec_frame_size(),
                n == frame_length(frame_size, q, input@.len()),
                total == q + input@.len(),
                total <= usize::MAX,
                e0 == old(self).emitted().len(),
                frame_size is Some ==> n == frame_size.unwrap() && n > 0,
                frame_size is None ==> n == total,
                frame_size is None ==> (self.chunk_waiting() <==> published@.len() == 0),
                frame_size is None ==> published@.len() <= 1,
                self.emitted().len() == e0 + published@.len() * n,
                self.pending().len() + published@.len() * n == total,
                report.processed_samples == published@.len() * n,
                report.deadline_misses <= published@.len(),
                calls.len() == published@.len(),
                self.call_times() == old(self).call_times() + calls,
                report.max_processing_time_ns == longest(calls),
                report.total_processing_time_ns == (if sum_of(calls) > u128::MAX {
                    u128::MAX as int
                } else {
                    sum_of(calls)
                }),
                report.deadline_misses == missed_calls(n as usize, calls),
                forall|k: int|
                    0 <= k < published@.len() ==> {
                        &&& (#[trigger] published@[k]).0@ == frame_window(
                            silence,
                            latency,
                            self.emitted(),
                            e0,
                            k,
                            n as int,
                        )
                        &&& published@[k].1@.len() == n
                    },
            ensures
                frame_size is Some ==> self.pending().len() < n,
                frame_size is None ==> published@.len() == 1,
                self.wf(),
                !self.chunk_waiting(),
            decreases self.pending().len() + (if self.chunk_waiting() {
                1int
            } else {
                0int
            }),
        {
            let ghost before = *self;
            let ghost k = published@.len() as int;
            let next = self.pop_frame();
            proof {
                lemma_pending_length(before);
                lemma_pending_length(*self);
            }
            match next {
                None => {
                    break;
                },
                Some((aligned, mut frame)) => {
                    proof {
                        assert((k + 1) * n == k * n + n) by (nonlinear_arith);
                        assert forall|j: int| 0 <= j < k implies #[trigger] frame_window(
                            silence,
                            latency,
                            self.emitted(),
                            e0,
                            j,
                            n as int,
                        ) == frame_window(silence, latency, before.emitted(), e0, j, n as int) by {
                            assert(0 <= j * n && j * n + n <= k * n) by (nonlinear_arith)
                                requires
                                    0 <= j < k,
                                    n >= 0,
                            ;
                            assert(before.emitted().is_prefix_of(self.emitted()));
                            lemma_delayed_extension(
                                silence,
                                latency,
                                before.emitted(),
                                self.emitted(),
                                e0 + j * n,
                                e0 + j * n + n,
                            );
                        }
                    }
                    let ghost block_in = frame@;
                    let ghost state_in = self.processor;
                    assert(block_in == block(self.received(), e0, k, n as int));
                    let started = clock_now();
                    self.processor.process(frame.as_mut_slice());
                    let took = whole_nanos(&elapsed_since(&started));
                    assert(state_in.processes(block_in, self.processor, frame@));
                    proof {
                        if frame_size is Some {
                            assert(k + 1 <= (k + 1) * n) by (nonlinear_arith)
                                requires
                                    k >= 0,
                                    n >= 1,
                            ;
                        }
                        assert(report.processed_samples + frame.len() <= total) by (nonlinear_arith)
                            requires
                                report.processed_samples == k * n,
                                frame.len() == n,
                                self.pending().len() + (k + 1) * n == total,
                        ;
                    }
                    report.observe(frame.len(), took);
                    proof {
                        let before_calls = calls;
                        calls = calls.push(took);
                        self.call_times@ = self.call_times@.push(took);
                        assert(calls.drop_last() == before_calls);
                        assert(old(self).call_times() + calls =~= (old(self).call_times()
                            + before_calls).push(took));
                    }
                    let ghost states_before = states;
                    let ghost published_before = published@;
                    published.push((aligned, frame));
                    proof {
                        states = states.push(self.processor);
                        assert forall|j: int| 0 <= j < published@.len() implies states[j].processes(
                            block(self.received(), e0, j, n as int),
                            states[j + 1],
                            (#[trigger] published@[j]).1@,
                        ) by {
                            if j < k {
                                assert(published@[j] == published_before[j]);
                                assert(states[j] == states_before[j]);
                                assert(states[j + 1] == states_before[j + 1]);
                            }
                        }
                    }
                    assert(published@[k].1@.len() == n);
                },
            }
        }
        proof {
            let c0 = old(self).call_times().len() as int;
            assert(self.call_times().skip(c0) =~= calls);
            assert(self.call_times().take(c0) =~= old(self).call_times());
            let c = published@.len() as int;
            match frame_size {
                Some(size) => {
                    vstd::arithmetic::div_mod::lemma_fundamental_div_mod_converse(
                        total as int,
                        n as int,
                        c,
                        self.pending().len() as int,
                    );
                    assert(c * n == n * c) by (nonlinear_arith);
                },
                None => {},
            }
            assert(runs_blocks(
                states,
                self.received(),
                old(self).emitted().len() as int,
                frame_length(old(self).spec_frame_size(), old(self).pending().len(), input@.len())
                    as int,
                published@,
                old(self).spec_processor(),
                self.spec_processor(),
            ));
            assert(runs_through_blocks(
                self.received(),
                old(self).emitted().len() as int,
                frame_length(old(self).spec_frame_size(), old(self).pending().len(), input@.len())
                    as int,
                published@,
                old(self).spec_processor(),
                self.spec_processor(),
            ));
        }
        (report, published)
    }
}


/// Block `k` of length `n` of `stream`, counted from position `start`.
pub open spec fn block<T>(stream: Seq<T>, start: int, k: int, n: int) -> Seq<T> {
    stream.subrange(start + k * n, start + k * n + n)
}

/// `states` carries the processor through the published frames in order: starting in
/// `first`, state `k` turns block `k` of `stream` into the output of published frame `k`
/// and moves to state `k + 1`, ending in `last`.
pub open spec fn runs_blocks<T, P: AudioProcessor<T>>(
    states: Seq<P>,
    stream: Seq<T>,
    start: int,
    n: int,
    published: Seq<(Vec<T>, Vec<T>)>,
    first: P,
    last: P,
) -> bool {
    &&& states.len() == published.len() + 1
    &&& states[0] == first
    &&& states.last() == last
    &&& forall|k: int|
        0 <= k < published.len() ==> states[k].processes(
            block(stream, start, k, n),
            states[k + 1],
            (#[trigger] published[k]).1@,
        )
}

/// Some sequence of processor states carries the processor through the published frames
/// in order, as `runs_blocks` describes.
pub open spec fn runs_through_blocks<T, P: AudioProcessor<T>>(
    stream: Seq<T>,
    start: int,
    n: int,
    published: Seq<(Vec<T>, Vec<T>)>,
    first: P,
    last: P,
) -> bool {
    exists|states: Seq<P>| #[trigger] runs_blocks(states, stream, start, n, published, first, last)
}

/// Number of frames that a chunk of `incoming` samples completes when `queued` samples are
/// already waiting: every complete block with a fixed block size, and one frame otherwise.
pub open spec fn frames_completed(frame_size: Option<usize>, queued: nat, incoming: nat) -> nat {
    match frame_size {
        Some(size) => ((queued + incoming) / (size as nat)) as nat,
        None => 1,
    }
}

/// Length of each frame that such a chunk completes.
pub open spec fn frame_length(frame_size: Option<usize>, queued: nat, incoming: nat) -> nat {
    match frame_size {
        Some(size) => size as nat,
        None => queued + incoming,
    }
}

/// The stretch of the delayed stream that lines up with frame `k` of length `n`, counted
/// from position `start` of the stream.
spec fn frame_window<T>(silence: T, latency: nat, stream: Seq<T>, start: int, k: int, n: int) -> Seq<T> {
    delayed(silence, latency, stream).subrange(start + k * n, start + k * n + n)
}

/// Everything received is either handed out or pending.
proof fn lemma_pending_length<T: Copy, P: AudioProcessor<T>>(p: ProcessorPipeline<T, P>)
    requires
        p.wf(),
    ensures
        p.received().len() == p.emitted().len() + p.pending().len(),
{
}

/// Extending the stream past a stretch of the delayed stream leaves that stretch as it was.
proof fn lemma_delayed_extension<T>(
    silence: T,
    latency: nat,
    shorter: Seq<T>,
    longer: Seq<T>,
    start: int,
    end: int,
)
    requires
        shorter.is_prefix_of(longer),
        0 <= start <= end <= shorter.len(),
    ensures
        delayed(silence, latency, longer).subrange(start, end) == delayed(
            silence,
            latency,
            shorter,
        ).subrange(start, end),
{
    assert(delayed(silence, latency, longer).subrange(start, end) =~= delayed(
        silence,
        latency,
        shorter,
    ).subrange(start, end));
}


/// Frames hand out the input in order, without loss or reordering: everything handed out
/// is a prefix of everything received, and the rest is pending.
pub proof fn lemma_frames_are_input_prefix<T: Copy, P: AudioProcessor<T>>(p: ProcessorPipeline<T, P>)
    requires
        p.wf(),
    ensures
        p.emitted().is_prefix_of(p.received()),
        p.received() == p.emitted() + p.pending(),
{
    assert(p.emitted() =~= p.received().subrange(0, p.emitted().len() as int));
}

/// Without processor latency the monitor input of a frame is the frame itself.
pub proof fn lemma_zero_latency_alignment<T>(silence: T, emitted: Seq<T>, start: int, n: int)
    requires
        0 <= start <= start + n <= emitted.len(),
    ensures
        delayed(silence, 0, emitted).subrange(start, start + n) == emitted.subrange(start, start + n),
{
    assert(delayed(silence, 0, emitted) =~= emitted);
}

/// A pass-through pipeline publishes each block unchanged, and without latency the
/// published output equals its monitor input, so the monitored difference stays silent.
pub proof fn lemma_pass_through_is_bit_exact<T>(
    silence: T,
    emitted: Seq<T>,
    received: Seq<T>,
    start: int,
    n: int,
    published: Seq<(Vec<T>, Vec<T>)>,
    first: PassThrough,
    last: PassThrough,
)
    requires
        runs_through_blocks(received, start, n, published, first, last),
        emitted.is_prefix_of(received),
        0 <= start,
        0 <= n,
        start + published.len() * n <= emitted.len(),
        forall|k: int|
            0 <= k < published.len() ==> (#[trigger] published[k]).0@ == delayed(
                silence,
                0,
                emitted,
            ).subrange(start + k * n, start + k * n + n),
    ensures
        forall|k: int|
            0 <= k < published.len() ==> (#[trigger] published[k]).1@ == block(received, start, k, n),
        forall|k: int| 0 <= k < published.len() ==> (#[trigger] published[k]).0@ == published[k].1@,
{
    let states = choose|states: Seq<PassThrough>|
        #[trigger] runs_blocks(states, received, start, n, published, first, last);
    assert forall|k: int| 0 <= k < published.len() implies (#[trigger] published[k]).1@ == block(
        received,
        start,
        k,
        n,
    ) && published[k].0@ == published[k].1@ by {
        assert(states[k].processes(block(received, start, k, n), states[k + 1], published[k].1@));
        assert(0 <= k * n && k * n + n <= published.len() * n) by (nonlinear_arith)
            requires
                0 <= k < published.len(),
                0 <= n,
        ;
        assert(delayed(silence, 0, emitted) =~= emitted);
        assert(emitted.subrange(start + k * n, start + k * n + n) =~= received.subrange(
            start + k * n,
            start + k * n + n,
        ));
    }
}

/// Frames published over successive calls follow on from each other: when one call's
/// frames run the processor over the blocks of `n` samples from `start`, and the next
/// call's frames over the blocks right after them, together they run it over the blocks
/// from `start` in order, the processor state carried from the first call into the second.
pub proof fn lemma_calls_compose<T, P: AudioProcessor<T>>(
    earlier_stream: Seq<T>,
    stream: Seq<T>,
    start: int,
    n: int,
    first: Seq<(Vec<T>, Vec<T>)>,
    second: Seq<(Vec<T>, Vec<T>)>,
    s0: P,
    s1: P,
    s2: P,
)
    requires
        runs_through_blocks(earlier_stream, start, n, first, s0, s1),
        runs_through_blocks(stream, start + first.len() * n, n, second, s1, s2),
        earlier_stream.is_prefix_of(stream),
        0 <= start,
        0 <= n,
        start + first.len() * n <= earlier_stream.len(),
    ensures
        runs_through_blocks(stream, start, n, first + second, s0, s2),
{
    let a = choose|states: Seq<P>| #[trigger] runs_blocks(states, earlier_stream, start, n, first, s0, s1);
    let b = choose|states: Seq<P>|
        #[trigger] runs_blocks(states, stream, start + first.len() * n, n, second, s1, s2);
    let m = first.len() as int;
    let states = a + b.skip(1);
    let all = first + second;
    assert forall|k: int| 0 <= k < all.len() implies states[k].processes(
        block(stream, start, k, n),
        states[k + 1],
        (#[trigger] all[k]).1@,
    ) by {
        if k < m {
            assert(all[k] == first[k]);
            assert(states[k] == a[k]);
            assert(states[k + 1] == a[k + 1]);
            assert(a[k].processes(block(earlier_stream, start, k, n), a[k + 1], first[k].1@));
            assert(0 <= k * n && k * n + n <= m * n) by (nonlinear_arith)
                requires
                    0 <= k < m,
                    0 <= n,
            ;
            assert(block(earlier_stream, start, k, n) =~= block(stream, start, k, n));
        } else {
            let j = k - m;
            assert(all[k] == second[j]);
            assert(states[k] == b[j]);
            assert(states[k + 1] == b[j + 1]);
            assert(b[j].processes(block(stream, start + m * n, j, n), b[j + 1], second[j].1@));
            assert(start + m * n + j * n == start + k * n) by (nonlinear_arith)
                requires
                    j == k - m,
            ;
        }
    }
    assert(runs_blocks(states, stream, start, n, all, s0, s2));
}

/// The sequences of `parts`, one after another.
pub open spec fn concat_all<A>(parts: Seq<Seq<A>>) -> Seq<A>
    decreases parts.len(),
{
    if parts.len() == 0 {
        Seq::empty()
    } else {
        concat_all(parts.drop_last()) + parts.last()
    }
}

/// Samples processed over a run of calls, by their reports.
pub open spec fn total_processed(reports: Seq<ProcessReport>) -> int
    decreases reports.len(),
{
    if reports.len() == 0 {
        0
    } else {
        total_processed(reports.drop_last()) + reports.last().processed_samples
    }
}

/// One call of `process` with block size `n`, as that method's contract describes it:
/// `before` is given `input`, hands out `frames` with `report`, and becomes `after`.
pub open spec fn processes_call<T: Copy, P: AudioProcessor<T>>(
    before: ProcessorPipeline<T, P>,
    input: Seq<T>,
    report: ProcessReport,
    frames: Seq<(Vec<T>, Vec<T>)>,
    after: ProcessorPipeline<T, P>,
    n: nat,
) -> bool {
    let e0 = before.emitted().len() as int;
    &&& after.wf()
    &&& after.received() == before.received() + input
    &&& after.spec_frame_size() == before.spec_frame_size()
    &&& after.spec_latency() == before.spec_latency()
    &&& after.spec_silence() == before.spec_silence()
    &&& frames.len() == frames_completed(before.spec_frame_size(), before.pending().len(), input.len())
    &&& after.emitted().len() == e0 + frames.len() * n
    &&& report.processed_samples == frames.len() * n
    &&& forall|k: int|
        0 <= k < frames.len() ==> {
            &&& (#[trigger] frames[k]).0@ == delayed(
                before.spec_silence(),
                before.spec_latency(),
                after.emitted(),
            ).subrange(e0 + k * n, e0 + k * n + n)
            &&& frames[k].1@.len() == n
        }
    &&& runs_through_blocks(
        after.received(),
        e0,
        n as int,
        frames,
        before.spec_processor(),
        after.spec_processor(),
    )
}

/// Over any number of `process` calls on a pipeline with block size `n`: the processor
/// runs once per complete block of everything received, in order, on exactly that block;
/// frame `j` of all frames handed out pairs the input delayed by the processor's latency
/// (the delay line's silence, then the samples received) at block `j` with the processor's
/// output for block `j`; fewer than `n` samples wait for the next call; and the reports
/// count `n` processed samples per frame.
pub proof fn lemma_calls_process_every_block<T: Copy, P: AudioProcessor<T>>(
    pipes: Seq<ProcessorPipeline<T, P>>,
    inputs: Seq<Seq<T>>,
    reports: Seq<ProcessReport>,
    frames: Seq<Seq<(Vec<T>, Vec<T>)>>,
    n: usize,
)
    requires
        pipes.len() == inputs.len() + 1,
        reports.len() == inputs.len(),
        frames.len() == inputs.len(),
        pipes[0].wf(),
        pipes[0].spec_frame_size() == Some(n),
        forall|i: int|
            0 <= i < inputs.len() ==> #[trigger] processes_call(
                pipes[i],
                inputs[i],
                reports[i],
                frames[i],
                pipes[i + 1],
                n as nat,
            ),
    ensures
        ({
            let first = pipes[0];
            let last = pipes.last();
            let all = concat_all(frames);
            let e0 = first.emitted().len() as int;
            &&& last.wf()
            &&& last.spec_frame_size() == Some(n)
            &&& last.spec_silence() == first.spec_silence()
            &&& last.spec_latency() == first.spec_latency()
            &&& last.received() == first.received() + concat_all(inputs)
            &&& last.emitted().len() == e0 + all.len() * n
            &&& runs_through_blocks(
                last.received(),
                e0,
                n as int,
                all,
                first.spec_processor(),
                last.spec_processor(),
            )
            &&& forall|j: int|
                0 <= j < all.len() ==> {
                    &&& (#[trigger] all[j]).0@ == delayed(
                        first.spec_silence(),
                        first.spec_latency(),
                        last.received(),
                    ).subrange(e0 + j * n, e0 + j * n + n)
                    &&& all[j].1@.len() == n
                }
            &&& inputs.len() > 0 ==> last.pending().len() < n
            &&& total_processed(reports) == all.len() * n
        }),
    decreases inputs.len(),
{
    let first = pipes[0];
    let e0 = first.emitted().len() as int;
    if inputs.len() == 0 {
        assert(concat_all(inputs) =~= Seq::<T>::empty());
        assert(first.received() + concat_all(inputs) =~= first.received());
        let states = seq![first.spec_processor()];
        assert(runs_blocks(states, first.received(), e0, n as int, concat_all(frames), first.spec_processor(), first.spec_processor()));
    } else {
        let m = inputs.len() - 1;
        let ep = pipes.drop_last();
        let ei = inputs.drop_last();
        let er = reports.drop_last();
        let ef = frames.drop_last();
        assert forall|i: int| 0 <= i < ei.len() implies #[trigger] processes_call(
            ep[i],
            ei[i],
            er[i],
            ef[i],
            ep[i + 1],
            n as nat,
        ) by {
            assert(processes_call(pipes[i], inputs[i], reports[i], frames[i], pipes[i + 1], n as nat));
        }
        lemma_calls_process_every_block(ep, ei, er, ef, n);
        let prev = pipes[m];
        let last = pipes[m + 1];
        assert(ep.last() == prev);
        assert(processes_call(prev, inputs[m], reports[m], frames[m], last, n as nat));
        let before = concat_all(ef);
        let now = frames[m];
        let all = concat_all(frames);
        assert(frames.drop_last() == ef);
        assert(all == before + now);
        assert(inputs.drop_last() == ei);
        assert(reports.drop_last() == er);
        let ep_len = prev.emitted().len() as int;
        assert(ep_len == e0 + before.len() * n);
        // The stream received before the last call is a prefix of everything received.
        assert(prev.received().is_prefix_of(last.received()));
        assert(last.received() =~= first.received() + concat_all(inputs));
        // The earlier frames lie within what had been handed out before the last call.
        assert(prev.received() == prev.emitted() + prev.pending());
        assert(last.received() == last.emitted() + last.pending());
        assert(e0 + before.len() * n <= prev.received().len());
        lemma_calls_compose(
            prev.received(),
            last.received(),
            e0,
            n as int,
            before,
            now,
            first.spec_processor(),
            prev.spec_processor(),
            last.spec_processor(),
        );
        assert(last.emitted().len() == e0 + all.len() * n) by (nonlinear_arith)
            requires
                last.emitted().len() == ep_len + now.len() * n,
                ep_len == e0 + before.len() * n,
                all.len() == before.len() + now.len(),
        ;
        let silence = first.spec_silence();
        let latency = first.spec_latency();
        assert forall|j: int| 0 <= j < all.len() implies {
            &&& (#[trigger] all[j]).0@ == delayed(silence, latency, last.received()).subrange(
                e0 + j * n,
                e0 + j * n + n,
            )
            &&& all[j].1@.len() == n
        } by {
            if j < before.len() {
                assert(all[j] == before[j]);
                assert(before[j].0@ == delayed(silence, latency, prev.received()).subrange(
                    e0 + j * n,
                    e0 + j * n + n,
                ));
                assert(0 <= j * n && j * n + n <= before.len() * n) by (nonlinear_arith)
                    requires
                        0 <= j < before.len(),
                ;
                assert(delayed(silence, latency, prev.received()).subrange(e0 + j * n, e0 + j * n + n)
                    =~= delayed(silence, latency, last.received()).subrange(e0 + j * n, e0 + j * n + n));
            } else {
                let k = j - before.len();
                assert(all[j] == now[k]);
                assert(e0 + j * n == ep_len + k * n) by (nonlinear_arith)
                    requires
                        k == j - before.len(),
                        ep_len == e0 + before.len() * n,
                ;
                assert(0 <= k * n && k * n + n <= now.len() * n) by (nonlinear_arith)
                    requires
                        0 <= k < now.len(),
                ;
                assert(now[k].0@ == delayed(silence, latency, last.emitted()).subrange(
                    ep_len + k * n,
                    ep_len + k * n + n,
                ));
                assert(delayed(silence, latency, last.emitted()).subrange(ep_len + k * n, ep_len + k * n + n)
                    =~= delayed(silence, latency, last.received()).subrange(ep_len + k * n, ep_len + k * n + n));
            }
        }
        // The last call leaves only an incomplete block waiting.
        let q = prev.pending().len();
        let total = q + inputs[m].len();
        assert(now.len() == total / (n as nat));
        assert(last.pending().len() == total - now.len() * n);
        assert(total - (total / (n as nat)) * n < n) by (nonlinear_arith)
            requires
                n > 0,
                total >= 0,
        ;
        assert(total_processed(reports) == total_processed(er) + reports[m].processed_samples);
        assert(total_processed(reports) == all.len() * n) by (nonlinear_arith)
            requires
                total_processed(reports) == total_processed(er) + reports[m].processed_samples,
                total_processed(er) == before.len() * n,
                reports[m].processed_samples == now.len() * n,
                all.len() == before.len() + now.len(),
        ;
    }
}

} // verus!
