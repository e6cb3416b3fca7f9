//! The processing stage between microphone capture and virtual output.

use vstd::prelude::*;

verus! {

/// In-place processing stage run on the dedicated processing thread, over mono samples at
/// the pipeline rate.
pub trait AudioProcessor<T>: Sized {
    /// Whether processing `input` in state `self` may leave the processor in state `next`
    /// with the block turned into `output`. A processor that does not describe its blocks
    /// allows any outcome.
    open spec fn processes(&self, input: Seq<T>, next: Self, output: Seq<T>) -> bool {
        true
    }

    /// Processes `samples` in place; a slice keeps its length.
    fn process(&mut self, samples: &mut [T])
        ensures
            final(samples)@.len() == old(samples)@.len(),
            old(self).processes(old(samples)@, *final(self), final(samples)@),
    ;

    /// Required processing block size, or `None` for arbitrary slices.
    fn frame_size(&self) -> (size: Option<usize>)
        default_ensures
            size is None,
    {
        None
    }

    /// Content delay introduced by the processor, in samples.
    fn latency_samples(&self) -> (delay: usize)
        default_ensures
            delay == 0,
    {
        0
    }
}

/// Forwards audio unchanged: no block size and no content delay.
#[derive(Clone, Copy, Debug, Default)]
pub struct PassThrough;

impl<T> AudioProcessor<T> for PassThrough {
    /// The block comes out as it went in.
    open spec fn processes(&self, input: Seq<T>, next: Self, output: Seq<T>) -> bool {
        output == input && next == *self
    }

    fn process(&mut self, samples: &mut [T])
        ensures
            final(samples)@ == old(samples)@,
    {
    }
}

} // verus!
