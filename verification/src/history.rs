//! The most recent stretch of a sample stream, bounded in length.

use std::collections::VecDeque;

use vstd::prelude::*;

verus! {

/// The last `capacity` items of `s` (all of `s` when shorter).
pub open spec fn latest<T>(s: Seq<T>, capacity: nat) -> Seq<T> {
    if s.len() <= capacity {
        s
    } else {
        s.skip(s.len() - capacity)
    }
}

/// A history that keeps the latest `capacity` samples.
#[derive(Debug)]
pub struct SignalHistory<T> {
    samples: VecDeque<T>,
    capacity: usize,
}

impl<T: Copy> SignalHistory<T> {
    pub closed spec fn contents(&self) -> Seq<T> {
        self.samples@
    }

    pub closed spec fn spec_capacity(&self) -> nat {
        self.capacity as nat
    }

    pub closed spec fn wf(&self) -> bool {
        self.capacity > 0 && self.samples@.len() <= self.capacity
    }

    pub fn new(capacity: usize) -> (h: Self)
        requires
            capacity > 0,
        ensures
            h.wf(),
            h.contents().len() == 0,
            h.spec_capacity() == capacity,
    {
        SignalHistory { samples: VecDeque::new(), capacity }
    }

    /// Appends samples, discarding the oldest beyond the capacity.
    pub fn append(&mut self, samples: &[T])
        requires
            old(self).wf(),
        ensures
            final(self).wf(),
            final(self).spec_capacity() == old(self).spec_capacity(),
            final(self).contents() == latest(
                old(self).contents() + samples@,
                old(self).spec_capacity(),
            ),
    {
        let ghost start = self.samples@;
        let ghost cap = self.capacity as nat;
        let mut i: usize = 0;
        while i < samples.len()
            invariant
                i <= samples.len(),
                cap == self.capacity,
                cap > 0,
                self.samples@ == latest(start + samples@.take(i as int), cap),
            decreases samples.len() - i,
        {
            let ghost before = self.samples@;
            if self.samples.len() == self.capacity {
                self.samples.pop_front();
            }
            self.samples.push_back(samples[i]);
            let ghost all = start + samples@.take(i + 1);
            assert(all.drop_last() =~= start + samples@.take(i as int));
            assert(self.samples@ =~= latest(all, cap));
            i += 1;
        }
        assert(samples@.take(samples@.len() as int) =~= samples@);
    }

    pub fn clear(&mut self)
        requires
            old(self).wf(),
        ensures
            final(self).wf(),
            final(self).contents().len() == 0,
            final(self).spec_capacity() == old(self).spec_capacity(),
    {
        self.samples.clear();
    }

    pub fn len(&self) -> (n: usize)
        ensures
            n == self.contents().len(),
    {
        self.samples.len()
    }

    /// The samples, oldest first.
    pub fn to_vec(&self) -> (v: Vec<T>)
        ensures
            v@ == self.contents(),
    {
        let mut v: Vec<T> = Vec::new();
        let mut i: usize = 0;
        while i < self.samples.len()
            invariant
                i <= self.samples@.len(),
                v@ == self.samples@.take(i as int),
            decreases self.samples@.len() - i,
        {
            v.push(self.samples[i]);
            i += 1;
            assert(v@ =~= self.samples@.take(i as int));
        }
        assert(self.samples@.take(self.samples@.len() as int) =~= self.samples@);
        v
    }
}

} // verus!
