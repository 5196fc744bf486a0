//! The audio frame buffer: an ordered queue of samples, appended to by the
//! capture side and drained from the front in fixed-size windows by the
//! analysis side. Samples are never reordered, lost or duplicated: a push
//! appends a whole batch to the tail, and a drain removes exactly a prefix.
//!
//! The buffer itself is a plain value; the producer and consumer threads
//! share it behind a mutual-exclusion lock held only for the duration of a
//! push or a drain.

use vstd::prelude::*;

verus! {

/// An ordered, unbounded queue of samples. Its mathematical view is the
/// sequence of queued samples in arrival order.
pub struct FrameBuffer<T> {
    samples: Vec<T>,
}

impl<T> View for FrameBuffer<T> {
    type V = Seq<T>;

    closed spec fn view(&self) -> Seq<T> {
        self.samples@
    }
}

impl<T: Copy> FrameBuffer<T> {
    /// Creates an empty buffer.
    pub fn new() -> (r: FrameBuffer<T>)
        ensures
            r@ == Seq::<T>::empty(),
    {
        FrameBuffer { samples: Vec::new() }
    }

    /// How many samples are queued.
    pub fn len(&self) -> (n: usize)
        ensures
            n == self@.len(),
    {
        self.samples.len()
    }

    /// Appends a batch of samples to the tail, keeping their order.
    pub fn push_batch(&mut self, batch: &Vec<T>)
        requires
            old(self)@.len() + batch@.len() <= usize::MAX,
        ensures
            final(self)@ == old(self)@ + batch@,
    {
        let n = batch.len();
        let mut i: usize = 0;
        while i < n
            invariant
                n == batch@.len(),
                i <= n,
                self@ == old(self)@ + batch@.take(i as int),
                old(self)@.len() + batch@.len() <= usize::MAX,
            decreases n - i,
        {
            self.samples.push(batch[i]);
            i = i + 1;
            proof {
                assert(batch@.take(i as int) =~= batch@.take(i - 1).push(batch@[i - 1]));
            }
        }
        proof {
            assert(batch@.take(n as int) =~= batch@);
        }
    }

    /// Removes and returns the first `n` samples as one analysis window,
    /// keeping the order of both the window and the remainder.
    pub fn drain_front(&mut self, n: usize) -> (w: Vec<T>)
        requires
            n <= old(self)@.len(),
        ensures
            w@ == old(self)@.take(n as int),
            final(self)@ == old(self)@.skip(n as int),
    {
        let mut w: Vec<T> = Vec::new();
        let mut i: usize = 0;
        while i < n
            invariant
                n <= self@.len(),
                self@ == old(self)@,
                i <= n,
                w@ == old(self)@.take(i as int),
            decreases n - i,
        {
            w.push(self.samples[i]);
            i = i + 1;
            proof {
                assert(old(self)@.take(i as int) =~= old(self)@.take(i - 1).push(old(self)@[i - 1]));
            }
        }
        let len = self.samples.len();
        let mut rest: Vec<T> = Vec::new();
        let mut j: usize = n;
        while j < len
            invariant
                len == self@.len(),
                self@ == old(self)@,
                n <= j <= len,
                rest@ == old(self)@.subrange(n as int, j as int),
            decreases len - j,
        {
            rest.push(self.samples[j]);
            j = j + 1;
            proof {
                assert(old(self)@.subrange(n as int, j as int)
                    =~= old(self)@.subrange(n as int, j - 1).push(old(self)@[j - 1]));
            }
        }
        self.samples = rest;
        proof {
            assert(old(self)@.subrange(n as int, len as int) =~= old(self)@.skip(n as int));
        }
        w
    }
}

/// Ordering law: two batches queued one after the other stand in the view in
/// arrival order, each sample at its offset, with nothing lost or duplicated.
/// Together with the contracts of `push_batch` and `drain_front`, draining
/// everything after pushing `a` then `b` hands back exactly `a` followed by
/// `b`.
pub proof fn lemma_buffer_ordering<T>(a: Seq<T>, b: Seq<T>)
    ensures
        (a + b).len() == a.len() + b.len(),
        forall|i: int| 0 <= i < a.len() ==> (a + b)[i] == a[i],
        forall|i: int| a.len() <= i < a.len() + b.len() ==> (a + b)[i] == b[i - a.len()],
        (a + b).take(a.len() + b.len() as int) == a + b,
{
    assert((a + b).take(a.len() + b.len() as int) =~= a + b);
}

} // verus!
