//! The injected randomness capability.  The generator does not own a
//! random number generator; the host hands one in, so that deterministic
//! sequences can drive reproducible generation.

use vstd::prelude::*;

verus! {

/// A source of integers drawn from half-open ranges.
///
/// Each source is a deterministic state machine: `next_rel` is its step
/// relation, and `next_rel_deterministic` obliges every implementation to
/// show that one state admits exactly one draw.  That determinism is what
/// makes board generation from a given source state reproducible.
pub trait RandomSource: Sized {
    /// The step relation: drawing from state `pre` over `[low, high)`
    /// yields `value` and leaves the source in state `post`.
    spec fn next_rel(pre: Self, low: usize, high: usize, value: usize, post: Self) -> bool;

    /// One state admits one draw: the step relation is a function of the
    /// state and the requested range.
    proof fn next_rel_deterministic(
        pre: Self,
        low: usize,
        high: usize,
        v1: usize,
        post1: Self,
        v2: usize,
        post2: Self,
    )
        requires
            Self::next_rel(pre, low, high, v1, post1),
            Self::next_rel(pre, low, high, v2, post2),
        ensures
            v1 == v2,
            post1 == post2,
    ;

    /// Draws an integer in `[low, high)`, advancing the source's state as
    /// the step relation describes.
    fn next(&mut self, low: usize, high: usize) -> (r: usize)
        requires
            low < high,
        ensures
            low <= r < high,
            Self::next_rel(*old(self), low, high, r, *final(self)),
    ;
}

/// What a fixed source yields for a raw stored value: the value itself
/// when it lies in the requested range, and the range's low end otherwise.
pub open spec fn clamped(v: usize, low: usize, high: usize) -> usize {
    if low <= v < high {
        v
    } else {
        low
    }
}

/// A deterministic source backed by a fixed list of values, consumed
/// back-to-front.  Once the list is exhausted it keeps yielding the low
/// end of the requested range.
pub struct FixedSource {
    pub values: Vec<usize>,
    pub used: usize,
}

impl FixedSource {
    pub fn new(values: Vec<usize>) -> (s: FixedSource)
        ensures
            s.values == values,
            s.used == 0,
    {
        FixedSource { values, used: 0 }
    }
}

impl RandomSource for FixedSource {
    open spec fn next_rel(pre: Self, low: usize, high: usize, value: usize, post: Self) -> bool {
        if pre.used < pre.values@.len() {
            &&& value == clamped(pre.values@[pre.values@.len() - 1 - pre.used], low, high)
            &&& post.values == pre.values
            &&& post.used == pre.used + 1
        } else {
            value == low && post == pre
        }
    }

    proof fn next_rel_deterministic(
        pre: Self,
        low: usize,
        high: usize,
        v1: usize,
        post1: Self,
        v2: usize,
        post2: Self,
    ) {
    }

    fn next(&mut self, low: usize, high: usize) -> (r: usize) {
        if self.used < self.values.len() {
            let idx = self.values.len() - 1 - self.used;
            let v = self.values[idx];
            self.used = self.used + 1;
            if low <= v && v < high {
                v
            } else {
                low
            }
        } else {
            low
        }
    }
}

} // verus!
