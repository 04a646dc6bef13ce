//! Small helpers shared by the interactive screens.

use vstd::prelude::*;

verus! {

/// The value that `increment` gives: one more, unless `value` has reached `max`.
pub open spec fn incremented(value: int, max: int) -> int {
    if value < max {
        value + 1
    } else {
        value
    }
}

/// The value that `decrement` gives: one less, unless `value` has reached `min`.
pub open spec fn decremented(value: int, min: int) -> int {
    if value > min {
        value - 1
    } else {
        value
    }
}

/// A position that moves by one step at a time and stops at its bounds.
pub struct BoundedIndex {
    value: usize,
    min: usize,
    max: usize,
}

impl BoundedIndex {
    /// The current position.
    pub closed spec fn current(&self) -> int {
        self.value as int
    }

    /// The lowest position that `decrement` moves to.
    pub closed spec fn lower(&self) -> int {
        self.min as int
    }

    /// The highest position that `increment` moves to.
    pub closed spec fn upper(&self) -> int {
        self.max as int
    }

    /// Whether the current position lies within the bounds.
    pub open spec fn in_bounds(&self) -> bool {
        self.lower() <= self.current() <= self.upper()
    }

    pub fn new(value: usize, min: usize, max: usize) -> (r: Self)
        ensures
            r.current() == value,
            r.lower() == min,
            r.upper() == max,
    {
        Self { value, min, max }
    }

    pub fn increment(&mut self)
        ensures
            final(self).current() == incremented(old(self).current(), old(self).upper()),
            final(self).lower() == old(self).lower(),
            final(self).upper() == old(self).upper(),
            old(self).in_bounds() ==> final(self).in_bounds(),
    {
        if self.value < self.max {
            self.value += 1;
        }
    }

    pub fn decrement(&mut self)
        ensures
            final(self).current() == decremented(old(self).current(), old(self).lower()),
            final(self).lower() == old(self).lower(),
            final(self).upper() == old(self).upper(),
            old(self).in_bounds() ==> final(self).in_bounds(),
    {
        if self.value > self.min {
            self.value -= 1;
        }
    }

    pub fn value(&self) -> (r: usize)
        ensures
            r == self.current(),
    {
        self.value
    }
}

/// Stepping up from a position below the upper bound and then down again
/// returns to that position, when it was not below the lower bound.
pub proof fn lemma_increment_then_decrement(value: int, min: int, max: int)
    requires
        min <= value < max,
    ensures
        decremented(incremented(value, max), min) == value,
{
}

/// Stepping down from a position above the lower bound and then up again
/// returns to that position, when it was not above the upper bound.
pub proof fn lemma_decrement_then_increment(value: int, min: int, max: int)
    requires
        min < value <= max,
    ensures
        incremented(decremented(value, min), max) == value,
{
}

/// At the upper bound `increment` changes nothing, and at the lower bound
/// `decrement` changes nothing.
pub proof fn lemma_steps_stop_at_bounds(min: int, max: int)
    ensures
        incremented(max, max) == max,
        decremented(min, min) == min,
{
}

} // verus!
