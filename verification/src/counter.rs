//! A counter that starts at zero and moves by one step at a time.
use vstd::prelude::*;

verus! {

/// State of the counter contract: a single `i32` that reads as zero until first changed.
pub struct CounterContract {
    count: i32,
}

impl View for CounterContract {
    type V = i32;

    closed spec fn view(&self) -> i32 {
        self.count
    }
}

/// The value after one increment of `c`.
pub open spec fn incremented(c: int) -> int {
    c + 1
}

/// The value after one decrement of `c`.
pub open spec fn decremented(c: int) -> int {
    c - 1
}

impl CounterContract {
    /// A counter that has never been changed; it reads as zero.
    pub fn new() -> (c: CounterContract)
        ensures
            c@ == 0,
    {
        CounterContract { count: 0 }
    }

    /// A counter holding `count`.
    pub fn from_count(count: i32) -> (c: CounterContract)
        ensures
            c@ == count,
    {
        CounterContract { count }
    }

    /// Adds one to the counter and returns the new value.
    pub fn increment(&mut self) -> (r: i32)
        requires
            old(self)@ < i32::MAX,
        ensures
            r == incremented(old(self)@ as int),
            final(self)@ == r,
    {
        self.count = self.count + 1;
        self.count
    }

    /// Subtracts one from the counter (it may go negative) and returns the new value.
    pub fn decrement(&mut self) -> (r: i32)
        requires
            old(self)@ > i32::MIN,
        ensures
            r == decremented(old(self)@ as int),
            final(self)@ == r,
    {
        self.count = self.count - 1;
        self.count
    }

    /// The current value.
    pub fn get(&self) -> (r: i32)
        ensures
            r == self@,
    {
        self.count
    }
}

/// Incrementing and then decrementing, or decrementing and then incrementing, leaves the
/// counter as it was; each pair of calls is allowed exactly when the first call is.
pub proof fn lemma_increment_decrement_inverse(c: i32)
    ensures
        c < i32::MAX ==> i32::MIN < incremented(c as int) && decremented(incremented(c as int)) == c,
        c > i32::MIN ==> decremented(c as int) < i32::MAX && incremented(decremented(c as int)) == c,
{
}


} // verus!
