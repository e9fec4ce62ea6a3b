use vstd::prelude::*;

verus! {

/// Hands out 1, 2, 3, ... to make distinct timestamps and locktimes.
pub struct Counter {
    next_value: u32,
}

impl View for Counter {
    type V = u32;

    /// The value the next call of `next` returns.
    closed spec fn view(&self) -> u32 {
        self.next_value
    }
}

impl Counter {
    pub fn new() -> (r: Self)
        ensures
            r@ == 1,
    {
        Counter { next_value: 1 }
    }

    /// Returns the current value and moves to the one after it.
    pub fn next(&mut self) -> (r: u32)
        requires
            old(self)@ < u32::MAX,
        ensures
            r == old(self)@,
            final(self)@ == old(self)@ + 1,
    {
        let result = self.next_value;
        self.next_value = self.next_value + 1;
        result
    }
}

} // verus!
