//! Optional 64-bit diagnostic counters, and the stateless counter of targets
//! without 64-bit atomics.
use vstd::prelude::*;

verus! {

/// A 64-bit event counter that wraps on overflow, as an atomic `fetch_add` does.
#[derive(Clone, Copy, Debug)]
pub struct Counter {
    pub value: u64,
}

impl Counter {
    pub fn new(value: u64) -> (c: Counter)
        ensures c.value == value,
    {
        Counter { value }
    }

    /// Adds `amount`, wrapping, and returns the value before the addition.
    pub fn fetch_add(&mut self, amount: u64) -> (previous: u64)
        ensures
            previous == old(self).value,
            final(self).value == (old(self).value as int + amount as int) % 0x1_0000_0000_0000_0000,
    {
        let previous: u64 = self.value;
        self.value = previous.wrapping_add(amount);
        previous
    }

    pub fn load(&self) -> (r: u64)
        ensures r == self.value,
    {
        self.value
    }
}

/// The counter of a target without 64-bit atomics: it keeps nothing and reads 0, so
/// no statistics pretend to have been counted.
#[derive(Clone, Copy, Debug)]
pub struct StatelessCounter;

impl StatelessCounter {
    pub fn new(_value: u64) -> (c: StatelessCounter)
    {
        StatelessCounter
    }

    /// Counts nothing; the value before is 0.
    pub fn fetch_add(&mut self, _amount: u64) -> (previous: u64)
        ensures
            previous == 0,
    {
        0
    }

    pub fn load(&self) -> (r: u64)
        ensures
            r == 0,
    {
        0
    }
}

} // verus!
