//! Saturating diagnostic counters. A counter never wraps: once it reaches
//! `usize::MAX` it stays there.
use vstd::prelude::*;

verus! {

/// One saturating event counter.
#[derive(Clone, Copy, Debug)]
pub struct Counter(pub usize);

/// The value a saturating increment gives.
pub open spec fn saturated_next(value: usize) -> usize {
    if value == usize::MAX { value } else { (value + 1) as usize }
}

/// A counter never wraps: an increment below `usize::MAX` adds one, and at
/// `usize::MAX` the counter stays there however often it is incremented.
pub proof fn lemma_saturation(value: usize)
    ensures
        value < usize::MAX ==> saturated_next(value) == value + 1,
        saturated_next(usize::MAX) == usize::MAX,
        saturated_next(value) >= value,
{
}

/// The value after `k` saturating increments from `value`.
pub open spec fn after_increments(value: usize, k: nat) -> usize
    decreases k,
{
    if k == 0 { value } else { saturated_next(after_increments(value, (k - 1) as nat)) }
}

/// No increment is lost and the count never wraps: `k` increments from `value` leave
/// `value + k`, or `usize::MAX` once that is reached.
pub proof fn lemma_increments(value: usize, k: nat)
    ensures
        after_increments(value, k) == (if value + k >= usize::MAX { usize::MAX } else { (value + k) as usize }),
    decreases k,
{
    if k > 0 {
        lemma_increments(value, (k - 1) as nat);
    }
}

/// The same law over the values a counter takes: when each value is what one
/// `increment` leaves of the one before (as its contract says), the last of `k + 1`
/// values is the first plus `k`, or `usize::MAX` once that is reached.
pub proof fn lemma_increment_history(values: Seq<usize>)
    requires
        values.len() > 0,
        forall|i: int| 0 <= i < values.len() - 1 ==> #[trigger] values[i + 1] == saturated_next(values[i]),
    ensures
        values.last() == (if values[0] + (values.len() - 1) >= usize::MAX { usize::MAX } else { (values[0] + (values.len() - 1)) as usize }),
    decreases values.len(),
{
    if values.len() > 1 {
        let shorter = values.drop_last();
        assert forall|i: int| 0 <= i < shorter.len() - 1 implies #[trigger] shorter[i + 1] == saturated_next(shorter[i]) by {
            assert(values[i + 1] == saturated_next(values[i]));
        }
        lemma_increment_history(shorter);
        let j: int = values.len() - 2;
        assert(values[j + 1] == saturated_next(values[j]));
    }
}

impl Counter {
    pub fn new() -> (c: Counter)
        ensures c.0 == 0,
    {
        Counter(0)
    }

    /// Counts one event, saturating at `usize::MAX`.
    pub fn increment(&mut self)
        ensures final(self).0 == saturated_next(old(self).0),
    {
        let current: usize = self.0;
        self.0 = current.saturating_add(1);
    }

    pub fn load(&self) -> (r: u64)
        ensures r as int == self.0 as int,
    {
        self.0 as u64
    }
}

/// A fixed bank of counters, indexed as a group's statistics table lays them out.
#[derive(Clone, Debug)]
pub struct Counters {
    pub slots: Vec<Counter>,
}

impl Counters {
    pub open spec fn len(&self) -> nat {
        self.slots@.len()
    }

    /// The value of counter `i`.
    pub open spec fn value(&self, i: int) -> usize {
        self.slots@[i].0
    }

    /// `count` counters, all zero.
    pub fn new(count: usize) -> (c: Counters)
        ensures
            c.len() == count,
            forall|i: int| 0 <= i < count ==> c.value(i) == 0,
    {
        let mut slots: Vec<Counter> = Vec::new();
        let mut k: usize = 0;
        while k < count
            invariant
                k <= count,
                slots@.len() == k,
                forall|i: int| 0 <= i < k ==> slots@[i].0 == 0,
            decreases count - k,
        {
            slots.push(Counter::new());
            k = k + 1;
        }
        Counters { slots }
    }

    /// Counts one event on counter `index`; every other counter is unchanged.
    pub fn increment(&mut self, index: usize)
        requires
            index < old(self).len(),
        ensures
            final(self).len() == old(self).len(),
            final(self).value(index as int) == saturated_next(old(self).value(index as int)),
            forall|i: int| 0 <= i < old(self).len() && i != index ==> final(self).value(i) == old(self).value(i),
    {
        let mut c: Counter = self.slots[index];
        c.increment();
        self.slots.set(index, c);
    }

    pub fn load(&self, index: usize) -> (r: u64)
        requires
            index < self.len(),
        ensures
            r as int == self.value(index as int) as int,
    {
        self.slots[index].load()
    }
}

} // verus!
