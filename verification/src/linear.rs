//! Bounded, reusable linear-storage backend over one fixed payload area, in
//! granules. Never advertises `CAP_VM`. This is the block bookkeeping; the front end
//! that owns the payload area clears the bytes it hands out or zeroes.
use vstd::prelude::*;
use crate::{is_pow2, INVALID_ARGUMENT, OK, OUT_OF_MEMORY};

verus! {

pub const GRANULARITY: usize = 4096;
pub const CAPACITY: usize = 8388608;
/// Blocks of the payload area.
pub const BLOCKS: usize = 2048;
/// Marks a block that continues the allocation started by an earlier block.
pub const TAIL: usize = usize::MAX;

/// The payload area's start and one slot per block: 0 for a free block, `TAIL`
/// for a continuation, and for the first block of an allocation its block count.
#[derive(Clone, Debug)]
pub struct Arena {
    pub base: usize,
    pub slots: Vec<usize>,
}

/// Whether a slot value starts an allocation.
pub open spec fn is_head(value: usize) -> bool {
    value != 0 && value != TAIL
}

/// Whether slot `j` lies in the allocation that starts at slot `i`.
pub open spec fn covers(slots: Seq<usize>, i: int, j: int) -> bool {
    is_head(slots[i]) && i < j < i + slots[i]
}

/// Whether a slot table is consistent: every allocation fits in the area and all of
/// its blocks after the first are continuations.
pub open spec fn consistent(slots: Seq<usize>) -> bool {
    &&& slots.len() == BLOCKS
    &&& forall|i: int| 0 <= i < BLOCKS && is_head(#[trigger] slots[i]) ==> i + slots[i] <= BLOCKS
    &&& forall|i: int, j: int| 0 <= i < BLOCKS && 0 <= j < BLOCKS && #[trigger] covers(slots, i, j) ==> #[trigger] slots[j] == TAIL
}

/// Whether blocks `[first, first + count)` are all free.
pub open spec fn all_free(slots: Seq<usize>, first: int, count: int) -> bool {
    forall|j: int| first <= j < first + count ==> #[trigger] slots[j] == 0
}

/// The slot table with an allocation of `count` blocks recorded at `first`.
pub open spec fn with_allocation(slots: Seq<usize>, first: int, count: int) -> Seq<usize> {
    Seq::new(slots.len(), |j: int| if j == first { count as usize } else if first < j < first + count { TAIL } else { slots[j] })
}

/// The slot table with blocks `[first, first + count)` freed.
pub open spec fn without_blocks(slots: Seq<usize>, first: int, count: int) -> Seq<usize> {
    Seq::new(slots.len(), |j: int| if first <= j < first + count { 0usize } else { slots[j] })
}

/// Whether `count` blocks at `first` lie in the area, start at an address aligned to
/// `alignment`, and are all free.
pub open spec fn candidate(a: Arena, first: int, count: int, alignment: int) -> bool {
    &&& 0 <= first
    &&& first + count <= BLOCKS
    &&& (a.base + first * GRANULARITY) % alignment == 0
    &&& all_free(a.slots@, first, count)
}

/// Whether `[address, address + size)` is nonempty and lies inside one allocation.
pub open spec fn zero_accepted(a: Arena, address: int, size: int) -> bool {
    size != 0 && address >= a.base && exists|first: int| 0 <= first < BLOCKS && #[trigger] is_head(a.slots@[first])
        && a.base + first * GRANULARITY <= address
        && address + size <= a.base + (first + a.slots@[first]) * GRANULARITY
}

/// Whether a release of `size` bytes at `address` names an allocation: the address is
/// a block start inside the area, that block starts an allocation, and `size` rounds
/// down to its block count.
pub open spec fn release_accepted(a: Arena, address: int, size: int) -> bool {
    let offset = address - a.base;
    &&& address >= a.base
    &&& offset < CAPACITY
    &&& offset % GRANULARITY as int == 0
    &&& is_head(a.slots@[offset / GRANULARITY as int])
    &&& a.slots@[offset / GRANULARITY as int] == size / GRANULARITY as int
}

impl Arena {
    pub open spec fn wf(&self) -> bool {
        &&& consistent(self.slots@)
        &&& self.base + CAPACITY <= usize::MAX
    }

    /// An area at `base` with every block free.
    pub fn new(base: usize) -> (a: Arena)
        requires
            base + CAPACITY <= usize::MAX,
        ensures
            a.wf(),
            a.base == base,
            all_free(a.slots@, 0, BLOCKS as int),
    {
        let mut slots: Vec<usize> = Vec::new();
        let mut k: usize = 0;
        while k < BLOCKS
            invariant
                k <= BLOCKS,
                slots@.len() == k,
                forall|i: int| 0 <= i < k ==> slots@[i] == 0,
            decreases BLOCKS - k,
        {
            slots.push(0);
            k = k + 1;
        }
        Arena { base, slots }
    }

    /// The index of the first used block in `[first, first + count)`, if any.
    fn first_used(&self, first: usize, count: usize) -> (r: Option<usize>)
        requires
            self.wf(),
            first + count <= BLOCKS,
        ensures
            r matches Some(k) ==> k < count && self.slots@[first + k] != 0 && all_free(self.slots@, first as int, k as int),
            r is None ==> all_free(self.slots@, first as int, count as int),
    {
        let mut k: usize = 0;
        while k < count
            invariant
                self.wf(),
                first + count <= BLOCKS,
                k <= count,
                all_free(self.slots@, first as int, k as int),
            decreases count - k,
        {
            if self.slots[first + k] != 0 {
                return Some(k);
            }
            k = k + 1;
        }
        None
    }

    /// Records an allocation of `count` free blocks starting at `first`.
    fn mark(&mut self, first: usize, count: usize)
        requires
            old(self).wf(),
            count >= 1,
            first + count <= BLOCKS,
            all_free(old(self).slots@, first as int, count as int),
        ensures
            final(self).wf(),
            final(self).base == old(self).base,
            final(self).slots@ == with_allocation(old(self).slots@, first as int, count as int),
    {
        let ghost before = self.slots@;
        self.slots.set(first, count);
        let mut j: usize = first + 1;
        while j < first + count
            invariant
                self.base == old(self).base,
                before == old(self).slots@,
                consistent(before),
                count >= 1,
                first + count <= BLOCKS,
                first + 1 <= j <= first + count,
                all_free(before, first as int, count as int),
                self.slots@.len() == BLOCKS,
                forall|k: int| 0 <= k < BLOCKS ==> #[trigger] self.slots@[k] == (if k == first { count as usize } else if first < k < j { TAIL } else { before[k] }),
            decreases first + count - j,
        {
            self.slots.set(j, TAIL);
            j = j + 1;
        }
        assert(self.slots@ =~= with_allocation(before, first as int, count as int));
        proof {
            let s = self.slots@;
            assert forall|i: int, k: int| 0 <= i < BLOCKS && 0 <= k < BLOCKS && #[trigger] covers(s, i, k) implies #[trigger] s[k] == TAIL by {
                if i != first {
                    assert(is_head(before[i]));
                    assert(covers(before, i, k));
                    if first <= i < first + count {
                        assert(before[i] == 0);
                    }
                    if first <= k < first + count {
                        // A free block is no continuation.
                        assert(before[k] == TAIL);
                    }
                }
            }
        }
    }

    /// Allocates `size / GRANULARITY` blocks (a partial block is not counted) at the
    /// lowest start aligned to `alignment` that has that many free blocks, and returns
    /// the status and the address. No such start, or a size under one block or over
    /// the area, is `OUT_OF_MEMORY` and changes nothing.
    pub fn allocate(&mut self, size: usize, alignment: usize) -> (r: (u32, usize))
        requires
            old(self).wf(),
            is_pow2(alignment as nat),
        ensures
            final(self).wf(),
            final(self).base == old(self).base,
            r.0 == OK || r.0 == OUT_OF_MEMORY,
            (r.0 == OK) == (1 <= size / GRANULARITY <= BLOCKS
                && exists|first: int| #[trigger] candidate(*old(self), first, (size / GRANULARITY) as int, alignment as int)),
            r.0 != OK ==> r.1 == 0 && final(self).slots@ == old(self).slots@,
            r.0 == OK ==> exists|first: int| #[trigger] candidate(*old(self), first, (size / GRANULARITY) as int, alignment as int)
                && (forall|f: int| 0 <= f < first ==> !#[trigger] candidate(*old(self), f, (size / GRANULARITY) as int, alignment as int))
                && r.1 == old(self).base + first * GRANULARITY
                && final(self).slots@ == with_allocation(old(self).slots@, first, (size / GRANULARITY) as int),
    {
        let count: usize = size / GRANULARITY;
        if count == 0 || count > BLOCKS {
            return (OUT_OF_MEMORY, 0);
        }
        let mut first: usize = 0;
        while first <= BLOCKS - count
            invariant
                self.wf(),
                self.slots@ == old(self).slots@,
                self.base == old(self).base,
                count == size / GRANULARITY,
                1 <= count <= BLOCKS,
                alignment > 0,
                forall|f: int| 0 <= f < first ==> !#[trigger] candidate(*old(self), f, count as int, alignment as int),
            decreases BLOCKS + 1 - first,
        {
            let address: usize = self.base + first * GRANULARITY;
            if address % alignment != 0 {
                first = first + 1;
                continue;
            }
            match self.first_used(first, count) {
                Some(occupied) => {
                    proof {
                        let used = first + occupied;
                        assert(old(self).slots@[used as int] != 0);
                        assert forall|f: int| first <= f <= used implies !#[trigger] candidate(*old(self), f, count as int, alignment as int) by {
                            assert(f <= used < f + count);
                        }
                    }
                    first = first + occupied + 1;
                }
                None => {
                    assert(candidate(*old(self), first as int, count as int, alignment as int));
                    self.mark(first, count);
                    return (OK, address);
                }
            }
        }
        proof {
            assert forall|f: int| #[trigger] candidate(*old(self), f, count as int, alignment as int) implies false by {
                assert(f < first);
            }
        }
        (OUT_OF_MEMORY, 0)
    }

    /// Releases the allocation that starts at `address` when `size / GRANULARITY` is its
    /// block count; anything else is `INVALID_ARGUMENT` and changes nothing.
    pub fn release(&mut self, address: usize, size: usize) -> (r: u32)
        requires
            old(self).wf(),
        ensures
            final(self).wf(),
            final(self).base == old(self).base,
            r == (if release_accepted(*old(self), address as int, size as int) { OK } else { INVALID_ARGUMENT }),
            r != OK ==> final(self).slots@ == old(self).slots@,
            r == OK ==> {
                let first = (address - old(self).base) / GRANULARITY as int;
                &&& address >= old(self).base
                &&& (address - old(self).base) % GRANULARITY as int == 0
                &&& 0 <= first < BLOCKS
                &&& is_head(old(self).slots@[first])
                &&& old(self).slots@[first] == size / GRANULARITY
                &&& final(self).slots@ == without_blocks(old(self).slots@, first, old(self).slots@[first] as int)
            },
    {
        if address < self.base {
            return INVALID_ARGUMENT;
        }
        let offset: usize = address - self.base;
        if offset >= CAPACITY || offset % GRANULARITY != 0 {
            return INVALID_ARGUMENT;
        }
        let first: usize = offset / GRANULARITY;
        let count: usize = self.slots[first];
        if count == 0 || count == TAIL || count != size / GRANULARITY {
            return INVALID_ARGUMENT;
        }
        let ghost before = self.slots@;
        let mut j: usize = first;
        while j < first + count
            invariant
                self.base == old(self).base,
                before == old(self).slots@,
                consistent(before),
                is_head(before[first as int]),
                count == before[first as int],
                first + count <= BLOCKS,
                first <= j <= first + count,
                self.slots@.len() == BLOCKS,
                forall|k: int| 0 <= k < BLOCKS ==> #[trigger] self.slots@[k] == (if first <= k < j { 0usize } else { before[k] }),
            decreases first + count - j,
        {
            self.slots.set(j, 0);
            j = j + 1;
        }
        assert(self.slots@ =~= without_blocks(before, first as int, count as int));
        proof {
            let s = self.slots@;
            assert forall|i: int, k: int| 0 <= i < BLOCKS && 0 <= k < BLOCKS && #[trigger] covers(s, i, k) implies #[trigger] s[k] == TAIL by {
                assert(is_head(before[i]));
                assert(covers(before, i, k));
                if first <= k < first + count {
                    // Only the released allocation's own blocks were freed, and no other allocation reaches into them.
                    if i < first {
                        assert(covers(before, i, first as int));
                    }
                }
            }
        }
        OK
    }

    /// Zeroes a range: `OK` when `[address, address + size)` is nonempty and lies inside
    /// one allocation, `INVALID_ARGUMENT` otherwise. The front end that owns the payload
    /// area clears the bytes.
    pub fn zero(&self, address: usize, size: usize) -> (r: u32)
        requires
            self.wf(),
        ensures
            r == (if zero_accepted(*self, address as int, size as int) { OK } else { INVALID_ARGUMENT }),
    {
        if address < self.base {
            return INVALID_ARGUMENT;
        }
        let offset: usize = address - self.base;
        let end: usize = match offset.checked_add(size) {
            Some(e) => e,
            None => {
                proof { self.lemma_zero_inside(address as int, size as int); }
                return INVALID_ARGUMENT;
            }
        };
        if size == 0 || end > CAPACITY {
            proof { self.lemma_zero_inside(address as int, size as int); }
            return INVALID_ARGUMENT;
        }
        let start: usize = offset / GRANULARITY;
        let mut first: usize = start;
        while self.slots[first] == TAIL
            invariant
                self.wf(),
                address >= self.base,
                offset == address - self.base,
                size != 0,
                offset + size <= CAPACITY,
                first <= start < BLOCKS,
                start == offset / GRANULARITY,
                forall|k: int| first < k <= start ==> #[trigger] self.slots@[k] == TAIL,
            decreases first,
        {
            if first == 0 {
                proof { self.lemma_zero_head(address as int, size as int, 0); }
                return INVALID_ARGUMENT;
            }
            first = first - 1;
        }
        let count: usize = self.slots[first];
        proof { self.lemma_zero_head(address as int, size as int, first as int); }
        if count == 0 || end > (first + count) * GRANULARITY {
            return INVALID_ARGUMENT;
        }
        proof {
            let f = first as int;
            assert(f * 4096 <= start * 4096) by (nonlinear_arith) requires f <= start;
            vstd::arithmetic::div_mod::lemma_fundamental_div_mod(offset as int, 4096);
            assert(is_head(self.slots@[f]) && self.base + f * GRANULARITY <= address
                && address + size <= self.base + (f + self.slots@[f]) * GRANULARITY);
        }
        OK
    }

    /// A range that `zero` accepts ends inside the area.
    proof fn lemma_zero_inside(&self, address: int, size: int)
        requires
            self.wf(),
            address >= self.base,
        ensures
            zero_accepted(*self, address, size) ==> size != 0 && address - self.base + size <= CAPACITY,
    {
        if zero_accepted(*self, address, size) {
            let h = choose|h: int| 0 <= h < BLOCKS && #[trigger] is_head(self.slots@[h])
                && self.base + h * GRANULARITY <= address && address + size <= self.base + (h + self.slots@[h]) * GRANULARITY;
            assert(h + self.slots@[h] <= BLOCKS);
        }
    }

    /// Where the backward walk from the range's first block stops: at a block `first` that
    /// is no continuation, with only continuations after it up to the start block. If
    /// `zero` accepts the range, the allocation holding it starts at `first`.
    proof fn lemma_zero_head(&self, address: int, size: int, first: int)
        requires
            self.wf(),
            address >= self.base,
            size > 0,
            address - self.base + size <= CAPACITY,
            0 <= first <= (address - self.base) / GRANULARITY as int,
            first == 0 || self.slots@[first] != TAIL,
            forall|k: int| first < k <= (address - self.base) / GRANULARITY as int ==> #[trigger] self.slots@[k] == TAIL,
        ensures
            zero_accepted(*self, address, size) ==> self.slots@[first] != TAIL && is_head(self.slots@[first])
                && address + size <= self.base + (first + self.slots@[first]) * GRANULARITY,
    {
        let offset = address - self.base;
        let start = offset / GRANULARITY as int;
        if zero_accepted(*self, address, size) {
            let h = choose|h: int| 0 <= h < BLOCKS && #[trigger] is_head(self.slots@[h])
                && self.base + h * GRANULARITY <= address && address + size <= self.base + (h + self.slots@[h]) * GRANULARITY;
            let c = self.slots@[h] as int;
            vstd::arithmetic::div_mod::lemma_fundamental_div_mod(offset, 4096);
            assert(start * 4096 <= offset < (start + 1) * 4096);
            assert(self.base + h * GRANULARITY <= address);
            assert(h * 4096 <= offset);
            assert(address + size <= self.base + (h + self.slots@[h]) * GRANULARITY);
            assert(offset + size <= (h + c) * 4096);
            assert(offset < (h + c) * 4096);
            assert(h <= start && start < h + c) by (nonlinear_arith)
                requires
                    start * 4096 <= offset < (start + 1) * 4096,
                    h * 4096 <= offset < (h + c) * 4096;
            if h > first {
                assert(self.slots@[h] == TAIL);
            } else if h < first {
                assert(covers(self.slots@, h, first));
            }
        }
    }
}

} // verus!
