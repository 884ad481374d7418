//! Demand-allocated linear storage with a hard live-byte budget and an ownership
//! ledger. The storage itself comes from the embedding host; the ledger decides what
//! is asked for, checks what the host answers and keeps what it owns.
use vstd::prelude::*;
use crate::arena::{live, overlap, Region};
use crate::{INVALID_ARGUMENT, OK, OS_ERROR, OUT_OF_MEMORY};

verus! {

pub const GRANULARITY: usize = 4096;
pub const CAPACITY: usize = 8388608;
pub const MAX_REGIONS: usize = 4096;

/// The embedding host's storage calls: a status and, on success, the address. Each
/// comes with a relation naming the answers the host may give for the arguments it is
/// handed; by default any.
pub trait StorageHost {
    open spec fn allocate_answer(size: usize, alignment: usize, r: (u32, usize)) -> bool { true }
    open spec fn release_answer(address: usize, size: usize, r: u32) -> bool { true }

    fn allocate(size: usize, alignment: usize) -> (r: (u32, usize))
        ensures Self::allocate_answer(size, alignment, r);
    fn release(address: usize, size: usize) -> (r: u32)
        ensures Self::release_answer(address, size, r);
}

/// The statuses a host may report; anything else is `OS_ERROR`.
pub open spec fn normalized(status: u32) -> u32 {
    if status == OK || status == INVALID_ARGUMENT || status == OS_ERROR || status == OUT_OF_MEMORY { status } else { OS_ERROR }
}

pub fn normalize(status: u32) -> (r: u32)
    ensures r == normalized(status),
{
    if status == OK || status == INVALID_ARGUMENT || status == OS_ERROR || status == OUT_OF_MEMORY { status } else { OS_ERROR }
}

/// The bytes the live regions of `regions` hold.
pub open spec fn owned_bytes(regions: Seq<Region>) -> int
    decreases regions.len(),
{
    if regions.len() == 0 {
        0
    } else {
        owned_bytes(regions.drop_last()) + regions.last().size
    }
}

/// Whether slot `k` is the first free one.
pub open spec fn first_free(regions: Seq<Region>, k: int) -> bool {
    0 <= k < MAX_REGIONS && !live(regions[k]) && forall|j: int| 0 <= j < k ==> live(#[trigger] regions[j])
}

/// What a host answer to an allocation of `size` bytes aligned to `alignment` gives,
/// against the live regions `regions`: its failure status (normalized), `OS_ERROR` for
/// an address that is null, misaligned, wrapping or overlapping a live region, and
/// otherwise `OK` with the address.
pub open spec fn accept_result(regions: Seq<Region>, size: usize, alignment: usize, answer: (u32, usize)) -> (u32, usize) {
    let status = normalized(answer.0);
    let address = answer.1;
    if status != OK {
        (status, 0usize)
    } else if address + size > usize::MAX || address == 0 || address % alignment != 0 {
        (OS_ERROR, 0usize)
    } else if exists|i: int| 0 <= i < MAX_REGIONS && live(#[trigger] regions[i])
        && overlap(address as int, size as int, regions[i].base as int, regions[i].size as int) {
        (OS_ERROR, 0usize)
    } else {
        (OK, address)
    }
}

/// Replacing one region changes the owned total by the difference of the two sizes.
pub proof fn lemma_owned_update(regions: Seq<Region>, i: int, r: Region)
    requires
        0 <= i < regions.len(),
    ensures
        owned_bytes(regions.update(i, r)) == owned_bytes(regions) - regions[i].size + r.size,
    decreases regions.len(),
{
    let u = regions.update(i, r);
    if i == regions.len() - 1 {
        assert(u.drop_last() =~= regions.drop_last());
    } else {
        assert(u.drop_last() =~= regions.drop_last().update(i, r));
        lemma_owned_update(regions.drop_last(), i, r);
    }
}

/// Every region's size counts in the total.
pub proof fn lemma_owned_covers(regions: Seq<Region>, i: int)
    requires
        0 <= i < regions.len(),
    ensures
        owned_bytes(regions) >= regions[i].size,
    decreases regions.len(),
{
    lemma_owned_nonnegative(regions.drop_last());
    if i < regions.len() - 1 {
        lemma_owned_covers(regions.drop_last(), i);
    }
}

pub proof fn lemma_owned_nonnegative(regions: Seq<Region>)
    ensures
        owned_bytes(regions) >= 0,
    decreases regions.len(),
{
    if regions.len() > 0 {
        lemma_owned_nonnegative(regions.drop_last());
    }
}

/// The regions this backend owns and their total size.
#[derive(Clone, Debug)]
pub struct Ledger {
    pub regions: Vec<Region>,
    pub owned: usize,
}

impl Ledger {
    /// The ledger is consistent: a full slot table whose live regions lie in the address
    /// space and never overlap, and an owned total that is their sum, within the budget.
    pub open spec fn wf(&self) -> bool {
        &&& self.regions@.len() == MAX_REGIONS
        &&& self.owned == owned_bytes(self.regions@)
        &&& self.owned <= CAPACITY
        &&& forall|i: int| 0 <= i < MAX_REGIONS && live(#[trigger] self.regions@[i]) ==> self.regions@[i].base + self.regions@[i].size <= usize::MAX
        &&& forall|i: int, j: int| 0 <= i < MAX_REGIONS && 0 <= j < MAX_REGIONS && i != j && live(#[trigger] self.regions@[i]) && live(#[trigger] self.regions@[j])
                ==> !overlap(self.regions@[i].base as int, self.regions@[i].size as int, self.regions@[j].base as int, self.regions@[j].size as int)
    }

    pub fn new() -> (l: Ledger)
        ensures
            l.wf(),
            l.owned == 0,
    {
        let mut regions: Vec<Region> = Vec::new();
        let mut k: usize = 0;
        while k < MAX_REGIONS
            invariant
                k <= MAX_REGIONS,
                regions@.len() == k,
                forall|i: int| 0 <= i < k ==> regions@[i] == (Region { base: 0, size: 0 }),
                owned_bytes(regions@) == 0,
            decreases MAX_REGIONS - k,
        {
            let ghost before = regions@;
            regions.push(Region { base: 0, size: 0 });
            assert(regions@.drop_last() =~= before);
            k = k + 1;
        }
        Ledger { regions, owned: 0 }
    }

    fn free_slot(&self) -> (r: Option<usize>)
        requires
            self.wf(),
        ensures
            r matches Some(k) ==> first_free(self.regions@, k as int),
            r is None ==> forall|i: int| 0 <= i < MAX_REGIONS ==> live(#[trigger] self.regions@[i]),
    {
        let mut i: usize = 0;
        while i < MAX_REGIONS
            invariant
                self.wf(),
                i <= MAX_REGIONS,
                forall|k: int| 0 <= k < i ==> live(#[trigger] self.regions@[k]),
            decreases MAX_REGIONS - i,
        {
            if self.regions[i].size == 0 {
                return Some(i);
            }
            i = i + 1;
        }
        None
    }

    fn overlaps(&self, base: usize, end: usize) -> (r: bool)
        requires
            self.wf(),
            base <= end,
        ensures
            r == exists|i: int| 0 <= i < MAX_REGIONS && live(#[trigger] self.regions@[i])
                && overlap(base as int, end - base, self.regions@[i].base as int, self.regions@[i].size as int),
    {
        let mut i: usize = 0;
        while i < MAX_REGIONS
            invariant
                self.wf(),
                base <= end,
                i <= MAX_REGIONS,
                forall|k: int| 0 <= k < i && live(#[trigger] self.regions@[k]) ==>
                    !overlap(base as int, end - base, self.regions@[k].base as int, self.regions@[k].size as int),
            decreases MAX_REGIONS - i,
        {
            let r: Region = self.regions[i];
            if r.size != 0 && base < r.base + r.size && r.base < end {
                return true;
            }
            i = i + 1;
        }
        false
    }

    /// What an allocation of `size` bytes can use before the host is asked: the first
    /// free slot, or `OUT_OF_MEMORY` for an empty request, one beyond the live-byte
    /// budget, or a full ledger.
    pub fn plan(&self, size: usize) -> (r: Result<usize, u32>)
        requires
            self.wf(),
        ensures
            (size == 0 || size > CAPACITY - self.owned) ==> r == Err::<usize, u32>(OUT_OF_MEMORY),
            !(size == 0 || size > CAPACITY - self.owned) && (forall|i: int| 0 <= i < MAX_REGIONS ==> live(#[trigger] self.regions@[i]))
                ==> r == Err::<usize, u32>(OUT_OF_MEMORY),
            !(size == 0 || size > CAPACITY - self.owned) && (exists|i: int| 0 <= i < MAX_REGIONS && !live(#[trigger] self.regions@[i]))
                ==> (r matches Ok(k) && first_free(self.regions@, k as int)),
    {
        if size == 0 || size > CAPACITY - self.owned {
            return Err(OUT_OF_MEMORY);
        }
        match self.free_slot() {
            Some(k) => Ok(k),
            None => Err(OUT_OF_MEMORY),
        }
    }

    /// Takes the host's answer to a planned allocation of `size` bytes into free slot
    /// `index`: a failure status passes through (normalized), an address that is null,
    /// misaligned, wrapping or overlapping owned storage is `OS_ERROR`; only an
    /// acceptable address is recorded and counted.
    pub fn accept(&mut self, index: usize, size: usize, alignment: usize, answer: (u32, usize)) -> (r: (u32, usize))
        requires
            old(self).wf(),
            index < MAX_REGIONS,
            !live(old(self).regions@[index as int]),
            0 < size <= CAPACITY - old(self).owned,
            alignment > 0,
        ensures
            final(self).wf(),
            r == accept_result(old(self).regions@, size, alignment, answer),
            r.0 != OK ==> *final(self) == *old(self),
            r.0 == OK ==> final(self).owned == old(self).owned + size
                && final(self).regions@ == old(self).regions@.update(index as int, (Region { base: r.1, size })),
    {
        let status: u32 = normalize(answer.0);
        if status != OK {
            return (status, 0);
        }
        let address: usize = answer.1;
        let end: usize = match address.checked_add(size) {
            Some(e) => e,
            None => return (OS_ERROR, 0),
        };
        if address == 0 || address % alignment != 0 {
            return (OS_ERROR, 0);
        }
        if self.overlaps(address, end) {
            return (OS_ERROR, 0);
        }
        let ghost before = self.regions@;
        proof {
            lemma_owned_update(before, index as int, Region { base: address, size });
        }
        self.regions.set(index, Region { base: address, size });
        self.owned = self.owned + size;
        proof {
            assert(forall|i: int| 0 <= i < MAX_REGIONS && i != index ==> self.regions@[i] == before[i]);
        }
        (OK, address)
    }

    /// Allocates `size` bytes from the host inside the live-byte budget: `plan`, then,
    /// when it found a slot, the host is asked for `size` bytes aligned to `alignment`
    /// and its answer goes through `accept`. A request `plan` refuses never reaches the host.
    pub fn allocate<H: StorageHost>(&mut self, size: usize, alignment: usize) -> (r: (u32, usize))
        requires
            old(self).wf(),
            alignment > 0,
        ensures
            final(self).wf(),
            (size == 0 || size > CAPACITY - old(self).owned || forall|i: int| 0 <= i < MAX_REGIONS ==> live(#[trigger] old(self).regions@[i]))
                ==> r == (OUT_OF_MEMORY, 0usize) && *final(self) == *old(self),
            !(size == 0 || size > CAPACITY - old(self).owned || forall|i: int| 0 <= i < MAX_REGIONS ==> live(#[trigger] old(self).regions@[i]))
                ==> exists|index: int, answer: (u32, usize)| #[trigger] first_free(old(self).regions@, index)
                    && H::allocate_answer(size, alignment, answer)
                    && r == #[trigger] accept_result(old(self).regions@, size, alignment, answer)
                    && (r.0 != OK ==> *final(self) == *old(self))
                    && (r.0 == OK ==> final(self).owned == old(self).owned + size
                        && final(self).regions@ == old(self).regions@.update(index, (Region { base: r.1, size }))),
    {
        let index: usize = match self.plan(size) {
            Ok(k) => k,
            Err(e) => return (e, 0),
        };
        let answer: (u32, usize) = H::allocate(size, alignment);
        self.accept(index, size, alignment, answer)
    }

    /// The first live region with exactly this start and size, if any.
    pub fn find(&self, address: usize, size: usize) -> (r: Option<usize>)
        requires
            self.wf(),
        ensures
            r is None ==> forall|i: int| 0 <= i < MAX_REGIONS ==> !(#[trigger] crate::arena::matches_region(self.regions@[i], address, size)),
            r matches Some(k) ==> k < MAX_REGIONS && crate::arena::matches_region(self.regions@[k as int], address, size)
                && forall|j: int| 0 <= j < k ==> !(#[trigger] crate::arena::matches_region(self.regions@[j], address, size)),
    {
        let mut i: usize = 0;
        while i < MAX_REGIONS
            invariant
                self.wf(),
                i <= MAX_REGIONS,
                forall|k: int| 0 <= k < i ==> !(#[trigger] crate::arena::matches_region(self.regions@[k], address, size)),
            decreases MAX_REGIONS - i,
        {
            let r: Region = self.regions[i];
            if r.size != 0 && r.base == address && r.size == size {
                return Some(i);
            }
            i = i + 1;
        }
        None
    }

    /// Takes the host's answer to the release of the region in slot `index`: the
    /// region leaves the ledger only when the host agrees (normalized status `OK`).
    pub fn settle_release(&mut self, index: usize, answer: u32) -> (r: u32)
        requires
            old(self).wf(),
            index < MAX_REGIONS,
            live(old(self).regions@[index as int]),
        ensures
            final(self).wf(),
            r == normalized(answer),
            r != OK ==> *final(self) == *old(self),
            r == OK ==> final(self).owned == old(self).owned - old(self).regions@[index as int].size
                && final(self).regions@ == old(self).regions@.update(index as int, (Region { base: 0, size: 0 })),
    {
        let status: u32 = normalize(answer);
        if status == OK {
            let size: usize = self.regions[index].size;
            let ghost before = self.regions@;
            proof {
                lemma_owned_update(before, index as int, Region { base: 0, size: 0 });
                lemma_owned_covers(before, index as int);
            }
            self.regions.set(index, Region { base: 0, size: 0 });
            self.owned = self.owned - size;
            proof {
                assert(forall|k: int| 0 <= k < MAX_REGIONS && k != index ==> self.regions@[k] == before[k]);
            }
        }
        status
    }

    /// Releases an owned region: the host is asked to release `[address, address + size)`
    /// only for a region this ledger holds with exactly that start and size, and its
    /// answer goes through `settle_release`; anything else is `INVALID_ARGUMENT`.
    pub fn release<H: StorageHost>(&mut self, address: usize, size: usize) -> (r: u32)
        requires
            old(self).wf(),
        ensures
            final(self).wf(),
            !(exists|i: int| 0 <= i < MAX_REGIONS && #[trigger] crate::arena::matches_region(old(self).regions@[i], address, size))
                ==> r == INVALID_ARGUMENT && *final(self) == *old(self),
            (exists|i: int| 0 <= i < MAX_REGIONS && #[trigger] crate::arena::matches_region(old(self).regions@[i], address, size))
                ==> exists|answer: u32| r == #[trigger] normalized(answer) && H::release_answer(address, size, answer)
                    && (r != OK ==> *final(self) == *old(self))
                    && (r == OK ==> final(self).owned == old(self).owned - size && exists|i: int| 0 <= i < MAX_REGIONS
                        && #[trigger] crate::arena::matches_region(old(self).regions@[i], address, size)
                        && final(self).regions@ == old(self).regions@.update(i, (Region { base: 0, size: 0 }))),
    {
        let index: usize = match self.find(address, size) {
            Some(k) => k,
            None => return INVALID_ARGUMENT,
        };
        let answer: u32 = H::release(address, size);
        let r: u32 = self.settle_release(index, answer);
        assert(crate::arena::matches_region(old(self).regions@[index as int], address, size));
        r
    }

    /// Whether `[address, address + size)` lies in the address space and inside one owned region.
    pub open spec fn covers_range(&self, address: int, size: int) -> bool {
        address + size <= usize::MAX && exists|i: int| 0 <= i < MAX_REGIONS && live(#[trigger] self.regions@[i])
            && self.regions@[i].base <= address && address + size <= self.regions@[i].base + self.regions@[i].size
    }

    /// Zeroes a range: `OK` when `[address, address + size)` is nonempty, not null and lies
    /// inside one owned region, `INVALID_ARGUMENT` otherwise. The front end that holds the
    /// host's storage clears the bytes.
    pub fn zero(&self, address: usize, size: usize) -> (r: u32)
        requires
            self.wf(),
        ensures
            r == (if address != 0 && size != 0 && self.covers_range(address as int, size as int) { OK } else { INVALID_ARGUMENT }),
    {
        let end: usize = match address.checked_add(size) {
            Some(e) => e,
            None => return INVALID_ARGUMENT,
        };
        if address == 0 || size == 0 {
            return INVALID_ARGUMENT;
        }
        let mut i: usize = 0;
        while i < MAX_REGIONS
            invariant
                self.wf(),
                end == address + size,
                address != 0 && size != 0,
                i <= MAX_REGIONS,
                forall|k: int| 0 <= k < i && live(#[trigger] self.regions@[k]) ==>
                    !(self.regions@[k].base <= address && end <= self.regions@[k].base + self.regions@[k].size),
            decreases MAX_REGIONS - i,
        {
            let r: Region = self.regions[i];
            if r.size != 0 && address >= r.base && end <= r.base + r.size {
                assert(live(self.regions@[i as int]));
                assert(self.covers_range(address as int, size as int));
                return OK;
            }
            i = i + 1;
        }
        INVALID_ARGUMENT
    }
}

} // verus!
