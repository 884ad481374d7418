//! Reference single-instance linear-memory provider over one host-owned region:
//! logical reservations only, never the native protection model of `CAP_VM`.
//! The state here is the bookkeeping; the front end that owns the region clears the
//! bytes of what is reserved or decommitted.
use vstd::prelude::*;
use crate::{is_pow2, is_power_of_two, INVALID_ARGUMENT, OK, OS_ERROR};

verus! {

/// How many reservations can be live at once.
pub const CAPACITY: usize = 64;

/// One reservation; a size of 0 marks a free slot.
#[derive(Clone, Copy, Debug, PartialEq, Eq, Structural)]
pub struct Region {
    pub base: usize,
    pub size: usize,
}

/// A free slot.
pub open spec fn free_region() -> Region {
    Region { base: 0, size: 0 }
}

/// The managed region (`base`, `size`, `page` all 0 until initialized) and the reservation slots.
#[derive(Clone, Debug)]
pub struct State {
    pub base: usize,
    pub size: usize,
    pub page: usize,
    pub regions: Vec<Region>,
}

/// Whether `r` is a live reservation.
pub open spec fn live(r: Region) -> bool {
    r.size != 0
}

/// Whether two byte ranges share a byte.
pub open spec fn overlap(a_base: int, a_size: int, b_base: int, b_size: int) -> bool {
    a_base < b_base + b_size && b_base < a_base + a_size
}

/// `value` rounded up to a multiple of `alignment`.
pub open spec fn aligned_up(value: int, alignment: int) -> int {
    ((value + alignment - 1) / alignment) * alignment
}

impl State {
    /// The bookkeeping is consistent: the slot table is full-size, the managed region
    /// lies inside the address space, and the live reservations lie inside it and never overlap.
    pub open spec fn wf(&self) -> bool {
        &&& self.regions@.len() == CAPACITY
        &&& self.base + self.size <= usize::MAX
        &&& self.page == 0 ==> self.base == 0 && self.size == 0
        &&& forall|i: int| 0 <= i < CAPACITY && live(#[trigger] self.regions@[i]) ==>
                self.base <= self.regions@[i].base && self.regions@[i].base + self.regions@[i].size <= self.base + self.size
        &&& forall|i: int, j: int| 0 <= i < CAPACITY && 0 <= j < CAPACITY && i != j && live(#[trigger] self.regions@[i]) && live(#[trigger] self.regions@[j])
                ==> !overlap(self.regions@[i].base as int, self.regions@[i].size as int, self.regions@[j].base as int, self.regions@[j].size as int)
    }

    /// An uninitialized provider with every slot free.
    pub fn new() -> (s: State)
        ensures
            s.wf(),
            s.base == 0 && s.size == 0 && s.page == 0,
            forall|i: int| 0 <= i < CAPACITY ==> s.regions@[i] == free_region(),
    {
        let mut regions: Vec<Region> = Vec::new();
        let mut k: usize = 0;
        while k < CAPACITY
            invariant
                k <= CAPACITY,
                regions@.len() == k,
                forall|i: int| 0 <= i < k ==> regions@[i] == free_region(),
            decreases CAPACITY - k,
        {
            regions.push(Region { base: 0, size: 0 });
            k = k + 1;
        }
        State { base: 0, size: 0, page: 0, regions }
    }

    /// Takes over the host region once: a nonzero, page-aligned, non-wrapping region of
    /// whole power-of-two pages no larger than `isize::MAX`. Anything else, or a second
    /// call, is `INVALID_ARGUMENT` and changes nothing.
    pub fn initialize(&mut self, base: usize, size: usize, page: usize) -> (r: u32)
        requires
            old(self).wf(),
        ensures
            final(self).wf(),
            final(self).regions == old(self).regions,
            r == (if old(self).page == 0 && base != 0 && is_pow2(page as nat) && size != 0 && size <= isize::MAX
                && size % page == 0 && base % page == 0 && base + size <= usize::MAX { OK } else { INVALID_ARGUMENT }),
            r == OK ==> final(self).base == base && final(self).size == size && final(self).page == page,
            r != OK ==> final(self).base == old(self).base && final(self).size == old(self).size && final(self).page == old(self).page,
    {
        if self.page != 0 || base == 0 || !is_power_of_two(page) || size == 0 || size > isize::MAX as usize
            || size % page != 0 || base % page != 0 || base.checked_add(size).is_none() {
            return INVALID_ARGUMENT;
        }
        // An uninitialized provider manages nothing, so no reservation is live yet.
        assert(forall|i: int| 0 <= i < CAPACITY ==> !live(#[trigger] self.regions@[i]));
        self.base = base;
        self.size = size;
        self.page = page;
        OK
    }
}

/// `value` rounded up to a multiple of the power-of-two `alignment`; `None` when that overflows.
pub fn align_up(value: usize, alignment: usize) -> (r: Option<usize>)
    requires
        alignment > 0,
    ensures
        r == (if value + alignment - 1 > usize::MAX { None } else { Some(aligned_up(value as int, alignment as int) as usize) }),
        r matches Some(v) ==> v >= value && v % alignment == 0,
{
    match value.checked_add(alignment - 1) {
        Some(n) => {
            proof {
                vstd::arithmetic::div_mod::lemma_fundamental_div_mod(n as int, alignment as int);
                vstd::arithmetic::mul::lemma_mul_is_commutative(n as int / alignment as int, alignment as int);
                vstd::arithmetic::div_mod::lemma_mod_multiples_basic(n as int / alignment as int, alignment as int);
            }
            let q: usize = n / alignment;
            Some(q * alignment)
        }
        None => None,
    }
}

/// Whether `size` bytes at `b` could be reserved: aligned, inside the managed region,
/// and overlapping no live reservation.
pub open spec fn fits(s: State, b: int, size: int, alignment: int) -> bool {
    &&& b % alignment == 0
    &&& s.base <= b
    &&& b + size <= s.base + s.size
    &&& forall|i: int| 0 <= i < CAPACITY && live(#[trigger] s.regions@[i]) ==>
            !overlap(b, size, s.regions@[i].base as int, s.regions@[i].size as int)
}

/// Whether slot `k` is the first free one.
pub open spec fn first_free_slot(s: State, k: int) -> bool {
    0 <= k < CAPACITY && !live(s.regions@[k]) && forall|j: int| 0 <= j < k ==> live(#[trigger] s.regions@[j])
}

/// An aligned value at or above `x` is at or above `x` rounded up.
proof fn lemma_aligned_above(b: int, x: int, a: int)
    requires
        a > 0,
        x >= 0,
        b >= x,
        b % a == 0,
    ensures
        b >= aligned_up(x, a),
{
    let t = (x + a - 1) / a;
    vstd::arithmetic::div_mod::lemma_fundamental_div_mod(x + a - 1, a);
    vstd::arithmetic::div_mod::lemma_fundamental_div_mod(b, a);
    let q = b / a;
    assert(a * t <= x + a - 1);
    assert(b == a * q);
    assert(t <= q) by (nonlinear_arith)
        requires
            a > 0,
            a * t <= x + a - 1,
            b == a * q,
            b >= x;
    assert(t * a <= b) by (nonlinear_arith)
        requires
            a > 0,
            t <= q,
            b == a * q;
}

/// A power of two divides every larger power of two.
pub proof fn lemma_pow2_divides(a: nat, m: nat)
    requires
        is_pow2(a),
        is_pow2(m),
        a <= m,
    ensures
        m % a == 0,
    decreases a,
{
    if a != 1 {
        assert(m != 1);
        lemma_pow2_divides(a / 2, m / 2);
        let h = a / 2;
        let q = (m / 2) / h;
        vstd::arithmetic::div_mod::lemma_fundamental_div_mod((m / 2) as int, h as int);
        assert(m == a * q) by (nonlinear_arith)
            requires
                m % 2 == 0,
                a % 2 == 0,
                h == a / 2,
                (m / 2) as int == h * q + 0;
        vstd::arithmetic::div_mod::lemma_mod_multiples_basic(q as int, a as int);
    }
}

/// `2^n` is a power of two.
proof fn lemma_pow2_power(n: nat)
    ensures
        is_pow2(vstd::arithmetic::power2::pow2(n)),
    decreases n,
{
    vstd::arithmetic::power2::lemma_pow2_pos(n);
    if n > 0 {
        lemma_pow2_power((n - 1) as nat);
        vstd::arithmetic::power2::lemma_pow2_unfold(n);
        let p = vstd::arithmetic::power2::pow2(n);
        assert(p / 2 == vstd::arithmetic::power2::pow2((n - 1) as nat));
    } else {
        vstd::arithmetic::power2::lemma2_to64();
    }
}

/// Past the last multiple of a power-of-two alignment in the address space there is
/// room for no more than `alignment - 1` values.
proof fn lemma_last_multiple(b: int, a: int)
    requires
        is_pow2(a as nat),
        0 < a <= usize::MAX,
        0 <= b <= usize::MAX,
        b % a == 0,
    ensures
        b + a - 1 <= usize::MAX,
{
    let top: nat = (usize::MAX + 1) as nat;
    assert(is_pow2(top)) by {
        assert(usize::MAX == 0xffff_ffff || usize::MAX == 0xffff_ffff_ffff_ffff);
        lemma_pow2_power(64);
        lemma_pow2_power(32);
        vstd::arithmetic::power2::lemma2_to64();
        vstd::arithmetic::power2::lemma2_to64_rest();
    }
    lemma_pow2_divides(a as nat, top);
    vstd::arithmetic::div_mod::lemma_fundamental_div_mod(b, a);
    vstd::arithmetic::div_mod::lemma_fundamental_div_mod(top as int, a);
    let k = b / a;
    let j = top as int / a;
    assert(b + a - 1 <= top - 1) by (nonlinear_arith)
        requires
            a > 0,
            b == a * k,
            top == a * j,
            b < top;
}

impl State {
    /// The page size, 0 before initialization.
    pub fn page_size(&self) -> (r: usize)
        ensures r == self.page,
    {
        self.page
    }

    /// The first free slot.
    pub fn free_slot(&self) -> (r: Option<usize>)
        requires
            self.wf(),
        ensures
            r matches Some(k) ==> k < CAPACITY && first_free_slot(*self, k as int),
            r is None ==> forall|i: int| 0 <= i < CAPACITY ==> live(#[trigger] self.regions@[i]),
    {
        let mut i: usize = 0;
        while i < CAPACITY
            invariant
                self.wf(),
                i <= CAPACITY,
                forall|k: int| 0 <= k < i ==> live(#[trigger] self.regions@[k]),
            decreases CAPACITY - i,
        {
            if self.regions[i].size == 0 {
                return Some(i);
            }
            i = i + 1;
        }
        None
    }

    /// The first live reservation that shares a byte with `[base, end)`.
    pub fn overlapping(&self, base: usize, end: usize) -> (r: Option<usize>)
        requires
            self.wf(),
            base <= end,
        ensures
            r matches Some(k) ==> k < CAPACITY && live(self.regions@[k as int])
                && overlap(base as int, end - base, self.regions@[k as int].base as int, self.regions@[k as int].size as int),
            r is None ==> forall|i: int| 0 <= i < CAPACITY && live(#[trigger] self.regions@[i]) ==>
                !overlap(base as int, end - base, self.regions@[i].base as int, self.regions@[i].size as int),
    {
        let mut i: usize = 0;
        while i < CAPACITY
            invariant
                self.wf(),
                base <= end,
                i <= CAPACITY,
                forall|k: int| 0 <= k < i && live(#[trigger] self.regions@[k]) ==>
                    !overlap(base as int, end - base, self.regions@[k].base as int, self.regions@[k].size as int),
            decreases CAPACITY - i,
        {
            let r: Region = self.regions[i];
            if r.size != 0 && base < r.base + r.size && r.base < end {
                return Some(i);
            }
            i = i + 1;
        }
        None
    }

    /// Reserves `size` bytes aligned to `alignment` inside the managed region, in the
    /// first free slot and at the lowest aligned start where the range overlaps no live
    /// reservation, and returns the status and the start. With no free slot or no such
    /// start it is `OS_ERROR` and nothing changes.
    pub fn reserve(&mut self, size: usize, alignment: usize) -> (r: (u32, usize))
        requires
            old(self).wf(),
            is_pow2(alignment as nat),
        ensures
            final(self).wf(),
            final(self).base == old(self).base && final(self).size == old(self).size && final(self).page == old(self).page,
            r.0 == OK || r.0 == OS_ERROR,
            (r.0 == OK) == ((exists|k: int| #[trigger] first_free_slot(*old(self), k))
                && exists|b: int| #[trigger] fits(*old(self), b, size as int, alignment as int)),
            r.0 != OK ==> r.1 == 0 && final(self).regions == old(self).regions,
            r.0 == OK ==> {
                &&& fits(*old(self), r.1 as int, size as int, alignment as int)
                &&& forall|b: int| #[trigger] fits(*old(self), b, size as int, alignment as int) ==> r.1 <= b
                &&& exists|k: int| #[trigger] first_free_slot(*old(self), k)
                        && final(self).regions@ == old(self).regions@.update(k, (Region { base: r.1, size }))
            },
    {
        proof {
            vstd::arithmetic::power2::lemma2_to64();
        }
        let slot: usize = match self.free_slot() {
            Some(k) => k,
            None => {
                assert forall|k: int| #[trigger] first_free_slot(*old(self), k) implies false by {
                    assert(live(self.regions@[k]));
                }
                return (OS_ERROR, 0);
            }
        };
        assert(first_free_slot(*old(self), slot as int));
        let mut base: usize = match align_up(self.base, alignment) {
            Some(b) => b,
            None => {
                assert forall|b: int| #[trigger] fits(*old(self), b, size as int, alignment as int) implies false by {
                    lemma_last_multiple(b, alignment as int);
                }
                return (OS_ERROR, 0);
            }
        };
        assert forall|b: int| #[trigger] fits(*old(self), b, size as int, alignment as int) implies base <= b by {
            lemma_aligned_above(b, self.base as int, alignment as int);
        }
        let limit: usize = self.base + self.size;
        loop
            invariant
                self.wf(),
                self == old(self),
                first_free_slot(*old(self), slot as int),
                slot < CAPACITY,
                is_pow2(alignment as nat),
                alignment > 0,
                limit == self.base + self.size,
                self.base <= base,
                base % alignment == 0,
                forall|b: int| #[trigger] fits(*old(self), b, size as int, alignment as int) ==> base <= b,
            decreases usize::MAX - base,
        {
            let end: usize = match base.checked_add(size) {
                Some(e) => e,
                None => {
                    assert forall|b: int| #[trigger] fits(*old(self), b, size as int, alignment as int) implies false by {
                        assert(base <= b);
                    }
                    return (OS_ERROR, 0);
                }
            };
            if end > limit {
                assert forall|b: int| #[trigger] fits(*old(self), b, size as int, alignment as int) implies false by {
                    assert(base <= b);
                }
                return (OS_ERROR, 0);
            }
            match self.overlapping(base, end) {
                Some(k) => {
                    let r: Region = self.regions[k];
                    let next: usize = match align_up(r.base + r.size, alignment) {
                        Some(n) => n,
                        None => {
                            assert forall|b: int| #[trigger] fits(*old(self), b, size as int, alignment as int) implies false by {
                                assert(base <= b);
                                if b < r.base + r.size {
                                    assert(overlap(b, size as int, r.base as int, r.size as int));
                                    assert(live(old(self).regions@[k as int]));
                                } else {
                                    lemma_last_multiple(b, alignment as int);
                                }
                            }
                            return (OS_ERROR, 0);
                        }
                    };
                    assert forall|b: int| #[trigger] fits(*old(self), b, size as int, alignment as int) implies next <= b by {
                        assert(base <= b);
                        if b < r.base + r.size {
                            assert(overlap(b, size as int, r.base as int, r.size as int));
                            assert(live(old(self).regions@[k as int]));
                        } else {
                            lemma_aligned_above(b, (r.base + r.size) as int, alignment as int);
                        }
                    }
                    base = next;
                }
                None => {
                    assert(fits(*old(self), base as int, size as int, alignment as int));
                    let ghost before = self.regions@;
                    self.regions.set(slot, Region { base, size });
                    proof {
                        assert(forall|i: int| 0 <= i < CAPACITY && i != slot ==> self.regions@[i] == before[i]);
                    }
                    return (OK, base);
                }
            }
        }
    }

    /// Whether `[address, address + size)` lies inside one live reservation.
    pub fn contains(&self, address: usize, size: usize) -> (r: bool)
        requires
            self.wf(),
        ensures
            r == (address + size <= usize::MAX && exists|i: int| 0 <= i < CAPACITY && live(#[trigger] self.regions@[i])
                && self.regions@[i].base <= address && address + size <= self.regions@[i].base + self.regions@[i].size),
    {
        let end: usize = match address.checked_add(size) {
            Some(e) => e,
            None => return false,
        };
        let mut i: usize = 0;
        while i < CAPACITY
            invariant
                self.wf(),
                end == address + size,
                i <= CAPACITY,
                forall|k: int| 0 <= k < i && live(#[trigger] self.regions@[k]) ==>
                    !(self.regions@[k].base <= address && end <= self.regions@[k].base + self.regions@[k].size),
            decreases CAPACITY - i,
        {
            let r: Region = self.regions[i];
            if r.size != 0 && address >= r.base && end <= r.base + r.size {
                return true;
            }
            i = i + 1;
        }
        false
    }

    /// Commits a range: `OK` when it lies inside a live reservation, `INVALID_ARGUMENT` otherwise.
    pub fn commit(&self, address: usize, size: usize) -> (r: u32)
        requires
            self.wf(),
        ensures
            r == (if self.contains_spec(address as int, size as int) { OK } else { INVALID_ARGUMENT }),
    {
        if self.contains(address, size) { OK } else { INVALID_ARGUMENT }
    }

    /// Whether a range lies inside one live reservation.
    pub open spec fn contains_spec(&self, address: int, size: int) -> bool {
        address + size <= usize::MAX && exists|i: int| 0 <= i < CAPACITY && live(#[trigger] self.regions@[i])
            && self.regions@[i].base <= address && address + size <= self.regions@[i].base + self.regions@[i].size
    }

    /// Decommits a range: `OK` when it lies inside a live reservation (whose bytes the
    /// front end then zeroes), `INVALID_ARGUMENT` otherwise.
    pub fn decommit(&self, address: usize, size: usize) -> (r: u32)
        requires
            self.wf(),
        ensures
            r == (if self.contains_spec(address as int, size as int) { OK } else { INVALID_ARGUMENT }),
    {
        self.commit(address, size)
    }

    /// Resets a range: an advisory discard, answered as `commit` answers.
    pub fn reset(&self, address: usize, size: usize) -> (r: u32)
        requires
            self.wf(),
        ensures
            r == (if self.contains_spec(address as int, size as int) { OK } else { INVALID_ARGUMENT }),
    {
        self.commit(address, size)
    }

    /// Releases the live reservation that starts at `address` and has exactly `size`
    /// bytes, freeing its slot; `INVALID_ARGUMENT` and no change when there is none.
    pub fn release(&mut self, address: usize, size: usize) -> (r: u32)
        requires
            old(self).wf(),
        ensures
            final(self).wf(),
            final(self).base == old(self).base && final(self).size == old(self).size && final(self).page == old(self).page,
            r == (if exists|i: int| 0 <= i < CAPACITY && #[trigger] matches_region(old(self).regions@[i], address, size) { OK } else { INVALID_ARGUMENT }),
            r != OK ==> final(self).regions == old(self).regions,
            r == OK ==> exists|i: int| 0 <= i < CAPACITY && #[trigger] matches_region(old(self).regions@[i], address, size)
                && final(self).regions@ == old(self).regions@.update(i, free_region()),
    {
        let mut i: usize = 0;
        while i < CAPACITY
            invariant
                self.wf(),
                self == old(self),
                i <= CAPACITY,
                forall|k: int| 0 <= k < i ==> !(#[trigger] matches_region(self.regions@[k], address, size)),
            decreases CAPACITY - i,
        {
            let r: Region = self.regions[i];
            if r.size != 0 && r.base == address && r.size == size {
                let ghost before = self.regions@;
                self.regions.set(i, Region { base: 0, size: 0 });
                proof {
                    assert(matches_region(before[i as int], address, size));
                    assert(forall|k: int| 0 <= k < CAPACITY && k != i ==> self.regions@[k] == before[k]);
                }
                return OK;
            }
            i = i + 1;
        }
        INVALID_ARGUMENT
    }
}

/// Whether `r` is the live reservation `[address, address + size)`.
pub open spec fn matches_region(r: Region, address: usize, size: usize) -> bool {
    live(r) && r.base == address && r.size == size
}

/// Releasing a reservation right after making it restores the slot table exactly: in a
/// consistent table, the only live slot that matches a new, nonempty reservation is its own.
pub proof fn lemma_release_undoes_reserve(s: State, k: int, base: usize, size: usize, i: int)
    requires
        s.wf(),
        0 <= k < CAPACITY,
        !live(s.regions@[k]),
        size != 0,
        forall|j: int| 0 <= j < CAPACITY && live(#[trigger] s.regions@[j]) ==>
            !overlap(base as int, size as int, s.regions@[j].base as int, s.regions@[j].size as int),
        0 <= i < CAPACITY,
        matches_region(s.regions@.update(k, (Region { base, size }))[i], base, size),
    ensures
        i == k,
        s.regions@.update(k, (Region { base, size })).update(i, free_region()) == s.regions@.update(k, free_region()),
{
    if i != k {
        assert(live(s.regions@[i]));
    }
}

} // verus!
