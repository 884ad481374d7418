//! Platform-independent PAL contracts: status codes, argument validation,
//! provider-result checking and capability negotiation, with their proofs.
use vstd::prelude::*;

pub mod counter;
pub mod counters;
pub mod port;
pub mod runtime;
pub mod io;
pub mod kernel;
pub mod machine;
pub mod arena;
pub mod linear;
pub mod linear_heap;
pub mod files;
pub mod accounts;
pub mod image;
pub mod services;
pub mod host;
pub mod context;
pub mod context_host;
pub mod elf;
pub mod images;
pub mod faults;
pub mod local_sockets;
pub mod linux_platform;
pub mod linux;
pub mod windows_sockets;

use crate::counter::Counter;
use crate::port::{Error, LinearStorage, VirtualMemory};

verus! {

pub const ABI_VERSION: u32 = 2;
pub const OK: u32 = 0;
pub const UNSUPPORTED: u32 = 1;
pub const INVALID_ARGUMENT: u32 = 2;
pub const OS_ERROR: u32 = 3;
pub const OUT_OF_MEMORY: u32 = 4;
pub const CAP_VM: u64 = 1;
pub const CAP_LINEAR: u64 = 2;
pub const CAP_DYNAMIC_LINEAR: u64 = 262144;

/// The header every table starts with.
#[derive(Clone, Copy, Debug, PartialEq, Eq, Structural)]
pub struct Header {
    pub abi_version: u32,
    pub struct_size: u32,
    pub capabilities: u64,
}

/// Successful virtual-memory calls and the rejected or failed ones.
#[derive(Clone, Copy, Debug, Default, PartialEq, Eq, Structural)]
pub struct Stats {
    pub reserve_ok: u64,
    pub commit_ok: u64,
    pub decommit_ok: u64,
    pub release_ok: u64,
    pub reset_ok: u64,
    pub rejected_or_failed: u64,
}

/// Successful linear-storage calls and the rejected or failed ones.
#[derive(Clone, Copy, Debug, Default, PartialEq, Eq, Structural)]
pub struct LinearStats {
    pub allocate_ok: u64,
    pub zero_ok: u64,
    pub release_ok: u64,
    pub rejected_or_failed: u64,
}

/// Which callbacks of a group are published: the group's calls, which come
/// together, and its statistics reader.
#[derive(Clone, Copy, Debug, PartialEq, Eq, Structural)]
pub struct GroupOps {
    pub calls: bool,
    pub read_stats: bool,
}

/// A group publishes its calls exactly when its provider is there, and its
/// statistics reader always.
pub open spec fn group_ops(provided: bool) -> GroupOps {
    GroupOps { calls: provided, read_stats: true }
}

/// A caller-owned output object of the C boundary: where it lies, and what it holds.
/// Address 0 is a null pointer.
#[derive(Debug, PartialEq, Eq)]
pub struct Output<T> {
    pub address: usize,
    pub value: T,
}

/// A caller-owned output array of the C boundary: where it starts, and its elements.
#[derive(Debug, PartialEq, Eq)]
pub struct OutArray<T> {
    pub address: usize,
    pub items: Vec<T>,
}

/// Whether `n` is a power of two.
pub open spec fn is_pow2(n: nat) -> bool
    decreases n,
{
    if n == 0 {
        false
    } else if n == 1 {
        true
    } else if n % 2 != 0 {
        false
    } else {
        is_pow2(n / 2)
    }
}

/// Whether `value` is a power of two.
pub fn is_power_of_two(value: usize) -> (r: bool)
    ensures
        r == is_pow2(value as nat),
{
    if value == 0 {
        return false;
    }
    let mut v: usize = value;
    while v % 2 == 0
        invariant
            v > 0,
            is_pow2(v as nat) == is_pow2(value as nat),
        decreases v,
    {
        v = v / 2;
    }
    v == 1
}

/// Whether a 64-bit `value` is a power of two.
pub fn is_power_of_two_u64(value: u64) -> (r: bool)
    ensures
        r == is_pow2(value as nat),
{
    if value == 0 {
        return false;
    }
    let mut v: u64 = value;
    while v % 2 == 0
        invariant
            v > 0,
            is_pow2(v as nat) == is_pow2(value as nat),
        decreases v,
    {
        v = v / 2;
    }
    v == 1
}

/// `size` rounded up to a multiple of `page`.
pub open spec fn rounded_size(size: int, page: int) -> int {
    ((size + page - 1) / page) * page
}

/// Whether `round_size` accepts `size` and `page`.
pub open spec fn round_size_accepts(size: int, page: int) -> bool {
    &&& size != 0
    &&& is_pow2(page as nat)
    &&& size + page - 1 <= usize::MAX
    &&& rounded_size(size, page) <= isize::MAX
}

/// A nonzero size rounded up to a power-of-two page; `None` when the size is zero,
/// the page is not a power of two, or the rounded size overflows or exceeds `isize::MAX`.
pub fn round_size(size: usize, page: usize) -> (r: Option<usize>)
    ensures
        r == (if round_size_accepts(size as int, page as int) {
            Some(rounded_size(size as int, page as int) as usize)
        } else {
            None::<usize>
        }),
{
    if size == 0 || !is_power_of_two(page) {
        return None;
    }
    let end: usize = match size.checked_add(page - 1) {
        Some(e) => e,
        None => return None,
    };
    let quotient: usize = end / page;
    proof {
        vstd::arithmetic::div_mod::lemma_fundamental_div_mod(end as int, page as int);
        vstd::arithmetic::mul::lemma_mul_is_commutative(quotient as int, page as int);
    }
    let rounded: usize = quotient * page;
    if rounded <= isize::MAX as usize {
        Some(rounded)
    } else {
        None
    }
}

/// A rounded size is a multiple of the page, at least the size, and less than a page more.
pub proof fn lemma_rounded_size(size: int, page: int)
    requires
        size > 0,
        page > 0,
    ensures
        rounded_size(size, page) % page == 0,
        size <= rounded_size(size, page) < size + page,
{
    let end = size + page - 1;
    vstd::arithmetic::div_mod::lemma_fundamental_div_mod(end, page);
    vstd::arithmetic::div_mod::lemma_mod_multiples_basic(end / page, page);
    vstd::arithmetic::mul::lemma_mul_is_commutative(end / page, page);
}

/// Whether `geometry` accepts a request, and the rounded size and effective alignment it gives.
pub open spec fn geometry_result(size: int, alignment: int, page: int) -> Option<(usize, usize)> {
    if !round_size_accepts(size, page) {
        None
    } else if alignment != 0 && !is_pow2(alignment as nat) {
        None
    } else {
        let rounded = rounded_size(size, page);
        let effective = if alignment > page { alignment } else { page };
        if rounded + effective - page > isize::MAX {
            None
        } else {
            Some((rounded as usize, effective as usize))
        }
    }
}

/// The geometry law: a request is accepted exactly when its size is nonzero, the page
/// and any alignment are powers of two and the aligned span fits `isize::MAX`; it then
/// takes the larger of its alignment and the page, which is therefore a multiple of both, and its size rounded up to the next
/// whole page, less than a page more than asked for.
pub proof fn lemma_geometry(size: int, alignment: int, page: int)
    requires
        0 <= size <= usize::MAX,
        0 <= alignment <= usize::MAX,
        0 <= page <= usize::MAX,
    ensures
        geometry_result(size, alignment, page) is Some <==> ({
            &&& size != 0 && is_pow2(page as nat) && (alignment == 0 || is_pow2(alignment as nat))
            &&& size + page - 1 <= usize::MAX
            &&& rounded_size(size, page) + vstd::math::max(alignment, page) - page <= isize::MAX
        }),
        geometry_result(size, alignment, page) matches Some((s, a)) ==> ({
            &&& a == vstd::math::max(alignment, page)
            &&& (a as int) % page == 0
            &&& (alignment != 0 ==> (a as int) % alignment == 0)
            &&& (s as int) % page == 0
            &&& size <= s < size + page
        }),
{
    if let Some((s, a)) = geometry_result(size, alignment, page) {
        assert(page > 0);
        lemma_rounded_size(size, page);
        let rounded = rounded_size(size, page);
        let effective = if alignment > page { alignment } else { page };
        assert(s == rounded && a == effective);
        if alignment > page {
            crate::arena::lemma_pow2_divides(page as nat, alignment as nat);
            vstd::arithmetic::div_mod::lemma_mod_self_0(alignment);
        } else {
            vstd::arithmetic::div_mod::lemma_mod_self_0(page);
            if alignment != 0 {
                crate::arena::lemma_pow2_divides(alignment as nat, page as nat);
            }
        }
    }
}

/// The size and alignment a reservation really takes: the size rounded to whole
/// pages and an alignment of at least one page, with room to align inside `isize::MAX`.
pub fn geometry(size: usize, alignment: usize, page: usize) -> (r: Option<(usize, usize)>)
    ensures
        r == geometry_result(size as int, alignment as int, page as int),
        r matches Some((s, a)) ==> a == vstd::math::max(alignment as int, page as int) && a % page == 0
            && (alignment != 0 ==> a % alignment == 0) && s % page == 0 && size <= s < size + page,
{
    proof { lemma_geometry(size as int, alignment as int, page as int); }
    let size: usize = match round_size(size, page) {
        Some(s) => s,
        None => return None,
    };
    if alignment != 0 && !is_power_of_two(alignment) {
        return None;
    }
    let alignment: usize = if alignment > page { alignment } else { page };
    match size.checked_add(alignment - page) {
        Some(total) => {
            if total > isize::MAX as usize {
                None
            } else {
                Some((size, alignment))
            }
        }
        None => None,
    }
}

/// Whether an output object at `address` is usable: not null and aligned.
pub open spec fn is_aligned_output(address: int, alignment: int) -> bool {
    address != 0 && address % alignment == 0
}

/// Whether an output object at `address` is not null and is aligned to `alignment`.
pub fn aligned_output(address: usize, alignment: usize) -> (r: bool)
    requires
        alignment > 0,
    ensures
        r == is_aligned_output(address as int, alignment as int),
{
    address != 0 && address % alignment == 0
}

/// Counts a call: the success counter for `OK`, the failure counter otherwise.
pub fn record(status: u32, counter: &mut Counter, failed: &mut Counter) -> (r: u32)
    ensures
        r == status,
        status == OK ==> final(counter).0 == crate::counter::saturated_next(old(counter).0)
            && final(failed).0 == old(failed).0,
        status != OK ==> final(failed).0 == crate::counter::saturated_next(old(failed).0)
            && final(counter).0 == old(counter).0,
{
    if status == OK {
        counter.increment();
    } else {
        failed.increment();
    }
    status
}

/// The status a provider's reservation answer gives, and the address written (0 on
/// failure): a null, misaligned or wrapping result is a broken provider, never handed on.
pub open spec fn reservation_result(answer: Result<usize, Error>, size: int, alignment: int) -> (u32, usize) {
    match answer {
        Ok(address) => {
            if address == 0 || address as int % alignment != 0 || address + size > usize::MAX {
                (OS_ERROR, 0)
            } else {
                (OK, address)
            }
        }
        Err(e) => (crate::port::error_status(e), 0),
    }
}

/// Checks a provider's reservation or allocation answer.
pub fn reservation_outcome(answer: Result<usize, Error>, size: usize, alignment: usize) -> (r: (u32, usize))
    requires
        alignment > 0,
    ensures
        r == reservation_result(answer, size as int, alignment as int),
{
    match answer {
        Ok(address) => {
            if address == 0 || address % alignment != 0 || address.checked_add(size).is_none() {
                (OS_ERROR, 0)
            } else {
                (OK, address)
            }
        }
        Err(e) => (e.status(), 0),
    }
}

/// Success and failure counters of the virtual-memory calls.
#[derive(Clone, Copy, Debug)]
pub struct VmCounters {
    pub reserve: Counter,
    pub commit: Counter,
    pub decommit: Counter,
    pub release: Counter,
    pub reset: Counter,
    pub failed: Counter,
}

impl VmCounters {
    pub fn new() -> (c: VmCounters)
        ensures
            c.reserve.0 == 0 && c.commit.0 == 0 && c.decommit.0 == 0,
            c.release.0 == 0 && c.reset.0 == 0 && c.failed.0 == 0,
    {
        VmCounters {
            reserve: Counter::new(),
            commit: Counter::new(),
            decommit: Counter::new(),
            release: Counter::new(),
            reset: Counter::new(),
            failed: Counter::new(),
        }
    }

    /// The statistics the counters hold.
    pub fn stats(&self) -> (s: Stats)
        ensures
            s.reserve_ok == self.reserve.0 as u64,
            s.commit_ok == self.commit.0 as u64,
            s.decommit_ok == self.decommit.0 as u64,
            s.release_ok == self.release.0 as u64,
            s.reset_ok == self.reset.0 as u64,
            s.rejected_or_failed == self.failed.0 as u64,
    {
        Stats {
            reserve_ok: self.reserve.load(),
            commit_ok: self.commit.load(),
            decommit_ok: self.decommit.load(),
            release_ok: self.release.load(),
            reset_ok: self.reset.load(),
            rejected_or_failed: self.failed.load(),
        }
    }
}

/// Whether a statistics request names a usable output of at least `needed` bytes.
pub open spec fn stats_request_valid(address: int, alignment: int, size: int, needed: int) -> bool {
    is_aligned_output(address, alignment) && size >= needed
}

/// Writes the virtual-memory statistics: `INVALID_ARGUMENT` without writing when the
/// output is null, misaligned or smaller than the statistics.
pub fn read_stats(counters: &VmCounters, out: &mut Output<Stats>, size: usize) -> (r: u32)
    ensures
        final(out).address == old(out).address,
        r == (if stats_request_valid(old(out).address as int, vstd::layout::align_of::<Stats>() as int, size as int,
            vstd::layout::size_of::<Stats>() as int) { OK } else { INVALID_ARGUMENT }),
        r == OK ==> final(out).value == counters.stats_view(),
        r != OK ==> final(out).value == old(out).value,
{
    broadcast use vstd::layout::align_nonzero;
    if !aligned_output(out.address, core::mem::align_of::<Stats>()) || size < core::mem::size_of::<Stats>() {
        return INVALID_ARGUMENT;
    }
    out.value = counters.stats();
    OK
}

impl VmCounters {
    /// The statistics snapshot of these counters.
    pub open spec fn stats_view(&self) -> Stats {
        Stats {
            reserve_ok: self.reserve.0 as u64,
            commit_ok: self.commit.0 as u64,
            decommit_ok: self.decommit.0 as u64,
            release_ok: self.release.0 as u64,
            reset_ok: self.reset.0 as u64,
            rejected_or_failed: self.failed.0 as u64,
        }
    }
}

/// The status and address of a reservation whose provider answers `page` for its page
/// size and `answer` to the reservation it is asked for.
pub open spec fn reserve_result(size: int, alignment: int, page: int, answer: Result<usize, Error>) -> (u32, usize) {
    match geometry_result(size, alignment, page) {
        None => (INVALID_ARGUMENT, 0usize),
        Some((s, a)) => reservation_result(answer, s as int, a as int),
    }
}

/// Reserves address space through the port. A null or misaligned output is rejected
/// unwritten; otherwise it holds 0 unless the call succeeds, and a success is a
/// nonzero address aligned as `geometry` asks, with the whole reservation inside the address space.
pub fn reserve<V: VirtualMemory>(counters: &mut VmCounters, size: usize, alignment: usize, flags: u32, out: &mut Output<usize>) -> (r: u32)
    ensures
        final(out).address == old(out).address,
        !is_aligned_output(old(out).address as int, vstd::layout::align_of::<usize>() as int)
            ==> r == INVALID_ARGUMENT && final(out).value == old(out).value,
        is_aligned_output(old(out).address as int, vstd::layout::align_of::<usize>() as int) ==> {
            &&& flags != 0 ==> r == UNSUPPORTED
            &&& r != OK ==> final(out).value == 0
        },
        r == OK ==> flags == 0 && final(out).value != 0,
        is_aligned_output(old(out).address as int, vstd::layout::align_of::<usize>() as int) && flags == 0 ==>
            exists|page: usize, answer: Result<usize, Error>| V::page_size_answer(page)
                && (geometry_result(size as int, alignment as int, page as int) matches Some((s, a)) ==> V::reserve_answer(s, a, answer))
                && (r, final(out).value) == #[trigger] reserve_result(size as int, alignment as int, page as int, answer),
        r == OK ==> exists|page: usize| #[trigger] geometry_result(size as int, alignment as int, page as int) matches Some((s, a))
            && final(out).value % a == 0 && final(out).value + s <= usize::MAX,
        r == OK ==> final(counters).reserve.0 == crate::counter::saturated_next(old(counters).reserve.0)
            && final(counters).failed.0 == old(counters).failed.0,
        r != OK ==> final(counters).failed.0 == crate::counter::saturated_next(old(counters).failed.0)
            && final(counters).reserve.0 == old(counters).reserve.0,
        final(counters).commit.0 == old(counters).commit.0 && final(counters).decommit.0 == old(counters).decommit.0
            && final(counters).release.0 == old(counters).release.0 && final(counters).reset.0 == old(counters).reset.0,
{
    broadcast use vstd::layout::align_nonzero;
    if !aligned_output(out.address, core::mem::align_of::<usize>()) {
        return record(INVALID_ARGUMENT, &mut counters.reserve, &mut counters.failed);
    }
    out.value = 0;
    if flags != 0 {
        return record(UNSUPPORTED, &mut counters.reserve, &mut counters.failed);
    }
    let page: usize = V::page_size();
    let ghost asked: (usize, usize) = (size, alignment);
    let (size, alignment) = match geometry(size, alignment, page) {
        Some(g) => g,
        None => {
            assert(reserve_result(asked.0 as int, asked.1 as int, page as int, Ok(0usize)) == (INVALID_ARGUMENT, 0usize));
            return record(INVALID_ARGUMENT, &mut counters.reserve, &mut counters.failed);
        }
    };
    let answer: Result<usize, Error> = V::reserve(size, alignment);
    let (status, address) = reservation_outcome(answer, size, alignment);
    if status == OK {
        out.value = address;
    }
    assert(reserve_result(asked.0 as int, asked.1 as int, page as int, answer) == (status, out.value));
    record(status, &mut counters.reserve, &mut counters.failed)
}

/// The four range operations of the virtual-memory group.
#[derive(Clone, Copy, Debug, PartialEq, Eq, Structural)]
pub enum RangeOp {
    Commit,
    Decommit,
    Release,
    Reset,
}

/// The page-rounded size of a range the range operations accept: a nonzero size,
/// a nonzero page-aligned start and no wrap-around.
pub open spec fn valid_range_result(address: int, size: int, page: int) -> Option<usize> {
    if !round_size_accepts(size, page) {
        None
    } else if address == 0 || address % page != 0 || address + rounded_size(size, page) > usize::MAX {
        None
    } else {
        Some(rounded_size(size, page) as usize)
    }
}

/// Checks a range and rounds its size to whole pages.
pub fn valid_range(address: usize, size: usize, page: usize) -> (r: Option<usize>)
    ensures
        r == valid_range_result(address as int, size as int, page as int),
{
    let size: usize = match round_size(size, page) {
        Some(s) => s,
        None => return None,
    };
    if address == 0 || address % page != 0 {
        return None;
    }
    match address.checked_add(size) {
        Some(_) => Some(size),
        None => None,
    }
}

/// The status of a range operation whose provider answers `page` for its page size and
/// `answer` to the operation.
pub open spec fn range_result(address: int, size: int, page: int, answer: Result<(), Error>) -> u32 {
    match valid_range_result(address, size, page) {
        None => INVALID_ARGUMENT,
        Some(_) => crate::port::result_status(answer),
    }
}

/// The counters after one range operation `op`: its own success counter counts an
/// `OK`, the shared failure counter anything else, and nothing else changes.
pub open spec fn range_counted(before: VmCounters, after: VmCounters, op: RangeOp, ok: bool) -> bool {
    let next = |c: Counter| Counter(crate::counter::saturated_next(c.0));
    let own = |o: RangeOp| ok && o == op;
    &&& after.reserve.0 == before.reserve.0
    &&& after.commit.0 == (if own(RangeOp::Commit) { next(before.commit).0 } else { before.commit.0 })
    &&& after.decommit.0 == (if own(RangeOp::Decommit) { next(before.decommit).0 } else { before.decommit.0 })
    &&& after.release.0 == (if own(RangeOp::Release) { next(before.release).0 } else { before.release.0 })
    &&& after.reset.0 == (if own(RangeOp::Reset) { next(before.reset).0 } else { before.reset.0 })
    &&& after.failed.0 == (if ok { before.failed.0 } else { next(before.failed).0 })
}

/// The answers the port may give to range operation `op` on `size` bytes at `address`.
pub open spec fn range_answer<V: VirtualMemory>(op: RangeOp, address: usize, size: usize, answer: Result<(), Error>) -> bool {
    match op {
        RangeOp::Commit => V::commit_answer(address, size, answer),
        RangeOp::Decommit => V::decommit_answer(address, size, answer),
        RangeOp::Release => V::release_answer(address, size, answer),
        RangeOp::Reset => V::reset_answer(address, size, answer),
    }
}

/// One range operation through the port: `INVALID_ARGUMENT` for a range `valid_range`
/// refuses, the provider's status otherwise.
pub fn range_op<V: VirtualMemory>(op: RangeOp, counters: &mut VmCounters, address: usize, size: usize) -> (r: u32)
    ensures
        range_counted(*old(counters), *final(counters), op, r == OK),
        exists|page: usize, answer: Result<(), Error>| V::page_size_answer(page)
            && (valid_range_result(address as int, size as int, page as int) matches Some(rounded)
                ==> range_answer::<V>(op, address, rounded, answer))
            && r == #[trigger] range_result(address as int, size as int, page as int, answer),
        r != INVALID_ARGUMENT ==> exists|page: usize| #[trigger] valid_range_result(address as int, size as int, page as int) is Some,
{
    let page: usize = V::page_size();
    let rounded: usize = match valid_range(address, size, page) {
        Some(s) => s,
        None => {
            assert(range_result(address as int, size as int, page as int, Ok(())) == INVALID_ARGUMENT);
            return match op {
                RangeOp::Commit => record(INVALID_ARGUMENT, &mut counters.commit, &mut counters.failed),
                RangeOp::Decommit => record(INVALID_ARGUMENT, &mut counters.decommit, &mut counters.failed),
                RangeOp::Release => record(INVALID_ARGUMENT, &mut counters.release, &mut counters.failed),
                RangeOp::Reset => record(INVALID_ARGUMENT, &mut counters.reset, &mut counters.failed),
            };
        }
    };
    let result: Result<(), Error> = match op {
        RangeOp::Commit => V::commit(address, rounded),
        RangeOp::Decommit => V::decommit(address, rounded),
        RangeOp::Release => V::release(address, rounded),
        RangeOp::Reset => V::reset(address, rounded),
    };
    let status: u32 = crate::port::status(&result);
    assert(range_result(address as int, size as int, page as int, result) == status);
    match op {
        RangeOp::Commit => record(status, &mut counters.commit, &mut counters.failed),
        RangeOp::Decommit => record(status, &mut counters.decommit, &mut counters.failed),
        RangeOp::Release => record(status, &mut counters.release, &mut counters.failed),
        RangeOp::Reset => record(status, &mut counters.reset, &mut counters.failed),
    }
}

/// What negotiation needs to know of a port: which memory contract it offers, whether
/// it validates, the geometry its memory provider answers, and which provider of each
/// feature group it has.
#[derive(Clone, Copy, Debug)]
pub struct PortShape {
    pub virtual_memory: bool,
    pub linear: bool,
    pub valid: bool,
    pub page_size: usize,
    pub granularity: usize,
    pub capacity: usize,
    pub dynamic: bool,
    pub clock: bool,
    pub scheduler: bool,
    pub kernel: crate::kernel::Providers,
    pub context: bool,
    /// Whether the signal-context group has a provider behind it.
    pub context_provider: bool,
    pub image: bool,
    pub files: bool,
    pub faults: bool,
    /// The frame layout tag of this architecture; 0 when it has none.
    pub frame_tag: u64,
    pub local_sockets: bool,
    pub accounts: bool,
}

/// Which virtual-memory callbacks a table publishes.
#[derive(Clone, Copy, Debug, PartialEq, Eq, Structural)]
pub struct VmOps {
    pub page_size: bool,
    pub reserve: bool,
    pub commit: bool,
    pub decommit: bool,
    pub release: bool,
    pub reset: bool,
}

/// Which linear-storage callbacks a table publishes.
#[derive(Clone, Copy, Debug, PartialEq, Eq, Structural)]
pub struct LinearOps {
    pub granularity: bool,
    pub capacity: bool,
    pub allocate: bool,
    pub zero: bool,
    pub release: bool,
    pub read_stats: bool,
}

/// The table negotiation publishes: its header, then which callbacks of each group it holds.
#[derive(Clone, Copy, Debug, PartialEq, Eq, Structural)]
pub struct Api {
    pub header: Header,
    pub vm: VmOps,
    pub read_stats: bool,
    pub linear: LinearOps,
    pub services: crate::services::Ops,
    pub kernel: crate::kernel::Ops,
    pub context: GroupOps,
    pub image: GroupOps,
    pub files: GroupOps,
    pub faults: crate::faults::Ops,
    pub local_sockets: GroupOps,
    pub accounts: GroupOps,
}

/// `bit` when `on`, else nothing.
pub open spec fn bit_if(on: bool, bit: u64) -> u64 {
    if on { bit } else { 0u64 }
}

/// The capability bits of the memory contract a port offers.
pub open spec fn memory_capabilities(virtual_memory: bool, linear: bool, dynamic: bool) -> u64 {
    bit_if(virtual_memory, CAP_VM) | bit_if(linear, CAP_LINEAR) | bit_if(linear && dynamic, CAP_DYNAMIC_LINEAR)
}

/// The capability bits of the clock and scheduler group.
pub open spec fn service_capabilities(shape: PortShape) -> u64 {
    bit_if(shape.clock, crate::services::CAP_CLOCK) | bit_if(shape.scheduler, crate::services::CAP_SCHEDULER)
}

/// The capability bits of the groups with one bit each, fault reporting aside.
pub open spec fn single_capabilities(shape: PortShape) -> u64 {
    bit_if(shape.context, crate::context::CAP) | bit_if(shape.image, crate::image::CAP) | bit_if(shape.files, crate::files::CAP)
        | bit_if(shape.local_sockets, crate::local_sockets::CAP) | bit_if(shape.accounts, crate::accounts::CAP)
}

/// All the capability bits a port's table announces.
pub open spec fn port_capabilities(shape: PortShape) -> u64 {
    memory_capabilities(shape.virtual_memory, shape.linear, shape.dynamic) | service_capabilities(shape)
        | crate::kernel::capabilities(shape.kernel) | single_capabilities(shape) | bit_if(shape.faults, crate::faults::CAP)
}

/// The size of the published table.
pub open spec fn table_size() -> u32 {
    vstd::layout::size_of::<Api>() as u32
}

/// The table negotiation publishes for a port, or `None` when negotiation rejects it:
/// a port offers at most one memory contract, must validate, must answer a
/// power-of-two page or granule (and a nonzero linear capacity) for the one it offers,
/// must not announce the signal-context group without a provider for it, and must not
/// claim fault reporting on an architecture without a frame layout.
pub open spec fn build_result(shape: PortShape) -> Option<Api> {
    if shape.virtual_memory && shape.linear {
        None
    } else if !shape.valid {
        None
    } else if shape.virtual_memory && !is_pow2(shape.page_size as nat) {
        None
    } else if shape.linear && (!is_pow2(shape.granularity as nat) || shape.capacity == 0) {
        None
    } else if shape.context && !shape.context_provider {
        None
    } else if shape.faults && shape.frame_tag == 0 {
        None
    } else {
        let vm = shape.virtual_memory;
        let lin = shape.linear;
        Some(Api {
            header: Header { abi_version: ABI_VERSION, struct_size: table_size(), capabilities: port_capabilities(shape) },
            vm: VmOps { page_size: vm, reserve: vm, commit: vm, decommit: vm, release: vm, reset: vm },
            read_stats: true,
            linear: LinearOps { granularity: lin, capacity: lin, allocate: lin, zero: lin, release: lin, read_stats: lin },
            services: crate::services::Ops { monotonic_ns: shape.clock, sleep_ns: shape.scheduler },
            kernel: crate::kernel::published(shape.kernel),
            context: group_ops(shape.context),
            image: group_ops(shape.image),
            files: group_ops(shape.files),
            faults: crate::faults::Ops { frame_tag: shape.faults, frame_size: shape.faults, install: shape.faults, read_stats: true },
            local_sockets: group_ops(shape.local_sockets),
            accounts: group_ops(shape.accounts),
        })
    }
}

/// Builds the table of a port, or `None` when the port rejects negotiation.
pub fn build(shape: &PortShape) -> (r: Option<Api>)
    ensures
        r == build_result(*shape),
{
    if shape.virtual_memory && shape.linear {
        return None;
    }
    if !shape.valid {
        return None;
    }
    if shape.virtual_memory && !is_power_of_two(shape.page_size) {
        return None;
    }
    if shape.linear && (!is_power_of_two(shape.granularity) || shape.capacity == 0) {
        return None;
    }
    let vm_bits: u64 = if shape.virtual_memory { CAP_VM } else { 0 };
    let linear_bits: u64 = if shape.linear { CAP_LINEAR } else { 0 };
    let dynamic_bits: u64 = if shape.linear && shape.dynamic { CAP_DYNAMIC_LINEAR } else { 0 };
    let (services_bits, services_ops) = crate::services::negotiate(shape.clock, shape.scheduler);
    let (kernel_bits, kernel_ops) = crate::kernel::negotiate(shape.kernel);
    let (context_bits, context_ops) = match crate::context::negotiate(shape.context, shape.context_provider) {
        Some(outcome) => outcome,
        None => return None,
    };
    let (image_bits, image_ops) = crate::image::negotiate(shape.image);
    let (files_bits, files_ops) = crate::files::negotiate(shape.files);
    let (faults_bits, faults_ops) = match crate::faults::negotiate(shape.faults, shape.frame_tag) {
        Some(outcome) => outcome,
        None => return None,
    };
    let (local_bits, local_ops) = crate::local_sockets::negotiate(shape.local_sockets);
    let (accounts_bits, accounts_ops) = crate::accounts::negotiate(shape.accounts);
    let capabilities: u64 = (vm_bits | linear_bits | dynamic_bits) | services_bits | kernel_bits
        | (context_bits | image_bits | files_bits | local_bits | accounts_bits) | faults_bits;
    let vm: bool = shape.virtual_memory;
    let lin: bool = shape.linear;
    Some(Api {
        header: Header { abi_version: ABI_VERSION, struct_size: core::mem::size_of::<Api>() as u32, capabilities },
        vm: VmOps { page_size: vm, reserve: vm, commit: vm, decommit: vm, release: vm, reset: vm },
        read_stats: true,
        linear: LinearOps { granularity: lin, capacity: lin, allocate: lin, zero: lin, release: lin, read_stats: lin },
        services: services_ops,
        kernel: kernel_ops,
        context: context_ops,
        image: image_ops,
        files: files_ops,
        faults: faults_ops,
        local_sockets: local_ops,
        accounts: accounts_ops,
    })
}

/// Each group's capability bits lie inside the group's own mask, so the table's bits
/// say exactly which providers a built port has: the memory bits its memory contract,
/// the clock bit a clock, each kernel bit the matching kernel provider, and so on.
pub proof fn lemma_capabilities_name_the_providers(shape: PortShape)
    ensures
        port_capabilities(shape) & (CAP_VM | CAP_LINEAR | CAP_DYNAMIC_LINEAR)
            == memory_capabilities(shape.virtual_memory, shape.linear, shape.dynamic),
        port_capabilities(shape) & (crate::services::CAP_CLOCK | crate::services::CAP_SCHEDULER) == service_capabilities(shape),
        port_capabilities(shape) & crate::kernel::ALL == crate::kernel::capabilities(shape.kernel),
        (port_capabilities(shape) & crate::context::CAP != 0) == shape.context,
        (port_capabilities(shape) & crate::image::CAP != 0) == shape.image,
        (port_capabilities(shape) & crate::files::CAP != 0) == shape.files,
        (port_capabilities(shape) & crate::faults::CAP != 0) == shape.faults,
        (port_capabilities(shape) & crate::local_sockets::CAP != 0) == shape.local_sockets,
        (port_capabilities(shape) & crate::accounts::CAP != 0) == shape.accounts,
        (port_capabilities(shape) & CAP_VM != 0) == shape.virtual_memory,
        (port_capabilities(shape) & crate::services::CAP_CLOCK != 0) == shape.clock,
        (port_capabilities(shape) & crate::services::CAP_SCHEDULER != 0) == shape.scheduler,
{
    let m = memory_capabilities(shape.virtual_memory, shape.linear, shape.dynamic);
    let sv = service_capabilities(shape);
    let k = crate::kernel::capabilities(shape.kernel);
    let (c, i, f, l, a, t) = (shape.context, shape.image, shape.files, shape.local_sockets, shape.accounts, shape.faults);
    let (v, n, d, ck, sc) = (shape.virtual_memory, shape.linear, shape.linear && shape.dynamic, shape.clock, shape.scheduler);
    proof_kernel_bits(shape.kernel);
    assert((1u64 | 2u64 | 262144u64) == 262147u64 && (4u64 | 8u64) == 12u64) by (bit_vector);
    assert(m == (if v { 1u64 } else { 0u64 }) | (if n { 2u64 } else { 0u64 }) | (if d { 262144u64 } else { 0u64 }));
    assert(sv == (if ck { 4u64 } else { 0u64 }) | (if sc { 8u64 } else { 0u64 }));
    let x = (if c { 131072u64 } else { 0u64 }) | (if i { 33554432u64 } else { 0u64 }) | (if f { 134217728u64 } else { 0u64 })
        | (if l { 274877906944u64 } else { 0u64 }) | (if a { 549755813888u64 } else { 0u64 });
    assert(single_capabilities(shape) == x);
    let y = if t { 536870912u64 } else { 0u64 };
    assert(port_capabilities(shape) == m | sv | k | x | y);
    assert(k & !1008u64 == 0 ==> {
        let all = ((if v { 1u64 } else { 0u64 }) | (if n { 2u64 } else { 0u64 }) | (if d { 262144u64 } else { 0u64 }))
            | ((if ck { 4u64 } else { 0u64 }) | (if sc { 8u64 } else { 0u64 })) | k
            | ((if c { 131072u64 } else { 0u64 }) | (if i { 33554432u64 } else { 0u64 }) | (if f { 134217728u64 } else { 0u64 })
                | (if l { 274877906944u64 } else { 0u64 }) | (if a { 549755813888u64 } else { 0u64 }))
            | (if t { 536870912u64 } else { 0u64 });
        &&& all & 262147u64 == ((if v { 1u64 } else { 0u64 }) | (if n { 2u64 } else { 0u64 }) | (if d { 262144u64 } else { 0u64 }))
        &&& all & 12u64 == ((if ck { 4u64 } else { 0u64 }) | (if sc { 8u64 } else { 0u64 }))
        &&& all & 1008u64 == k
        &&& (all & 131072u64 != 0) == c
        &&& (all & 33554432u64 != 0) == i
        &&& (all & 134217728u64 != 0) == f
        &&& (all & 536870912u64 != 0) == t
        &&& (all & 274877906944u64 != 0) == l
        &&& (all & 549755813888u64 != 0) == a
        &&& (all & 1u64 != 0) == v
        &&& (all & 4u64 != 0) == ck
        &&& (all & 8u64 != 0) == sc
    }) by (bit_vector);
}

proof fn proof_kernel_bits(p: crate::kernel::Providers)
    ensures
        crate::kernel::capabilities(p) & !1008u64 == 0,
{
    crate::kernel::lemma_bits_match_callbacks(p);
}

/// A port with no provider at all negotiates a table with no capability bits that
/// publishes no call: only the statistics readers of the table, the kernel group and
/// the fault group, and the groups' own readers.
pub proof fn lemma_empty_port(shape: PortShape)
    requires
        shape.valid,
        !shape.virtual_memory && !shape.linear && !shape.clock && !shape.scheduler,
        !shape.kernel.events && !shape.kernel.mutexes && !shape.kernel.threads && !shape.kernel.thread_local
            && !shape.kernel.stack_bounds && !shape.kernel.process_barrier,
        !shape.context && !shape.image && !shape.files && !shape.faults && !shape.local_sockets && !shape.accounts,
    ensures
        build_result(shape) matches Some(api) && {
            &&& api.header.abi_version == ABI_VERSION
            &&& api.header.capabilities == 0
            &&& api.read_stats && api.kernel.read_stats && api.faults.read_stats
            &&& !api.vm.reserve && !api.vm.page_size && !api.linear.allocate && !api.linear.read_stats
            &&& !api.services.monotonic_ns && !api.services.sleep_ns
            &&& !api.kernel.event_create && !api.kernel.mutex_create && !api.kernel.thread_create && !api.kernel.tls_create
            &&& !api.kernel.stack_bounds && !api.kernel.process_barrier
            &&& !api.context.calls && !api.image.calls && !api.files.calls && !api.faults.install
            &&& !api.local_sockets.calls && !api.accounts.calls
        },
{
    assert((0u64 | 0u64 | 0u64) | (0u64 | 0u64) | (0u64 | 0u64 | 0u64 | 0u64 | 0u64 | 0u64) | (0u64 | 0u64 | 0u64 | 0u64 | 0u64) | 0u64 == 0u64)
        by (bit_vector);
}

/// A port whose only provider is a clock announces just the clock bit and publishes the
/// clock's callback but not the scheduler's.
pub proof fn lemma_clock_only_port(shape: PortShape)
    requires
        shape.valid,
        shape.clock,
        !shape.virtual_memory && !shape.linear && !shape.scheduler,
        !shape.kernel.events && !shape.kernel.mutexes && !shape.kernel.threads && !shape.kernel.thread_local
            && !shape.kernel.stack_bounds && !shape.kernel.process_barrier,
        !shape.context && !shape.image && !shape.files && !shape.faults && !shape.local_sockets && !shape.accounts,
    ensures
        build_result(shape) matches Some(api) && {
            &&& api.header.capabilities == crate::services::CAP_CLOCK
            &&& api.services.monotonic_ns
            &&& !api.services.sleep_ns
        },
{
    assert((0u64 | 0u64 | 0u64) | (4u64 | 0u64) | (0u64 | 0u64 | 0u64 | 0u64 | 0u64 | 0u64) | (0u64 | 0u64 | 0u64 | 0u64 | 0u64) | 0u64 == 4u64)
        by (bit_vector);
}

/// Where one negotiated table stands: not negotiated yet, published, or rejected for good.
#[derive(Clone, Copy, Debug, PartialEq, Eq, Structural)]
pub enum SlotState {
    Uninitialized,
    Ready(Api),
    Rejected,
}

/// Storage for one negotiated table: written once, then unchanged for the
/// process or instance lifetime.
#[derive(Debug)]
pub struct Slot {
    pub state: SlotState,
}

/// The state and the answer of one negotiation request, given the header the port
/// would build: a foreign version is refused and changes nothing; the first request
/// of the right version decides, and its decision is final.
pub open spec fn negotiation_step(state: SlotState, version: u32, built: Option<Api>) -> (SlotState, Option<Api>) {
    if version != ABI_VERSION {
        (state, None)
    } else {
        match state {
            SlotState::Ready(h) => (state, Some(h)),
            SlotState::Rejected => (state, None),
            SlotState::Uninitialized => match built {
                Some(h) => (SlotState::Ready(h), Some(h)),
                None => (SlotState::Rejected, None),
            },
        }
    }
}

impl Slot {
    pub fn new() -> (s: Slot)
        ensures
            s.state == SlotState::Uninitialized,
    {
        Slot { state: SlotState::Uninitialized }
    }

    /// The table the negotiation stored, where it is stored: the same table every time.
    pub fn table(&self) -> (r: Option<&Api>)
        ensures
            r is None <==> !(self.state is Ready),
            r matches Some(t) ==> self.state == SlotState::Ready(*t),
    {
        match &self.state {
            SlotState::Ready(h) => Some(h),
            _ => None,
        }
    }

    /// Negotiates (once) and returns the table, or `None`. The port is built only
    /// by the first request of the right version.
    pub fn negotiate(&mut self, version: u32, shape: &PortShape) -> (r: Option<Api>)
        ensures
            (final(self).state, r) == negotiation_step(old(self).state, version, build_result(*shape)),
    {
        if version != ABI_VERSION {
            return None;
        }
        match self.state {
            SlotState::Ready(h) => Some(h),
            SlotState::Rejected => None,
            SlotState::Uninitialized => {
                let built = build(shape);
                match built {
                    Some(h) => {
                        self.state = SlotState::Ready(h);
                        Some(h)
                    }
                    None => {
                        self.state = SlotState::Rejected;
                        None
                    }
                }
            }
        }
    }
}

/// A negotiation's decision is final: once a request of the right version has been
/// answered, every later request is answered the same (a foreign version gets
/// `None`), whatever port shape it comes with, and the slot does not change again.
pub proof fn lemma_negotiation_is_final(state: SlotState, built: Option<Api>, version: u32, later: Option<Api>)
    ensures
        ({
            let (decided, answer) = negotiation_step(state, ABI_VERSION, built);
            let (again, answer2) = negotiation_step(decided, version, later);
            &&& again == decided
            &&& decided != SlotState::Uninitialized
            &&& answer2 == (if version == ABI_VERSION { answer } else { None })
        }),
{
}

/// The capability bits of the groups never alias: every group has at least one bit,
/// and none shares a bit with a group before it, so no two groups share a bit.
pub proof fn lemma_capability_bits_disjoint()
    ensures
        ({
            let bits = seq![CAP_VM, CAP_LINEAR, CAP_DYNAMIC_LINEAR, crate::services::CAP_CLOCK, crate::services::CAP_SCHEDULER,
                crate::kernel::ALL, crate::context::CAP, crate::image::CAP, crate::files::CAP, crate::faults::CAP,
                crate::local_sockets::CAP, crate::accounts::CAP];
            forall|i: int, j: int| 0 <= i < j < bits.len() ==> bits[i] != 0 && #[trigger] bits[i] & #[trigger] bits[j] == 0
        }),
{
    let bits = seq![CAP_VM, CAP_LINEAR, CAP_DYNAMIC_LINEAR, crate::services::CAP_CLOCK, crate::services::CAP_SCHEDULER,
        crate::kernel::ALL, crate::context::CAP, crate::image::CAP, crate::files::CAP, crate::faults::CAP,
        crate::local_sockets::CAP, crate::accounts::CAP];
    assert forall|i: int, j: int| 0 <= i < j < bits.len() implies bits[i] != 0 && #[trigger] bits[i] & #[trigger] bits[j] == 0 by {
        let a = bits[i];
        let b = bits[j];
        assert(a == 1 || a == 2 || a == 262144 || a == 4 || a == 8 || a == 1008 || a == 131072 || a == 33554432
            || a == 134217728 || a == 536870912 || a == 274877906944 || a == 549755813888);
        assert(b == 1 || b == 2 || b == 262144 || b == 4 || b == 8 || b == 1008 || b == 131072 || b == 33554432
            || b == 134217728 || b == 536870912 || b == 274877906944 || b == 549755813888);
        assert(a != b);
        assert((a == 1 || a == 2 || a == 262144 || a == 4 || a == 8 || a == 1008 || a == 131072 || a == 33554432
            || a == 134217728 || a == 536870912 || a == 274877906944 || a == 549755813888)
            && (b == 1 || b == 2 || b == 262144 || b == 4 || b == 8 || b == 1008 || b == 131072 || b == 33554432
            || b == 134217728 || b == 536870912 || b == 274877906944 || b == 549755813888) && a != b
            ==> a & b == 0) by (bit_vector);
    }
}

/// Success and failure counters of the linear-storage calls.
#[derive(Clone, Copy, Debug)]
pub struct LinearCounters {
    pub allocate: Counter,
    pub zero: Counter,
    pub release: Counter,
    pub errors: Counter,
}

impl LinearCounters {
    pub fn new() -> (c: LinearCounters)
        ensures
            c.allocate.0 == 0 && c.zero.0 == 0 && c.release.0 == 0 && c.errors.0 == 0,
    {
        LinearCounters { allocate: Counter::new(), zero: Counter::new(), release: Counter::new(), errors: Counter::new() }
    }

    /// The statistics the counters hold.
    pub fn stats(&self) -> (s: LinearStats)
        ensures
            s.allocate_ok == self.allocate.0 as u64,
            s.zero_ok == self.zero.0 as u64,
            s.release_ok == self.release.0 as u64,
            s.rejected_or_failed == self.errors.0 as u64,
    {
        LinearStats {
            allocate_ok: self.allocate.load(),
            zero_ok: self.zero.load(),
            release_ok: self.release.load(),
            rejected_or_failed: self.errors.load(),
        }
    }
}

/// Allocates linear storage through the port, with the reservation's rules: granule
/// geometry, no flags, and a nonzero, aligned, non-wrapping result.
pub fn linear_allocate<L: LinearStorage>(counters: &mut LinearCounters, size: usize, alignment: usize, flags: u32, out: &mut Output<usize>) -> (r: u32)
    ensures
        final(out).address == old(out).address,
        !is_aligned_output(old(out).address as int, vstd::layout::align_of::<usize>() as int)
            ==> r == INVALID_ARGUMENT && final(out).value == old(out).value,
        is_aligned_output(old(out).address as int, vstd::layout::align_of::<usize>() as int) ==> {
            &&& flags != 0 ==> r == UNSUPPORTED
            &&& r != OK ==> final(out).value == 0
        },
        r == OK ==> flags == 0 && final(out).value != 0,
        is_aligned_output(old(out).address as int, vstd::layout::align_of::<usize>() as int) && flags == 0 ==>
            exists|granule: usize, answer: Result<usize, Error>| L::granularity_answer(granule)
                && (geometry_result(size as int, alignment as int, granule as int) matches Some((s, a)) ==> L::allocate_answer(s, a, answer))
                && (r, final(out).value) == #[trigger] reserve_result(size as int, alignment as int, granule as int, answer),
        r == OK ==> exists|granule: usize| #[trigger] geometry_result(size as int, alignment as int, granule as int) matches Some((s, a))
            && final(out).value % a == 0 && final(out).value + s <= usize::MAX,
        r == OK ==> final(counters).allocate.0 == crate::counter::saturated_next(old(counters).allocate.0),
        r != OK ==> final(counters).errors.0 == crate::counter::saturated_next(old(counters).errors.0),
{
    broadcast use vstd::layout::align_nonzero;
    if !aligned_output(out.address, core::mem::align_of::<usize>()) {
        return record(INVALID_ARGUMENT, &mut counters.allocate, &mut counters.errors);
    }
    out.value = 0;
    if flags != 0 {
        return record(UNSUPPORTED, &mut counters.allocate, &mut counters.errors);
    }
    let granule: usize = L::granularity();
    let ghost asked: (usize, usize) = (size, alignment);
    let (size, alignment) = match geometry(size, alignment, granule) {
        Some(g) => g,
        None => {
            assert(reserve_result(asked.0 as int, asked.1 as int, granule as int, Ok(0usize)) == (INVALID_ARGUMENT, 0usize));
            return record(INVALID_ARGUMENT, &mut counters.allocate, &mut counters.errors);
        }
    };
    let answer: Result<usize, Error> = L::allocate(size, alignment);
    let (status, address) = reservation_outcome(answer, size, alignment);
    if status == OK {
        out.value = address;
    }
    assert(reserve_result(asked.0 as int, asked.1 as int, granule as int, answer) == (status, out.value));
    record(status, &mut counters.allocate, &mut counters.errors)
}

/// Zeroes a nonzero, non-null, non-wrapping range through the port.
pub fn linear_zero<L: LinearStorage>(counters: &mut LinearCounters, address: usize, size: usize) -> (r: u32)
    ensures
        (address == 0 || size == 0 || address + size > usize::MAX) ==> r == INVALID_ARGUMENT,
        !(address == 0 || size == 0 || address + size > usize::MAX) ==>
            exists|answer: Result<(), Error>| L::zero_answer(address, size, answer) && r == #[trigger] crate::port::result_status(answer),
        r == OK ==> final(counters).zero.0 == crate::counter::saturated_next(old(counters).zero.0),
        r != OK ==> final(counters).errors.0 == crate::counter::saturated_next(old(counters).errors.0),
{
    if address == 0 || size == 0 || address.checked_add(size).is_none() {
        return record(INVALID_ARGUMENT, &mut counters.zero, &mut counters.errors);
    }
    let result = L::zero(address, size);
    let status: u32 = crate::port::status(&result);
    assert(status == crate::port::result_status(result));
    record(status, &mut counters.zero, &mut counters.errors)
}

/// The status of a release whose provider answers `granule` for its granule and
/// `answer` to the release.
pub open spec fn release_result(address: int, size: int, granule: int, answer: Result<(), Error>) -> u32 {
    if !round_size_accepts(size, granule) || address == 0 { INVALID_ARGUMENT } else { crate::port::result_status(answer) }
}

/// Releases an allocation through the port, its size rounded to whole granules.
pub fn linear_release<L: LinearStorage>(counters: &mut LinearCounters, address: usize, size: usize) -> (r: u32)
    ensures
        address == 0 ==> r == INVALID_ARGUMENT,
        exists|granule: usize, answer: Result<(), Error>| L::granularity_answer(granule)
            && (round_size_accepts(size as int, granule as int) && address != 0
                ==> L::release_answer(address, rounded_size(size as int, granule as int) as usize, answer))
            && r == #[trigger] release_result(address as int, size as int, granule as int, answer),
        r != INVALID_ARGUMENT ==> exists|granule: usize| #[trigger] round_size_accepts(size as int, granule as int),
        r == OK ==> final(counters).release.0 == crate::counter::saturated_next(old(counters).release.0),
        r != OK ==> final(counters).errors.0 == crate::counter::saturated_next(old(counters).errors.0),
{
    let granule: usize = L::granularity();
    let rounded: usize = match round_size(size, granule) {
        Some(s) => s,
        None => {
            assert(release_result(address as int, size as int, granule as int, Ok(())) == INVALID_ARGUMENT);
            return record(INVALID_ARGUMENT, &mut counters.release, &mut counters.errors);
        }
    };
    if address == 0 {
        assert(release_result(address as int, size as int, granule as int, Ok(())) == INVALID_ARGUMENT);
        return record(INVALID_ARGUMENT, &mut counters.release, &mut counters.errors);
    }
    let result = L::release(address, rounded);
    let status: u32 = crate::port::status(&result);
    assert(release_result(address as int, size as int, granule as int, result) == status);
    record(status, &mut counters.release, &mut counters.errors)
}

} // verus!
