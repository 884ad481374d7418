//! CPU placement and machine measurements in platform-neutral units.
//! No cpu_set_t, sysinfo, rlimit, or platform selector numbers cross this ABI.
use vstd::prelude::*;
use crate::counter::{saturated_next, Counters};
use crate::port::{error_status, Error, Machine};
use crate::runtime::BUFFER_TOO_SMALL;
use crate::{aligned_output, is_aligned_output, is_pow2, is_power_of_two_u64, OutArray, Output};
use crate::{INVALID_ARGUMENT, OK, OS_ERROR, OUT_OF_MEMORY, UNSUPPORTED};

verus! {

broadcast use vstd::layout::layout_of_primitives, vstd::layout::align_nonzero;

pub const CAP: u64 = 8388608;
pub const MAX_CPUS: usize = 65536;
pub const ONLINE_CPUS: u32 = 1;
pub const POSSIBLE_CPUS: u32 = 2;
pub const PHYSICAL_BYTES: u32 = 3;
pub const AVAILABLE_BYTES: u32 = 4;
pub const SWAP_BYTES: u32 = 5;
pub const ADDRESS_LIMIT: u32 = 6;
pub const CACHE_L1: u32 = 7;
pub const CACHE_L2: u32 = 8;
pub const CACHE_L3: u32 = 9;
pub const CACHE_L4: u32 = 10;
pub const PAGE_BYTES: u32 = 11;

/// What a provider's affinity answer holds: how many CPUs it wrote, or how many
/// the list needs when the buffer is too small. The list is strictly increasing.
#[derive(Clone, Copy, Debug, PartialEq, Eq, Structural)]
pub enum CpuList {
    Written(usize),
    Required(usize),
}

/// Successful calls per operation, and the rejected ones.
#[derive(Clone, Copy, Debug, Default, PartialEq, Eq, Structural)]
pub struct Stats {
    pub query_ok: u64,
    pub affinity_ok: u64,
    pub bind_ok: u64,
    pub current_ok: u64,
    pub rejected: u64,
}

/// Counter of rejected and failed calls.
pub const REJECTED: usize = 4;

/// The status a call reports: the shared set passes, `BUFFER_TOO_SMALL` passes for
/// the affinity call, and anything else is `OS_ERROR`.
pub open spec fn sanitized(code: u32, index: int) -> u32 {
    if code == OK || code == INVALID_ARGUMENT || code == OS_ERROR || code == UNSUPPORTED || code == OUT_OF_MEMORY {
        code
    } else if code == BUFFER_TOO_SMALL && index == 1 {
        code
    } else {
        OS_ERROR
    }
}

/// The counters a fresh machine group starts with.
pub fn counters() -> (c: Counters)
    ensures
        c.len() == 5,
        forall|i: int| 0 <= i < 5 ==> c.value(i) == 0,
{
    Counters::new(5)
}

/// Sanitizes a status and counts the call: counter `index` on success, `REJECTED` otherwise.
pub fn record(code: u32, index: usize, counters: &mut Counters) -> (r: u32)
    requires
        index < REJECTED,
        old(counters).len() == 5,
    ensures
        r == sanitized(code, index as int),
        final(counters).len() == 5,
        ({
            let slot = if r == OK { index as int } else { REJECTED as int };
            &&& final(counters).value(slot) == saturated_next(old(counters).value(slot))
            &&& forall|i: int| 0 <= i < 5 && i != slot ==> final(counters).value(i) == old(counters).value(i)
        }),
{
    let code: u32 = if code == OK || code == INVALID_ARGUMENT || code == OS_ERROR || code == UNSUPPORTED || code == OUT_OF_MEMORY {
        code
    } else if code == BUFFER_TOO_SMALL && index == 1 {
        code
    } else {
        OS_ERROR
    };
    counters.increment(if code == OK { index } else { REJECTED });
    code
}

/// The status and value of a provider's answer to `query(kind)`: CPU counts are
/// 1..=`MAX_CPUS`, the page size a power of two no larger than `isize::MAX`, and the
/// physical memory nonzero; anything else is a broken provider.
pub open spec fn query_result(kind: u32, answer: Result<u64, Error>) -> (u32, u64) {
    match answer {
        Ok(v) => {
            if (kind == ONLINE_CPUS || kind == POSSIBLE_CPUS) && (v == 0 || v > MAX_CPUS) {
                (OS_ERROR, 0)
            } else if kind == PAGE_BYTES && (!is_pow2(v as nat) || v > isize::MAX) {
                (OS_ERROR, 0)
            } else if kind == PHYSICAL_BYTES && v == 0 {
                (OS_ERROR, 0)
            } else {
                (OK, v)
            }
        }
        Err(e) => (error_status(e), 0),
    }
}

/// Checks a provider's answer to `query(kind)`: the status, and the value that is written (0 on failure).
pub fn query_outcome(kind: u32, answer: Result<u64, Error>) -> (r: (u32, u64))
    ensures
        r == query_result(kind, answer),
{
    match answer {
        Ok(v) => {
            if (kind == ONLINE_CPUS || kind == POSSIBLE_CPUS) && (v == 0 || v > MAX_CPUS as u64) {
                (OS_ERROR, 0)
            } else if kind == PAGE_BYTES && (!is_power_of_two_u64(v) || v > isize::MAX as u64) {
                (OS_ERROR, 0)
            } else if kind == PHYSICAL_BYTES && v == 0 {
                (OS_ERROR, 0)
            } else {
                (OK, v)
            }
        }
        Err(e) => (e.status(), 0),
    }
}

/// One machine measurement. A null or misaligned output is rejected without being
/// written; otherwise it is cleared, then holds the checked answer on success.
pub fn query<M: Machine>(counters: &mut Counters, kind: u32, out: &mut Output<u64>) -> (r: u32)
    requires
        old(counters).len() == 5,
    ensures
        final(counters).len() == 5,
        crate::files::counted(*old(counters), *final(counters), if r == OK { 0 } else { REJECTED as int }),
        final(out).address == old(out).address,
        !is_aligned_output(old(out).address as int, vstd::layout::align_of::<u64>() as int) ==> r == INVALID_ARGUMENT
            && final(out).value == old(out).value,
        is_aligned_output(old(out).address as int, vstd::layout::align_of::<u64>() as int) && !(ONLINE_CPUS <= kind <= PAGE_BYTES)
            ==> r == UNSUPPORTED && final(out).value == 0,
        is_aligned_output(old(out).address as int, vstd::layout::align_of::<u64>() as int) && ONLINE_CPUS <= kind <= PAGE_BYTES
            ==> exists|answer: Result<u64, Error>| M::query_answer(kind, answer)
                && r == sanitized((#[trigger] query_result(kind, answer)).0, 0) && final(out).value == query_result(kind, answer).1,
        r == OK ==> ONLINE_CPUS <= kind <= PAGE_BYTES,
{
    if !aligned_output(out.address, core::mem::align_of::<u64>()) {
        return record(INVALID_ARGUMENT, 0, counters);
    }
    out.value = 0;
    if !(ONLINE_CPUS <= kind && kind <= PAGE_BYTES) {
        return record(UNSUPPORTED, 0, counters);
    }
    let answer: Result<u64, Error> = M::query(kind);
    let (code, value) = query_outcome(kind, answer);
    if code == OK {
        out.value = value;
    }
    record(code, 0, counters)
}

/// Whether the first `n` CPUs of `list` are a list a consumer can use: each one
/// below `MAX_CPUS`, and each one greater than the one before it.
pub open spec fn valid_cpu_list(list: Seq<u32>, n: int) -> bool {
    &&& n <= list.len()
    &&& forall|i: int| 0 <= i < n ==> (#[trigger] list[i]) < MAX_CPUS
    &&& forall|i: int| 0 <= i < n - 1 ==> #[trigger] list[i] < list[i + 1]
}

/// The status and the count a provider's affinity answer gives, for a buffer of
/// `capacity` elements that holds `list` afterwards.
pub open spec fn affinity_result(answer: Result<CpuList, Error>, capacity: int, list: Seq<u32>) -> (u32, usize) {
    match answer {
        Ok(CpuList::Written(n)) => {
            if 0 < n <= capacity && valid_cpu_list(list, n as int) {
                (OK, n)
            } else {
                (OS_ERROR, 0)
            }
        }
        Ok(CpuList::Required(n)) => {
            if capacity < n <= MAX_CPUS {
                (BUFFER_TOO_SMALL, n)
            } else {
                (OS_ERROR, 0)
            }
        }
        Err(e) => {
            if error_status(e) == BUFFER_TOO_SMALL {
                (OS_ERROR, 0)
            } else {
                (error_status(e), 0)
            }
        }
    }
}

/// Checks a provider's affinity answer against the buffer it wrote.
pub fn affinity_outcome(answer: Result<CpuList, Error>, capacity: usize, list: &Vec<u32>) -> (r: (u32, usize))
    ensures
        r == affinity_result(answer, capacity as int, list@),
{
    match answer {
        Ok(CpuList::Written(n)) => {
            if n == 0 || n > capacity || n > list.len() {
                return (OS_ERROR, 0);
            }
            let mut i: usize = 0;
            while i < n
                invariant
                    answer == Ok::<CpuList, Error>(CpuList::Written(n)),
                    0 < n <= capacity,
                    0 < n <= list@.len(),
                    i <= n,
                    forall|k: int| 0 <= k < i ==> (#[trigger] list@[k]) < MAX_CPUS,
                    forall|k: int| 0 <= k < i && k < n - 1 ==> #[trigger] list@[k] < list@[k + 1],
                decreases n - i,
            {
                if list[i] as usize >= MAX_CPUS {
                    assert(list@[i as int] >= MAX_CPUS);
                    return (OS_ERROR, 0);
                }
                if i + 1 < n && list[i] >= list[i + 1] {
                    assert(!(list@[i as int] < list@[i as int + 1]));
                    return (OS_ERROR, 0);
                }
                i = i + 1;
            }
            (OK, n)
        }
        Ok(CpuList::Required(n)) => {
            if n > capacity && n <= MAX_CPUS {
                (BUFFER_TOO_SMALL, n)
            } else {
                (OS_ERROR, 0)
            }
        }
        Err(e) => {
            let code: u32 = e.status();
            if code == BUFFER_TOO_SMALL {
                (OS_ERROR, 0)
            } else {
                (code, 0)
            }
        }
    }
}

/// Whether the affinity call's outputs are usable: the count aligned, at most
/// `MAX_CPUS` elements in an aligned array, neither object wrapping around the
/// address space, and the array not overlapping the count.
pub open spec fn affinity_arguments_valid(out: int, capacity: int, count: int) -> bool {
    let list_bytes = capacity * vstd::layout::size_of::<u32>();
    let count_bytes = vstd::layout::size_of::<usize>() as int;
    &&& is_aligned_output(count, vstd::layout::align_of::<usize>() as int)
    &&& capacity <= MAX_CPUS
    &&& (capacity == 0 || is_aligned_output(out, vstd::layout::align_of::<u32>() as int))
    &&& out + list_bytes <= usize::MAX
    &&& count + count_bytes <= usize::MAX
    &&& !(capacity != 0 && out < count + count_bytes && count < out + list_bytes)
}

/// Checks the affinity call's output objects before anything is written.
pub fn affinity_arguments(out: usize, capacity: usize, count: usize) -> (r: bool)
    ensures
        r == affinity_arguments_valid(out as int, capacity as int, count as int),
{
    if !aligned_output(count, core::mem::align_of::<usize>()) {
        return false;
    }
    if capacity > MAX_CPUS || (capacity != 0 && !aligned_output(out, core::mem::align_of::<u32>())) {
        return false;
    }
    let end: usize = match out.checked_add(capacity * core::mem::size_of::<u32>()) {
        Some(e) => e,
        None => return false,
    };
    let count_end: usize = match count.checked_add(core::mem::size_of::<usize>()) {
        Some(e) => e,
        None => return false,
    };
    !(capacity != 0 && out < count_end && count < end)
}

/// Sets every element of `items` to zero.
pub fn clear(items: &mut Vec<u32>)
    ensures
        final(items)@.len() == old(items)@.len(),
        forall|i: int| 0 <= i < final(items)@.len() ==> final(items)@[i] == 0,
        final(items)@ == zero_ids(old(items)@.len() as int),
{
    let mut i: usize = 0;
    while i < items.len()
        invariant
            i <= items@.len(),
            items@.len() == old(items)@.len(),
            forall|k: int| 0 <= k < i ==> items@[k] == 0,
        decreases items@.len() - i,
    {
        items.set(i, 0);
        i = i + 1;
    }
    assert(items@ =~= zero_ids(old(items)@.len() as int));
}

/// What the affinity call hands its provider: the buffer cleared, unless it is empty.
pub open spec fn cleared(items: Seq<u32>, capacity: usize) -> Seq<u32> {
    if capacity != 0 { zero_ids(items.len() as int) } else { items }
}

/// `n` zero ids.
pub open spec fn zero_ids(n: int) -> Seq<u32> {
    Seq::new(n as nat, |i: int| 0u32)
}

/// The CPUs the process may run on. Rejected arguments leave both outputs untouched;
/// otherwise a success leaves a valid list of `count` CPUs, a short buffer leaves the
/// count needed and a cleared buffer, and any other outcome a zero count and a cleared buffer.
pub fn affinity<M: Machine>(counters: &mut Counters, out: &mut OutArray<u32>, capacity: usize, count: &mut Output<usize>) -> (r: u32)
    requires
        old(counters).len() == 5,
        old(out).items@.len() == capacity,
    ensures
        final(counters).len() == 5,
        crate::files::counted(*old(counters), *final(counters), if r == OK { 1 } else { REJECTED as int }),
        final(out).address == old(out).address,
        final(count).address == old(count).address,
        !affinity_arguments_valid(old(out).address as int, capacity as int, old(count).address as int)
            ==> r == INVALID_ARGUMENT && *final(out) == *old(out) && *final(count) == *old(count),
        r == OK ==> 0 < final(count).value <= capacity && valid_cpu_list(final(out).items@, final(count).value as int),
        r == BUFFER_TOO_SMALL ==> capacity < final(count).value <= MAX_CPUS,
        affinity_arguments_valid(old(out).address as int, capacity as int, old(count).address as int) && r != OK ==>
            forall|i: int| 0 <= i < final(out).items@.len() ==> final(out).items@[i] == 0,
        affinity_arguments_valid(old(out).address as int, capacity as int, old(count).address as int)
            && r != OK && r != BUFFER_TOO_SMALL ==> final(count).value == 0,
        affinity_arguments_valid(old(out).address as int, capacity as int, old(count).address as int)
            ==> exists|answer: Result<CpuList, Error>, list: Seq<u32>|
                M::process_affinity_answer(capacity, cleared(old(out).items@, capacity), list, answer)
                && r == sanitized((#[trigger] affinity_result(answer, capacity as int, list)).0, 1)
                && final(count).value == affinity_result(answer, capacity as int, list).1
                && (r == OK ==> final(out).items@ == list),
{
    if !affinity_arguments(out.address, capacity, count.address) {
        return record(INVALID_ARGUMENT, 1, counters);
    }
    count.value = 0;
    if capacity != 0 {
        clear(&mut out.items);
    }
    let answer = M::process_affinity(&mut out.items, capacity);
    let ghost written: Seq<u32> = out.items@;
    let (code, length) = affinity_outcome(answer, capacity, &out.items);
    if code != OK {
        clear(&mut out.items);
    }
    count.value = length;
    let r: u32 = record(code, 1, counters);
    assert(r == sanitized(affinity_result(answer, capacity as int, written).0, 1));
    r
}

/// Binds the calling thread to one CPU below `MAX_CPUS`.
pub fn bind<M: Machine>(counters: &mut Counters, cpu: u32) -> (r: u32)
    requires
        old(counters).len() == 5,
    ensures
        final(counters).len() == 5,
        crate::files::counted(*old(counters), *final(counters), if r == OK { 2 } else { REJECTED as int }),
        cpu as usize >= MAX_CPUS ==> r == INVALID_ARGUMENT,
        (cpu as usize) < MAX_CPUS ==> exists|answer: Result<(), Error>| M::bind_current_answer(cpu, answer)
            && r == sanitized(#[trigger] crate::port::result_status(answer), 2),
{
    if cpu as usize >= MAX_CPUS {
        return record(INVALID_ARGUMENT, 2, counters);
    }
    let result = M::bind_current(cpu);
    let status: u32 = crate::port::status(&result);
    assert(status == crate::port::result_status(result));
    record(status, 2, counters)
}

/// The status and the CPU a provider's answer to `current_cpu` gives: a CPU at
/// or above `MAX_CPUS` is a broken provider, and the output then holds `u32::MAX`.
pub open spec fn current_result(answer: Result<u32, Error>) -> (u32, u32) {
    match answer {
        Ok(v) => if v < MAX_CPUS { (OK, v) } else { (OS_ERROR, u32::MAX) },
        Err(e) => (error_status(e), u32::MAX),
    }
}

/// Checks a provider's answer to `current_cpu`.
pub fn current_outcome(answer: Result<u32, Error>) -> (r: (u32, u32))
    ensures
        r == current_result(answer),
{
    match answer {
        Ok(v) => if (v as usize) < MAX_CPUS { (OK, v) } else { (OS_ERROR, u32::MAX) },
        Err(e) => (e.status(), u32::MAX),
    }
}

/// The CPU the calling thread runs on. A usable output holds `u32::MAX` unless the call succeeds.
pub fn current<M: Machine>(counters: &mut Counters, out: &mut Output<u32>) -> (r: u32)
    requires
        old(counters).len() == 5,
    ensures
        final(counters).len() == 5,
        crate::files::counted(*old(counters), *final(counters), if r == OK { 3 } else { REJECTED as int }),
        final(out).address == old(out).address,
        !is_aligned_output(old(out).address as int, vstd::layout::align_of::<u32>() as int) ==> r == INVALID_ARGUMENT
            && final(out).value == old(out).value,
        is_aligned_output(old(out).address as int, vstd::layout::align_of::<u32>() as int) ==>
            exists|answer: Result<u32, Error>| M::current_cpu_answer(answer)
                && r == sanitized((#[trigger] current_result(answer)).0, 3) && final(out).value == current_result(answer).1,
        r == OK ==> final(out).value < MAX_CPUS,
{
    if !aligned_output(out.address, core::mem::align_of::<u32>()) {
        return record(INVALID_ARGUMENT, 3, counters);
    }
    out.value = u32::MAX;
    let answer: Result<u32, Error> = M::current_cpu();
    let (code, value) = current_outcome(answer);
    out.value = value;
    record(code, 3, counters)
}

/// The statistics the counters hold.
pub fn stats(counters: &Counters) -> (s: Stats)
    requires
        counters.len() == 5,
    ensures
        s.query_ok == counters.value(0) as u64,
        s.affinity_ok == counters.value(1) as u64,
        s.bind_ok == counters.value(2) as u64,
        s.current_ok == counters.value(3) as u64,
        s.rejected == counters.value(4) as u64,
{
    Stats {
        query_ok: counters.load(0),
        affinity_ok: counters.load(1),
        bind_ok: counters.load(2),
        current_ok: counters.load(3),
        rejected: counters.load(REJECTED),
    }
}

/// The capability bit and whether the group's calls are offered.
pub fn negotiate(provided: bool) -> (r: u64)
    ensures
        r == if provided { CAP } else { 0 },
{
    if provided { CAP } else { 0 }
}

} // verus!
