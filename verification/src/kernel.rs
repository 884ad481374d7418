//! Synchronization, thread and TLS contracts. Handles are native-owned opaque
//! values; close/join/delete require exclusive ownership.
use vstd::prelude::*;
use crate::counter::{saturated_next, Counters};
use crate::port::{error_status, result_status, Error, Events, Mutexes, StackBounds, ThreadLocal, Threads};
use crate::{is_aligned_output, Output, INVALID_ARGUMENT, OK, OS_ERROR, OUT_OF_MEMORY, UNSUPPORTED};

verus! {

pub const CAP_EVENTS: u64 = 16;
pub const CAP_MUTEX: u64 = 32;
pub const CAP_THREADS: u64 = 64;
pub const CAP_TLS: u64 = 128;
pub const CAP_STACK: u64 = 256;
pub const CAP_BARRIER: u64 = 512;
pub const ALL: u64 = 1008;
pub const TIMEOUT: u32 = 5;
pub const BUSY: u32 = 6;
pub const INFINITE: u64 = 0xFFFF_FFFF_FFFF_FFFF;

/// Successful activities per kind, timeouts, and rejected or failed calls.
#[derive(Clone, Copy, Debug, Default, PartialEq, Eq, Structural)]
pub struct Stats {
    pub event_create_ok: u64,
    pub event_wait_ok: u64,
    pub event_timeout: u64,
    pub event_set_ok: u64,
    pub mutex_create_ok: u64,
    pub mutex_lock_ok: u64,
    pub thread_create_ok: u64,
    pub tls_create_ok: u64,
    pub tls_set_ok: u64,
    pub stack_bounds_ok: u64,
    pub barrier_ok: u64,
    pub rejected_or_failed: u64,
}

pub const EVENT_CREATE: usize = 0;
pub const EVENT_WAIT: usize = 1;
pub const EVENT_TIMEOUT: usize = 2;
pub const EVENT_SET: usize = 3;
pub const MUTEX_CREATE: usize = 4;
pub const MUTEX_LOCK: usize = 5;
pub const THREAD_CREATE: usize = 6;
pub const TLS_CREATE: usize = 7;
pub const TLS_SET: usize = 8;
pub const STACK_BOUNDS: usize = 9;
pub const BARRIER: usize = 10;
pub const FAILED: usize = 11;

/// The status a call reports: statuses past `BUSY` are `OS_ERROR`, `TIMEOUT` belongs to
/// `event_wait` alone and `BUSY` to the uncounted lifecycle calls.
pub open spec fn sanitized(status: u32, counter: int) -> u32 {
    let s = if status <= BUSY { status } else { OS_ERROR };
    if (s == TIMEOUT && counter != EVENT_WAIT) || (s == BUSY && counter != FAILED) { OS_ERROR } else { s }
}

/// The counter a reported status counts on.
pub open spec fn counter_of(status: u32, counter: int) -> int {
    if status == OK { counter } else if status == TIMEOUT { EVENT_TIMEOUT as int } else { FAILED as int }
}

/// Sanitizes a status and counts the call: the activity's counter on success, the
/// timeout counter for a timeout, the failure counter otherwise.
pub fn record(status: u32, counter: usize, counters: &mut Counters) -> (r: u32)
    requires
        counter < 12,
        old(counters).len() == 12,
    ensures
        r == sanitized(status, counter as int),
        crate::files::counted(*old(counters), *final(counters), counter_of(r, counter as int)),
{
    let status: u32 = if status <= BUSY { status } else { OS_ERROR };
    let status: u32 = if (status == TIMEOUT && counter != EVENT_WAIT) || (status == BUSY && counter != FAILED) { OS_ERROR } else { status };
    if status == OK {
        counters.increment(counter);
    } else if status == TIMEOUT {
        counters.increment(EVENT_TIMEOUT);
    } else {
        counters.increment(FAILED);
    }
    status
}

/// The status and handle of a create call: a null handle is a broken provider, and
/// `TIMEOUT`, `BUSY` or anything past them cannot be a create result.
pub open spec fn create_result(result: Result<usize, Error>) -> (u32, usize) {
    let (s, h) = match result {
        Ok(handle) => if handle == 0 { (OS_ERROR, 0usize) } else { (OK, handle) },
        Err(e) => (error_status(e), 0usize),
    };
    if s > OUT_OF_MEMORY { (OS_ERROR, h) } else { (s, h) }
}

pub fn create_outcome(result: Result<usize, Error>) -> (r: (u32, usize))
    ensures
        r == create_result(result),
{
    let (status, handle) = match result {
        Ok(handle) => if handle == 0 { (OS_ERROR, 0usize) } else { (OK, handle) },
        Err(e) => (e.status(), 0usize),
    };
    if status > OUT_OF_MEMORY { (OS_ERROR, handle) } else { (status, handle) }
}

/// Whether `event_create` takes these flags: each is 0 or 1.
pub fn event_arguments(manual: u32, initial: u32) -> (r: bool)
    ensures
        r == (manual <= 1 && initial <= 1),
{
    manual <= 1 && initial <= 1
}

/// Whether `thread_create` takes these arguments: an entry point and a stack size inside `isize::MAX`.
pub fn thread_arguments(has_entry: bool, stack: usize) -> (r: bool)
    ensures
        r == (has_entry && stack <= isize::MAX),
{
    has_entry && stack <= isize::MAX as usize
}

/// What a lifecycle call reports for a provider result: success uncounted, a failure
/// counted as failed.
pub open spec fn ended(result: Result<(), Error>, r: u32, before: Counters, after: Counters) -> bool {
    match result {
        Ok(()) => r == OK && after == before,
        Err(e) => r == sanitized(error_status(e), FAILED as int)
            && crate::files::counted(before, after, counter_of(r, FAILED as int)),
    }
}

/// A lifecycle call (destroy, reset, unlock, join, detach): a null handle is rejected;
/// success is not counted, failure is.
pub fn simple(handle: usize, result: Result<(), Error>, counters: &mut Counters) -> (r: u32)
    requires
        old(counters).len() == 12,
    ensures
        handle == 0 ==> r == INVALID_ARGUMENT
            && crate::files::counted(*old(counters), *final(counters), FAILED as int),
        handle != 0 ==> ended(result, r, *old(counters), *final(counters)),
{
    if handle == 0 {
        return record(INVALID_ARGUMENT, FAILED, counters);
    }
    match result {
        Ok(()) => OK,
        Err(e) => record(e.status(), FAILED, counters),
    }
}

/// The status of a stack-bounds answer: a null low bound or an empty range is a broken provider.
pub fn stack_outcome(answer: Result<(usize, usize), Error>) -> (r: u32)
    ensures
        r == (match answer { Ok((lo, hi)) => if lo == 0 || lo >= hi { OS_ERROR } else { OK }, Err(e) => error_status(e) }),
{
    match answer {
        Ok((lo, hi)) => if lo == 0 || lo >= hi { OS_ERROR } else { OK },
        Err(e) => e.status(),
    }
}

/// Which providers a port has, for the group's capability bits.
#[derive(Clone, Copy, Debug)]
pub struct Providers {
    pub events: bool,
    pub mutexes: bool,
    pub threads: bool,
    pub thread_local: bool,
    pub stack_bounds: bool,
    pub process_barrier: bool,
    /// Whether the process barrier, probed once at negotiation, is available.
    pub barrier_available: bool,
}

/// The capability bits of the group: one per provider; an unavailable barrier clears its bit.
pub open spec fn capabilities(p: Providers) -> u64 {
    (if p.events { CAP_EVENTS } else { 0u64 }) | (if p.mutexes { CAP_MUTEX } else { 0u64 }) | (if p.threads { CAP_THREADS } else { 0u64 })
        | (if p.thread_local { CAP_TLS } else { 0u64 }) | (if p.stack_bounds { CAP_STACK } else { 0u64 })
        | (if p.process_barrier && p.barrier_available { CAP_BARRIER } else { 0u64 })
}

/// Which of the group's callbacks a table publishes.
#[derive(Clone, Copy, Debug, PartialEq, Eq, Structural)]
pub struct Ops {
    pub event_create: bool,
    pub event_destroy: bool,
    pub event_set: bool,
    pub event_reset: bool,
    pub event_wait: bool,
    pub mutex_create: bool,
    pub mutex_destroy: bool,
    pub mutex_lock: bool,
    pub mutex_unlock: bool,
    pub thread_create: bool,
    pub thread_join: bool,
    pub thread_detach: bool,
    pub tls_create: bool,
    pub tls_destroy: bool,
    pub tls_get: bool,
    pub tls_set: bool,
    pub stack_bounds: bool,
    pub process_barrier: bool,
    pub read_stats: bool,
}

/// The callbacks published for a port with these providers: each provider's calls
/// exactly when it is there (the barrier only when it is available), and the
/// statistics reader always.
pub open spec fn published(p: Providers) -> Ops {
    Ops {
        event_create: p.events,
        event_destroy: p.events,
        event_set: p.events,
        event_reset: p.events,
        event_wait: p.events,
        mutex_create: p.mutexes,
        mutex_destroy: p.mutexes,
        mutex_lock: p.mutexes,
        mutex_unlock: p.mutexes,
        thread_create: p.threads,
        thread_join: p.threads,
        thread_detach: p.threads,
        tls_create: p.thread_local,
        tls_destroy: p.thread_local,
        tls_get: p.thread_local,
        tls_set: p.thread_local,
        stack_bounds: p.stack_bounds,
        process_barrier: p.process_barrier && p.barrier_available,
        read_stats: true,
    }
}

/// The group's capability bits and the callbacks it publishes.
pub fn negotiate(p: Providers) -> (r: (u64, Ops))
    ensures
        r.0 == capabilities(p),
        r.1 == published(p),
{
    let events: u64 = if p.events { CAP_EVENTS } else { 0 };
    let mutexes: u64 = if p.mutexes { CAP_MUTEX } else { 0 };
    let threads: u64 = if p.threads { CAP_THREADS } else { 0 };
    let tls: u64 = if p.thread_local { CAP_TLS } else { 0 };
    let stack: u64 = if p.stack_bounds { CAP_STACK } else { 0 };
    let barrier_on: bool = p.process_barrier && p.barrier_available;
    let barrier: u64 = if barrier_on { CAP_BARRIER } else { 0 };
    let ops = Ops {
        event_create: p.events,
        event_destroy: p.events,
        event_set: p.events,
        event_reset: p.events,
        event_wait: p.events,
        mutex_create: p.mutexes,
        mutex_destroy: p.mutexes,
        mutex_lock: p.mutexes,
        mutex_unlock: p.mutexes,
        thread_create: p.threads,
        thread_join: p.threads,
        thread_detach: p.threads,
        tls_create: p.thread_local,
        tls_destroy: p.thread_local,
        tls_get: p.thread_local,
        tls_set: p.thread_local,
        stack_bounds: p.stack_bounds,
        process_barrier: barrier_on,
        read_stats: true,
    };
    (events | mutexes | threads | tls | stack | barrier, ops)
}

/// A capability bit of the group is set exactly when its calls are published.
pub proof fn lemma_bits_match_callbacks(p: Providers)
    ensures
        (capabilities(p) & CAP_EVENTS != 0) == published(p).event_wait,
        (capabilities(p) & CAP_MUTEX != 0) == published(p).mutex_lock,
        (capabilities(p) & CAP_THREADS != 0) == published(p).thread_create,
        (capabilities(p) & CAP_TLS != 0) == published(p).tls_get,
        (capabilities(p) & CAP_STACK != 0) == published(p).stack_bounds,
        (capabilities(p) & CAP_BARRIER != 0) == published(p).process_barrier,
        capabilities(p) & !ALL == 0,
        published(p).read_stats,
{
    let (e, m, t, l, k, b) = (p.events, p.mutexes, p.threads, p.thread_local, p.stack_bounds, p.process_barrier && p.barrier_available);
    let c = capabilities(p);
    assert(c == (if e { 16u64 } else { 0u64 }) | (if m { 32u64 } else { 0u64 }) | (if t { 64u64 } else { 0u64 })
        | (if l { 128u64 } else { 0u64 }) | (if k { 256u64 } else { 0u64 }) | (if b { 512u64 } else { 0u64 }));
    assert(((if e { 16u64 } else { 0u64 }) | (if m { 32u64 } else { 0u64 }) | (if t { 64u64 } else { 0u64 })
        | (if l { 128u64 } else { 0u64 }) | (if k { 256u64 } else { 0u64 }) | (if b { 512u64 } else { 0u64 })) == c ==> (
        (c & 16 != 0) == e && (c & 32 != 0) == m && (c & 64 != 0) == t && (c & 128 != 0) == l
        && (c & 256 != 0) == k && (c & 512 != 0) == b && c & !1008u64 == 0)) by (bit_vector);
}

/// The bits of `ALL` are exactly the six provider bits.
pub proof fn lemma_all_capabilities()
    ensures
        ALL == (CAP_EVENTS | CAP_MUTEX | CAP_THREADS | CAP_TLS | CAP_STACK | CAP_BARRIER),
{
    assert(1008u64 == (16u64 | 32u64 | 64u64 | 128u64 | 256u64 | 512u64)) by (bit_vector);
}

/// The process barrier mode the kernel's answer selects: unavailable (1) when the query
/// fails, the private expedited barrier (2) when it is offered and registration succeeds,
/// the global one (3) when that is offered instead, unavailable otherwise.
pub open spec fn barrier_mode_spec(commands: i64, registered: bool) -> u8 {
    if commands < 0 {
        1
    } else if commands & 24 == 24 && registered {
        2
    } else if commands & 1 != 0 {
        3
    } else {
        1
    }
}

/// Whether the query's answer offers the private expedited barrier with its registration.
pub fn offers_private(commands: i64) -> (r: bool)
    ensures
        r == (commands >= 0 && commands & 24 == 24),
{
    commands >= 0 && commands & 24 == 24
}

/// Selects the barrier mode from the kernel's query answer and whether registration succeeded.
pub fn barrier_mode(commands: i64, registered: bool) -> (r: u8)
    ensures
        r == barrier_mode_spec(commands, registered),
{
    if commands < 0 {
        1
    } else if commands & 24 == 24 && registered {
        2
    } else if commands & 1 != 0 {
        3
    } else {
        1
    }
}

/// Whether a barrier mode provides a barrier.
pub fn has_barrier(mode: u8) -> (r: bool)
    ensures
        r == (mode >= 2),
{
    mode >= 2
}

/// The membarrier command of a mode: private expedited (8), global (1), or none.
pub fn barrier_command(mode: u8) -> (r: Option<i32>)
    ensures
        r == (if mode == 2 { Some(8i32) } else if mode == 3 { Some(1i32) } else { None::<i32> }),
{
    if mode == 2 { Some(8) } else if mode == 3 { Some(1) } else { None }
}

/// The process barrier mode, probed once per process: 0 until the first probe
/// settles it, then the mode `barrier_mode` selected (1 unavailable, 2 private,
/// 3 global) for good.
#[derive(Clone, Copy, Debug, PartialEq, Eq, Structural)]
pub struct BarrierCache {
    pub mode: u8,
}

/// The cache after a probe that found `probed`, and the mode in force: the first
/// settled mode wins, and a later probe changes nothing.
pub open spec fn settle_step(cache: BarrierCache, probed: u8) -> (BarrierCache, u8) {
    if cache.mode != 0 { (cache, cache.mode) } else { (BarrierCache { mode: probed }, probed) }
}

impl BarrierCache {
    pub fn new() -> (c: BarrierCache)
        ensures
            c.mode == 0,
    {
        BarrierCache { mode: 0 }
    }

    /// The mode already settled, if any: the caller probes the kernel only when there is none.
    pub fn cached(&self) -> (r: Option<u8>)
        ensures
            r == (if self.mode != 0 { Some(self.mode) } else { None::<u8> }),
    {
        if self.mode != 0 { Some(self.mode) } else { None }
    }

    /// Settles the mode a probe selected, unless one is settled already; answers the mode in force.
    pub fn settle(&mut self, probed: u8) -> (r: u8)
        requires
            1 <= probed <= 3,
        ensures
            (*final(self), r) == settle_step(*old(self), probed),
    {
        if self.mode != 0 {
            return self.mode;
        }
        self.mode = probed;
        probed
    }
}

/// The status of one process barrier in `mode`, given whether the membarrier call
/// succeeded: `UNSUPPORTED` without a barrier, else `OK` or `OS_ERROR`.
pub open spec fn barrier_status_spec(mode: u8, succeeded: bool) -> u32 {
    if mode < 2 { UNSUPPORTED } else if succeeded { OK } else { OS_ERROR }
}

pub fn barrier_status(mode: u8, succeeded: bool) -> (r: u32)
    ensures
        r == barrier_status_spec(mode, succeeded),
{
    if mode < 2 { UNSUPPORTED } else if succeeded { OK } else { OS_ERROR }
}

/// The barrier mode is fixed for the process: once a probe settled it, every later
/// probe answers the same mode whatever it found, so `has_barrier` answers the same
/// on every call; without a barrier every barrier is `UNSUPPORTED`, with one it is
/// `OK` or `OS_ERROR`.
pub proof fn lemma_barrier_fixed(cache: BarrierCache, first: u8, later: u8, succeeded: bool)
    requires
        1 <= first <= 3,
        1 <= later <= 3,
        cache.mode <= 3,
    ensures
        ({
            let (after, mode) = settle_step(cache, first);
            let (again, mode2) = settle_step(after, later);
            &&& again == after
            &&& mode2 == mode
            &&& (mode >= 2) == (mode2 >= 2)
            &&& mode < 2 ==> barrier_status_spec(mode, succeeded) == UNSUPPORTED
            &&& mode >= 2 ==> (barrier_status_spec(mode, succeeded) == OK || barrier_status_spec(mode, succeeded) == OS_ERROR)
        }),
{
}

/// The absolute monotonic deadline `ns` nanoseconds after `now` (seconds and
/// nanoseconds): `Err(OS_ERROR)` for an impossible clock reading, `Err(INVALID_ARGUMENT)`
/// when the seconds overflow `i64`.
pub open spec fn deadline_spec(now_sec: i64, now_nsec: i64, ns: u64) -> Result<(i64, i64), u32> {
    if now_sec < 0 || !(0 <= now_nsec < 1_000_000_000) {
        Err(OS_ERROR)
    } else {
        let nanos = now_nsec + ns % 1_000_000_000;
        let seconds = now_sec + ns / 1_000_000_000 + nanos / 1_000_000_000;
        if seconds > i64::MAX {
            Err(INVALID_ARGUMENT)
        } else {
            Ok((seconds as i64, (nanos % 1_000_000_000) as i64))
        }
    }
}

pub fn deadline(now_sec: i64, now_nsec: i64, ns: u64) -> (r: Result<(i64, i64), u32>)
    ensures
        r == deadline_spec(now_sec, now_nsec, ns),
{
    if now_sec < 0 || !(0 <= now_nsec && now_nsec < 1_000_000_000) {
        return Err(OS_ERROR);
    }
    let nanos: u64 = now_nsec as u64 + ns % 1_000_000_000;
    let seconds: u64 = match (now_sec as u64).checked_add(ns / 1_000_000_000) {
        Some(s) => match s.checked_add(nanos / 1_000_000_000) {
            Some(t) => t,
            None => return Err(INVALID_ARGUMENT),
        },
        None => return Err(INVALID_ARGUMENT),
    };
    if seconds > i64::MAX as u64 {
        return Err(INVALID_ARGUMENT);
    }
    Ok((seconds as i64, (nanos % 1_000_000_000) as i64))
}

/// Whether a handle output can be written.
pub open spec fn handle_output(out: Output<usize>) -> bool {
    is_aligned_output(out.address as int, vstd::layout::align_of::<usize>() as int)
}

/// Whether `r` and the output's value are what a create call gives when the provider
/// answers `result`, counted on `counter`.
pub open spec fn created(result: Result<usize, Error>, counter: int, r: u32, value: usize) -> bool {
    let (status, handle) = create_result(result);
    &&& r == sanitized(status, counter)
    &&& value == (if status == OK { handle } else { 0usize })
}

/// The shared tail of the create calls: the output holds the handle on success, 0 otherwise.
fn create_into(result: Result<usize, Error>, counter: usize, counters: &mut Counters, out: &mut Output<usize>) -> (r: u32)
    requires
        counter < FAILED,
        old(counters).len() == 12,
    ensures
        final(out).address == old(out).address,
        created(result, counter as int, r, final(out).value),
        crate::files::counted(*old(counters), *final(counters), counter_of(r, counter as int)),
{
    let (status, handle) = create_outcome(result);
    out.value = if status == OK { handle } else { 0 };
    record(status, counter, counters)
}

/// Creates an event. An unusable output is rejected unwritten; otherwise it holds the
/// new handle on success and 0 otherwise; flags other than 0 and 1 are `INVALID_ARGUMENT`
/// before the provider is asked.
pub fn event_create<E: Events>(counters: &mut Counters, manual: u32, initial: u32, out: &mut Output<usize>) -> (r: u32)
    requires
        old(counters).len() == 12,
    ensures
        final(out).address == old(out).address,
        crate::files::counted(*old(counters), *final(counters), counter_of(r, EVENT_CREATE as int)),
        !handle_output(*old(out)) ==> r == INVALID_ARGUMENT && final(out).value == old(out).value,
        handle_output(*old(out)) && !(manual <= 1 && initial <= 1) ==> r == INVALID_ARGUMENT && final(out).value == 0,
        handle_output(*old(out)) && manual <= 1 && initial <= 1
            ==> exists|result: Result<usize, Error>| E::create_answer(manual == 1, initial == 1, result)
                && #[trigger] created(result, EVENT_CREATE as int, r, final(out).value),
{
    if !crate::aligned_output(out.address, core::mem::align_of::<usize>()) {
        return record(INVALID_ARGUMENT, EVENT_CREATE, counters);
    }
    out.value = 0;
    if !event_arguments(manual, initial) {
        return record(INVALID_ARGUMENT, EVENT_CREATE, counters);
    }
    let result: Result<usize, Error> = E::create(manual == 1, initial == 1);
    create_into(result, EVENT_CREATE, counters, out)
}

/// Creates a mutex, as `event_create` creates an event; `recursive` is 0 or 1.
pub fn mutex_create<M: Mutexes>(counters: &mut Counters, recursive: u32, out: &mut Output<usize>) -> (r: u32)
    requires
        old(counters).len() == 12,
    ensures
        final(out).address == old(out).address,
        crate::files::counted(*old(counters), *final(counters), counter_of(r, MUTEX_CREATE as int)),
        !handle_output(*old(out)) ==> r == INVALID_ARGUMENT && final(out).value == old(out).value,
        handle_output(*old(out)) && recursive > 1 ==> r == INVALID_ARGUMENT && final(out).value == 0,
        handle_output(*old(out)) && recursive <= 1
            ==> exists|result: Result<usize, Error>| M::create_answer(recursive == 1, result)
                && #[trigger] created(result, MUTEX_CREATE as int, r, final(out).value),
{
    if !crate::aligned_output(out.address, core::mem::align_of::<usize>()) {
        return record(INVALID_ARGUMENT, MUTEX_CREATE, counters);
    }
    out.value = 0;
    if recursive > 1 {
        return record(INVALID_ARGUMENT, MUTEX_CREATE, counters);
    }
    let result: Result<usize, Error> = M::create(recursive == 1);
    create_into(result, MUTEX_CREATE, counters, out)
}

/// Starts a thread, as `event_create` creates an event; it needs an entry (nonzero) and a
/// stack size no larger than `isize::MAX` (0: the default).
pub fn thread_create<T: Threads>(counters: &mut Counters, entry: usize, argument: usize, stack: usize, out: &mut Output<usize>) -> (r: u32)
    requires
        old(counters).len() == 12,
    ensures
        final(out).address == old(out).address,
        crate::files::counted(*old(counters), *final(counters), counter_of(r, THREAD_CREATE as int)),
        !handle_output(*old(out)) ==> r == INVALID_ARGUMENT && final(out).value == old(out).value,
        handle_output(*old(out)) && !(entry != 0 && stack <= isize::MAX) ==> r == INVALID_ARGUMENT && final(out).value == 0,
        handle_output(*old(out)) && entry != 0 && stack <= isize::MAX
            ==> exists|result: Result<usize, Error>| T::create_answer(entry, argument, stack, result)
                && #[trigger] created(result, THREAD_CREATE as int, r, final(out).value),
{
    if !crate::aligned_output(out.address, core::mem::align_of::<usize>()) {
        return record(INVALID_ARGUMENT, THREAD_CREATE, counters);
    }
    out.value = 0;
    if !thread_arguments(entry != 0, stack) {
        return record(INVALID_ARGUMENT, THREAD_CREATE, counters);
    }
    let result: Result<usize, Error> = T::create(entry, argument, stack);
    create_into(result, THREAD_CREATE, counters, out)
}

/// Creates a thread-local key, as `event_create` creates an event.
pub fn tls_create<K: ThreadLocal>(counters: &mut Counters, destructor: usize, out: &mut Output<usize>) -> (r: u32)
    requires
        old(counters).len() == 12,
    ensures
        final(out).address == old(out).address,
        crate::files::counted(*old(counters), *final(counters), counter_of(r, TLS_CREATE as int)),
        !handle_output(*old(out)) ==> r == INVALID_ARGUMENT && final(out).value == old(out).value,
        handle_output(*old(out))
            ==> exists|result: Result<usize, Error>| K::create_answer(destructor, result)
                && #[trigger] created(result, TLS_CREATE as int, r, final(out).value),
{
    if !crate::aligned_output(out.address, core::mem::align_of::<usize>()) {
        return record(INVALID_ARGUMENT, TLS_CREATE, counters);
    }
    out.value = 0;
    let result: Result<usize, Error> = K::create(destructor);
    create_into(result, TLS_CREATE, counters, out)
}

/// Whether `r` and the two outputs are what a stack-bounds call gives when the provider
/// answers `answer`: both bounds on success, zeros otherwise.
pub open spec fn bounded(answer: Result<(usize, usize), Error>, r: u32, low: usize, high: usize) -> bool {
    let status = match answer { Ok((lo, hi)) => if lo == 0 || lo >= hi { OS_ERROR } else { OK }, Err(e) => error_status(e) };
    &&& r == sanitized(status, STACK_BOUNDS as int)
    &&& (low, high) == (if status == OK { answer->Ok_0 } else { (0usize, 0usize) })
}

/// The calling thread's stack bounds. Unusable outputs (unaligned, or the same object
/// twice) are rejected unwritten; otherwise both hold 0 unless the call succeeds.
pub fn stack_bounds<S: StackBounds>(counters: &mut Counters, low: &mut Output<usize>, high: &mut Output<usize>) -> (r: u32)
    requires
        old(counters).len() == 12,
    ensures
        final(low).address == old(low).address && final(high).address == old(high).address,
        crate::files::counted(*old(counters), *final(counters), counter_of(r, STACK_BOUNDS as int)),
        !(handle_output(*old(low)) && handle_output(*old(high)) && old(low).address != old(high).address)
            ==> r == INVALID_ARGUMENT && *final(low) == *old(low) && *final(high) == *old(high),
        handle_output(*old(low)) && handle_output(*old(high)) && old(low).address != old(high).address
            ==> exists|answer: Result<(usize, usize), Error>| S::bounds_answer(answer)
                && #[trigger] bounded(answer, r, final(low).value, final(high).value),
{
    if !crate::aligned_output(low.address, core::mem::align_of::<usize>())
        || !crate::aligned_output(high.address, core::mem::align_of::<usize>()) || low.address == high.address {
        return record(INVALID_ARGUMENT, STACK_BOUNDS, counters);
    }
    let answer: Result<(usize, usize), Error> = S::bounds();
    let status: u32 = stack_outcome(answer);
    if status == OK {
        let (lo, hi) = match answer { Ok(b) => b, Err(_) => (0, 0) };
        low.value = lo;
        high.value = hi;
    } else {
        low.value = 0;
        high.value = 0;
    }
    let r: u32 = record(status, STACK_BOUNDS, counters);
    assert(bounded(answer, r, low.value, high.value));
    r
}

/// A lifecycle call on a handle through its provider, whose answers for that handle
/// are `answers`: a null handle is rejected before the provider is asked.
pub open spec fn lifecycle(handle: usize, answers: spec_fn(Result<(), Error>) -> bool, r: u32, before: Counters, after: Counters) -> bool {
    &&& handle == 0 ==> r == INVALID_ARGUMENT && crate::files::counted(before, after, FAILED as int)
    &&& handle != 0 ==> exists|result: Result<(), Error>| answers(result) && #[trigger] ended(result, r, before, after)
}

/// Destroys an event.
pub fn event_destroy<E: Events>(counters: &mut Counters, handle: usize) -> (r: u32)
    requires
        old(counters).len() == 12,
    ensures
        lifecycle(handle, |result: Result<(), Error>| E::destroy_answer(handle, result), r, *old(counters), *final(counters)),
{
    if handle == 0 {
        return record(INVALID_ARGUMENT, FAILED, counters);
    }
    simple(handle, E::destroy(handle), counters)
}

/// Resets an event to unsignaled.
pub fn event_reset<E: Events>(counters: &mut Counters, handle: usize) -> (r: u32)
    requires
        old(counters).len() == 12,
    ensures
        lifecycle(handle, |result: Result<(), Error>| E::reset_answer(handle, result), r, *old(counters), *final(counters)),
{
    if handle == 0 {
        return record(INVALID_ARGUMENT, FAILED, counters);
    }
    simple(handle, E::reset(handle), counters)
}

/// Destroys a mutex.
pub fn mutex_destroy<M: Mutexes>(counters: &mut Counters, handle: usize) -> (r: u32)
    requires
        old(counters).len() == 12,
    ensures
        lifecycle(handle, |result: Result<(), Error>| M::destroy_answer(handle, result), r, *old(counters), *final(counters)),
{
    if handle == 0 {
        return record(INVALID_ARGUMENT, FAILED, counters);
    }
    simple(handle, M::destroy(handle), counters)
}

/// Unlocks a mutex.
pub fn mutex_unlock<M: Mutexes>(counters: &mut Counters, handle: usize) -> (r: u32)
    requires
        old(counters).len() == 12,
    ensures
        lifecycle(handle, |result: Result<(), Error>| M::unlock_answer(handle, result), r, *old(counters), *final(counters)),
{
    if handle == 0 {
        return record(INVALID_ARGUMENT, FAILED, counters);
    }
    simple(handle, M::unlock(handle), counters)
}

/// Waits for a thread to end.
pub fn thread_join<T: Threads>(counters: &mut Counters, handle: usize) -> (r: u32)
    requires
        old(counters).len() == 12,
    ensures
        lifecycle(handle, |result: Result<(), Error>| T::join_answer(handle, result), r, *old(counters), *final(counters)),
{
    if handle == 0 {
        return record(INVALID_ARGUMENT, FAILED, counters);
    }
    simple(handle, T::join(handle), counters)
}

/// Lets a thread end on its own.
pub fn thread_detach<T: Threads>(counters: &mut Counters, handle: usize) -> (r: u32)
    requires
        old(counters).len() == 12,
    ensures
        lifecycle(handle, |result: Result<(), Error>| T::detach_answer(handle, result), r, *old(counters), *final(counters)),
{
    if handle == 0 {
        return record(INVALID_ARGUMENT, FAILED, counters);
    }
    simple(handle, T::detach(handle), counters)
}

/// Deletes a thread-local key.
pub fn tls_destroy<K: ThreadLocal>(counters: &mut Counters, handle: usize) -> (r: u32)
    requires
        old(counters).len() == 12,
    ensures
        lifecycle(handle, |result: Result<(), Error>| K::destroy_answer(handle, result), r, *old(counters), *final(counters)),
{
    if handle == 0 {
        return record(INVALID_ARGUMENT, FAILED, counters);
    }
    simple(handle, K::destroy(handle), counters)
}

/// A counted call on a handle through its provider, whose answers for the call are
/// `answers`: a null handle is `INVALID_ARGUMENT`,
/// otherwise the provider's status, sanitized; either way counted on `counter` as
/// `record` counts.
pub open spec fn counted_call(handle: usize, answers: spec_fn(Result<(), Error>) -> bool, counter: int, r: u32, before: Counters,
    after: Counters) -> bool {
    &&& crate::files::counted(before, after, counter_of(r, counter))
    &&& handle == 0 ==> r == INVALID_ARGUMENT
    &&& handle != 0 ==> exists|result: Result<(), Error>| answers(result) && r == sanitized(#[trigger] result_status(result), counter)
}

/// Signals an event.
pub fn event_set<E: Events>(counters: &mut Counters, handle: usize) -> (r: u32)
    requires
        old(counters).len() == 12,
    ensures
        counted_call(handle, |result: Result<(), Error>| E::set_answer(handle, result), EVENT_SET as int, r, *old(counters), *final(counters)),
{
    if handle == 0 {
        return record(INVALID_ARGUMENT, EVENT_SET, counters);
    }
    let result: Result<(), Error> = E::set(handle);
    record(crate::port::status(&result), EVENT_SET, counters)
}

/// Waits for an event, at most `timeout_ns` nanoseconds (`INFINITE`: without limit); a
/// timeout is counted apart.
pub fn event_wait<E: Events>(counters: &mut Counters, handle: usize, timeout_ns: u64) -> (r: u32)
    requires
        old(counters).len() == 12,
    ensures
        counted_call(handle, |result: Result<(), Error>| E::wait_answer(handle, timeout_ns, result), EVENT_WAIT as int, r, *old(counters), *final(counters)),
{
    if handle == 0 {
        return record(INVALID_ARGUMENT, EVENT_WAIT, counters);
    }
    let result: Result<(), Error> = E::wait(handle, timeout_ns);
    record(crate::port::status(&result), EVENT_WAIT, counters)
}

/// Locks a mutex.
pub fn mutex_lock<M: Mutexes>(counters: &mut Counters, handle: usize) -> (r: u32)
    requires
        old(counters).len() == 12,
    ensures
        counted_call(handle, |result: Result<(), Error>| M::lock_answer(handle, result), MUTEX_LOCK as int, r, *old(counters), *final(counters)),
{
    if handle == 0 {
        return record(INVALID_ARGUMENT, MUTEX_LOCK, counters);
    }
    let result: Result<(), Error> = M::lock(handle);
    record(crate::port::status(&result), MUTEX_LOCK, counters)
}

/// Sets the calling thread's value of a thread-local key.
pub fn tls_set<K: ThreadLocal>(counters: &mut Counters, handle: usize, value: usize) -> (r: u32)
    requires
        old(counters).len() == 12,
    ensures
        counted_call(handle, |result: Result<(), Error>| K::set_answer(handle, value, result), TLS_SET as int, r, *old(counters), *final(counters)),
{
    if handle == 0 {
        return record(INVALID_ARGUMENT, TLS_SET, counters);
    }
    let result: Result<(), Error> = K::set(handle, value);
    record(crate::port::status(&result), TLS_SET, counters)
}

/// What a thread-local read reports for a provider result: the value, uncounted, or a
/// counted failure with the output at 0.
pub open spec fn got(result: Result<usize, Error>, r: u32, value: usize, before: Counters, after: Counters) -> bool {
    match result {
        Ok(v) => r == OK && value == v && after == before,
        Err(e) => r == sanitized(error_status(e), FAILED as int) && value == 0
            && crate::files::counted(before, after, counter_of(r, FAILED as int)),
    }
}

/// Reads the calling thread's value of a thread-local key. An unaligned output is
/// rejected unwritten; otherwise it holds the value on success and 0 otherwise. A
/// read is no counted activity; a failure counts as failed.
pub fn tls_get<K: ThreadLocal>(counters: &mut Counters, handle: usize, out: &mut Output<usize>) -> (r: u32)
    requires
        old(counters).len() == 12,
    ensures
        final(out).address == old(out).address,
        !handle_output(*old(out)) ==> r == INVALID_ARGUMENT && final(out).value == old(out).value
            && crate::files::counted(*old(counters), *final(counters), FAILED as int),
        handle_output(*old(out)) && handle == 0 ==> r == INVALID_ARGUMENT && final(out).value == 0
            && crate::files::counted(*old(counters), *final(counters), FAILED as int),
        handle_output(*old(out)) && handle != 0 ==> exists|result: Result<usize, Error>| K::get_answer(handle, result)
            && #[trigger] got(result, r, final(out).value, *old(counters), *final(counters)),
{
    if !crate::aligned_output(out.address, core::mem::align_of::<usize>()) {
        return record(INVALID_ARGUMENT, FAILED, counters);
    }
    out.value = 0;
    if handle == 0 {
        return record(INVALID_ARGUMENT, FAILED, counters);
    }
    let result: Result<usize, Error> = K::get(handle);
    match result {
        Ok(value) => {
            out.value = value;
            assert(got(result, OK, out.value, *old(counters), *counters));
            OK
        }
        Err(e) => {
            let r: u32 = record(e.status(), FAILED, counters);
            assert(got(result, r, out.value, *old(counters), *counters));
            r
        }
    }
}

} // verus!
