//! Architecture-bound signal/activation substrate. This capability does not make
//! CPU register contexts portable: the native adapter must agree on the context
//! ABI. Installation is once per signal and previous-handler storage is caller-owned.
use vstd::prelude::*;
use crate::counter::Counters;
use crate::files::counted;
use crate::port::SignalContext;
use crate::{is_pow2, INVALID_ARGUMENT, OK, OS_ERROR, UNSUPPORTED};

use crate::GroupOps;

verus! {

pub const CAP: u64 = 131072;
pub const ACTIVATION: u32 = 0;
pub const SEGMENTATION: u32 = 1;
pub const BUS: u32 = 2;
pub const FLOATING_POINT: u32 = 3;
pub const ILLEGAL_INSTRUCTION: u32 = 4;

/// Installs, restores, activation requests, unblocks, thread queries, and the rejected or failed calls.
#[derive(Clone, Copy, Debug, Default, PartialEq, Eq, Structural)]
pub struct Stats {
    pub installs: u64,
    pub restores: u64,
    pub requests: u64,
    pub unblocks: u64,
    pub thread_queries: u64,
    pub rejected: u64,
}

pub const INSTALL: usize = 0;
pub const RESTORE: usize = 1;
pub const REQUEST: usize = 2;
pub const UNBLOCK: usize = 3;
pub const THREAD: usize = 4;
pub const REJECTED: usize = 5;

/// Whether the group is usable: a build without the capability needs nothing, one
/// with it needs its provider.
pub fn available(compiled: bool, provider: bool) -> (r: bool)
    ensures
        r == (!compiled || provider),
{
    !compiled || provider
}

/// The signal number of a fault kind: -1 for a kind past `ILLEGAL_INSTRUCTION` or
/// without a provider answer.
pub fn signal_number(kind: u32, answer: Option<i32>) -> (r: i32)
    ensures
        r == (if kind > ILLEGAL_INSTRUCTION { -1i32 } else { match answer { Some(n) => n, None => -1i32 } }),
{
    if kind > ILLEGAL_INSTRUCTION {
        return -1;
    }
    match answer {
        Some(n) => n,
        None => -1,
    }
}

/// The statuses the group reports: the shared ones, `BUSY` and `NOT_FOUND`; anything else is `OS_ERROR`.
pub open spec fn sanitized(status: u32) -> u32 {
    if status == OK || status == UNSUPPORTED || status == INVALID_ARGUMENT || status == OS_ERROR || status == 6 || status == 8 {
        status
    } else {
        OS_ERROR
    }
}

/// Sanitizes a status and counts the call: counter `index` on success, `REJECTED` otherwise.
pub fn record(status: u32, index: usize, counters: &mut Counters) -> (r: u32)
    requires
        index < REJECTED,
        old(counters).len() == 6,
    ensures
        r == sanitized(status),
        counted(*old(counters), *final(counters), if r == OK { index as int } else { REJECTED as int }),
{
    let status: u32 = if status == OK || status == UNSUPPORTED || status == INVALID_ARGUMENT || status == OS_ERROR || status == 6 || status == 8 {
        status
    } else {
        OS_ERROR
    };
    counters.increment(if status == OK { index } else { REJECTED });
    status
}

/// Whether caller storage for a handler record fits the provider's layout: not null,
/// exactly the provider's nonzero size, aligned to its power-of-two alignment, and
/// not wrapping around the address space.
pub open spec fn valid_action_spec(address: int, size: int, action_size: int, alignment: int) -> bool {
    &&& address != 0
    &&& size == action_size
    &&& size != 0
    &&& is_pow2(alignment as nat)
    &&& address % alignment == 0
    &&& address + size <= usize::MAX
}

pub fn valid_action(address: usize, size: usize, action_size: usize, alignment: usize) -> (r: bool)
    ensures
        r == valid_action_spec(address as int, size as int, action_size as int, alignment as int),
{
    if address == 0 || size != action_size || size == 0 || !crate::is_power_of_two(alignment) {
        return false;
    }
    address % alignment == 0 && address.checked_add(size).is_some()
}

/// Whether `install` takes these arguments: a known kind, a callback, and valid storage
/// for the previous handler.
pub fn install_arguments(kind: u32, has_callback: bool, previous: usize, size: usize, action_size: usize, alignment: usize) -> (r: bool)
    ensures
        r == (kind <= ILLEGAL_INSTRUCTION && has_callback && valid_action_spec(previous as int, size as int, action_size as int, alignment as int)),
{
    kind <= ILLEGAL_INSTRUCTION && has_callback && valid_action(previous, size, action_size, alignment)
}

/// Whether `restore` takes these arguments: a known kind and a valid saved handler record.
pub fn restore_arguments(kind: u32, previous: usize, size: usize, action_size: usize, alignment: usize) -> (r: bool)
    ensures
        r == (kind <= ILLEGAL_INSTRUCTION && valid_action_spec(previous as int, size as int, action_size as int, alignment as int)),
{
    kind <= ILLEGAL_INSTRUCTION && valid_action(previous, size, action_size, alignment)
}

/// The status an install or restore gives when the provider's record layout is
/// `action_size` and `alignment` and the provider answers `status`.
pub open spec fn install_status(kind: u32, callback: usize, previous: int, size: int, action_size: int, alignment: int, status: u32) -> u32 {
    if kind <= ILLEGAL_INSTRUCTION && callback != 0 && valid_action_spec(previous, size, action_size, alignment) {
        sanitized(status)
    } else {
        INVALID_ARGUMENT
    }
}

/// The status a restore gives, as `install_status` for an install.
pub open spec fn restore_status(kind: u32, previous: int, size: int, action_size: int, alignment: int, status: u32) -> u32 {
    if kind <= ILLEGAL_INSTRUCTION && valid_action_spec(previous, size, action_size, alignment) {
        sanitized(status)
    } else {
        INVALID_ARGUMENT
    }
}

/// Installs a handler for a fault kind: arguments `install_arguments` refuses (against
/// the provider's record layout) are `INVALID_ARGUMENT` before the provider is asked;
/// otherwise the provider's status.
pub fn install<C: SignalContext>(counters: &mut Counters, kind: u32, callback: usize, data: usize, previous: usize, size: usize) -> (r: u32)
    requires
        old(counters).len() == 6,
    ensures
        counted(*old(counters), *final(counters), if r == OK { 0 } else { REJECTED as int }),
        exists|action_size: usize, alignment: usize, status: u32|
            C::action_size_answer(action_size) && C::action_alignment_answer(alignment)
            && (kind <= ILLEGAL_INSTRUCTION && callback != 0 && valid_action_spec(previous as int, size as int, action_size as int, alignment as int)
                ==> C::install_answer(kind, callback, data, previous, size, status))
            && r == #[trigger] install_status(kind, callback, previous as int, size as int, action_size as int, alignment as int, status),
{
    let action_size: usize = C::action_size();
    let alignment: usize = C::action_alignment();
    if !install_arguments(kind, callback != 0, previous, size, action_size, alignment) {
        let r: u32 = record(INVALID_ARGUMENT, 0, counters);
        assert(r == install_status(kind, callback, previous as int, size as int, action_size as int, alignment as int, 0));
        return r;
    }
    let status: u32 = C::install(kind, callback, data, previous, size);
    let r: u32 = record(status, 0, counters);
    assert(r == install_status(kind, callback, previous as int, size as int, action_size as int, alignment as int, status));
    r
}

/// Restores a saved handler, checked as `install` checks its arguments.
pub fn restore<C: SignalContext>(counters: &mut Counters, kind: u32, previous: usize, size: usize) -> (r: u32)
    requires
        old(counters).len() == 6,
    ensures
        counted(*old(counters), *final(counters), if r == OK { 1 } else { REJECTED as int }),
        exists|action_size: usize, alignment: usize, status: u32|
            C::action_size_answer(action_size) && C::action_alignment_answer(alignment)
            && (kind <= ILLEGAL_INSTRUCTION && valid_action_spec(previous as int, size as int, action_size as int, alignment as int)
                ==> C::restore_answer(kind, previous, size, status))
            && r == #[trigger] restore_status(kind, previous as int, size as int, action_size as int, alignment as int, status),
{
    let action_size: usize = C::action_size();
    let alignment: usize = C::action_alignment();
    if !restore_arguments(kind, previous, size, action_size, alignment) {
        let r: u32 = record(INVALID_ARGUMENT, 1, counters);
        assert(r == restore_status(kind, previous as int, size as int, action_size as int, alignment as int, 0));
        return r;
    }
    let status: u32 = C::restore(kind, previous, size);
    let r: u32 = record(status, 1, counters);
    assert(r == restore_status(kind, previous as int, size as int, action_size as int, alignment as int, status));
    r
}

/// The status and thread a `current_thread` answer gives: an `OK` answer naming thread
/// zero is a broken provider, and the output then stays zero.
pub open spec fn thread_result(status: u32, value: usize) -> (u32, usize) {
    if status == OK {
        if value == 0 { (OS_ERROR, 0) } else { (OK, value) }
    } else {
        (status, 0)
    }
}

pub fn thread_outcome(status: u32, value: usize) -> (r: (u32, usize))
    ensures
        r == thread_result(status, value),
{
    if status == OK {
        if value == 0 { (OS_ERROR, 0) } else { (OK, value) }
    } else {
        (status, 0)
    }
}

/// The status and process id of the signal-safe query: any failure, and a zero id, is
/// `OS_ERROR` with the output left zero. Nothing is counted on this path.
pub fn process_id_outcome(status: u32, value: u64) -> (r: (u32, u64))
    ensures
        r == (if status != OK || value == 0 { (OS_ERROR, 0u64) } else { (OK, value) }),
{
    if status != OK || value == 0 { (OS_ERROR, 0) } else { (OK, value) }
}

/// The status of the broken-pipe answer: anything but `OK` is `OS_ERROR`.
pub fn ignore_outcome(status: u32) -> (r: u32)
    ensures
        r == (if status == OK { OK } else { OS_ERROR }),
{
    if status == OK { OK } else { OS_ERROR }
}

/// The capability bit of the group and which of its callbacks a table publishes, or
/// `None` when a build with the capability has no provider to back it: a port must not
/// announce a substrate that cannot install anything.
pub fn negotiate(compiled: bool, provider: bool) -> (r: Option<(u64, GroupOps)>)
    ensures
        r == (if !(!compiled || provider) {
            None::<(u64, GroupOps)>
        } else {
            Some((if compiled { CAP } else { 0u64 }, crate::group_ops(compiled)))
        }),
{
    if !available(compiled, provider) {
        return None;
    }
    Some((if compiled { CAP } else { 0 }, GroupOps { calls: compiled, read_stats: true }))
}

/// The validated host table of the group, cached once at preparation: signal-time
/// callers read the cache and never rediscover a foreign provider.
#[derive(Clone, Copy, Debug)]
pub struct Prepared {
    pub table: Option<usize>,
}

impl Prepared {
    pub fn new() -> (p: Prepared)
        ensures p.table is None,
    {
        Prepared { table: None }
    }

    /// Prepares the group from the host's table, validated by `validated`: a cached
    /// table stays; otherwise a valid table is cached. Whether a table is now cached.
    pub fn prepare(&mut self, validated: Option<usize>) -> (r: bool)
        ensures
            old(self).table is Some ==> *final(self) == *old(self) && r,
            old(self).table is None ==> final(self).table == validated && r == validated is Some,
    {
        if self.table.is_some() {
            return true;
        }
        match validated {
            Some(t) => {
                self.table = Some(t);
                true
            }
            None => false,
        }
    }
}

} // verus!
