//! Unix domain sockets (`CAP_LOCAL_SOCKETS`). A local socket is a socket of the
//! sockets group created as local; this group binds it to a path, connects it to
//! one, and answers for the paths and the peer's user.
use vstd::prelude::*;
use crate::counter::Counters;
use crate::files::counted;
use crate::io::{ACCESS_DENIED, ADDRESS_IN_USE, ALREADY_CONNECTED, CONNECTION_REFUSED, IN_PROGRESS, NAME_TOO_LONG, NOT_CONNECTED,
    NOT_DIRECTORY, READ_ONLY, WOULD_BLOCK};
use crate::kernel::TIMEOUT;
use crate::port::{error_status, result_status, Error, LocalSockets};
use crate::runtime::{BUFFER_TOO_SMALL, NOT_FOUND};
use crate::io::{text_result, valid_text};
use crate::{is_aligned_output, OutArray, Output, INVALID_ARGUMENT, OK, OS_ERROR, OUT_OF_MEMORY, UNSUPPORTED};

use crate::GroupOps;

verus! {

pub const CAP: u64 = 274877906944;
pub const BIND: usize = 0;
pub const CONNECT: usize = 1;
pub const ADDRESS: usize = 2;
pub const PEER: usize = 3;
pub const FAILED: usize = 4;

/// Successful calls per operation, and the rejected or failed ones.
#[derive(Clone, Copy, Debug, Default, PartialEq, Eq, Structural)]
pub struct Stats {
    pub bind_ok: u64,
    pub connect_ok: u64,
    pub address_ok: u64,
    pub peer_ok: u64,
    pub rejected_or_failed: u64,
}

/// The statuses each call reports: the shared ones everywhere; the path errors from
/// bind and connect; `ADDRESS_IN_USE` from bind; the connection errors and `TIMEOUT`
/// from connect; `NOT_FOUND`, `BUFFER_TOO_SMALL` and `NOT_CONNECTED` from address;
/// `NOT_CONNECTED` from the peer query. Anything else is `OS_ERROR`.
pub open spec fn sanitized(status: u32, index: int) -> u32 {
    if status == OK || status == UNSUPPORTED || status == INVALID_ARGUMENT || status == OS_ERROR || status == OUT_OF_MEMORY {
        status
    } else if (status == NOT_FOUND || status == ACCESS_DENIED || status == NAME_TOO_LONG || status == NOT_DIRECTORY || status == READ_ONLY)
        && index <= 1 {
        status
    } else if status == ADDRESS_IN_USE && index == 0 {
        status
    } else if (status == CONNECTION_REFUSED || status == IN_PROGRESS || status == WOULD_BLOCK || status == ALREADY_CONNECTED || status == TIMEOUT)
        && index == 1 {
        status
    } else if (status == NOT_FOUND || status == BUFFER_TOO_SMALL || status == NOT_CONNECTED) && index == 2 {
        status
    } else if status == NOT_CONNECTED && index == 3 {
        status
    } else {
        OS_ERROR
    }
}

/// Sanitizes a status and counts the call: counter `index` on success, `FAILED` otherwise.
pub fn record(status: u32, index: usize, counters: &mut Counters) -> (r: u32)
    requires
        index < FAILED,
        old(counters).len() == 5,
    ensures
        r == sanitized(status, index as int),
        counted(*old(counters), *final(counters), if r == OK { index as int } else { FAILED as int }),
{
    let s: u32 = if status == OK || status == UNSUPPORTED || status == INVALID_ARGUMENT || status == OS_ERROR || status == OUT_OF_MEMORY {
        status
    } else if (status == NOT_FOUND || status == ACCESS_DENIED || status == NAME_TOO_LONG || status == NOT_DIRECTORY || status == READ_ONLY)
        && index <= 1 {
        status
    } else if status == ADDRESS_IN_USE && index == 0 {
        status
    } else if (status == CONNECTION_REFUSED || status == IN_PROGRESS || status == WOULD_BLOCK || status == ALREADY_CONNECTED || status == TIMEOUT)
        && index == 1 {
        status
    } else if (status == NOT_FOUND || status == BUFFER_TOO_SMALL || status == NOT_CONNECTED) && index == 2 {
        status
    } else if status == NOT_CONNECTED && index == 3 {
        status
    } else {
        OS_ERROR
    };
    counters.increment(if s == OK { index } else { FAILED });
    s
}

/// Whether bind or connect takes these arguments: a socket and a valid path.
pub fn path_arguments(socket: usize, path_address: usize, path: &[u8]) -> (r: bool)
    ensures
        r == (crate::io::valid_text(path_address as int, path@, crate::runtime::MAX_NAME as int) && socket != 0),
{
    crate::io::path(path_address, path) && socket != 0
}

/// Whether an output buffer of `capacity` bytes at `out` is usable: empty, or
/// nonnull and inside the address space, and at most `isize::MAX` bytes.
pub open spec fn buffer_ok(out: int, capacity: int) -> bool {
    capacity <= isize::MAX && (capacity == 0 || (out != 0 && out + capacity <= usize::MAX))
}

/// Whether an address query takes these arguments; `Err` with `INVALID_ARGUMENT` for
/// a bad buffer or `needed` pointer (nothing written), `Ok(false)` for a bad socket or
/// peer selector (`needed` already cleared), `Ok(true)` to ask the provider.
pub fn address_arguments(socket: usize, peer: u32, out: usize, capacity: usize, needed_ok: bool) -> (r: Result<bool, u32>)
    ensures
        !(needed_ok && buffer_ok(out as int, capacity as int)) ==> r == Err::<bool, u32>(INVALID_ARGUMENT),
        needed_ok && buffer_ok(out as int, capacity as int) ==> r == Ok::<bool, u32>(socket != 0 && peer <= 1),
{
    let buffer: bool = capacity <= isize::MAX as usize && (capacity == 0 || (out != 0 && out.checked_add(capacity).is_some()));
    if !needed_ok || !buffer {
        return Err(INVALID_ARGUMENT);
    }
    Ok(socket != 0 && peer <= 1)
}

/// The status and user a peer query gives: no user (`u32::MAX`) stays behind on
/// failure, so a consumer comparing it with its own never finds a match by accident.
pub open spec fn peer_result(answer: Result<u32, Error>) -> (u32, u32) {
    match answer {
        Ok(id) => (OK, id),
        Err(e) => (error_status(e), u32::MAX),
    }
}

pub fn peer_outcome(answer: Result<u32, Error>) -> (r: (u32, u32))
    ensures
        r == peer_result(answer),
{
    match answer {
        Ok(id) => (OK, id),
        Err(e) => (e.status(), u32::MAX),
    }
}

/// The capability bit of the group, and which of its callbacks a table publishes.
pub fn negotiate(provided: bool) -> (r: (u64, GroupOps))
    ensures
        r.0 == (if provided { CAP } else { 0 }),
        r.1 == crate::group_ops(provided),
{
    (if provided { CAP } else { 0 }, GroupOps { calls: provided, read_stats: true })
}

/// Binds a local socket to a path: a bad socket or path is `INVALID_ARGUMENT` before the
/// provider is asked; otherwise its status.
pub fn bind<L: LocalSockets>(counters: &mut Counters, socket: usize, path_address: usize, path: &[u8]) -> (r: u32)
    requires
        old(counters).len() == 5,
    ensures
        counted(*old(counters), *final(counters), if r == OK { BIND as int } else { FAILED as int }),
        !(valid_text(path_address as int, path@, crate::runtime::MAX_NAME as int) && socket != 0) ==> r == INVALID_ARGUMENT,
        valid_text(path_address as int, path@, crate::runtime::MAX_NAME as int) && socket != 0
            ==> exists|answer: Result<(), Error>| L::bind_answer(socket, path@, answer)
                && r == sanitized(#[trigger] result_status(answer), BIND as int),
{
    if !path_arguments(socket, path_address, path) {
        return record(INVALID_ARGUMENT, BIND, counters);
    }
    let answer: Result<(), Error> = L::bind(socket, path);
    let status: u32 = crate::port::status(&answer);
    record(status, BIND, counters)
}

/// Connects a local socket to a path, checked as `bind` checks it.
pub fn connect<L: LocalSockets>(counters: &mut Counters, socket: usize, path_address: usize, path: &[u8]) -> (r: u32)
    requires
        old(counters).len() == 5,
    ensures
        counted(*old(counters), *final(counters), if r == OK { CONNECT as int } else { FAILED as int }),
        !(valid_text(path_address as int, path@, crate::runtime::MAX_NAME as int) && socket != 0) ==> r == INVALID_ARGUMENT,
        valid_text(path_address as int, path@, crate::runtime::MAX_NAME as int) && socket != 0
            ==> exists|answer: Result<(), Error>| L::connect_answer(socket, path@, answer)
                && r == sanitized(#[trigger] result_status(answer), CONNECT as int),
{
    if !path_arguments(socket, path_address, path) {
        return record(INVALID_ARGUMENT, CONNECT, counters);
    }
    let answer: Result<(), Error> = L::connect(socket, path);
    let status: u32 = crate::port::status(&answer);
    record(status, CONNECT, counters)
}

/// A local socket's path (`peer` 0) or its peer's (`peer` 1), as a NUL-terminated text.
/// A bad buffer or length output is rejected unwritten; otherwise the needed length
/// is 0 unless the text is answered, a bad socket or selector is `INVALID_ARGUMENT`,
/// and the buffer is cleared before the provider writes it and on anything but `OK`.
/// A provider that changes the buffer's size answers nothing usable (`OS_ERROR`).
pub fn address<L: LocalSockets>(counters: &mut Counters, socket: usize, peer: u32, buffer: &mut OutArray<u8>, capacity: usize,
    needed: &mut Output<usize>) -> (r: u32)
    requires
        old(counters).len() == 5,
        old(buffer).items@.len() == capacity,
    ensures
        final(buffer).address == old(buffer).address && final(needed).address == old(needed).address,
        counted(*old(counters), *final(counters), if r == OK { ADDRESS as int } else { FAILED as int }),
        !(is_aligned_output(old(needed).address as int, vstd::layout::align_of::<usize>() as int)
            && buffer_ok(old(buffer).address as int, capacity as int))
            ==> r == INVALID_ARGUMENT && *final(needed) == *old(needed) && *final(buffer) == *old(buffer),
        is_aligned_output(old(needed).address as int, vstd::layout::align_of::<usize>() as int)
            && buffer_ok(old(buffer).address as int, capacity as int) && !(socket != 0 && peer <= 1)
            ==> r == INVALID_ARGUMENT && final(needed).value == 0 && *final(buffer) == *old(buffer),
        is_aligned_output(old(needed).address as int, vstd::layout::align_of::<usize>() as int)
            && buffer_ok(old(buffer).address as int, capacity as int) && socket != 0 && peer <= 1
            ==> final(buffer).items@.len() == capacity
                && (r != OK ==> forall|i: int| 0 <= i < capacity ==> final(buffer).items@[i] == 0)
                && exists|answer: Result<usize, Error>, written: Seq<u8>, status: u32|
                    L::address_answer(socket, peer != 0, capacity, crate::files::zero_bytes(capacity as int), written, answer)
                    && #[trigger] crate::io::text_call(answer, capacity as int, written, status, final(needed).value, final(buffer).items@)
                    && r == sanitized(status, ADDRESS as int),
{
    broadcast use vstd::layout::align_nonzero;
    let needed_ok: bool = crate::aligned_output(needed.address, core::mem::align_of::<usize>());
    let go: bool = match address_arguments(socket, peer, buffer.address, capacity, needed_ok) {
        Ok(go) => go,
        Err(e) => return record(e, ADDRESS, counters),
    };
    needed.value = 0;
    if !go {
        return record(INVALID_ARGUMENT, ADDRESS, counters);
    }
    crate::files::clear_name(&mut buffer.items);
    let answer: Result<usize, Error> = L::address(socket, peer != 0, &mut buffer.items, capacity);
    let ghost written: Seq<u8> = buffer.items@;
    if buffer.items.len() != capacity {
        buffer.items = crate::io::zeros(capacity);
        let r: u32 = record(OS_ERROR, ADDRESS, counters);
        assert(crate::io::text_call(answer, capacity as int, written, OS_ERROR, needed.value, buffer.items@));
        return r;
    }
    let (status, length) = crate::io::text_finish(answer, crate::runtime::MAX_NAME + 1, &mut buffer.items);
    needed.value = match length { Some(v) => v, None => 0 };
    let r: u32 = record(status, ADDRESS, counters);
    assert(crate::io::text_call(answer, capacity as int, written, status, needed.value, buffer.items@));
    r
}

/// The user on the other end of a local socket. An unaligned output is rejected
/// unwritten; otherwise it holds no user (`u32::MAX`) unless the call succeeds.
pub fn peer_user<L: LocalSockets>(counters: &mut Counters, socket: usize, user: &mut Output<u32>) -> (r: u32)
    requires
        old(counters).len() == 5,
    ensures
        final(user).address == old(user).address,
        counted(*old(counters), *final(counters), if r == OK { PEER as int } else { FAILED as int }),
        !is_aligned_output(old(user).address as int, vstd::layout::align_of::<u32>() as int)
            ==> r == INVALID_ARGUMENT && final(user).value == old(user).value,
        is_aligned_output(old(user).address as int, vstd::layout::align_of::<u32>() as int) && socket == 0
            ==> r == INVALID_ARGUMENT && final(user).value == u32::MAX,
        is_aligned_output(old(user).address as int, vstd::layout::align_of::<u32>() as int) && socket != 0
            ==> exists|answer: Result<u32, Error>| L::peer_user_answer(socket, answer)
                && (#[trigger] peer_result(answer)).1 == final(user).value
                && r == sanitized(peer_result(answer).0, PEER as int),
{
    if !crate::aligned_output(user.address, core::mem::align_of::<u32>()) {
        return record(INVALID_ARGUMENT, PEER, counters);
    }
    user.value = u32::MAX;
    if socket == 0 {
        return record(INVALID_ARGUMENT, PEER, counters);
    }
    let answer: Result<u32, Error> = L::peer_user(socket);
    let (status, id) = peer_outcome(answer);
    user.value = id;
    let r: u32 = record(status, PEER, counters);
    assert(peer_result(answer) == (status, user.value));
    r
}

} // verus!
