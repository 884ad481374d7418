//! The decisions of the reference Linux providers: how the C library's error
//! numbers become boundary errors, clock and sleep arithmetic, argument checks,
//! and the bookkeeping behind events, mutexes and signal registrations. The calls
//! into the C library are the caller's; the numbers the C library defines for this
//! target (error numbers, signal numbers, protection bits) come in as plain values.
use vstd::prelude::*;
use crate::port::{Error, SignalActions};
use crate::kernel::{BUSY, TIMEOUT};
use crate::runtime::{MAX_NAME, NOT_FOUND};
use crate::{INVALID_ARGUMENT, OK, OS_ERROR, OUT_OF_MEMORY};

verus! {

/// The error numbers of the target's C library that the providers tell apart.
#[derive(Clone, Copy, Debug)]
pub struct Errnos {
    pub eagain: i32,
    pub einval: i32,
    pub enomem: i32,
    pub etimedout: i32,
    pub ebusy: i32,
    pub einprogress: i32,
    pub epipe: i32,
    pub econnrefused: i32,
    pub econnreset: i32,
    pub econnaborted: i32,
    pub enotconn: i32,
    pub eisconn: i32,
    pub eaddrinuse: i32,
    pub eaddrnotavail: i32,
    pub enetunreach: i32,
    pub enetdown: i32,
    pub ehostunreach: i32,
    pub emfile: i32,
    pub enfile: i32,
    pub emsgsize: i32,
    pub eacces: i32,
    pub eperm: i32,
    pub enobufs: i32,
    pub eafnosupport: i32,
    pub eprotonosupport: i32,
    pub eopnotsupp: i32,
    pub enoprotoopt: i32,
    pub enoent: i32,
    pub eisdir: i32,
    pub enotdir: i32,
    pub enametoolong: i32,
    pub esrch: i32,
}

/// What a pthread function's error number means for a provider call.
pub open spec fn status_spec(error: i32, e: Errnos) -> Result<(), Error> {
    if error == 0 {
        Ok(())
    } else if error == e.enomem || error == e.eagain {
        Err(Error::OutOfMemory)
    } else if error == e.einval {
        Err(Error::InvalidArgument)
    } else if error == e.etimedout {
        Err(Error::Timeout)
    } else if error == e.ebusy {
        Err(Error::Busy)
    } else {
        Err(Error::Os)
    }
}

pub fn status(error: i32, e: &Errnos) -> (r: Result<(), Error>)
    ensures
        r == status_spec(error, *e),
{
    if error == 0 {
        Ok(())
    } else if error == e.enomem || error == e.eagain {
        Err(Error::OutOfMemory)
    } else if error == e.einval {
        Err(Error::InvalidArgument)
    } else if error == e.etimedout {
        Err(Error::Timeout)
    } else if error == e.ebusy {
        Err(Error::Busy)
    } else {
        Err(Error::Os)
    }
}

/// The boundary status of a pthread function's error number.
pub fn kernel_status(error: i32, e: &Errnos) -> (r: u32)
    ensures
        r == (if error == 0 { OK } else if error == e.enomem || error == e.eagain { OUT_OF_MEMORY }
            else if error == e.einval { INVALID_ARGUMENT } else if error == e.etimedout { TIMEOUT }
            else if error == e.ebusy { BUSY } else { OS_ERROR }),
{
    if error == 0 {
        OK
    } else if error == e.enomem || error == e.eagain {
        OUT_OF_MEMORY
    } else if error == e.einval {
        INVALID_ARGUMENT
    } else if error == e.etimedout {
        TIMEOUT
    } else if error == e.ebusy {
        BUSY
    } else {
        OS_ERROR
    }
}

/// The boundary's name for the error number of a socket call (EWOULDBLOCK is EAGAIN on Linux).
pub open spec fn socket_error_spec(code: i32, e: Errnos) -> Error {
    if code == e.eagain { Error::WouldBlock }
    else if code == e.einprogress { Error::InProgress }
    else if code == e.epipe { Error::BrokenPipe }
    else if code == e.econnrefused { Error::ConnectionRefused }
    else if code == e.econnreset { Error::ConnectionReset }
    else if code == e.econnaborted { Error::ConnectionAborted }
    else if code == e.enotconn { Error::NotConnected }
    else if code == e.eisconn { Error::AlreadyConnected }
    else if code == e.eaddrinuse { Error::AddressInUse }
    else if code == e.eaddrnotavail { Error::AddressNotAvailable }
    else if code == e.enetunreach || code == e.enetdown { Error::NetworkUnreachable }
    else if code == e.ehostunreach { Error::HostUnreachable }
    else if code == e.emfile || code == e.enfile { Error::TooManyHandles }
    else if code == e.emsgsize { Error::MessageTooLarge }
    else if code == e.eacces || code == e.eperm { Error::AccessDenied }
    else if code == e.etimedout { Error::Timeout }
    else if code == e.enomem || code == e.enobufs { Error::OutOfMemory }
    else if code == e.einval { Error::InvalidArgument }
    else if code == e.eafnosupport || code == e.eprotonosupport || code == e.eopnotsupp || code == e.enoprotoopt { Error::Unsupported }
    else { Error::Os }
}

pub fn socket_error(code: i32, e: &Errnos) -> (r: Error)
    ensures
        r == socket_error_spec(code, *e),
{
    if code == e.eagain { Error::WouldBlock }
    else if code == e.einprogress { Error::InProgress }
    else if code == e.epipe { Error::BrokenPipe }
    else if code == e.econnrefused { Error::ConnectionRefused }
    else if code == e.econnreset { Error::ConnectionReset }
    else if code == e.econnaborted { Error::ConnectionAborted }
    else if code == e.enotconn { Error::NotConnected }
    else if code == e.eisconn { Error::AlreadyConnected }
    else if code == e.eaddrinuse { Error::AddressInUse }
    else if code == e.eaddrnotavail { Error::AddressNotAvailable }
    else if code == e.enetunreach || code == e.enetdown { Error::NetworkUnreachable }
    else if code == e.ehostunreach { Error::HostUnreachable }
    else if code == e.emfile || code == e.enfile { Error::TooManyHandles }
    else if code == e.emsgsize { Error::MessageTooLarge }
    else if code == e.eacces || code == e.eperm { Error::AccessDenied }
    else if code == e.etimedout { Error::Timeout }
    else if code == e.enomem || code == e.enobufs { Error::OutOfMemory }
    else if code == e.einval { Error::InvalidArgument }
    else if code == e.eafnosupport || code == e.eprotonosupport || code == e.eopnotsupp || code == e.enoprotoopt { Error::Unsupported }
    else { Error::Os }
}

/// The failure of a socket transfer or accept: an expired receive or send timeout
/// reads as EAGAIN, which a blocking descriptor reports as a timeout.
pub fn waited_error(code: i32, nonblocking: bool, e: &Errnos) -> (r: Error)
    ensures
        r == (if code == e.eagain && !nonblocking { Error::Timeout } else { socket_error_spec(code, *e) }),
{
    if code == e.eagain && !nonblocking {
        return Error::Timeout;
    }
    socket_error(code, e)
}

/// The boundary's name for the error number of a spawn: EAGAIN is the process limit here.
pub fn spawn_error(code: i32, e: &Errnos) -> (r: Error)
    ensures
        r == (if code == e.enoent { Error::NotFound }
            else if code == e.eacces || code == e.eperm { Error::AccessDenied }
            else if code == e.eisdir { Error::IsDirectory }
            else if code == e.enotdir { Error::NotDirectory }
            else if code == e.enametoolong { Error::NameTooLong }
            else if code == e.emfile || code == e.enfile { Error::TooManyHandles }
            else if code == e.enomem || code == e.eagain { Error::OutOfMemory }
            else if code == e.einval { Error::InvalidArgument }
            else { Error::Os }),
{
    if code == e.enoent { Error::NotFound }
    else if code == e.eacces || code == e.eperm { Error::AccessDenied }
    else if code == e.eisdir { Error::IsDirectory }
    else if code == e.enotdir { Error::NotDirectory }
    else if code == e.enametoolong { Error::NameTooLong }
    else if code == e.emfile || code == e.enfile { Error::TooManyHandles }
    else if code == e.enomem || code == e.eagain { Error::OutOfMemory }
    else if code == e.einval { Error::InvalidArgument }
    else { Error::Os }
}

/// The boundary's name for the error number of a pipe transfer.
pub fn transfer_error(code: i32, e: &Errnos) -> (r: Error)
    ensures
        r == (if code == e.epipe { Error::BrokenPipe } else if code == e.eagain { Error::WouldBlock } else { Error::Os }),
{
    if code == e.epipe { Error::BrokenPipe } else if code == e.eagain { Error::WouldBlock } else { Error::Os }
}

/// The status of an activation request: a full signal queue is `BUSY`, a thread
/// that is gone is `NOT_FOUND`.
pub fn activation_status(rc: i32, e: &Errnos) -> (r: u32)
    ensures
        r == (if rc == 0 { OK } else if rc == e.eagain { BUSY } else if rc == e.esrch { NOT_FOUND } else { OS_ERROR }),
{
    if rc == 0 { OK } else if rc == e.eagain { BUSY } else if rc == e.esrch { NOT_FOUND } else { OS_ERROR }
}

/// A C library result where 0 is success and anything else an OS error.
pub fn os(result: i32) -> (r: Result<(), Error>)
    ensures
        r == (if result == 0 { Ok::<(), Error>(()) } else { Err(Error::Os) }),
{
    if result == 0 { Ok(()) } else { Err(Error::Os) }
}

/// Nanoseconds of a clock reading: an impossible reading, or one past `u64::MAX`
/// nanoseconds, is an OS error.
pub open spec fn timespec_ns_spec(sec: i64, nsec: i64) -> Option<u64> {
    if sec < 0 || !(0 <= nsec < 1_000_000_000) || sec * 1_000_000_000 + nsec > u64::MAX {
        None
    } else {
        Some((sec * 1_000_000_000 + nsec) as u64)
    }
}

pub fn timespec_ns(sec: i64, nsec: i64) -> (r: Result<u64, Error>)
    ensures
        r == (match timespec_ns_spec(sec, nsec) { Some(v) => Ok(v), None => Err(Error::Os) }),
{
    if sec < 0 || !(0 <= nsec && nsec < 1_000_000_000) {
        return Err(Error::Os);
    }
    match (sec as u64).checked_mul(1_000_000_000) {
        Some(s) => match s.checked_add(nsec as u64) {
            Some(v) => Ok(v),
            None => Err(Error::Os),
        },
        None => Err(Error::Os),
    }
}

/// The seconds and nanoseconds of a sleep of `ns` nanoseconds.
pub fn sleep_request(ns: u64) -> (r: (i64, i64))
    ensures
        r.0 == ns / 1_000_000_000,
        r.1 == ns % 1_000_000_000,
{
    ((ns / 1_000_000_000) as i64, (ns % 1_000_000_000) as i64)
}

/// A process or thread id the kernel answered: anything not positive is an OS error.
pub fn positive_id(value: i64) -> (r: Result<u64, Error>)
    ensures
        r == (if value <= 0 { Err(Error::Os) } else { Ok::<u64, Error>(value as u64) }),
{
    if value <= 0 { Err(Error::Os) } else { Ok(value as u64) }
}

/// Whether a handle is not null and aligned for the object behind it.
pub fn handle_ok(address: usize, alignment: usize) -> (r: bool)
    requires
        alignment > 0,
    ensures
        r == (address != 0 && address % alignment == 0),
{
    address != 0 && address % alignment == 0
}

/// Adds one to a counter unless it would overflow; whether it did.
pub fn checked_increment(counter: &mut usize) -> (r: bool)
    ensures
        r == (*old(counter) < usize::MAX),
        r ==> *final(counter) == *old(counter) + 1,
        !r ==> *final(counter) == *old(counter),
{
    match counter.checked_add(1) {
        Some(next) => {
            *counter = next;
            true
        }
        None => false,
    }
}

/// A name with the terminator the C library needs, in a buffer of `MAX_NAME + 1` bytes.
pub fn name_buffer(name: &[u8]) -> (r: [u8; 4096])
    requires
        name@.len() <= MAX_NAME,
    ensures
        forall|i: int| 0 <= i < 4096 ==> r@[i] == (if i < name@.len() { name@[i] } else { 0u8 }),
{
    let mut result: [u8; 4096] = [0u8; 4096];
    let mut i: usize = 0;
    while i < name.len()
        invariant
            name@.len() <= MAX_NAME,
            i <= name@.len(),
            result@.len() == 4096,
            forall|k: int| 0 <= k < 4096 ==> result@[k] == (if k < i { name@[k] } else { 0u8 }),
        decreases name@.len() - i,
    {
        result[i] = name[i];
        i = i + 1;
    }
    result
}

/// What an environment lookup answers.
#[derive(Clone, Copy, Debug, PartialEq, Eq, Structural)]
pub enum Lookup {
    /// The value did not fit; this many bytes, terminator included, are needed.
    TooSmall(usize),
    /// The value and its terminator were copied: this many bytes.
    Copied(usize),
}

/// The answer for an environment variable whose value (with its terminator) is
/// `value` bytes long, or that is not set.
pub fn environment_lookup(value: Option<usize>, capacity: usize) -> (r: Result<Lookup, Error>)
    ensures
        r == (match value {
            None => Err(Error::NotFound),
            Some(n) => Ok(if capacity < n { Lookup::TooSmall(n) } else { Lookup::Copied(n) }),
        }),
{
    match value {
        None => Err(Error::NotFound),
        Some(n) => Ok(if capacity < n { Lookup::TooSmall(n) } else { Lookup::Copied(n) }),
    }
}

/// Most bytes one `getrandom` call is asked for.
pub const ENTROPY_CHUNK: usize = 262144;

/// How many bytes the next `getrandom` call asks for, `done` of `size` being filled.
pub fn entropy_chunk(done: usize, size: usize) -> (r: usize)
    requires
        done < size,
    ensures
        r == (if size - done <= ENTROPY_CHUNK { size - done } else { ENTROPY_CHUNK as int }),
        0 < r <= ENTROPY_CHUNK,
{
    let rest: usize = size - done;
    if rest <= ENTROPY_CHUNK { rest } else { ENTROPY_CHUNK }
}

/// The C library's protection bits.
#[derive(Clone, Copy, Debug)]
pub struct Protections {
    pub read: i32,
    pub write: i32,
    pub execute: i32,
}

/// The native protection of boundary permissions: read (1), write (2), execute (4).
pub fn protection(value: u32, p: &Protections) -> (r: i32)
    ensures
        r == ((if value & 1 != 0 { p.read } else { 0i32 }) | (if value & 2 != 0 { p.write } else { 0i32 })
            | (if value & 4 != 0 { p.execute } else { 0i32 })),
{
    let read: i32 = if value & 1 != 0 { p.read } else { 0 };
    let write: i32 = if value & 2 != 0 { p.write } else { 0 };
    let exec: i32 = if value & 4 != 0 { p.execute } else { 0 };
    read | write | exec
}

/// Whether an address starts a page, for a page size that is a power of two.
pub fn page_aligned(address: usize, page: usize) -> (r: bool)
    ensures
        r == (crate::is_pow2(page as nat) && address % page == 0),
{
    crate::is_power_of_two(page) && address % page == 0
}

/// A thread name with its terminator: at most 15 bytes.
pub fn thread_name(name: &[u8]) -> (r: Result<[u8; 16], Error>)
    ensures
        name@.len() > 15 ==> r == Err::<[u8; 16], Error>(Error::InvalidArgument),
        name@.len() <= 15 ==> (r matches Ok(b) && forall|i: int| 0 <= i < 16 ==> b@[i] == (if i < name@.len() { name@[i] } else { 0u8 })),
{
    if name.len() > 15 {
        return Err(Error::InvalidArgument);
    }
    let mut buffer: [u8; 16] = [0u8; 16];
    let mut i: usize = 0;
    while i < name.len()
        invariant
            name@.len() <= 15,
            i <= name@.len(),
            buffer@.len() == 16,
            forall|k: int| 0 <= k < 16 ==> buffer@[k] == (if k < i { name@[k] } else { 0u8 }),
        decreases name@.len() - i,
    {
        buffer[i] = name[i];
        i = i + 1;
    }
    Ok(buffer)
}

/// The bookkeeping a mutex keeps beside its native pthread mutex: the users
/// (holders and callers waiting in pthread), the owning thread (0 for none) and the
/// owner's recursion depth.
#[derive(Clone, Copy, Debug, PartialEq, Eq, Structural)]
pub struct MutexState {
    pub users: usize,
    pub owner: usize,
    pub depth: usize,
    pub recursive: bool,
}

/// The bookkeeping and answer before `current` enters the native lock.
pub open spec fn begin_lock_step(m: MutexState, current: usize) -> (MutexState, Result<(), Error>) {
    if (m.owner == current && (!m.recursive || m.depth == usize::MAX)) || m.users == usize::MAX {
        (m, Err(Error::Os))
    } else {
        (MutexState { users: (m.users + 1) as usize, ..m }, Ok(()))
    }
}

/// The bookkeeping after the native lock answered for `current`.
pub open spec fn end_lock_step(m: MutexState, current: usize, locked: bool) -> MutexState {
    if locked {
        MutexState { owner: current, depth: if m.owner == current { (m.depth + 1) as usize } else { 1usize }, ..m }
    } else {
        MutexState { users: (m.users - 1) as usize, ..m }
    }
}

/// The bookkeeping and answer before `current` leaves the native lock.
pub open spec fn begin_unlock_step(m: MutexState, current: usize) -> (MutexState, Result<(), Error>) {
    if m.owner != current {
        (m, Err(Error::Os))
    } else {
        (MutexState { depth: (m.depth - 1) as usize, owner: if m.depth == 1 { 0usize } else { current }, ..m }, Ok(()))
    }
}

/// The bookkeeping after the native unlock answered for `current`.
pub open spec fn end_unlock_step(m: MutexState, current: usize, unlocked: bool) -> MutexState {
    if unlocked {
        MutexState { users: (m.users - 1) as usize, ..m }
    } else {
        MutexState { depth: (m.depth + 1) as usize, owner: current, ..m }
    }
}

impl MutexState {
    /// An owner exactly when the depth is not zero, and every level of it a user.
    pub open spec fn wf(&self) -> bool {
        (self.owner == 0) == (self.depth == 0) && self.depth <= self.users
    }

    pub fn new(recursive: bool) -> (m: MutexState)
        ensures
            m.wf(),
            m == (MutexState { users: 0, owner: 0, depth: 0, recursive: recursive }),
    {
        MutexState { users: 0, owner: 0, depth: 0, recursive }
    }

    /// Before `current` enters the native lock: relocking a non-recursive mutex, or a
    /// recursive one at the deepest depth, is an OS error, and so is a full user count;
    /// otherwise `current` becomes a user.
    pub fn begin_lock(&mut self, current: usize) -> (r: Result<(), Error>)
        requires
            old(self).wf(),
            current != 0,
        ensures
            final(self).wf(),
            (*final(self), r) == begin_lock_step(*old(self), current),
    {
        if self.owner == current && (!self.recursive || self.depth == usize::MAX) {
            return Err(Error::Os);
        }
        if !checked_increment(&mut self.users) {
            return Err(Error::Os);
        }
        Ok(())
    }

    /// After the native lock answered for `current`: on success `current` owns one
    /// more level (the first, when another thread owned it before, which the native
    /// mutex rules out); on failure it is no longer a user.
    pub fn end_lock(&mut self, current: usize, locked: bool)
        requires
            old(self).wf(),
            old(self).users > old(self).depth,
            current != 0,
            old(self).owner == current ==> old(self).depth < usize::MAX,
        ensures
            final(self).wf(),
            *final(self) == end_lock_step(*old(self), current, locked),
    {
        if locked {
            self.depth = if self.owner == current { self.depth + 1 } else { 1 };
            self.owner = current;
        } else {
            self.users = self.users - 1;
        }
    }

    /// Before `current` leaves the native lock: only the owner may unlock; the depth
    /// drops by one, and the owner is cleared at zero.
    pub fn begin_unlock(&mut self, current: usize) -> (r: Result<(), Error>)
        requires
            old(self).wf(),
            current != 0,
        ensures
            (*final(self), r) == begin_unlock_step(*old(self), current),
    {
        if self.owner != current {
            return Err(Error::Os);
        }
        self.depth = self.depth - 1;
        if self.depth == 0 {
            self.owner = 0;
        }
        Ok(())
    }

    /// After the native unlock answered: on success `current` is no longer a user; on
    /// failure it owns the level again.
    pub fn end_unlock(&mut self, current: usize, unlocked: bool)
        requires
            old(self).users > old(self).depth,
            old(self).depth < usize::MAX,
            (old(self).owner == 0) == (old(self).depth == 0),
            old(self).owner == 0 || old(self).owner == current,
            current != 0,
        ensures
            final(self).wf(),
            *final(self) == end_unlock_step(*old(self), current, unlocked),
    {
        if unlocked {
            self.users = self.users - 1;
        } else {
            self.depth = self.depth + 1;
            self.owner = current;
        }
    }

    /// Destroying a mutex with a user is `Busy`: destroying a locked pthread mutex is undefined.
    pub fn destroy_check(&self) -> (r: Result<(), Error>)
        ensures
            r == (if self.users != 0 { Err(Error::Busy) } else { Ok::<(), Error>(()) }),
    {
        if self.users != 0 { Err(Error::Busy) } else { Ok(()) }
    }
}

/// A lock and an unlock by the same thread, both granted by the native mutex, leave
/// the bookkeeping as it was; the owner of a non-recursive mutex cannot lock it again.
pub proof fn lemma_lock_unlock(m: MutexState, current: usize)
    requires
        m.wf(),
        current != 0,
    ensures
        ({
            let (entered, r1) = begin_lock_step(m, current);
            let locked = end_lock_step(entered, current, true);
            let (leaving, r2) = begin_unlock_step(locked, current);
            let unlocked = end_unlock_step(leaving, current, true);
            &&& (m.owner == 0 && m.users < usize::MAX) ==> r1 is Ok && locked.owner == current && r2 is Ok && unlocked == m
            &&& (m.owner == current && m.recursive && m.depth < usize::MAX && m.users < usize::MAX)
                ==> r1 is Ok && r2 is Ok && unlocked == m
            &&& (m.owner == current && !m.recursive) ==> r1 == Err::<(), Error>(Error::Os) && entered == m
        }),
{
}

/// How a waiter leaves a blocking wait: woken, timed out, or with another error.
#[derive(Clone, Copy, Debug, PartialEq, Eq, Structural)]
pub enum WaitEnd {
    Woken,
    TimedOut,
    Failed(i32),
}

/// Which condition-variable call a set makes.
#[derive(Clone, Copy, Debug, PartialEq, Eq, Structural)]
pub enum Wake {
    Broadcast,
    Signal,
}

/// What a waiter does next.
#[derive(Clone, Copy, Debug, PartialEq, Eq, Structural)]
pub enum WaitAction {
    /// The event is signaled: stop waiting.
    Signaled,
    /// A zero timeout and no signal: stop, timed out.
    Expired,
    /// Block on the condition variable, with or without the deadline.
    Block { timed: bool },
}

/// The state of an event guarded by its mutex: manual or auto reset, signaled, and
/// the waiters inside `wait`.
#[derive(Clone, Copy, Debug, PartialEq, Eq, Structural)]
pub struct EventState {
    pub manual: bool,
    pub signaled: bool,
    pub waiters: usize,
}

/// What a waiter with a timeout of `ns` (0: poll, `INFINITE`: no deadline) does in state `e`.
pub open spec fn action_spec(e: EventState, ns: u64) -> WaitAction {
    if e.signaled { WaitAction::Signaled } else if ns == 0 { WaitAction::Expired }
    else { WaitAction::Block { timed: ns != crate::kernel::INFINITE } }
}

/// The state and answer when a waiter leaves with `end`.
pub open spec fn leave_step(e: EventState, end: WaitEnd) -> (EventState, WaitEnd) {
    let takes = (end == WaitEnd::Woken || end == WaitEnd::TimedOut) && e.signaled;
    (EventState { signaled: if takes && !e.manual { false } else { e.signaled }, waiters: (e.waiters - 1) as usize, ..e },
        if takes { WaitEnd::Woken } else { end })
}

impl EventState {
    pub fn new(manual: bool, initial: bool) -> (e: EventState)
        ensures
            e == (EventState { manual: manual, signaled: initial, waiters: 0 }),
    {
        EventState { manual, signaled: initial, waiters: 0 }
    }

    /// Signals the event: a manual event wakes every waiter, an auto-reset one a single waiter.
    pub fn set(&mut self) -> (r: Wake)
        ensures
            *final(self) == (EventState { signaled: true, ..*old(self) }),
            r == (if old(self).manual { Wake::Broadcast } else { Wake::Signal }),
    {
        self.signaled = true;
        if self.manual { Wake::Broadcast } else { Wake::Signal }
    }

    pub fn reset(&mut self)
        ensures
            *final(self) == (EventState { signaled: false, ..*old(self) }),
    {
        self.signaled = false;
    }

    /// A waiter enters.
    pub fn enter(&mut self)
        requires
            old(self).waiters < usize::MAX,
        ensures
            *final(self) == (EventState { waiters: (old(self).waiters + 1) as usize, ..*old(self) }),
    {
        self.waiters = self.waiters + 1;
    }

    /// What a waiter with a timeout of `ns` (0: poll, `INFINITE`: no deadline) does now.
    pub fn action(&self, ns: u64) -> (r: WaitAction)
        ensures
            r == action_spec(*self, ns),
    {
        if self.signaled {
            WaitAction::Signaled
        } else if ns == 0 {
            WaitAction::Expired
        } else {
            WaitAction::Block { timed: ns != crate::kernel::INFINITE }
        }
    }

    /// A waiter leaves: a signal that raced with the timeout still counts; a waiter
    /// that takes the signal of an auto-reset event resets it.
    pub fn leave(&mut self, end: WaitEnd) -> (r: WaitEnd)
        requires
            old(self).waiters > 0,
        ensures
            (*final(self), r) == leave_step(*old(self), end),
    {
        let takes: bool = (end == WaitEnd::Woken || end == WaitEnd::TimedOut) && self.signaled;
        let result: WaitEnd = if takes { WaitEnd::Woken } else { end };
        if takes && !self.manual {
            self.signaled = false;
        }
        self.waiters = self.waiters - 1;
        result
    }

    /// Destroying an event with a waiter is `BUSY`.
    pub fn destroy_check(&self) -> (r: u32)
        ensures
            r == (if self.waiters != 0 { BUSY } else { OK }),
    {
        if self.waiters != 0 { BUSY } else { OK }
    }
}

/// An auto-reset event releases one waiter per set: after a set, a waiter finds it
/// signaled and takes the signal, and the next one polling times out; a manual
/// event stays signaled for every later waiter until it is reset.
pub proof fn lemma_event_release(e: EventState, ns: u64)
    requires
        e.waiters < usize::MAX - 1,
    ensures
        ({
            let set = EventState { signaled: true, ..e };
            let first = EventState { waiters: (set.waiters + 1) as usize, ..set };
            let (after, answer) = leave_step(first, WaitEnd::Woken);
            let second = EventState { waiters: (after.waiters + 1) as usize, ..after };
            &&& action_spec(first, ns) == WaitAction::Signaled
            &&& answer == WaitEnd::Woken
            &&& after.waiters == e.waiters
            &&& (!e.manual ==> action_spec(second, 0) == WaitAction::Expired)
            &&& (e.manual ==> action_spec(second, ns) == WaitAction::Signaled)
        }),
{
}

/// The signal numbers of the target for the context kinds.
#[derive(Clone, Copy, Debug)]
pub struct Signals {
    pub activation: i32,
    pub segmentation: i32,
    pub bus: i32,
    pub floating_point: i32,
    pub illegal_instruction: i32,
}

/// The signal of a context kind, `None` past `ILLEGAL_INSTRUCTION`.
pub open spec fn signal_spec(kind: u32, s: Signals) -> Option<i32> {
    if kind == 0 { Some(s.activation) }
    else if kind == 1 { Some(s.segmentation) }
    else if kind == 2 { Some(s.bus) }
    else if kind == 3 { Some(s.floating_point) }
    else if kind == 4 { Some(s.illegal_instruction) }
    else { None }
}

pub fn signal(kind: u32, s: &Signals) -> (r: Option<i32>)
    ensures
        r == signal_spec(kind, *s),
{
    if kind == 0 { Some(s.activation) }
    else if kind == 1 { Some(s.segmentation) }
    else if kind == 2 { Some(s.bus) }
    else if kind == 3 { Some(s.floating_point) }
    else if kind == 4 { Some(s.illegal_instruction) }
    else { None }
}

/// One signal registration: claimed once for the process, then the signal it
/// serves and the consumer's callback and data.
#[derive(Clone, Copy, Debug, PartialEq, Eq, Structural)]
pub struct Registration {
    pub claimed: bool,
    pub signal: i32,
    pub callback: usize,
    pub data: usize,
}

/// The registrations of the five context kinds.
#[derive(Clone, Debug)]
pub struct Registrations {
    pub slots: Vec<Registration>,
}

/// The registrations and answer after an install claims `kind`.
pub open spec fn claim_step(slots: Seq<Registration>, kind: u32, has_callback: bool, s: Signals) -> (Seq<Registration>, Result<i32, u32>) {
    if signal_spec(kind, s) is None || !has_callback {
        (slots, Err(INVALID_ARGUMENT))
    } else if slots[kind as int].claimed {
        (slots, Err(BUSY))
    } else {
        (slots.update(kind as int, Registration { claimed: true, ..slots[kind as int] }), Ok(signal_spec(kind, s)->0))
    }
}

impl Registrations {
    pub open spec fn wf(&self) -> bool {
        self.slots@.len() == 5
    }

    pub fn new() -> (r: Registrations)
        ensures
            r.wf(),
            forall|i: int| 0 <= i < 5 ==> r.slots@[i] == (Registration { claimed: false, signal: 0, callback: 0, data: 0 }),
    {
        let empty = Registration { claimed: false, signal: 0, callback: 0, data: 0 };
        let slots: Vec<Registration> = vec![empty, empty, empty, empty, empty];
        Registrations { slots }
    }

    /// Claims the registration of a kind for an install: an unknown kind or a missing
    /// callback is `INVALID_ARGUMENT`, a kind installed before `BUSY`. The kind's signal on success.
    pub fn claim(&mut self, kind: u32, has_callback: bool, s: &Signals) -> (r: Result<i32, u32>)
        requires
            old(self).wf(),
        ensures
            final(self).wf(),
            (final(self).slots@, r) == claim_step(old(self).slots@, kind, has_callback, *s),
    {
        let number: i32 = match signal(kind, s) {
            Some(n) => n,
            None => return Err(INVALID_ARGUMENT),
        };
        if !has_callback {
            return Err(INVALID_ARGUMENT);
        }
        let k: usize = kind as usize;
        let slot: Registration = self.slots[k];
        if slot.claimed {
            return Err(BUSY);
        }
        self.slots.set(k, Registration { claimed: true, ..slot });
        Ok(number)
    }

    /// Gives a claim back after an install that failed before anything was published.
    pub fn release(&mut self, kind: usize)
        requires
            old(self).wf(),
            kind < 5,
        ensures
            final(self).wf(),
            final(self).slots@ == old(self).slots@.update(kind as int, Registration { claimed: false, ..old(self).slots@[kind as int] }),
    {
        let slot: Registration = self.slots[kind];
        self.slots.set(kind, Registration { claimed: false, ..slot });
    }

    /// Publishes a claimed registration: the data before the callback, the signal last.
    pub fn publish(&mut self, kind: usize, signal: i32, callback: usize, data: usize)
        requires
            old(self).wf(),
            kind < 5,
        ensures
            final(self).wf(),
            final(self).slots@ == old(self).slots@.update(kind as int,
                Registration { claimed: old(self).slots@[kind as int].claimed, signal: signal, callback: callback, data: data }),
    {
        let slot: Registration = self.slots[kind];
        self.slots.set(kind, Registration { claimed: slot.claimed, signal, callback, data });
    }

    /// Withdraws a registration whose handler could not be installed.
    pub fn withdraw(&mut self, kind: usize)
        requires
            old(self).wf(),
            kind < 5,
        ensures
            final(self).wf(),
            final(self).slots@ == old(self).slots@.update(kind as int,
                Registration { claimed: false, signal: 0, callback: 0, data: old(self).slots@[kind as int].data }),
    {
        let slot: Registration = self.slots[kind];
        self.slots.set(kind, Registration { claimed: false, signal: 0, callback: 0, data: slot.data });
    }

    /// Goes on with a claimed install once the kind's previous action was read:
    /// `OS_ERROR` when it could not be read, `BUSY` when it is already the provider's
    /// own handler (another installer got there first); either way the claim is given
    /// back and the install ends.
    pub fn previous_checked(&mut self, kind: usize, read_ok: bool, ours: bool) -> (r: Result<(), u32>)
        requires
            old(self).wf(),
            kind < 5,
        ensures
            final(self).wf(),
            !read_ok ==> r == Err::<(), u32>(OS_ERROR),
            read_ok && ours ==> r == Err::<(), u32>(BUSY),
            read_ok && !ours ==> r == Ok::<(), u32>(()) && final(self).slots@ == old(self).slots@,
            r is Err ==> final(self).slots@
                == old(self).slots@.update(kind as int, Registration { claimed: false, ..old(self).slots@[kind as int] }),
    {
        if !read_ok {
            self.release(kind);
            return Err(OS_ERROR);
        }
        if ours {
            self.release(kind);
            return Err(BUSY);
        }
        Ok(())
    }

    /// Ends a published install once the new action was set or refused: `OK`, or
    /// `OS_ERROR` with the registration withdrawn and the claim given back.
    pub fn installed(&mut self, kind: usize, set: bool) -> (r: u32)
        requires
            old(self).wf(),
            kind < 5,
        ensures
            final(self).wf(),
            set ==> r == OK && final(self).slots@ == old(self).slots@,
            !set ==> r == OS_ERROR && final(self).slots@ == old(self).slots@.update(kind as int,
                Registration { claimed: false, signal: 0, callback: 0, data: old(self).slots@[kind as int].data }),
    {
        if set {
            return OK;
        }
        self.withdraw(kind);
        OS_ERROR
    }

    /// Whether a restore of `kind` may proceed: its signal, or `INVALID_ARGUMENT` for
    /// an unknown kind or one never installed.
    pub fn restore_check(&self, kind: u32, s: &Signals) -> (r: Result<i32, u32>)
        requires
            self.wf(),
        ensures
            signal_spec(kind, *s) is None ==> r == Err::<i32, u32>(INVALID_ARGUMENT),
            signal_spec(kind, *s) is Some ==> r == (if self.slots@[kind as int].claimed {
                Ok::<i32, u32>(signal_spec(kind, *s)->0)
            } else {
                Err(INVALID_ARGUMENT)
            }),
    {
        let number: i32 = match signal(kind, s) {
            Some(n) => n,
            None => return Err(INVALID_ARGUMENT),
        };
        if self.slots[kind as usize].claimed { Ok(number) } else { Err(INVALID_ARGUMENT) }
    }

    /// The callback and data a delivered signal goes to: the first registration serving
    /// `code`, when it has a callback.
    pub fn dispatch(&self, code: i32) -> (r: Option<(usize, usize)>)
        requires
            self.wf(),
        ensures
            match r {
                Some((callback, data)) => exists|k: int| 0 <= k < 5 && (#[trigger] self.slots@[k]).signal == code
                    && (forall|j: int| 0 <= j < k ==> (#[trigger] self.slots@[j]).signal != code)
                    && callback == self.slots@[k].callback && callback != 0 && data == self.slots@[k].data,
                None => forall|k: int| 0 <= k < 5 && (#[trigger] self.slots@[k]).signal == code
                    && (forall|j: int| 0 <= j < k ==> (#[trigger] self.slots@[j]).signal != code)
                    ==> self.slots@[k].callback == 0,
            },
    {
        let mut k: usize = 0;
        while k < 5
            invariant
                self.wf(),
                k <= 5,
                forall|j: int| 0 <= j < k ==> (#[trigger] self.slots@[j]).signal != code,
            decreases 5 - k,
        {
            let slot: Registration = self.slots[k];
            if slot.signal == code {
                if slot.callback != 0 {
                    return Some((slot.callback, slot.data));
                }
                proof {
                    assert forall|m: int| 0 <= m < 5 && (#[trigger] self.slots@[m]).signal == code
                        && (forall|j: int| 0 <= j < m ==> (#[trigger] self.slots@[j]).signal != code)
                        implies self.slots@[m].callback == 0 by {
                        if m > k {
                            assert(self.slots@[k as int].signal == code);
                        }
                    }
                }
                return None;
            }
            k = k + 1;
        }
        None
    }
}

/// One change a registration table goes through: a claim, a publish, or a claim
/// given back (`release`) or withdrawn after an install of that kind failed. A restore
/// reads the table and changes nothing.
pub enum RegistrationStep {
    Claim(u32, bool),
    Publish(usize, i32, usize, usize),
    Release(usize),
    Withdraw(usize),
}

/// The table after one step, as `claim`, `publish`, `release` and `withdraw` leave it.
pub open spec fn registration_after(slots: Seq<Registration>, step: RegistrationStep, s: Signals) -> Seq<Registration> {
    match step {
        RegistrationStep::Claim(kind, has_callback) => claim_step(slots, kind, has_callback, s).0,
        RegistrationStep::Publish(kind, signal, callback, data) =>
            slots.update(kind as int, Registration { claimed: slots[kind as int].claimed, signal: signal, callback: callback, data: data }),
        RegistrationStep::Release(kind) => slots.update(kind as int, Registration { claimed: false, ..slots[kind as int] }),
        RegistrationStep::Withdraw(kind) =>
            slots.update(kind as int, Registration { claimed: false, signal: 0, callback: 0, data: slots[kind as int].data }),
    }
}

/// The table after a sequence of steps.
pub open spec fn registrations_after(slots: Seq<Registration>, steps: Seq<RegistrationStep>, s: Signals) -> Seq<Registration>
    decreases steps.len(),
{
    if steps.len() == 0 {
        slots
    } else {
        registration_after(registrations_after(slots, steps.drop_last(), s), steps.last(), s)
    }
}

/// Whether a step gives back or withdraws the claim of `kind`, which only a failed
/// install of that kind does.
pub open spec fn undoes(step: RegistrationStep, kind: int) -> bool {
    match step {
        RegistrationStep::Release(k) => k == kind,
        RegistrationStep::Withdraw(k) => k == kind,
        _ => false,
    }
}

/// A kind is installed at most once: after a claim that succeeded, whatever claims,
/// publishes and restores follow (of any kind), and whatever failed installs of other
/// kinds give back, a claim of the same kind is `BUSY` and changes nothing; a claim
/// given back after a failed install of that kind can be made again.
pub proof fn lemma_claim_once(slots: Seq<Registration>, kind: u32, s: Signals, steps: Seq<RegistrationStep>, has_callback: bool)
    requires
        slots.len() == 5,
        signal_spec(kind, s) is Some,
        !slots[kind as int].claimed,
        has_callback,
        forall|i: int| 0 <= i < steps.len() ==> match #[trigger] steps[i] {
            RegistrationStep::Publish(k, _, _, _) => k < 5,
            RegistrationStep::Release(k) => k < 5,
            RegistrationStep::Withdraw(k) => k < 5,
            RegistrationStep::Claim(_, _) => true,
        },
        forall|i: int| 0 <= i < steps.len() ==> !undoes(#[trigger] steps[i], kind as int),
    ensures
        ({
            let (claimed, r1) = claim_step(slots, kind, true, s);
            let later = registrations_after(claimed, steps, s);
            let (again, r2) = claim_step(later, kind, has_callback, s);
            let released = claimed.update(kind as int, Registration { claimed: false, ..claimed[kind as int] });
            let (retried, r3) = claim_step(released, kind, true, s);
            &&& r1 is Ok
            &&& r2 == Err::<i32, u32>(BUSY) && again == later
            &&& r3 == r1 && retried == claimed
        }),
    decreases steps.len(),
{
    let (claimed, r1) = claim_step(slots, kind, true, s);
    let released = claimed.update(kind as int, Registration { claimed: false, ..claimed[kind as int] });
    assert(released =~= slots);
    lemma_claim_kept(claimed, kind, s, steps);
}

/// A claimed kind stays claimed through steps that do not undo its claim.
proof fn lemma_claim_kept(slots: Seq<Registration>, kind: u32, s: Signals, steps: Seq<RegistrationStep>)
    requires
        slots.len() == 5,
        kind < 5,
        slots[kind as int].claimed,
        forall|i: int| 0 <= i < steps.len() ==> match #[trigger] steps[i] {
            RegistrationStep::Publish(k, _, _, _) => k < 5,
            RegistrationStep::Release(k) => k < 5,
            RegistrationStep::Withdraw(k) => k < 5,
            RegistrationStep::Claim(_, _) => true,
        },
        forall|i: int| 0 <= i < steps.len() ==> !undoes(#[trigger] steps[i], kind as int),
    ensures
        registrations_after(slots, steps, s).len() == 5,
        registrations_after(slots, steps, s)[kind as int].claimed,
    decreases steps.len(),
{
    if steps.len() > 0 {
        let front = steps.drop_last();
        assert forall|i: int| 0 <= i < front.len() implies !undoes(#[trigger] front[i], kind as int) by {
            assert(front[i] == steps[i]);
        }
        assert forall|i: int| 0 <= i < front.len() implies match #[trigger] front[i] {
            RegistrationStep::Publish(k, _, _, _) => k < 5,
            RegistrationStep::Release(k) => k < 5,
            RegistrationStep::Withdraw(k) => k < 5,
            RegistrationStep::Claim(_, _) => true,
        } by {
            assert(front[i] == steps[i]);
        }
        lemma_claim_kept(slots, kind, s, front);
        let last = steps[steps.len() - 1];
        assert(!undoes(last, kind as int));
        match last {
            RegistrationStep::Publish(k, _, _, _) => assert(k < 5),
            RegistrationStep::Release(k) => assert(k < 5),
            RegistrationStep::Withdraw(k) => assert(k < 5),
            RegistrationStep::Claim(_, _) => {},
        }
    }
}

/// The registrations and status of one install of the Linux context provider, given
/// what reading the previous action found and whether setting the new one worked:
/// claim the kind; give the claim back with `OS_ERROR` when the previous action cannot
/// be read and with `BUSY` when it is already the provider's handler; otherwise
/// publish the registration and, when the new action cannot be set, withdraw it with
/// `OS_ERROR`.
pub open spec fn install_result(slots: Seq<Registration>, kind: u32, callback: usize, data: usize, s: Signals,
    read: Option<(bool, i32)>, set: bool) -> (Seq<Registration>, u32) {
    let (claimed, c) = claim_step(slots, kind, callback != 0, s);
    match c {
        Err(e) => (slots, e),
        Ok(signal) => {
            let given_back = claimed.update(kind as int, Registration { claimed: false, ..claimed[kind as int] });
            match read {
                None => (given_back, OS_ERROR),
                Some((ours, _)) => if ours {
                    (given_back, BUSY)
                } else {
                    let published = claimed.update(kind as int,
                        Registration { claimed: claimed[kind as int].claimed, signal: signal, callback: callback, data: data });
                    if set {
                        (published, OK)
                    } else {
                        (published.update(kind as int, Registration { claimed: false, signal: 0, callback: 0, data: published[kind as int].data }),
                            OS_ERROR)
                    }
                },
            }
        },
    }
}

/// One install of the Linux context provider, with the native actions behind `A`.
pub fn install_sequence<A: SignalActions>(regs: &mut Registrations, kind: u32, callback: usize, data: usize, s: &Signals,
    restart: i32, siginfo: i32, onstack: i32) -> (r: u32)
    requires
        old(regs).wf(),
    ensures
        final(regs).wf(),
        exists|read: Option<(bool, i32)>, set: bool|
            (final(regs).slots@, r) == #[trigger] install_result(old(regs).slots@, kind, callback, data, *s, read, set),
{
    let signal: i32 = match regs.claim(kind, callback != 0, s) {
        Ok(n) => n,
        Err(e) => {
            assert((regs.slots@, e) == install_result(old(regs).slots@, kind, callback, data, *s, None, false));
            return e;
        }
    };
    let k: usize = kind as usize;
    let read: Option<(bool, i32)> = A::previous(signal);
    let (ok, ours, old_flags) = match read {
        None => (false, false, 0i32),
        Some((o, f)) => (true, o, f),
    };
    match regs.previous_checked(k, ok, ours) {
        Ok(()) => {}
        Err(e) => {
            assert((regs.slots@, e) == install_result(old(regs).slots@, kind, callback, data, *s, read, false));
            return e;
        }
    }
    let (flags, keep_mask) = action_flags(old_flags, restart, siginfo, onstack);
    regs.publish(k, signal, callback, data);
    let set: bool = A::set(signal, flags, keep_mask);
    let r: u32 = regs.installed(k, set);
    assert((regs.slots@, r) == install_result(old(regs).slots@, kind, callback, data, *s, read, set));
    r
}

/// One installation per signal for the process lifetime: after an install that
/// answered `OK`, whatever claims, publishes and restores follow and whatever failed
/// installs of other kinds give back, another install of the kind is `BUSY` and
/// leaves the registrations as they were, whatever the native actions would say.
pub proof fn lemma_install_once(slots: Seq<Registration>, kind: u32, callback: usize, data: usize, s: Signals,
    read: Option<(bool, i32)>, steps: Seq<RegistrationStep>, callback2: usize, data2: usize, read2: Option<(bool, i32)>, set2: bool)
    requires
        slots.len() == 5,
        install_result(slots, kind, callback, data, s, read, true).1 == OK,
        callback2 != 0,
        forall|i: int| 0 <= i < steps.len() ==> match #[trigger] steps[i] {
            RegistrationStep::Publish(k, _, _, _) => k < 5,
            RegistrationStep::Release(k) => k < 5,
            RegistrationStep::Withdraw(k) => k < 5,
            RegistrationStep::Claim(_, _) => true,
        },
        forall|i: int| 0 <= i < steps.len() ==> !undoes(#[trigger] steps[i], kind as int),
    ensures
        ({
            let later = registrations_after(install_result(slots, kind, callback, data, s, read, true).0, steps, s);
            install_result(later, kind, callback2, data2, s, read2, set2) == (later, BUSY)
        }),
{
    let after = install_result(slots, kind, callback, data, s, read, true).0;
    assert(signal_spec(kind, s) is Some);
    assert(after[kind as int].claimed);
    lemma_claim_kept(after, kind, s, steps);
}

/// One restore of the Linux context provider: `restore_check`, then the saved action is
/// put back (`OS_ERROR` when that fails). Registrations stay: restoration does not
/// make a slot reusable.
pub fn restore_sequence<A: SignalActions>(regs: &Registrations, kind: u32, s: &Signals) -> (r: u32)
    requires
        regs.wf(),
    ensures
        signal_spec(kind, *s) is None || !regs.slots@[kind as int].claimed ==> r == INVALID_ARGUMENT,
        signal_spec(kind, *s) is Some && regs.slots@[kind as int].claimed ==> r == OK || r == OS_ERROR,
{
    let signal: i32 = match regs.restore_check(kind, s) {
        Ok(n) => n,
        Err(e) => return e,
    };
    if A::put_back(signal) { OK } else { OS_ERROR }
}

/// The flags of the action the provider installs: restart and siginfo, plus the
/// alternate stack (with the previous mask) when the previous action used it.
pub fn action_flags(old_flags: i32, restart: i32, siginfo: i32, onstack: i32) -> (r: (i32, bool))
    ensures
        r == (if old_flags & onstack != 0 { ((restart | siginfo) | onstack, true) } else { (restart | siginfo, false) }),
{
    let flags: i32 = restart | siginfo;
    if old_flags & onstack != 0 { (flags | onstack, true) } else { (flags, false) }
}

/// The bytes of "/sys/class/net/".
pub open spec fn net_root() -> Seq<u8> {
    seq![47u8, 115u8, 121u8, 115u8, 47u8, 99u8, 108u8, 97u8, 115u8, 115u8, 47u8, 110u8, 101u8, 116u8, 47u8]
}

/// `/sys/class/net/<name>/<leaf>` with its terminator in a 96-byte buffer; `None` for a
/// name with a '/' or a path that does not fit.
pub open spec fn sysfs_spec(name: Seq<u8>, leaf: Seq<u8>) -> Option<Seq<u8>> {
    if name.contains(47u8) || net_root().len() + name.len() + 1 + leaf.len() >= 96 {
        None
    } else {
        let text = net_root() + name + seq![47u8] + leaf;
        Some(text + Seq::new((96 - text.len()) as nat, |i: int| 0u8))
    }
}

pub fn sysfs(name: &[u8], leaf: &[u8]) -> (r: Option<[u8; 96]>)
    ensures
        match (r, sysfs_spec(name@, leaf@)) {
            (Some(path), Some(expected)) => path@ == expected,
            (None, None) => true,
            _ => false,
        },
{
    let root: [u8; 15] = [47, 115, 121, 115, 47, 99, 108, 97, 115, 115, 47, 110, 101, 116, 47];
    assert(root@ == net_root());
    let mut i: usize = 0;
    while i < name.len()
        invariant
            i <= name@.len(),
            forall|k: int| 0 <= k < i ==> name@[k] != 47,
        decreases name@.len() - i,
    {
        if name[i] == 47 {
            assert(name@.contains(47u8));
            return None;
        }
        i = i + 1;
    }
    assert(!name@.contains(47u8));
    if name.len() >= 96 || leaf.len() >= 96 || 15 + name.len() + 1 + leaf.len() >= 96 {
        return None;
    }
    let ghost text: Seq<u8> = net_root() + name@ + seq![47u8] + leaf@;
    let mut path: [u8; 96] = [0u8; 96];
    let mut at: usize = 0;
    while at < 15
        invariant
            at <= 15,
            path@.len() == 96,
            root@ == net_root(),
            forall|k: int| 0 <= k < at ==> path@[k] == root@[k],
            forall|k: int| at <= k < 96 ==> path@[k] == 0,
        decreases 15 - at,
    {
        path[at] = root[at];
        at = at + 1;
    }
    let mut j: usize = 0;
    while j < name.len()
        invariant
            15 + name@.len() + 1 + leaf@.len() < 96,
            j <= name@.len(),
            path@.len() == 96,
            root@ == net_root(),
            forall|k: int| 0 <= k < 15 ==> path@[k] == root@[k],
            forall|k: int| 0 <= k < j ==> path@[15 + k] == name@[k],
            forall|k: int| 15 + j <= k < 96 ==> path@[k] == 0,
        decreases name@.len() - j,
    {
        path[15 + j] = name[j];
        j = j + 1;
    }
    let slash: usize = 15 + name.len();
    path[slash] = 47;
    let mut m: usize = 0;
    while m < leaf.len()
        invariant
            slash == 15 + name@.len(),
            slash + 1 + leaf@.len() < 96,
            m <= leaf@.len(),
            path@.len() == 96,
            root@ == net_root(),
            forall|k: int| 0 <= k < 15 ==> path@[k] == root@[k],
            forall|k: int| 0 <= k < name@.len() ==> path@[15 + k] == name@[k],
            path@[slash as int] == 47,
            forall|k: int| 0 <= k < m ==> path@[slash + 1 + k] == leaf@[k],
            forall|k: int| slash + 1 + m <= k < 96 ==> path@[k] == 0,
        decreases leaf@.len() - m,
    {
        path[slash + 1 + m] = leaf[m];
        m = m + 1;
    }
    assert(path@ =~= text + Seq::new((96 - text.len()) as nat, |i: int| 0u8));
    Some(path)
}

/// Bits per second from a sysfs speed file, which counts megabits: the decimal digits
/// up to the first line feed, saturating; 0 for any other byte (a speed of -1 reads as 0).
pub open spec fn megabits(text: Seq<u8>) -> Option<u64>
    decreases text.len(),
{
    if text.len() == 0 {
        Some(0)
    } else {
        let b = text.last();
        match megabits(text.drop_last()) {
            None => None,
            Some(m) => if 48 <= b <= 57 {
                let v = m * 10 + (b - 48);
                Some(if v > u64::MAX { u64::MAX } else { v as u64 })
            } else {
                None
            },
        }
    }
}

pub open spec fn speed_spec(text: Seq<u8>) -> u64 {
    let end = crate::linux_platform::index_of(text, 10);
    let digits = if end < 0 { text } else { text.take(end) };
    match megabits(digits) {
        Some(m) => if m * 1_000_000 > u64::MAX { u64::MAX } else { (m * 1_000_000) as u64 },
        None => 0,
    }
}

pub fn speed(text: &[u8]) -> (r: u64)
    ensures
        r == speed_spec(text@),
{
    let end: usize = crate::linux_platform::find_byte(text, 0, 10);
    assert(text@.skip(0) == text@);
    let ghost digits: Seq<u8> = if end == text@.len() { text@ } else { text@.take(end as int) };
    assert(text@.take(end as int) == text@.subrange(0, end as int));
    assert(text@.subrange(0, text@.len() as int) == text@);
    let mut value: u64 = 0;
    let mut i: usize = 0;
    while i < end
        invariant
            end <= text@.len(),
            i <= end,
            digits == text@.subrange(0, end as int),
            digits == (if crate::linux_platform::index_of(text@, 10) < 0 { text@ }
                else { text@.take(crate::linux_platform::index_of(text@, 10)) }),
            megabits(digits.take(i as int)) == Some(value),
        decreases end - i,
    {
        assert(digits.take(i as int + 1).drop_last() == digits.take(i as int));
        assert(digits.take(i as int + 1).last() == text@[i as int]);
        let b: u8 = text[i];
        if b < 48 || b > 57 {
            proof {
                assert(megabits(digits.take(i as int + 1)) is None);
                lemma_megabits_fails(digits, i as int + 1);
                assert(speed_spec(text@) == 0);
            }
            return 0;
        }
        let times: u64 = match value.checked_mul(10) {
            Some(t) => t,
            None => u64::MAX,
        };
        value = times.saturating_add((b - 48) as u64);
        i = i + 1;
    }
    assert(digits.take(end as int) == digits);
    match value.checked_mul(1_000_000) {
        Some(v) => v,
        None => u64::MAX,
    }
}

/// Once a prefix has a byte that is no digit, every longer prefix has one too.
proof fn lemma_megabits_fails(s: Seq<u8>, k: int)
    requires
        0 <= k <= s.len(),
        megabits(s.take(k)) is None,
    ensures
        megabits(s) is None,
    decreases s.len() - k,
{
    if k < s.len() {
        assert(s.take(k + 1).drop_last() == s.take(k));
        lemma_megabits_fails(s, k + 1);
    } else {
        assert(s.take(k) == s);
    }
}

/// The signal behind a notification kind, from the table indexed by kind (index 0 is
/// no kind, and a 0 entry no signal); `InvalidArgument` otherwise.
pub fn notification_signal(kind: u32, table: &[i32; 10]) -> (r: Result<i32, Error>)
    ensures
        r == (if kind < 10 && table@[kind as int] != 0 { Ok(table@[kind as int]) } else { Err(Error::InvalidArgument) }),
{
    if kind < 10 && table[kind as usize] != 0 { Ok(table[kind as usize]) } else { Err(Error::InvalidArgument) }
}

/// The kind a delivered signal reports: its first index in the table.
pub fn notification_kind(code: i32, table: &[i32; 10]) -> (r: Option<u8>)
    ensures
        match r {
            Some(k) => k < 10 && table@[k as int] == code && forall|j: int| 0 <= j < k ==> table@[j] != code,
            None => forall|j: int| 0 <= j < 10 ==> table@[j] != code,
        },
{
    let mut k: usize = 0;
    while k < 10
        invariant
            k <= 10,
            forall|j: int| 0 <= j < k ==> table@[j] != code,
        decreases 10 - k,
    {
        if table[k] == code {
            return Some(k as u8);
        }
        k = k + 1;
    }
    None
}

/// A path argument with the terminator the C library needs.
pub struct CPath(pub [u8; 4096]);

impl CPath {
    /// The path in a 4096-byte buffer, zero after it: `NameTooLong` unless it fits
    /// with its terminator.
    pub fn new(path: &[u8]) -> (r: Result<CPath, Error>)
        ensures
            path@.len() >= 4096 ==> r is Err && r->Err_0 == Error::NameTooLong,
            path@.len() < 4096 ==> (r matches Ok(c) && forall|i: int| 0 <= i < 4096 ==> c.0@[i] == (if i < path@.len() { path@[i] } else { 0u8 })),
    {
        if path.len() >= 4096 {
            return Err(Error::NameTooLong);
        }
        let mut bytes: [u8; 4096] = [0u8; 4096];
        let mut i: usize = 0;
        while i < path.len()
            invariant
                path@.len() < 4096,
                i <= path@.len(),
                bytes@.len() == 4096,
                forall|k: int| 0 <= k < 4096 ==> bytes@[k] == (if k < i { path@[k] } else { 0u8 }),
            decreases path@.len() - i,
        {
            bytes[i] = path[i];
            i = i + 1;
        }
        Ok(CPath(bytes))
    }
}

/// A C library result where 0 is success and anything else the error number.
pub fn check(code: i32) -> (r: Result<(), i32>)
    ensures
        r == (if code == 0 { Ok::<(), i32>(()) } else { Err(code) }),
{
    if code == 0 { Ok(()) } else { Err(code) }
}

/// How a child ended, as one `waitpid` without blocking reports it.
#[derive(Clone, Copy, Debug, PartialEq, Eq, Structural)]
pub enum WaitAnswer {
    /// The child is still running.
    Running,
    /// The child is gone without its code: someone else reaped it.
    Lost,
    /// The child exited with this code.
    Exited(i32),
    /// A signal of this number ended the child.
    Signaled(i32),
    /// The child changed state without ending.
    Other,
}

/// Where a child stands: running, ended with its code, or lost.
#[derive(Clone, Copy, Debug, PartialEq, Eq, Structural)]
pub enum ChildState {
    Running,
    Ended(i32),
    Lost,
}

/// The verdict once it is in: the exit code, or the failure to learn it.
pub fn verdict(state: ChildState) -> (r: Option<Result<i32, Error>>)
    ensures
        r == (match state {
            ChildState::Running => None,
            ChildState::Ended(code) => Some(Ok(code)),
            ChildState::Lost => Some(Err(Error::Os)),
        }),
{
    match state {
        ChildState::Running => None,
        ChildState::Ended(code) => Some(Ok(code)),
        ChildState::Lost => Some(Err(Error::Os)),
    }
}

/// The state and answer after one look at a child: a verdict that is in stays; a
/// running child takes what `waitpid` answered (an exit code, 128 plus the signal,
/// or lost for good).
pub open spec fn look_step(state: ChildState, answer: WaitAnswer) -> (ChildState, Result<Option<i32>, Error>) {
    match state {
        ChildState::Ended(code) => (state, Ok(Some(code))),
        ChildState::Lost => (state, Err(Error::Os)),
        ChildState::Running => match answer {
            WaitAnswer::Running => (state, Ok(None)),
            WaitAnswer::Other => (state, Ok(None)),
            WaitAnswer::Lost => (ChildState::Lost, Err(Error::Os)),
            WaitAnswer::Exited(code) => (ChildState::Ended(code), Ok(Some(code))),
            WaitAnswer::Signaled(signal) => {
                let code = (128 + signal) as i32;
                (ChildState::Ended(code), Ok(Some(code)))
            },
        },
    }
}

/// Looks at a child once: the only `waitpid` for it reaps exactly once and keeps the
/// code for every later question.
pub fn look(state: &mut ChildState, answer: WaitAnswer) -> (r: Result<Option<i32>, Error>)
    requires
        answer matches WaitAnswer::Signaled(n) ==> 0 <= n <= 127,
    ensures
        (*final(state), r) == look_step(*old(state), answer),
{
    match *state {
        ChildState::Ended(code) => Ok(Some(code)),
        ChildState::Lost => Err(Error::Os),
        ChildState::Running => match answer {
            WaitAnswer::Running => Ok(None),
            WaitAnswer::Other => Ok(None),
            WaitAnswer::Lost => {
                *state = ChildState::Lost;
                Err(Error::Os)
            }
            WaitAnswer::Exited(code) => {
                *state = ChildState::Ended(code);
                Ok(Some(code))
            }
            WaitAnswer::Signaled(signal) => {
                let code: i32 = 128 + signal;
                *state = ChildState::Ended(code);
                Ok(Some(code))
            }
        },
    }
}

/// A child is reaped once: after a look that learned its code, every later look
/// answers the same code, whatever `waitpid` would say.
pub proof fn lemma_reaped_once(answer: WaitAnswer, later: WaitAnswer)
    requires
        answer matches WaitAnswer::Exited(_) || answer matches WaitAnswer::Signaled(_),
    ensures
        ({
            let (after, first) = look_step(ChildState::Running, answer);
            let (again, second) = look_step(after, later);
            again == after && second == first && first is Ok
        }),
{
}

/// How much address space an aligned reservation maps first: the size plus room to
/// slide to the alignment; `None` when that overflows.
pub fn reservation_span(size: usize, alignment: usize, page: usize) -> (r: Option<usize>)
    requires
        page <= alignment,
    ensures
        r == (if size + (alignment - page) > usize::MAX { None } else { Some((size + (alignment - page)) as usize) }),
{
    size.checked_add(alignment - page)
}

/// Where an aligned reservation lies inside a mapping of `total` bytes at `raw`, and
/// the unneeded prefix and suffix to unmap: `None` when rounding up overflows.
pub open spec fn placement_spec(raw: int, total: int, size: int, alignment: int) -> Option<(int, int, int)> {
    if raw + alignment - 1 > usize::MAX {
        None
    } else {
        let aligned = ((raw + alignment - 1) / alignment) * alignment;
        Some((aligned, aligned - raw, total - (aligned - raw) - size))
    }
}

/// Places an aligned reservation inside the mapping the kernel made: the aligned start,
/// the prefix before it and the suffix after it, which together with the reservation
/// are the whole mapping. Both mapping and alignment are whole pages.
pub fn placement(raw: usize, total: usize, size: usize, alignment: usize, page: usize) -> (r: Option<(usize, usize, usize)>)
    requires
        crate::is_pow2(page as nat),
        crate::is_pow2(alignment as nat),
        page <= alignment,
        raw % page == 0,
        alignment % page == 0,
        total == size + (alignment - page),
    ensures
        match r {
            Some((aligned, prefix, suffix)) => placement_spec(raw as int, total as int, size as int, alignment as int)
                == Some((aligned as int, prefix as int, suffix as int))
                && aligned % alignment == 0 && prefix + size + suffix == total && aligned == raw + prefix,
            None => placement_spec(raw as int, total as int, size as int, alignment as int) is None,
        },
{
    let rounded: usize = match raw.checked_add(alignment - 1) {
        Some(n) => n,
        None => return None,
    };
    let aligned: usize = rounded - rounded % alignment;
    proof {
        let a = alignment as int;
        let p = page as int;
        let n = rounded as int;
        vstd::arithmetic::div_mod::lemma_fundamental_div_mod(n, a);
        vstd::arithmetic::mul::lemma_mul_is_commutative(n / a, a);
        vstd::arithmetic::div_mod::lemma_mod_multiples_basic(n / a, a);
        // The prefix is less than the alignment and, both ends being whole pages, at most
        // one page less.
        let prefix = aligned - raw;
        assert(0 <= prefix < a);
        vstd::arithmetic::div_mod::lemma_fundamental_div_mod(a, p);
        vstd::arithmetic::div_mod::lemma_fundamental_div_mod(raw as int, p);
        assert(aligned as int % p == 0) by {
            vstd::arithmetic::div_mod::lemma_mod_mod(aligned as int, p, a / p);
            lemma_multiple_of_multiple(aligned as int, a, p);
        }
        lemma_difference_of_multiples(aligned as int, raw as int, p);
        lemma_multiple_below(prefix, a, p);
    }
    let prefix: usize = aligned - raw;
    let suffix: usize = total - prefix - size;
    Some((aligned, prefix, suffix))
}

/// Whether the mapping front end can place a reservation aligned to `alignment` on
/// pages of `page` bytes: both powers of two, and the alignment whole pages.
pub open spec fn mappable(alignment: usize, page: usize) -> bool {
    crate::is_pow2(page as nat) && crate::is_pow2(alignment as nat) && page <= alignment && alignment % page == 0
}

/// The span to map for an aligned reservation, when the front end can place it:
/// `reservation_span` for a `mappable` alignment, `None` otherwise.
pub fn mapping_span(size: usize, alignment: usize, page: usize) -> (r: Option<usize>)
    ensures
        !mappable(alignment, page) ==> r is None,
        mappable(alignment, page) ==> r == (if size + (alignment - page) > usize::MAX { None } else { Some((size + (alignment - page)) as usize) }),
{
    if !crate::is_power_of_two(page) || !crate::is_power_of_two(alignment) || alignment < page || alignment % page != 0 {
        return None;
    }
    reservation_span(size, alignment, page)
}

/// Where an aligned reservation lies inside a mapping the kernel made: `placement`
/// for a `mappable` alignment, a page-aligned mapping and the span `mapping_span`
/// gave; `None` otherwise.
pub fn mapping_placement(raw: usize, total: usize, size: usize, alignment: usize, page: usize) -> (r: Option<(usize, usize, usize)>)
    ensures
        !(mappable(alignment, page) && raw % page == 0 && total == size + (alignment - page)) ==> r is None,
        mappable(alignment, page) && raw % page == 0 && total == size + (alignment - page) ==> match r {
            Some((aligned, prefix, suffix)) => placement_spec(raw as int, total as int, size as int, alignment as int)
                == Some((aligned as int, prefix as int, suffix as int))
                && aligned % alignment == 0 && prefix + size + suffix == total && aligned == raw + prefix,
            None => placement_spec(raw as int, total as int, size as int, alignment as int) is None,
        },
{
    if !crate::is_power_of_two(page) || !crate::is_power_of_two(alignment) || alignment < page || alignment % page != 0 {
        return None;
    }
    if raw % page != 0 || size.checked_add(alignment - page) != Some(total) {
        return None;
    }
    placement(raw, total, size, alignment, page)
}

/// A multiple of `a` is a multiple of `p` when `a` is.
proof fn lemma_multiple_of_multiple(x: int, a: int, p: int)
    requires
        p > 0,
        a > 0,
        x % a == 0,
        a % p == 0,
    ensures
        x % p == 0,
{
    vstd::arithmetic::div_mod::lemma_fundamental_div_mod(x, a);
    vstd::arithmetic::div_mod::lemma_fundamental_div_mod(a, p);
    let q = x / a;
    let k = a / p;
    assert(x == a * q);
    assert(a == p * k);
    vstd::arithmetic::mul::lemma_mul_is_associative(p, k, q);
    vstd::arithmetic::div_mod::lemma_mod_multiples_basic(k * q, p);
    vstd::arithmetic::mul::lemma_mul_is_commutative(k * q, p);
}

/// The difference of two multiples of `p` is one.
proof fn lemma_difference_of_multiples(x: int, y: int, p: int)
    requires
        p > 0,
        x % p == 0,
        y % p == 0,
    ensures
        (x - y) % p == 0,
{
    vstd::arithmetic::div_mod::lemma_fundamental_div_mod(x, p);
    vstd::arithmetic::div_mod::lemma_fundamental_div_mod(y, p);
    let d = x / p - y / p;
    vstd::arithmetic::mul::lemma_mul_is_distributive_sub(p, x / p, y / p);
    vstd::arithmetic::div_mod::lemma_mod_multiples_basic(d, p);
    vstd::arithmetic::mul::lemma_mul_is_commutative(d, p);
}

/// A multiple of `p` below the multiple `a` of `p` is at most `a - p`.
proof fn lemma_multiple_below(x: int, a: int, p: int)
    requires
        p > 0,
        0 <= x < a,
        x % p == 0,
        a % p == 0,
    ensures
        x <= a - p,
{
    vstd::arithmetic::div_mod::lemma_fundamental_div_mod(x, p);
    vstd::arithmetic::div_mod::lemma_fundamental_div_mod(a, p);
    let i = x / p;
    let j = a / p;
    assert(x == p * i);
    assert(a == p * j);
    if i >= j {
        vstd::arithmetic::mul::lemma_mul_inequality(j, i, p);
        vstd::arithmetic::mul::lemma_mul_is_commutative(j, p);
        vstd::arithmetic::mul::lemma_mul_is_commutative(i, p);
    }
    assert(i < j);
    vstd::arithmetic::mul::lemma_mul_inequality(i + 1, j, p);
    vstd::arithmetic::mul::lemma_mul_is_commutative(i + 1, p);
    vstd::arithmetic::mul::lemma_mul_is_commutative(j, p);
    vstd::arithmetic::mul::lemma_mul_is_distributive_add(p, i, 1);
}

} // verus!
