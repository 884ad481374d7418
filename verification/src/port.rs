//! The provider error vocabulary and its C status codes.
use vstd::prelude::*;
use crate::io::{ALREADY_EXISTS, ACCESS_DENIED, IS_DIRECTORY, NOT_DIRECTORY, NOT_EMPTY, NO_SPACE, WOULD_BLOCK, BROKEN_PIPE, CONNECTION_REFUSED, CONNECTION_RESET, CONNECTION_ABORTED, NOT_CONNECTED, ALREADY_CONNECTED, ADDRESS_IN_USE, ADDRESS_NOT_AVAILABLE, NETWORK_UNREACHABLE, HOST_UNREACHABLE, IN_PROGRESS, TOO_MANY_HANDLES, NAME_TOO_LONG, READ_ONLY, CROSS_DEVICE, MESSAGE_TOO_LARGE};
use crate::runtime::{BUFFER_TOO_SMALL, NOT_FOUND};
use crate::kernel::{BUSY, TIMEOUT};
use crate::{INVALID_ARGUMENT, OS_ERROR, OUT_OF_MEMORY, UNSUPPORTED, OK};

verus! {

/// Why a provider call failed. Each variant crosses the C boundary as one status.
#[derive(Clone, Copy, Debug, PartialEq, Eq, Structural)]
pub enum Error {
    Unsupported,
    InvalidArgument,
    Os,
    OutOfMemory,
    Timeout,
    Busy,
    BufferTooSmall,
    NotFound,
    AlreadyExists,
    AccessDenied,
    IsDirectory,
    NotDirectory,
    NotEmpty,
    NoSpace,
    WouldBlock,
    BrokenPipe,
    ConnectionRefused,
    ConnectionReset,
    ConnectionAborted,
    NotConnected,
    AlreadyConnected,
    AddressInUse,
    AddressNotAvailable,
    NetworkUnreachable,
    HostUnreachable,
    InProgress,
    TooManyHandles,
    NameTooLong,
    ReadOnly,
    CrossDevice,
    MessageTooLarge,
}

/// The C status of an error.
pub open spec fn error_status(e: Error) -> u32 {
    match e {
        Error::Unsupported => UNSUPPORTED,
        Error::InvalidArgument => INVALID_ARGUMENT,
        Error::Os => OS_ERROR,
        Error::OutOfMemory => OUT_OF_MEMORY,
        Error::Timeout => TIMEOUT,
        Error::Busy => BUSY,
        Error::BufferTooSmall => BUFFER_TOO_SMALL,
        Error::NotFound => NOT_FOUND,
        Error::AlreadyExists => ALREADY_EXISTS,
        Error::AccessDenied => ACCESS_DENIED,
        Error::IsDirectory => IS_DIRECTORY,
        Error::NotDirectory => NOT_DIRECTORY,
        Error::NotEmpty => NOT_EMPTY,
        Error::NoSpace => NO_SPACE,
        Error::WouldBlock => WOULD_BLOCK,
        Error::BrokenPipe => BROKEN_PIPE,
        Error::ConnectionRefused => CONNECTION_REFUSED,
        Error::ConnectionReset => CONNECTION_RESET,
        Error::ConnectionAborted => CONNECTION_ABORTED,
        Error::NotConnected => NOT_CONNECTED,
        Error::AlreadyConnected => ALREADY_CONNECTED,
        Error::AddressInUse => ADDRESS_IN_USE,
        Error::AddressNotAvailable => ADDRESS_NOT_AVAILABLE,
        Error::NetworkUnreachable => NETWORK_UNREACHABLE,
        Error::HostUnreachable => HOST_UNREACHABLE,
        Error::InProgress => IN_PROGRESS,
        Error::TooManyHandles => TOO_MANY_HANDLES,
        Error::NameTooLong => NAME_TOO_LONG,
        Error::ReadOnly => READ_ONLY,
        Error::CrossDevice => CROSS_DEVICE,
        Error::MessageTooLarge => MESSAGE_TOO_LARGE,
    }
}

impl Error {
    /// The status this error crosses the boundary as.
    pub fn status(&self) -> (r: u32)
        ensures r == error_status(*self),
    {
        match self {
            Error::Unsupported => UNSUPPORTED,
            Error::InvalidArgument => INVALID_ARGUMENT,
            Error::Os => OS_ERROR,
            Error::OutOfMemory => OUT_OF_MEMORY,
            Error::Timeout => TIMEOUT,
            Error::Busy => BUSY,
            Error::BufferTooSmall => BUFFER_TOO_SMALL,
            Error::NotFound => NOT_FOUND,
            Error::AlreadyExists => ALREADY_EXISTS,
            Error::AccessDenied => ACCESS_DENIED,
            Error::IsDirectory => IS_DIRECTORY,
            Error::NotDirectory => NOT_DIRECTORY,
            Error::NotEmpty => NOT_EMPTY,
            Error::NoSpace => NO_SPACE,
            Error::WouldBlock => WOULD_BLOCK,
            Error::BrokenPipe => BROKEN_PIPE,
            Error::ConnectionRefused => CONNECTION_REFUSED,
            Error::ConnectionReset => CONNECTION_RESET,
            Error::ConnectionAborted => CONNECTION_ABORTED,
            Error::NotConnected => NOT_CONNECTED,
            Error::AlreadyConnected => ALREADY_CONNECTED,
            Error::AddressInUse => ADDRESS_IN_USE,
            Error::AddressNotAvailable => ADDRESS_NOT_AVAILABLE,
            Error::NetworkUnreachable => NETWORK_UNREACHABLE,
            Error::HostUnreachable => HOST_UNREACHABLE,
            Error::InProgress => IN_PROGRESS,
            Error::TooManyHandles => TOO_MANY_HANDLES,
            Error::NameTooLong => NAME_TOO_LONG,
            Error::ReadOnly => READ_ONLY,
            Error::CrossDevice => CROSS_DEVICE,
            Error::MessageTooLarge => MESSAGE_TOO_LARGE,
        }
    }

    /// The error a foreign status names; `None` for `OK` and for a status no error has.
    pub fn from_status(status: u32) -> (r: Option<Error>)
        ensures
            match r {
                Some(e) => error_status(e) == status,
                None => status == OK || status > MESSAGE_TOO_LARGE,
            },
    {
        match status {
            1 => Some(Error::Unsupported),
            2 => Some(Error::InvalidArgument),
            3 => Some(Error::Os),
            4 => Some(Error::OutOfMemory),
            5 => Some(Error::Timeout),
            6 => Some(Error::Busy),
            7 => Some(Error::BufferTooSmall),
            8 => Some(Error::NotFound),
            9 => Some(Error::AlreadyExists),
            10 => Some(Error::AccessDenied),
            11 => Some(Error::IsDirectory),
            12 => Some(Error::NotDirectory),
            13 => Some(Error::NotEmpty),
            14 => Some(Error::NoSpace),
            15 => Some(Error::WouldBlock),
            16 => Some(Error::BrokenPipe),
            17 => Some(Error::ConnectionRefused),
            18 => Some(Error::ConnectionReset),
            19 => Some(Error::ConnectionAborted),
            20 => Some(Error::NotConnected),
            21 => Some(Error::AlreadyConnected),
            22 => Some(Error::AddressInUse),
            23 => Some(Error::AddressNotAvailable),
            24 => Some(Error::NetworkUnreachable),
            25 => Some(Error::HostUnreachable),
            26 => Some(Error::InProgress),
            27 => Some(Error::TooManyHandles),
            28 => Some(Error::NameTooLong),
            29 => Some(Error::ReadOnly),
            30 => Some(Error::CrossDevice),
            31 => Some(Error::MessageTooLarge),
            _ => None,
        }
    }
}

// Each provider method comes with a relation naming the answers a port may give for
// the arguments it is handed (and, where it writes a buffer, the contents it leaves).
// A port narrows a relation by overriding it; by default every answer is allowed.
// Verified callers never see the default, so what they state of an answer goes
// through the relation, tied to the arguments they passed.

/// A port's account provider. The group lists write up to `capacity` ids into `out`
/// and answer how many there are.
pub trait Accounts {
    open spec fn user_by_id_answer(user_id: u32, r: Result<crate::accounts::Account, Error>) -> bool { true }
    open spec fn user_by_name_answer(name: Seq<u8>, r: Result<crate::accounts::Account, Error>) -> bool { true }
    open spec fn process_groups_answer(capacity: usize, before: Seq<u32>, after: Seq<u32>, r: Result<usize, Error>) -> bool { true }
    open spec fn user_groups_answer(name: Seq<u8>, primary_group: u32, capacity: usize, before: Seq<u32>, after: Seq<u32>,
        r: Result<usize, Error>) -> bool { true }

    fn user_by_id(user_id: u32) -> (r: Result<crate::accounts::Account, Error>)
        ensures Self::user_by_id_answer(user_id, r);
    fn user_by_name(name: &[u8]) -> (r: Result<crate::accounts::Account, Error>)
        ensures Self::user_by_name_answer(name@, r);
    fn process_groups(out: &mut Vec<u32>, capacity: usize) -> (r: Result<usize, Error>)
        ensures Self::process_groups_answer(capacity, old(out)@, final(out)@, r);
    fn user_groups(name: &[u8], primary_group: u32, out: &mut Vec<u32>, capacity: usize) -> (r: Result<usize, Error>)
        ensures Self::user_groups_answer(name@, primary_group, capacity, old(out)@, final(out)@, r);
}

/// A port's file provider, as far as the composed calls here ask it: the next entry of
/// an open directory, written into `name` (`capacity` bytes) and answered as its length
/// and node kind, and the current directory, written with its NUL into `out` and
/// answered as the length needed.
pub trait Files {
    open spec fn read_directory_answer(directory: usize, capacity: usize, before: Seq<u8>, after: Seq<u8>,
        r: Result<(usize, u32), Error>) -> bool { true }
    open spec fn current_directory_answer(capacity: usize, before: Seq<u8>, after: Seq<u8>, r: Result<usize, Error>) -> bool { true }

    fn read_directory(directory: usize, name: &mut Vec<u8>, capacity: usize) -> (r: Result<(usize, u32), Error>)
        ensures Self::read_directory_answer(directory, capacity, old(name)@, final(name)@, r);
    fn current_directory(out: &mut Vec<u8>, capacity: usize) -> (r: Result<usize, Error>)
        ensures Self::current_directory_answer(capacity, old(out)@, final(out)@, r);
}

/// A port's event provider: a handle to a new event, and the calls on one.
pub trait Events {
    open spec fn create_answer(manual: bool, initial: bool, r: Result<usize, Error>) -> bool { true }
    open spec fn destroy_answer(handle: usize, r: Result<(), Error>) -> bool { true }
    open spec fn reset_answer(handle: usize, r: Result<(), Error>) -> bool { true }
    open spec fn set_answer(handle: usize, r: Result<(), Error>) -> bool { true }
    open spec fn wait_answer(handle: usize, timeout_ns: u64, r: Result<(), Error>) -> bool { true }

    fn create(manual: bool, initial: bool) -> (r: Result<usize, Error>)
        ensures Self::create_answer(manual, initial, r);
    fn destroy(handle: usize) -> (r: Result<(), Error>)
        ensures Self::destroy_answer(handle, r);
    fn reset(handle: usize) -> (r: Result<(), Error>)
        ensures Self::reset_answer(handle, r);
    fn set(handle: usize) -> (r: Result<(), Error>)
        ensures Self::set_answer(handle, r);
    fn wait(handle: usize, timeout_ns: u64) -> (r: Result<(), Error>)
        ensures Self::wait_answer(handle, timeout_ns, r);
}

/// A port's mutex provider: a handle to a new mutex, and the calls on one.
pub trait Mutexes {
    open spec fn create_answer(recursive: bool, r: Result<usize, Error>) -> bool { true }
    open spec fn destroy_answer(handle: usize, r: Result<(), Error>) -> bool { true }
    open spec fn lock_answer(handle: usize, r: Result<(), Error>) -> bool { true }
    open spec fn unlock_answer(handle: usize, r: Result<(), Error>) -> bool { true }

    fn create(recursive: bool) -> (r: Result<usize, Error>)
        ensures Self::create_answer(recursive, r);
    fn destroy(handle: usize) -> (r: Result<(), Error>)
        ensures Self::destroy_answer(handle, r);
    fn lock(handle: usize) -> (r: Result<(), Error>)
        ensures Self::lock_answer(handle, r);
    fn unlock(handle: usize) -> (r: Result<(), Error>)
        ensures Self::unlock_answer(handle, r);
}

/// A port's thread provider: a handle to a thread started at `entry` with `argument`,
/// and joining or detaching one.
pub trait Threads {
    open spec fn create_answer(entry: usize, argument: usize, stack: usize, r: Result<usize, Error>) -> bool { true }
    open spec fn join_answer(handle: usize, r: Result<(), Error>) -> bool { true }
    open spec fn detach_answer(handle: usize, r: Result<(), Error>) -> bool { true }

    fn create(entry: usize, argument: usize, stack: usize) -> (r: Result<usize, Error>)
        ensures Self::create_answer(entry, argument, stack, r);
    fn join(handle: usize) -> (r: Result<(), Error>)
        ensures Self::join_answer(handle, r);
    fn detach(handle: usize) -> (r: Result<(), Error>)
        ensures Self::detach_answer(handle, r);
}

/// A port's thread-local key provider: a handle to a new key, and the calls on one.
pub trait ThreadLocal {
    open spec fn create_answer(destructor: usize, r: Result<usize, Error>) -> bool { true }
    open spec fn destroy_answer(handle: usize, r: Result<(), Error>) -> bool { true }
    open spec fn set_answer(handle: usize, value: usize, r: Result<(), Error>) -> bool { true }
    open spec fn get_answer(handle: usize, r: Result<usize, Error>) -> bool { true }

    fn create(destructor: usize) -> (r: Result<usize, Error>)
        ensures Self::create_answer(destructor, r);
    fn destroy(handle: usize) -> (r: Result<(), Error>)
        ensures Self::destroy_answer(handle, r);
    fn set(handle: usize, value: usize) -> (r: Result<(), Error>)
        ensures Self::set_answer(handle, value, r);
    fn get(handle: usize) -> (r: Result<usize, Error>)
        ensures Self::get_answer(handle, r);
}

/// A port's stack-bounds provider: the calling thread's lowest address and one past its highest.
pub trait StackBounds {
    open spec fn bounds_answer(r: Result<(usize, usize), Error>) -> bool { true }

    fn bounds() -> (r: Result<(usize, usize), Error>)
        ensures Self::bounds_answer(r);
}

/// A port's image provider: the unwind tables holding an address, whether a range
/// is readable, and a module's build identifier (written into `out`, up to
/// `capacity` bytes; the answer is its whole length).
pub trait Image {
    open spec fn unwind_info_answer(address: usize, r: Result<crate::image::UnwindInfo, Error>) -> bool { true }
    open spec fn readable_answer(address: usize, size: usize, r: Result<bool, Error>) -> bool { true }
    open spec fn build_id_answer(base: usize, capacity: usize, before: Seq<u8>, after: Seq<u8>, r: Result<usize, Error>) -> bool { true }

    fn unwind_info(address: usize) -> (r: Result<crate::image::UnwindInfo, Error>)
        ensures Self::unwind_info_answer(address, r);
    fn readable(address: usize, size: usize) -> (r: Result<bool, Error>)
        ensures Self::readable_answer(address, size, r);
    fn build_id(base: usize, out: &mut Vec<u8>, capacity: usize) -> (r: Result<usize, Error>)
        ensures Self::build_id_answer(base, capacity, old(out)@, final(out)@, r);
}

/// A port's local socket provider. `address` writes the socket's own path (or its
/// peer's) with its NUL into `out`, up to `capacity` bytes, and answers the length.
pub trait LocalSockets {
    open spec fn bind_answer(socket: usize, path: Seq<u8>, r: Result<(), Error>) -> bool { true }
    open spec fn connect_answer(socket: usize, path: Seq<u8>, r: Result<(), Error>) -> bool { true }
    open spec fn address_answer(socket: usize, peer: bool, capacity: usize, before: Seq<u8>, after: Seq<u8>, r: Result<usize, Error>) -> bool { true }
    open spec fn peer_user_answer(socket: usize, r: Result<u32, Error>) -> bool { true }

    fn bind(socket: usize, path: &[u8]) -> (r: Result<(), Error>)
        ensures Self::bind_answer(socket, path@, r);
    fn connect(socket: usize, path: &[u8]) -> (r: Result<(), Error>)
        ensures Self::connect_answer(socket, path@, r);
    fn address(socket: usize, peer: bool, out: &mut Vec<u8>, capacity: usize) -> (r: Result<usize, Error>)
        ensures Self::address_answer(socket, peer, capacity, old(out)@, final(out)@, r);
    fn peer_user(socket: usize) -> (r: Result<u32, Error>)
        ensures Self::peer_user_answer(socket, r);
}

/// A port's fault-reporting provider: switches on the trap path that reports faults.
pub trait Faults {
    open spec fn enable_answer(r: Result<(), Error>) -> bool { true }

    fn enable() -> (r: Result<(), Error>)
        ensures Self::enable_answer(r);
}

/// A port's signal-context provider: the layout of a saved handler record, and the
/// install and restore calls, which answer a status.
pub trait SignalContext {
    open spec fn action_size_answer(r: usize) -> bool { true }
    open spec fn action_alignment_answer(r: usize) -> bool { true }
    open spec fn install_answer(kind: u32, callback: usize, data: usize, previous: usize, size: usize, r: u32) -> bool { true }
    open spec fn restore_answer(kind: u32, previous: usize, size: usize, r: u32) -> bool { true }

    fn action_size() -> (r: usize)
        ensures Self::action_size_answer(r);
    fn action_alignment() -> (r: usize)
        ensures Self::action_alignment_answer(r);
    fn install(kind: u32, callback: usize, data: usize, previous: usize, size: usize) -> (r: u32)
        ensures Self::install_answer(kind, callback, data, previous, size, r);
    fn restore(kind: u32, previous: usize, size: usize) -> (r: u32)
        ensures Self::restore_answer(kind, previous, size, r);
}

/// The native signal actions the Linux context provider changes: the previous action of
/// a signal (`None` when it cannot be read; otherwise whether it is already the provider's
/// own handler, and its flags), setting the provider's action, and putting back a saved one.
pub trait SignalActions {
    fn previous(signal: i32) -> Option<(bool, i32)>;
    fn set(signal: i32, flags: i32, keep_mask: bool) -> bool;
    fn put_back(signal: i32) -> bool;
}

/// A port's monotonic clock provider.
pub trait Clock {
    open spec fn monotonic_ns_answer(r: Result<u64, Error>) -> bool { true }

    /// Nanoseconds on a clock that never goes back.
    fn monotonic_ns() -> (r: Result<u64, Error>)
        ensures Self::monotonic_ns_answer(r);
}

/// A port's reservation-based virtual memory provider. Addresses are plain integers.
pub trait VirtualMemory {
    open spec fn page_size_answer(r: usize) -> bool { true }
    open spec fn reserve_answer(size: usize, alignment: usize, r: Result<usize, Error>) -> bool { true }
    open spec fn commit_answer(address: usize, size: usize, r: Result<(), Error>) -> bool { true }
    open spec fn decommit_answer(address: usize, size: usize, r: Result<(), Error>) -> bool { true }
    open spec fn release_answer(address: usize, size: usize, r: Result<(), Error>) -> bool { true }
    open spec fn reset_answer(address: usize, size: usize, r: Result<(), Error>) -> bool { true }

    /// The page size; a usable provider answers a power of two.
    fn page_size() -> (r: usize)
        ensures Self::page_size_answer(r);
    /// Reserves `size` bytes aligned to `alignment`, returning the start.
    fn reserve(size: usize, alignment: usize) -> (r: Result<usize, Error>)
        ensures Self::reserve_answer(size, alignment, r);
    fn commit(address: usize, size: usize) -> (r: Result<(), Error>)
        ensures Self::commit_answer(address, size, r);
    fn decommit(address: usize, size: usize) -> (r: Result<(), Error>)
        ensures Self::decommit_answer(address, size, r);
    fn release(address: usize, size: usize) -> (r: Result<(), Error>)
        ensures Self::release_answer(address, size, r);
    fn reset(address: usize, size: usize) -> (r: Result<(), Error>)
        ensures Self::reset_answer(address, size, r);
}

/// A port's linear-storage provider: bounded storage handed out in granules.
pub trait LinearStorage {
    open spec fn granularity_answer(r: usize) -> bool { true }
    open spec fn capacity_answer(r: usize) -> bool { true }
    open spec fn dynamic_answer(r: bool) -> bool { true }
    open spec fn allocate_answer(size: usize, alignment: usize, r: Result<usize, Error>) -> bool { true }
    open spec fn zero_answer(address: usize, size: usize, r: Result<(), Error>) -> bool { true }
    open spec fn release_answer(address: usize, size: usize, r: Result<(), Error>) -> bool { true }

    /// The allocation granule; a usable provider answers a power of two.
    fn granularity() -> (r: usize)
        ensures Self::granularity_answer(r);
    /// The most bytes the provider can hold; a usable provider answers more than zero.
    fn capacity() -> (r: usize)
        ensures Self::capacity_answer(r);
    /// Whether the capacity can grow on demand.
    fn dynamic() -> (r: bool)
        ensures Self::dynamic_answer(r);
    fn allocate(size: usize, alignment: usize) -> (r: Result<usize, Error>)
        ensures Self::allocate_answer(size, alignment, r);
    fn zero(address: usize, size: usize) -> (r: Result<(), Error>)
        ensures Self::zero_answer(address, size, r);
    fn release(address: usize, size: usize) -> (r: Result<(), Error>)
        ensures Self::release_answer(address, size, r);
}

/// A port's CPU placement and machine measurement provider.
pub trait Machine {
    open spec fn query_answer(kind: u32, r: Result<u64, Error>) -> bool { true }
    open spec fn process_affinity_answer(capacity: usize, before: Seq<u32>, after: Seq<u32>,
        r: Result<crate::machine::CpuList, Error>) -> bool { true }
    open spec fn bind_current_answer(cpu: u32, r: Result<(), Error>) -> bool { true }
    open spec fn current_cpu_answer(r: Result<u32, Error>) -> bool { true }

    /// One measurement of kind `kind`.
    fn query(kind: u32) -> (r: Result<u64, Error>)
        ensures Self::query_answer(kind, r);
    /// Writes the process's allowed CPUs, in increasing order, into `out`
    /// (`capacity` elements), or says how many there are.
    fn process_affinity(out: &mut Vec<u32>, capacity: usize) -> (r: Result<crate::machine::CpuList, Error>)
        ensures Self::process_affinity_answer(capacity, old(out)@, final(out)@, r);
    /// Binds the calling thread to `cpu`.
    fn bind_current(cpu: u32) -> (r: Result<(), Error>)
        ensures Self::bind_current_answer(cpu, r);
    /// The CPU the calling thread runs on.
    fn current_cpu() -> (r: Result<u32, Error>)
        ensures Self::current_cpu_answer(r);
}

/// The status of a provider result.
pub open spec fn result_status<T>(result: Result<T, Error>) -> u32 {
    match result {
        Ok(_) => OK,
        Err(e) => error_status(e),
    }
}

/// The status of a provider result: `OK`, or the error's own status.
pub fn status(result: &Result<(), Error>) -> (r: u32)
    ensures r == result_status(*result),
{
    match result {
        Ok(()) => OK,
        Err(e) => e.status(),
    }
}

/// A foreign status as a provider result: `OK` succeeds, a known status is its
/// error, and a status no error has is `Os`.
pub fn from_status(status: u32) -> (r: Result<(), Error>)
    ensures
        status == OK ==> r == Ok::<(), Error>(()),
        status != OK && status <= MESSAGE_TOO_LARGE ==> (r matches Err(e) && error_status(e) == status),
        status > MESSAGE_TOO_LARGE ==> r == Err::<(), Error>(Error::Os),
{
    if status == OK {
        return Ok(());
    }
    match Error::from_status(status) {
        Some(e) => Err(e),
        None => Err(Error::Os),
    }
}

/// Every error crosses the boundary as its own status and comes back as itself: no two
/// errors share a status, and reading an error's status gives the error again.
pub proof fn lemma_status_identifies(a: Error, b: Error)
    ensures
        error_status(a) == error_status(b) ==> a == b,
{
}

/// Every error crosses the boundary as a status other than `OK`, inside the known range.
pub proof fn lemma_status_round_trip(e: Error)
    ensures
        error_status(e) != OK,
        1 <= error_status(e) <= MESSAGE_TOO_LARGE,
{
}

} // verus!
