//! The decisions of the desktop port's Internet sockets on Windows: how a Winsock
//! failure, or one std raises without asking the OS, reads at the boundary, and what a
//! `WSAPoll` slot reports. The socket calls themselves are the port's own I/O.
use vstd::prelude::*;
use crate::port::Error;

verus! {

pub const WSAEACCES: i32 = 10013;
pub const WSAEINVAL: i32 = 10022;
pub const WSAEMFILE: i32 = 10024;
pub const WSAEWOULDBLOCK: i32 = 10035;
pub const WSAEINPROGRESS: i32 = 10036;
pub const WSAEALREADY: i32 = 10037;
pub const WSAEMSGSIZE: i32 = 10040;
pub const WSAENOPROTOOPT: i32 = 10042;
pub const WSAEPROTONOSUPPORT: i32 = 10043;
pub const WSAEOPNOTSUPP: i32 = 10045;
pub const WSAEAFNOSUPPORT: i32 = 10047;
pub const WSAEADDRINUSE: i32 = 10048;
pub const WSAEADDRNOTAVAIL: i32 = 10049;
pub const WSAENETDOWN: i32 = 10050;
pub const WSAENETUNREACH: i32 = 10051;
pub const WSAECONNABORTED: i32 = 10053;
pub const WSAECONNRESET: i32 = 10054;
pub const WSAENOBUFS: i32 = 10055;
pub const WSAEISCONN: i32 = 10056;
pub const WSAENOTCONN: i32 = 10057;
pub const WSAESHUTDOWN: i32 = 10058;
pub const WSAETIMEDOUT: i32 = 10060;
pub const WSAECONNREFUSED: i32 = 10061;
pub const WSAEHOSTUNREACH: i32 = 10065;
pub const WSAHOST_NOT_FOUND: i32 = 11001;
pub const WSATRY_AGAIN: i32 = 11002;
pub const WSANO_DATA: i32 = 11004;

/// The `WSAPOLLFD` event bits a slot asks for and reports.
pub const POLLERR: i16 = 0x1;
pub const POLLHUP: i16 = 0x2;
pub const POLLNVAL: i16 = 0x4;
pub const POLLWRNORM: i16 = 0x10;
pub const POLLRDNORM: i16 = 0x100;

/// The kinds of a failure std raises without an OS code that the boundary tells apart.
#[derive(Clone, Copy, Debug, PartialEq, Eq, Structural)]
pub enum IoKind {
    WouldBlock,
    BrokenPipe,
    ConnectionRefused,
    ConnectionReset,
    ConnectionAborted,
    NotConnected,
    AddrInUse,
    AddrNotAvailable,
    NetworkUnreachable,
    NetworkDown,
    HostUnreachable,
    PermissionDenied,
    TimedOut,
    OutOfMemory,
    InvalidInput,
    Unsupported,
    Other,
}

/// The boundary error of a Winsock code; a code the boundary does not tell apart is `Os`.
pub open spec fn code_error(code: i32) -> Error {
    if code == WSAEWOULDBLOCK { Error::WouldBlock }
    else if code == WSAEINPROGRESS || code == WSAEALREADY { Error::InProgress }
    else if code == WSAESHUTDOWN { Error::BrokenPipe }
    else if code == WSAECONNREFUSED { Error::ConnectionRefused }
    else if code == WSAECONNRESET { Error::ConnectionReset }
    else if code == WSAECONNABORTED { Error::ConnectionAborted }
    else if code == WSAENOTCONN { Error::NotConnected }
    else if code == WSAEISCONN { Error::AlreadyConnected }
    else if code == WSAEADDRINUSE { Error::AddressInUse }
    else if code == WSAEADDRNOTAVAIL { Error::AddressNotAvailable }
    else if code == WSAENETUNREACH || code == WSAENETDOWN { Error::NetworkUnreachable }
    else if code == WSAEHOSTUNREACH { Error::HostUnreachable }
    else if code == WSAEMFILE { Error::TooManyHandles }
    else if code == WSAEMSGSIZE { Error::MessageTooLarge }
    else if code == WSAEACCES { Error::AccessDenied }
    else if code == WSAETIMEDOUT || code == WSATRY_AGAIN { Error::Timeout }
    else if code == WSAENOBUFS { Error::OutOfMemory }
    else if code == WSAEINVAL { Error::InvalidArgument }
    else if code == WSAHOST_NOT_FOUND || code == WSANO_DATA { Error::NotFound }
    else if code == WSAEAFNOSUPPORT || code == WSAEPROTONOSUPPORT || code == WSAEOPNOTSUPP || code == WSAENOPROTOOPT { Error::Unsupported }
    else { Error::Os }
}

/// The boundary error of a failure std raised without an OS code.
pub open spec fn kind_error(kind: IoKind) -> Error {
    match kind {
        IoKind::WouldBlock => Error::WouldBlock,
        IoKind::BrokenPipe => Error::BrokenPipe,
        IoKind::ConnectionRefused => Error::ConnectionRefused,
        IoKind::ConnectionReset => Error::ConnectionReset,
        IoKind::ConnectionAborted => Error::ConnectionAborted,
        IoKind::NotConnected => Error::NotConnected,
        IoKind::AddrInUse => Error::AddressInUse,
        IoKind::AddrNotAvailable => Error::AddressNotAvailable,
        IoKind::NetworkUnreachable | IoKind::NetworkDown => Error::NetworkUnreachable,
        IoKind::HostUnreachable => Error::HostUnreachable,
        IoKind::PermissionDenied => Error::AccessDenied,
        IoKind::TimedOut => Error::Timeout,
        IoKind::OutOfMemory => Error::OutOfMemory,
        IoKind::InvalidInput => Error::InvalidArgument,
        IoKind::Unsupported => Error::Unsupported,
        IoKind::Other => Error::Os,
    }
}

/// The boundary status of a socket failure: the Winsock code when the OS gave one,
/// otherwise the kind std gave it.
pub fn winsock_error(code: Option<i32>, kind: IoKind) -> (r: Error)
    ensures
        r == (match code { Some(c) => code_error(c), None => kind_error(kind) }),
{
    match code {
        Some(c) => {
            if c == WSAEWOULDBLOCK { Error::WouldBlock }
            else if c == WSAEINPROGRESS || c == WSAEALREADY { Error::InProgress }
            else if c == WSAESHUTDOWN { Error::BrokenPipe }
            else if c == WSAECONNREFUSED { Error::ConnectionRefused }
            else if c == WSAECONNRESET { Error::ConnectionReset }
            else if c == WSAECONNABORTED { Error::ConnectionAborted }
            else if c == WSAENOTCONN { Error::NotConnected }
            else if c == WSAEISCONN { Error::AlreadyConnected }
            else if c == WSAEADDRINUSE { Error::AddressInUse }
            else if c == WSAEADDRNOTAVAIL { Error::AddressNotAvailable }
            else if c == WSAENETUNREACH || c == WSAENETDOWN { Error::NetworkUnreachable }
            else if c == WSAEHOSTUNREACH { Error::HostUnreachable }
            else if c == WSAEMFILE { Error::TooManyHandles }
            else if c == WSAEMSGSIZE { Error::MessageTooLarge }
            else if c == WSAEACCES { Error::AccessDenied }
            else if c == WSAETIMEDOUT || c == WSATRY_AGAIN { Error::Timeout }
            else if c == WSAENOBUFS { Error::OutOfMemory }
            else if c == WSAEINVAL { Error::InvalidArgument }
            else if c == WSAHOST_NOT_FOUND || c == WSANO_DATA { Error::NotFound }
            else if c == WSAEAFNOSUPPORT || c == WSAEPROTONOSUPPORT || c == WSAEOPNOTSUPP || c == WSAENOPROTOOPT { Error::Unsupported }
            else { Error::Os }
        },
        None => match kind {
            IoKind::WouldBlock => Error::WouldBlock,
            IoKind::BrokenPipe => Error::BrokenPipe,
            IoKind::ConnectionRefused => Error::ConnectionRefused,
            IoKind::ConnectionReset => Error::ConnectionReset,
            IoKind::ConnectionAborted => Error::ConnectionAborted,
            IoKind::NotConnected => Error::NotConnected,
            IoKind::AddrInUse => Error::AddressInUse,
            IoKind::AddrNotAvailable => Error::AddressNotAvailable,
            IoKind::NetworkUnreachable | IoKind::NetworkDown => Error::NetworkUnreachable,
            IoKind::HostUnreachable => Error::HostUnreachable,
            IoKind::PermissionDenied => Error::AccessDenied,
            IoKind::TimedOut => Error::Timeout,
            IoKind::OutOfMemory => Error::OutOfMemory,
            IoKind::InvalidInput => Error::InvalidArgument,
            IoKind::Unsupported => Error::Unsupported,
            IoKind::Other => Error::Os,
        },
    }
}

/// What one poll slot reports, direction by direction.
#[derive(Clone, Copy, Debug, PartialEq, Eq, Structural)]
pub struct Readiness {
    pub read: bool,
    pub write: bool,
    pub error: bool,
    pub hangup: bool,
}

/// The readiness of a slot after `WSAPoll`: nothing for a skipped slot (what Winsock
/// leaves in one is not documented consistently); otherwise read for normal data in,
/// write for room out, error for an error or an invalid socket, hangup for a hangup.
pub fn poll_state(skipped: bool, revents: i16) -> (r: Readiness)
    ensures
        skipped ==> r == (Readiness { read: false, write: false, error: false, hangup: false }),
        !skipped ==> r == (Readiness {
            read: revents & POLLRDNORM != 0,
            write: revents & POLLWRNORM != 0,
            error: revents & (POLLERR | POLLNVAL) != 0,
            hangup: revents & POLLHUP != 0,
        }),
{
    if skipped {
        return Readiness { read: false, write: false, error: false, hangup: false };
    }
    Readiness {
        read: revents & POLLRDNORM != 0,
        write: revents & POLLWRNORM != 0,
        error: revents & (POLLERR | POLLNVAL) != 0,
        hangup: revents & POLLHUP != 0,
    }
}

/// Which slots `WSAPoll` skips: a slot that asks for nothing (it is handed over as an
/// invalid socket, so its hangup goes unreported).
pub fn skip_idle(events: &[i16]) -> (r: Vec<bool>)
    ensures
        r@.len() == events@.len(),
        forall|i: int| 0 <= i < events@.len() ==> r@[i] == (events@[i] == 0),
{
    let mut r: Vec<bool> = Vec::new();
    let mut i: usize = 0;
    while i < events.len()
        invariant
            i <= events@.len(),
            r@.len() == i,
            forall|k: int| 0 <= k < i ==> r@[k] == (events@[k] == 0),
        decreases events@.len() - i,
    {
        r.push(events[i] == 0);
        i = i + 1;
    }
    r
}

/// How long a wait on no socket at all sleeps, in milliseconds: its timeout, or a
/// second at a time when it has none (a negative timeout).
pub fn idle_sleep_ms(timeout_ms: i32) -> (r: u64)
    ensures
        r == (if timeout_ms < 0 { 1000 } else { timeout_ms as int }),
{
    if timeout_ms < 0 { 1000 } else { timeout_ms as u64 }
}

} // verus!
