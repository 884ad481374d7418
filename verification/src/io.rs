//! Portable I/O statuses of the files and sockets groups. A provider reports the
//! condition; the consumer owns the translation into its own error vocabulary.
//! Groups that predate these statuses sanitize them to `OS_ERROR`.
use vstd::prelude::*;
use crate::port::{error_status, Error};
use crate::runtime::{BUFFER_TOO_SMALL, MAX_NAME};
use crate::{OK, OS_ERROR};

verus! {

pub const ALREADY_EXISTS: u32 = 9;
pub const ACCESS_DENIED: u32 = 10;
pub const IS_DIRECTORY: u32 = 11;
pub const NOT_DIRECTORY: u32 = 12;
pub const NOT_EMPTY: u32 = 13;
pub const NO_SPACE: u32 = 14;
pub const WOULD_BLOCK: u32 = 15;
pub const BROKEN_PIPE: u32 = 16;
pub const CONNECTION_REFUSED: u32 = 17;
pub const CONNECTION_RESET: u32 = 18;
pub const CONNECTION_ABORTED: u32 = 19;
pub const NOT_CONNECTED: u32 = 20;
pub const ALREADY_CONNECTED: u32 = 21;
pub const ADDRESS_IN_USE: u32 = 22;
pub const ADDRESS_NOT_AVAILABLE: u32 = 23;
pub const NETWORK_UNREACHABLE: u32 = 24;
pub const HOST_UNREACHABLE: u32 = 25;
pub const IN_PROGRESS: u32 = 26;
pub const TOO_MANY_HANDLES: u32 = 27;
pub const NAME_TOO_LONG: u32 = 28;
pub const READ_ONLY: u32 = 29;
pub const CROSS_DEVICE: u32 = 30;
pub const MESSAGE_TOO_LARGE: u32 = 31;

/// Whether `bytes` has no NUL byte.
pub open spec fn no_nul(bytes: Seq<u8>) -> bool {
    forall|i: int| 0 <= i < bytes.len() ==> bytes[i] != 0
}

/// Whether a text at `address` of `bytes` is a usable argument of at most `limit`
/// bytes: not null, not empty, not wrapping around the address space, and without a NUL.
pub open spec fn valid_text(address: int, bytes: Seq<u8>, limit: int) -> bool {
    &&& address != 0
    &&& 0 < bytes.len() <= limit
    &&& address + bytes.len() <= usize::MAX
    &&& no_nul(bytes)
}

/// Whether `bytes` holds a 0 byte.
pub fn contains_nul(bytes: &[u8]) -> (r: bool)
    ensures
        r == !no_nul(bytes@),
{
    let mut i: usize = 0;
    while i < bytes.len()
        invariant
            i <= bytes@.len(),
            forall|k: int| 0 <= k < i ==> bytes@[k] != 0,
        decreases bytes@.len() - i,
    {
        if bytes[i] == 0 {
            return true;
        }
        i = i + 1;
    }
    false
}

/// Checks a text argument at `address` against a length limit.
pub fn text_argument(address: usize, bytes: &[u8], limit: usize) -> (r: bool)
    ensures
        r == valid_text(address as int, bytes@, limit as int),
{
    address != 0 && bytes.len() != 0 && bytes.len() <= limit && address.checked_add(bytes.len()).is_some() && !contains_nul(bytes)
}

/// Checks a path argument: 1..=`MAX_NAME` bytes, readable, no NUL.
pub fn path(address: usize, bytes: &[u8]) -> (r: bool)
    ensures
        r == valid_text(address as int, bytes@, MAX_NAME as int),
{
    text_argument(address, bytes, MAX_NAME)
}

/// Whether the first `length` bytes of `buffer` are a terminated text: a NUL last
/// and no NUL before it.
pub open spec fn terminated_text(buffer: Seq<u8>, length: int) -> bool {
    &&& 2 <= length <= buffer.len()
    &&& buffer[length - 1] == 0
    &&& no_nul(buffer.subrange(0, length - 1))
}

/// The status and the needed length a provider's text answer gives. A provider copies
/// the text and its NUL when they fit and answers the length with the NUL, which must
/// be 2..=`limit`; a longer text than the buffer is `BUFFER_TOO_SMALL` with the length needed.
pub open spec fn text_result(answer: Result<usize, Error>, capacity: int, limit: int, buffer: Seq<u8>) -> (u32, Option<usize>) {
    match answer {
        Ok(length) => {
            if !(2 <= length <= limit) {
                (OS_ERROR, None)
            } else if length > capacity {
                (BUFFER_TOO_SMALL, Some(length))
            } else if terminated_text(buffer, length as int) {
                (OK, Some(length))
            } else {
                (OS_ERROR, None)
            }
        }
        Err(e) => (error_status(e), None),
    }
}

/// Checks a provider's text answer against the buffer it wrote: the status, and the
/// length to report as needed (`None`: leave it at 0).
pub fn text_outcome(answer: Result<usize, Error>, capacity: usize, limit: usize, buffer: &Vec<u8>) -> (r: (u32, Option<usize>))
    requires
        buffer@.len() == capacity,
    ensures
        r == text_result(answer, capacity as int, limit as int, buffer@),
{
    match answer {
        Ok(length) => {
            if !(2 <= length && length <= limit) {
                (OS_ERROR, None)
            } else if length > capacity {
                (BUFFER_TOO_SMALL, Some(length))
            } else {
                if buffer[length - 1] != 0 {
                    return (OS_ERROR, None);
                }
                let mut i: usize = 0;
                while i < length - 1
                    invariant
                        2 <= length <= capacity,
                        buffer@.len() == capacity,
                        answer == Ok::<usize, Error>(length),
                        2 <= length <= limit,
                        buffer@[length - 1] == 0,
                        i <= length - 1,
                        forall|k: int| 0 <= k < i ==> buffer@[k] != 0,
                    decreases length - 1 - i,
                {
                    if buffer[i] == 0 {
                        assert(buffer@.subrange(0, length - 1)[i as int] == 0);
                        return (OS_ERROR, None);
                    }
                    i = i + 1;
                }
                assert(no_nul(buffer@.subrange(0, length - 1)));
                (OK, Some(length))
            }
        }
        Err(e) => (e.status(), None),
    }
}

/// Finishes a text call on the buffer the provider wrote: the status and needed length
/// of `text_outcome`, and on anything but `OK` a buffer of zeros.
pub fn text_finish(answer: Result<usize, Error>, limit: usize, buffer: &mut Vec<u8>) -> (r: (u32, Option<usize>))
    ensures
        r == text_result(answer, old(buffer)@.len() as int, limit as int, old(buffer)@),
        final(buffer)@.len() == old(buffer)@.len(),
        r.0 == OK ==> final(buffer)@ == old(buffer)@,
        r.0 != OK ==> forall|i: int| 0 <= i < final(buffer)@.len() ==> final(buffer)@[i] == 0,
{
    let r: (u32, Option<usize>) = text_outcome(answer, buffer.len(), limit, buffer);
    if r.0 != OK {
        let mut i: usize = 0;
        while i < buffer.len()
            invariant
                i <= buffer@.len(),
                buffer@.len() == old(buffer)@.len(),
                forall|k: int| 0 <= k < i ==> buffer@[k] == 0,
            decreases buffer@.len() - i,
        {
            buffer.set(i, 0);
            i = i + 1;
        }
    }
    r
}

/// Whether a finished text buffer is what a provider answer gives: the status and
/// needed length of `text_result` over what it wrote, the text on `OK`, zeros otherwise.
pub open spec fn text_answered(answer: Result<usize, Error>, capacity: int, written: Seq<u8>, status: u32, needed: usize, buffer: Seq<u8>) -> bool {
    let (s, n) = text_result(answer, capacity, MAX_NAME + 1, written);
    &&& status == s
    &&& needed == (match n { Some(v) => v, None => 0usize })
    &&& buffer.len() == written.len()
    &&& status == OK ==> buffer == written
    &&& status != OK ==> forall|i: int| 0 <= i < buffer.len() ==> buffer[i] == 0
}

/// Whether a finished text buffer is what a provider answer gives when it was handed
/// `capacity` bytes and left `written`: a buffer of another size is `OS_ERROR` with
/// nothing needed and zeros; otherwise `text_answered`.
pub open spec fn text_call(answer: Result<usize, Error>, capacity: int, written: Seq<u8>, status: u32, needed: usize, buffer: Seq<u8>) -> bool {
    if written.len() != capacity {
        status == OS_ERROR && needed == 0 && buffer == crate::files::zero_bytes(capacity)
    } else {
        text_answered(answer, capacity, written, status, needed, buffer)
    }
}

/// `n` zero bytes.
pub fn zeros(n: usize) -> (r: Vec<u8>)
    ensures
        r@.len() == n,
        r@ == crate::files::zero_bytes(n as int),
        forall|i: int| 0 <= i < n ==> r@[i] == 0,
{
    let mut r: Vec<u8> = Vec::new();
    let mut i: usize = 0;
    while i < n
        invariant
            i <= n,
            r@.len() == i,
            forall|k: int| 0 <= k < i ==> r@[k] == 0,
        decreases n - i,
    {
        r.push(0);
        i = i + 1;
    }
    r
}

} // verus!
