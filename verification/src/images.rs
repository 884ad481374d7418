//! Borrowed loader metadata. The object format is explicit and never guessed.
use vstd::prelude::*;
use crate::counter::Counters;
use crate::files::counted;
use crate::runtime::NOT_FOUND;
use crate::{INVALID_ARGUMENT, OK, OS_ERROR, OUT_OF_MEMORY, UNSUPPORTED};

verus! {

pub const CAP_ELF: u64 = 8388608;
pub const CAP_SYMBOL: u64 = 16777216;
pub const ALL: u64 = 25165824;
pub const ELF64_LE: u32 = 1;
/// The size of one ELF64 program header.
pub const HEADER_SIZE: usize = 56;

/// One loaded image as the provider lends it; addresses are plain integers.
#[derive(Clone, Copy, Debug, PartialEq, Eq, Structural)]
pub struct View {
    pub format: u32,
    pub reserved: u32,
    pub load_bias: usize,
    pub name: usize,
    pub name_length: usize,
    pub headers: usize,
    pub header_count: usize,
    pub added: u64,
    pub removed: u64,
}

/// Successful iterations, images handed to consumers, successful address queries,
/// and the rejected or failed calls.
#[derive(Clone, Copy, Debug, Default, PartialEq, Eq, Structural)]
pub struct Stats {
    pub iterate_ok: u64,
    pub images_seen: u64,
    pub address_ok: u64,
    pub rejected: u64,
}

pub const ITERATE: usize = 0;
pub const SEEN: usize = 1;
pub const ADDRESS: usize = 2;
pub const REJECTED: usize = 3;

/// Whether the group is usable: a build without the capability needs nothing, one
/// with it needs its provider.
pub fn available(compiled: bool, provider: bool) -> (r: bool)
    ensures
        r == (!compiled || provider),
{
    !compiled || provider
}

/// The statuses the group reports; anything else is `OS_ERROR`.
pub open spec fn sanitized(status: u32) -> u32 {
    if status == OK || status == INVALID_ARGUMENT || status == OS_ERROR || status == UNSUPPORTED || status == OUT_OF_MEMORY || status == NOT_FOUND {
        status
    } else {
        OS_ERROR
    }
}

/// Sanitizes a status and counts the call: counter `index` on success, `REJECTED` otherwise.
pub fn record(status: u32, index: usize, counters: &mut Counters) -> (r: u32)
    requires
        index < REJECTED,
        old(counters).len() == 4,
    ensures
        r == sanitized(status),
        counted(*old(counters), *final(counters), if r == OK { index as int } else { REJECTED as int }),
{
    let s: u32 = if status == OK || status == INVALID_ARGUMENT || status == OS_ERROR || status == UNSUPPORTED || status == OUT_OF_MEMORY
        || status == NOT_FOUND {
        status
    } else {
        OS_ERROR
    };
    counters.increment(if s == OK { index } else { REJECTED });
    s
}

/// Whether the terminator of a string of `length` bytes at `address` may be read:
/// a nonnull address, a length below `isize::MAX`, and room for the terminator.
pub open spec fn string_in_bounds(address: int, length: int) -> bool {
    address != 0 && length < isize::MAX && address + length + 1 <= usize::MAX
}

pub fn terminator_readable(address: usize, length: usize) -> (r: bool)
    ensures
        r == string_in_bounds(address as int, length as int),
{
    address != 0 && length < isize::MAX as usize && address.checked_add(length + 1).is_some()
}

/// Whether a provider string is valid: null only when optional and empty; otherwise
/// in bounds and terminated (`terminator` is the byte after it, when it could be read).
pub open spec fn string_valid(address: int, length: int, optional: bool, terminator: Option<u8>) -> bool {
    if address == 0 {
        optional && length == 0
    } else {
        string_in_bounds(address, length) && terminator == Some(0u8)
    }
}

pub fn valid_string(address: usize, length: usize, optional: bool, terminator: Option<u8>) -> (r: bool)
    ensures
        r == string_valid(address as int, length as int, optional, terminator),
{
    if address == 0 {
        return optional && length == 0;
    }
    if !terminator_readable(address, length) {
        return false;
    }
    match terminator {
        Some(b) => b == 0,
        None => false,
    }
}

/// Whether a view is one a consumer may read: ELF64 little-endian, no reserved bits,
/// 1 to 65535 headers in an 8-aligned array inside the address space, and a terminated name.
pub open spec fn view_valid(view: View, name_terminator: Option<u8>) -> bool {
    &&& view.format == ELF64_LE
    &&& view.reserved == 0
    &&& view.header_count != 0
    &&& view.header_count <= u16::MAX
    &&& view.headers != 0
    &&& view.headers % 8 == 0
    &&& view.headers + view.header_count * HEADER_SIZE <= usize::MAX
    &&& string_valid(view.name as int, view.name_length as int, false, name_terminator)
}

pub fn valid_view(view: &View, name_terminator: Option<u8>) -> (r: bool)
    ensures
        r == view_valid(*view, name_terminator),
{
    if view.format != ELF64_LE || view.reserved != 0 || view.header_count == 0 || view.header_count > u16::MAX as usize {
        return false;
    }
    if view.headers == 0 || view.headers % 8 != 0 {
        return false;
    }
    let bytes: usize = view.header_count * HEADER_SIZE;
    if view.headers.checked_add(bytes).is_none() {
        return false;
    }
    valid_string(view.name, view.name_length, false, name_terminator)
}

/// The state of one iteration, driven view by view by the provider: whether a
/// malformed view or a visit after the consumer stopped was seen, whether the
/// iteration stopped, and the consumer's answer when it stopped it.
#[derive(Clone, Copy, Debug, PartialEq, Eq, Structural)]
pub struct Visit {
    pub invalid: bool,
    pub stopped: bool,
    pub result: i32,
}

impl Visit {
    pub fn new() -> (v: Visit)
        ensures v == (Visit { invalid: false, stopped: false, result: 0 }),
    {
        Visit { invalid: false, stopped: false, result: 0 }
    }

    /// Before one view reaches the consumer: `Some(1)` ends the iteration without
    /// calling the consumer (a visit after it stopped, or a malformed view, which also
    /// stops it); `None` lets the consumer see it, and counts it as seen.
    pub fn offer(&mut self, view_ok: bool, counters: &mut Counters) -> (r: Option<i32>)
        requires
            old(counters).len() == 4,
        ensures
            old(self).stopped ==> r == Some(1i32) && *final(self) == (Visit { invalid: true, ..*old(self) })
                && *final(counters) == *old(counters),
            !old(self).stopped && !view_ok ==> r == Some(1i32) && *final(self) == (Visit { invalid: true, stopped: true, ..*old(self) })
                && *final(counters) == *old(counters),
            !old(self).stopped && view_ok ==> r is None && *final(self) == *old(self)
                && counted(*old(counters), *final(counters), SEEN as int),
    {
        if self.stopped {
            self.invalid = true;
            return Some(1);
        }
        if !view_ok {
            self.invalid = true;
            self.stopped = true;
            return Some(1);
        }
        counters.increment(SEEN);
        None
    }

    /// After the consumer answered for one view: a nonzero answer stops the iteration
    /// and is remembered. The answer is passed on.
    pub fn answered(&mut self, answer: i32) -> (r: i32)
        ensures
            r == answer,
            answer != 0 ==> *final(self) == (Visit { stopped: true, result: answer, ..*old(self) }),
            answer == 0 ==> *final(self) == *old(self),
    {
        if answer != 0 {
            self.stopped = true;
            self.result = answer;
        }
        answer
    }
}

/// The status of an iteration: a malformed view makes it `OS_ERROR` whatever the
/// provider says, and so does an `OK` whose final answer is not the consumer's.
pub fn iterate_outcome(status: u32, visit: Visit, answer: i32) -> (r: u32)
    ensures
        r == (if visit.invalid || (status == OK && answer != visit.result) { OS_ERROR } else { status }),
{
    if visit.invalid || (status == OK && answer != visit.result) { OS_ERROR } else { status }
}

/// What an address query answers about the image and symbol holding an address.
#[derive(Clone, Copy, Debug, PartialEq, Eq, Structural)]
pub struct SymbolInfo {
    pub base: usize,
    pub name: usize,
    pub name_length: usize,
    pub symbol_address: usize,
    pub symbol_name: usize,
    pub symbol_name_length: usize,
}

/// Whether an address answer is usable: an image base, a terminated image name, and
/// a terminated symbol name if there is one.
pub open spec fn info_valid(info: SymbolInfo, name_terminator: Option<u8>, symbol_terminator: Option<u8>) -> bool {
    &&& info.base != 0
    &&& string_valid(info.name as int, info.name_length as int, false, name_terminator)
    &&& string_valid(info.symbol_name as int, info.symbol_name_length as int, true, symbol_terminator)
}

/// The status of an address answer: a malformed `OK` answer is `OS_ERROR` and is not passed on.
pub fn address_outcome(status: u32, info: &SymbolInfo, name_terminator: Option<u8>, symbol_terminator: Option<u8>) -> (r: u32)
    ensures
        r == (if status == OK && !info_valid(*info, name_terminator, symbol_terminator) { OS_ERROR } else { status }),
{
    if status != OK {
        return status;
    }
    if info.base == 0 || !valid_string(info.name, info.name_length, false, name_terminator)
        || !valid_string(info.symbol_name, info.symbol_name_length, true, symbol_terminator) {
        return OS_ERROR;
    }
    OK
}

/// The capability bits of the group.
pub fn negotiate(compiled: bool) -> (r: u64)
    ensures
        r == (if compiled { ALL } else { 0 }),
{
    if compiled { ALL } else { 0 }
}

/// `ALL` is the ELF and symbol bits together.
pub proof fn lemma_all()
    ensures
        ALL == (CAP_ELF | CAP_SYMBOL),
{
    assert(25165824u64 == (8388608u64 | 16777216u64)) by (bit_vector);
}

} // verus!
