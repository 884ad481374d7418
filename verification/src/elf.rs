//! ELF metadata services. The ELF format is explicit; no native structure of the
//! provider crosses the boundary.
use vstd::prelude::*;
use crate::counter::Counters;
use crate::files::counted;
use crate::runtime::NOT_FOUND;
use crate::{INVALID_ARGUMENT, OK, OS_ERROR, UNSUPPORTED};

verus! {

pub const CAP: u64 = 524288;
/// The size and alignment of one `ProgramHeader` as the C ABI lays it out.
pub const HEADER_SIZE: usize = 56;
pub const HEADER_ALIGNMENT: usize = 8;

/// One ELF program header, in the boundary's fixed layout.
#[derive(Clone, Copy, Debug, Default, PartialEq, Eq, Structural)]
pub struct ProgramHeader {
    pub kind: u32,
    pub flags: u32,
    pub offset: u64,
    pub virtual_address: u64,
    pub physical_address: u64,
    pub file_size: u64,
    pub memory_size: u64,
    pub alignment: u64,
}

/// One loaded image as the provider describes it; addresses are plain integers.
#[derive(Clone, Copy, Debug)]
pub struct Image {
    pub load_bias: usize,
    pub name: usize,
    pub headers: usize,
    pub header_count: u32,
    pub flags: u32,
    pub loads: u64,
    pub unloads: u64,
}

/// Successful enumerations and lookups, and the rejected or failed calls.
#[derive(Clone, Copy, Debug, Default, PartialEq, Eq, Structural)]
pub struct Stats {
    pub enumerate_ok: u64,
    pub lookup_ok: u64,
    pub rejected_or_failed: u64,
}

pub const ENUMERATE: usize = 0;
pub const LOOKUP: usize = 1;
pub const FAILED: usize = 2;

/// Whether the group is usable: a build without the capability needs nothing, one
/// with it needs its provider.
pub fn available(compiled: bool, provider: bool) -> (r: bool)
    ensures
        r == (!compiled || provider),
{
    !compiled || provider
}

/// The statuses the group reports; anything else is `OS_ERROR`.
pub open spec fn sanitized(status: u32) -> u32 {
    if status == OK || status == INVALID_ARGUMENT || status == OS_ERROR || status == UNSUPPORTED || status == NOT_FOUND {
        status
    } else {
        OS_ERROR
    }
}

/// Sanitizes a status and counts the call: counter `index` on success, `FAILED` otherwise.
pub fn record(status: u32, index: usize, counters: &mut Counters) -> (r: u32)
    requires
        index < FAILED,
        old(counters).len() == 3,
    ensures
        r == sanitized(status),
        counted(*old(counters), *final(counters), if r == OK { index as int } else { FAILED as int }),
{
    let s: u32 = if status == OK || status == INVALID_ARGUMENT || status == OS_ERROR || status == UNSUPPORTED || status == NOT_FOUND {
        status
    } else {
        OS_ERROR
    };
    counters.increment(if s == OK { index } else { FAILED });
    s
}

/// Whether a provider's image record is well formed: a name, no unknown flag, at most
/// 65535 headers, and a nonempty header array aligned and inside the address space.
pub open spec fn image_valid(image: Image) -> bool {
    &&& image.name != 0
    &&& image.flags & !1u32 == 0
    &&& image.header_count <= u16::MAX
    &&& image.header_count != 0 ==> {
        &&& image.headers != 0
        &&& image.headers % HEADER_ALIGNMENT == 0
        &&& image.headers + image.header_count * HEADER_SIZE <= usize::MAX
    }
}

pub fn valid_image(image: &Image) -> (r: bool)
    ensures
        r == image_valid(*image),
{
    if image.name == 0 || image.flags & !1u32 != 0 || image.header_count > u16::MAX as u32 {
        return false;
    }
    if image.header_count == 0 {
        return true;
    }
    let bytes: usize = image.header_count as usize * HEADER_SIZE;
    image.headers != 0 && image.headers % HEADER_ALIGNMENT == 0 && image.headers.checked_add(bytes).is_some()
}

/// The state of one enumeration, which the provider drives image by image: whether a
/// malformed image or a visit after the consumer stopped was seen, whether the
/// consumer stopped, and the answer it stopped with.
#[derive(Clone, Copy, Debug, PartialEq, Eq, Structural)]
pub struct Visit {
    pub invalid: bool,
    pub stopped: bool,
    pub result: i32,
}

impl Visit {
    pub fn new() -> (v: Visit)
        ensures v == (Visit { invalid: false, stopped: false, result: 0 }),
    {
        Visit { invalid: false, stopped: false, result: 0 }
    }

    /// Before one image reaches the consumer: `Some(1)` ends the enumeration without
    /// calling the consumer (a visit after it stopped, a malformed image, or an earlier
    /// malformed one); `None` lets the consumer see it.
    pub fn offer(&mut self, image_ok: bool) -> (r: Option<i32>)
        ensures
            old(self).stopped ==> r == Some(1i32) && *final(self) == (Visit { invalid: true, ..*old(self) }),
            !old(self).stopped && !image_ok ==> r == Some(1i32) && *final(self) == (Visit { invalid: true, ..*old(self) }),
            !old(self).stopped && image_ok ==> *final(self) == *old(self)
                && r == (if old(self).invalid { Some(1i32) } else { None::<i32> }),
    {
        if self.stopped || !image_ok {
            self.invalid = true;
            return Some(1);
        }
        if self.invalid {
            return Some(1);
        }
        None
    }

    /// After the consumer answered for one image: a nonzero answer stops the enumeration
    /// and is remembered. The answer is passed on.
    pub fn answered(&mut self, answer: i32) -> (r: i32)
        ensures
            r == answer,
            answer != 0 ==> *final(self) == (Visit { stopped: true, result: answer, ..*old(self) }),
            answer == 0 ==> *final(self) == *old(self),
    {
        if answer != 0 {
            self.stopped = true;
            self.result = answer;
        }
        answer
    }
}

/// The status of an enumeration: an `OK` from a provider that fed a malformed image,
/// or whose final answer is not the consumer's, is `OS_ERROR`.
pub fn enumerate_outcome(status: u32, visit: Visit, answer: i32) -> (r: u32)
    ensures
        r == (if status == OK && (visit.invalid || answer != visit.result) { OS_ERROR } else { status }),
{
    if status == OK && (visit.invalid || answer != visit.result) { OS_ERROR } else { status }
}

/// Whether a lookup answer is usable: a module base and name, and a symbol name
/// exactly when there is a symbol address.
pub fn symbol_valid(module_base: usize, module_name: usize, symbol_address: usize, symbol_name: usize) -> (r: bool)
    ensures
        r == (module_base != 0 && module_name != 0 && ((symbol_name == 0) == (symbol_address == 0))),
{
    module_base != 0 && module_name != 0 && ((symbol_name == 0) == (symbol_address == 0))
}

/// The status of a lookup answer: a malformed `OK` answer is `OS_ERROR`.
pub fn lookup_outcome(status: u32, module_base: usize, module_name: usize, symbol_address: usize, symbol_name: usize) -> (r: u32)
    ensures
        r == (if status == OK && !(module_base != 0 && module_name != 0 && ((symbol_name == 0) == (symbol_address == 0))) {
            OS_ERROR
        } else {
            status
        }),
{
    if status == OK && !symbol_valid(module_base, module_name, symbol_address, symbol_name) { OS_ERROR } else { status }
}

/// The capability bit of the group.
pub fn negotiate(compiled: bool) -> (r: u64)
    ensures
        r == (if compiled { CAP } else { 0 }),
{
    if compiled { CAP } else { 0 }
}

} // verus!
