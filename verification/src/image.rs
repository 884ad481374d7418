//! Executable image inspection (`CAP_IMAGE`): unwind-table lookup, memory
//! readability probes and build identifiers. Addresses are trusted borrows.
use vstd::prelude::*;
use crate::counter::Counters;
use crate::port::{error_status, Error, Image};
use crate::runtime::{BUFFER_TOO_SMALL, NOT_FOUND};
use crate::{is_aligned_output, OutArray, Output, INVALID_ARGUMENT, OK, OS_ERROR, UNSUPPORTED};

use crate::GroupOps;

verus! {

pub const CAP: u64 = 33554432;
/// Bound on a build identifier; ELF notes are 20 bytes, Mach-O UUIDs 16.
pub const MAX_BUILD_ID: usize = 64;

/// Location of one image and its DWARF unwind tables, as the C ABI describes it.
#[derive(Clone, Copy, Debug, Default, PartialEq, Eq, Structural)]
pub struct UnwindInfo {
    pub base: usize,
    pub text_start: usize,
    pub text_length: usize,
    pub eh_frame_hdr: usize,
    pub eh_frame_hdr_length: usize,
    pub eh_frame: usize,
    pub eh_frame_length: usize,
}

/// Whether a table range is present and lies inside the address space.
pub open spec fn present(start: int, length: int) -> bool {
    start != 0 && start + length <= usize::MAX
}

/// Whether an unwind answer is one a consumer can act on for `address`: a nonempty
/// text range that contains it, at least one nonempty unwind table, and no table
/// that is named but wraps around the address space.
pub open spec fn consistent_unwind(info: UnwindInfo, address: int) -> bool {
    let hdr = present(info.eh_frame_hdr as int, info.eh_frame_hdr_length as int) && info.eh_frame_hdr_length != 0;
    let frame = present(info.eh_frame as int, info.eh_frame_length as int);
    &&& info.text_start + info.text_length <= usize::MAX
    &&& info.text_length != 0
    &&& info.text_start <= address < info.text_start + info.text_length
    &&& (hdr || (frame && info.eh_frame_length != 0))
    &&& (info.eh_frame_hdr == 0 || hdr)
    &&& (info.eh_frame == 0 || frame)
}

impl UnwindInfo {
    /// A provider result that a consumer can act on: a text range containing `address`
    /// and at least one unwind table.
    pub fn consistent(&self, address: usize) -> (r: bool)
        ensures
            r == consistent_unwind(*self, address as int),
    {
        let text_end: usize = match self.text_start.checked_add(self.text_length) {
            Some(e) => e,
            None => return false,
        };
        if self.text_length == 0 || address < self.text_start || address >= text_end {
            return false;
        }
        let hdr: bool = self.eh_frame_hdr != 0 && self.eh_frame_hdr_length != 0 && self.eh_frame_hdr.checked_add(self.eh_frame_hdr_length).is_some();
        let frame: bool = self.eh_frame != 0 && self.eh_frame.checked_add(self.eh_frame_length).is_some();
        (hdr || (frame && self.eh_frame_length != 0)) && (self.eh_frame_hdr == 0 || hdr) && (self.eh_frame == 0 || frame)
    }

    pub fn zero() -> (r: UnwindInfo)
        ensures r == (UnwindInfo { base: 0, text_start: 0, text_length: 0, eh_frame_hdr: 0, eh_frame_hdr_length: 0, eh_frame: 0, eh_frame_length: 0 }),
    {
        UnwindInfo { base: 0, text_start: 0, text_length: 0, eh_frame_hdr: 0, eh_frame_hdr_length: 0, eh_frame: 0, eh_frame_length: 0 }
    }
}

/// Successful calls per operation, and the rejected or failed ones.
#[derive(Clone, Copy, Debug, Default, PartialEq, Eq, Structural)]
pub struct Stats {
    pub unwind_ok: u64,
    pub readable_ok: u64,
    pub build_id_ok: u64,
    pub rejected_or_failed: u64,
}

pub const FAILED: usize = 3;

/// The statuses this group reports: `NOT_FOUND` from the three calls, `BUFFER_TOO_SMALL`
/// from `build_id` alone, anything else outside the shared set is `OS_ERROR`.
pub open spec fn sanitized(status: u32, index: int) -> u32 {
    if status == OK || status == UNSUPPORTED || status == INVALID_ARGUMENT || status == OS_ERROR {
        status
    } else if status == NOT_FOUND && index != 3 {
        status
    } else if status == BUFFER_TOO_SMALL && index == 2 {
        status
    } else {
        OS_ERROR
    }
}

/// Sanitizes a status and counts the call: counter `index` on success, `FAILED` otherwise.
pub fn record(status: u32, index: usize, counters: &mut Counters) -> (r: u32)
    requires
        index < FAILED,
        old(counters).len() == 4,
    ensures
        r == sanitized(status, index as int),
        crate::files::counted(*old(counters), *final(counters), if r == OK { index as int } else { FAILED as int }),
{
    let status: u32 = if status == OK || status == UNSUPPORTED || status == INVALID_ARGUMENT || status == OS_ERROR {
        status
    } else if status == NOT_FOUND && index != 3 {
        status
    } else if status == BUFFER_TOO_SMALL && index == 2 {
        status
    } else {
        OS_ERROR
    };
    counters.increment(if status == OK { index } else { FAILED });
    status
}

/// Checks a provider's unwind answer for `address`: a table that cannot contain the
/// address is a broken provider, and the output then stays zero.
pub open spec fn unwind_result(answer: Result<UnwindInfo, Error>, address: int) -> (u32, UnwindInfo) {
    match answer {
        Ok(info) => if consistent_unwind(info, address) { (OK, info) } else { (OS_ERROR, UnwindInfo::zero_spec()) },
        Err(e) => (error_status(e), UnwindInfo::zero_spec()),
    }
}

pub fn unwind_outcome(answer: Result<UnwindInfo, Error>, address: usize) -> (r: (u32, UnwindInfo))
    ensures
        r == unwind_result(answer, address as int),
{
    match answer {
        Ok(info) => if info.consistent(address) { (OK, info) } else { (OS_ERROR, UnwindInfo::zero()) },
        Err(e) => (e.status(), UnwindInfo::zero()),
    }
}

impl UnwindInfo {
    pub open spec fn zero_spec() -> UnwindInfo {
        UnwindInfo { base: 0, text_start: 0, text_length: 0, eh_frame_hdr: 0, eh_frame_hdr_length: 0, eh_frame: 0, eh_frame_length: 0 }
    }
}

/// Whether a readability probe is well formed: a nonempty range from a nonzero address, without wrap-around.
pub fn readable_arguments(address: usize, size: usize) -> (r: bool)
    ensures
        r == (address != 0 && size != 0 && address + size <= usize::MAX),
{
    address != 0 && size != 0 && address.checked_add(size).is_some()
}

/// The status of a readability answer: readable is `OK`, unreadable `NOT_FOUND`.
pub fn readable_outcome(answer: Result<bool, Error>) -> (r: u32)
    ensures
        r == (match answer { Ok(true) => OK, Ok(false) => NOT_FOUND, Err(e) => error_status(e) }),
{
    match answer {
        Ok(true) => OK,
        Ok(false) => NOT_FOUND,
        Err(e) => e.status(),
    }
}

/// Whether a build-id request is well formed: a module base, at most `MAX_BUILD_ID` bytes, a buffer unless empty.
pub fn build_id_arguments(base: usize, out: usize, capacity: usize) -> (r: bool)
    ensures
        r == (base != 0 && capacity <= MAX_BUILD_ID && (capacity == 0 || out != 0)),
{
    base != 0 && capacity <= MAX_BUILD_ID && (capacity == 0 || out != 0)
}

/// The status and the needed length a provider's build-id answer gives: an empty
/// identifier or one longer than `MAX_BUILD_ID` is a broken provider; a longer one than
/// the buffer is `BUFFER_TOO_SMALL` with its length.
pub open spec fn build_id_result(answer: Result<usize, Error>, capacity: int) -> (u32, usize) {
    match answer {
        Ok(length) => if length == 0 || length > MAX_BUILD_ID { (OS_ERROR, 0) }
            else if length > capacity { (BUFFER_TOO_SMALL, length) } else { (OK, length) },
        Err(e) => (error_status(e), 0),
    }
}

pub fn build_id_outcome(answer: Result<usize, Error>, capacity: usize) -> (r: (u32, usize))
    ensures
        r == build_id_result(answer, capacity as int),
{
    match answer {
        Ok(length) => if length == 0 || length > MAX_BUILD_ID { (OS_ERROR, 0) }
            else if length > capacity { (BUFFER_TOO_SMALL, length) } else { (OK, length) },
        Err(e) => (e.status(), 0),
    }
}

/// Finishes a build-id call on the buffer the provider wrote: the status and length of
/// `build_id_outcome`, and on anything but `OK` a buffer of zeros.
pub fn build_id_finish(answer: Result<usize, Error>, capacity: usize, buffer: &mut Vec<u8>) -> (r: (u32, usize))
    ensures
        r == build_id_result(answer, capacity as int),
        final(buffer)@.len() == old(buffer)@.len(),
        r.0 == OK ==> final(buffer)@ == old(buffer)@,
        r.0 != OK ==> forall|i: int| 0 <= i < final(buffer)@.len() ==> final(buffer)@[i] == 0,
{
    let r: (u32, usize) = build_id_outcome(answer, capacity);
    if r.0 != OK {
        crate::files::clear_name(buffer);
    }
    r
}

/// Maps a foreign `readable` status to a provider result: `OK` is readable, `NOT_FOUND`
/// unreadable, a known status its error, and an unknown one `Os`.
pub fn readable_from_status(status: u32) -> (r: Result<bool, Error>)
    ensures
        status == OK ==> r == Ok::<bool, Error>(true),
        status == NOT_FOUND ==> r == Ok::<bool, Error>(false),
        status != OK && status != NOT_FOUND && status <= crate::io::MESSAGE_TOO_LARGE ==> (r matches Err(e) && error_status(e) == status),
        status > crate::io::MESSAGE_TOO_LARGE ==> r == Err::<bool, Error>(Error::Os),
{
    if status == OK {
        return Ok(true);
    }
    if status == NOT_FOUND {
        return Ok(false);
    }
    match Error::from_status(status) {
        Some(e) => Err(e),
        None => Err(Error::Os),
    }
}

/// The capability bit of the group, and which of its callbacks a table publishes.
pub fn negotiate(provided: bool) -> (r: (u64, GroupOps))
    ensures
        r.0 == (if provided { CAP } else { 0 }),
        r.1 == crate::group_ops(provided),
{
    (if provided { CAP } else { 0 }, GroupOps { calls: provided, read_stats: true })
}

/// The unwind tables holding `address`. An unusable output is rejected unwritten;
/// otherwise it holds the zero table unless the provider answers a table that can
/// contain the address; address 0 is `INVALID_ARGUMENT`.
pub fn unwind_info<I: Image>(counters: &mut Counters, address: usize, out: &mut Output<UnwindInfo>, size: usize) -> (r: u32)
    requires
        old(counters).len() == 4,
    ensures
        final(out).address == old(out).address,
        crate::files::counted(*old(counters), *final(counters), if r == OK { 0 } else { FAILED as int }),
        !(is_aligned_output(old(out).address as int, vstd::layout::align_of::<UnwindInfo>() as int)
            && size >= vstd::layout::size_of::<UnwindInfo>())
            ==> r == INVALID_ARGUMENT && final(out).value == old(out).value,
        is_aligned_output(old(out).address as int, vstd::layout::align_of::<UnwindInfo>() as int)
            && size >= vstd::layout::size_of::<UnwindInfo>() && address == 0
            ==> r == INVALID_ARGUMENT && final(out).value == UnwindInfo::zero_spec(),
        is_aligned_output(old(out).address as int, vstd::layout::align_of::<UnwindInfo>() as int)
            && size >= vstd::layout::size_of::<UnwindInfo>() && address != 0
            ==> exists|answer: Result<UnwindInfo, Error>| I::unwind_info_answer(address, answer)
                && #[trigger] unwind_result(answer, address as int).1 == final(out).value
                && r == sanitized(unwind_result(answer, address as int).0, 0),
{
    if !crate::aligned_output(out.address, core::mem::align_of::<UnwindInfo>()) || size < core::mem::size_of::<UnwindInfo>() {
        return record(INVALID_ARGUMENT, 0, counters);
    }
    out.value = UnwindInfo::zero();
    if address == 0 {
        return record(INVALID_ARGUMENT, 0, counters);
    }
    let answer: Result<UnwindInfo, Error> = I::unwind_info(address);
    let (status, info) = unwind_outcome(answer, address);
    out.value = info;
    record(status, 0, counters)
}

/// Whether `[address, address + size)` is readable: `OK` or `NOT_FOUND` as the provider
/// answers; a malformed range is `INVALID_ARGUMENT` before it is asked.
pub fn readable<I: Image>(counters: &mut Counters, address: usize, size: usize) -> (r: u32)
    requires
        old(counters).len() == 4,
    ensures
        crate::files::counted(*old(counters), *final(counters), if r == OK { 1 } else { FAILED as int }),
        !(address != 0 && size != 0 && address + size <= usize::MAX) ==> r == INVALID_ARGUMENT,
        address != 0 && size != 0 && address + size <= usize::MAX ==> exists|answer: Result<bool, Error>|
            I::readable_answer(address, size, answer) && r == sanitized(#[trigger] readable_status(answer), 1),
{
    if !readable_arguments(address, size) {
        return record(INVALID_ARGUMENT, 1, counters);
    }
    let answer: Result<bool, Error> = I::readable(address, size);
    let status: u32 = readable_outcome(answer);
    assert(status == readable_status(answer));
    record(status, 1, counters)
}

/// The status a readability answer gives.
pub open spec fn readable_status(answer: Result<bool, Error>) -> u32 {
    match answer { Ok(true) => OK, Ok(false) => NOT_FOUND, Err(e) => error_status(e) }
}

/// Whether a finished build-id buffer is what a provider answer gives: status and
/// length of `build_id_result`, the identifier on `OK`, zeros otherwise.
pub open spec fn build_id_answered(answer: Result<usize, Error>, capacity: int, written: Seq<u8>, status: u32, length: usize, buffer: Seq<u8>) -> bool {
    &&& (status, length) == build_id_result(answer, capacity)
    &&& buffer.len() == written.len()
    &&& status == OK ==> buffer == written
    &&& status != OK ==> forall|i: int| 0 <= i < buffer.len() ==> buffer[i] == 0
}

/// A module's build identifier. An unaligned length output is rejected unwritten;
/// otherwise it is 0 unless the identifier is answered, a malformed request is
/// `INVALID_ARGUMENT`, and the buffer is cleared before the provider writes it and
/// again on anything but `OK`.
pub fn build_id<I: Image>(counters: &mut Counters, base: usize, buffer: &mut OutArray<u8>, capacity: usize, needed: &mut Output<usize>) -> (r: u32)
    requires
        old(counters).len() == 4,
        old(buffer).items@.len() == capacity,
    ensures
        final(buffer).address == old(buffer).address && final(needed).address == old(needed).address,
        crate::files::counted(*old(counters), *final(counters), if r == OK { 2 } else { FAILED as int }),
        !is_aligned_output(old(needed).address as int, vstd::layout::align_of::<usize>() as int)
            ==> r == INVALID_ARGUMENT && *final(needed) == *old(needed) && *final(buffer) == *old(buffer),
        is_aligned_output(old(needed).address as int, vstd::layout::align_of::<usize>() as int)
            && !(base != 0 && capacity <= MAX_BUILD_ID && (capacity == 0 || old(buffer).address != 0))
            ==> r == INVALID_ARGUMENT && final(needed).value == 0 && *final(buffer) == *old(buffer),
        is_aligned_output(old(needed).address as int, vstd::layout::align_of::<usize>() as int)
            && base != 0 && capacity <= MAX_BUILD_ID && (capacity == 0 || old(buffer).address != 0)
            ==> exists|answer: Result<usize, Error>, written: Seq<u8>, status: u32|
                I::build_id_answer(base, capacity, crate::files::zero_bytes(capacity as int), written, answer)
                && #[trigger] build_id_answered(answer, capacity as int, written, status, final(needed).value, final(buffer).items@)
                && r == sanitized(status, 2),
{
    if !crate::aligned_output(needed.address, core::mem::align_of::<usize>()) {
        return record(INVALID_ARGUMENT, 2, counters);
    }
    needed.value = 0;
    if !build_id_arguments(base, buffer.address, capacity) {
        return record(INVALID_ARGUMENT, 2, counters);
    }
    crate::files::clear_name(&mut buffer.items);
    let answer: Result<usize, Error> = I::build_id(base, &mut buffer.items, capacity);
    let ghost written: Seq<u8> = buffer.items@;
    let (status, length) = build_id_finish(answer, capacity, &mut buffer.items);
    needed.value = length;
    let r: u32 = record(status, 2, counters);
    assert(build_id_answered(answer, capacity as int, written, status, needed.value, buffer.items@));
    r
}

} // verus!
