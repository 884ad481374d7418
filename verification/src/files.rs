//! Files and directories (`CAP_FILES`). Paths are byte borrows passed verbatim;
//! file handles carry no position, so every transfer names its offset.
use vstd::prelude::*;
use crate::counter::{saturated_next, Counters};
use crate::io::{ACCESS_DENIED, ALREADY_EXISTS, CROSS_DEVICE, IS_DIRECTORY, NAME_TOO_LONG, NOT_DIRECTORY, NOT_EMPTY, NO_SPACE,
    READ_ONLY, TOO_MANY_HANDLES, WOULD_BLOCK};
use crate::kernel::BUSY;
use crate::port::{error_status, Error, Files};
use crate::runtime::NOT_FOUND;
use crate::runtime::BUFFER_TOO_SMALL;
use crate::{is_aligned_output, OutArray, Output, INVALID_ARGUMENT, OK, OS_ERROR, OUT_OF_MEMORY, UNSUPPORTED};

use crate::GroupOps;

verus! {

pub const CAP: u64 = 134217728;
pub const READ: u32 = 1;
pub const WRITE: u32 = 2;
pub const CREATE: u32 = 4;
pub const EXCLUSIVE: u32 = 8;
pub const TRUNCATE: u32 = 16;
pub const NODE_FILE: u32 = 1;
pub const NODE_DIRECTORY: u32 = 2;
pub const NODE_SYMLINK: u32 = 3;
pub const NODE_OTHER: u32 = 4;
pub const MAX_ENTRY_NAME: usize = 255;
/// A time `set_times` leaves unchanged, at the C ABI.
pub const TIME_KEEP: u64 = 0xFFFF_FFFF_FFFF_FFFF;
pub const LOCK_SHARED: u32 = 1;
pub const LOCK_EXCLUSIVE: u32 = 2;
pub const LOCK_UNLOCK: u32 = 3;
pub const MODE_MASK: u32 = 0o7777;

/// What a path or an open file is. Times are nanoseconds since the Unix epoch,
/// zero when the target keeps none; `identity` and `device` are zero likewise.
#[derive(Clone, Copy, Debug, Default, PartialEq, Eq, Structural)]
pub struct Status {
    pub kind: u32,
    pub mode: u32,
    pub size: u64,
    pub modified_ns: u64,
    pub accessed_ns: u64,
    pub changed_ns: u64,
    pub created_ns: u64,
    pub identity: u64,
    pub device: u64,
}

/// Whether a permission mode has only the bits of `MODE_MASK`.
pub open spec fn valid_mode(mode: u32) -> bool {
    mode & !MODE_MASK == 0
}

/// Whether a status is one a consumer can use: a known node kind and a permission mode.
pub open spec fn consistent_status(s: Status) -> bool {
    NODE_FILE <= s.kind <= NODE_OTHER && valid_mode(s.mode)
}

impl Status {
    pub fn consistent(&self) -> (r: bool)
        ensures
            r == consistent_status(*self),
    {
        NODE_FILE <= self.kind && self.kind <= NODE_OTHER && self.mode & !MODE_MASK == 0
    }
}

/// A mode is valid exactly when it is below 0o10000.
pub proof fn lemma_valid_mode(mode: u32)
    ensures
        valid_mode(mode) == (mode < 0o10000),
{
    assert((mode & !0o7777u32 == 0) == (mode < 0o10000u32)) by (bit_vector);
}

/// Whether `flags` is a combination `open` accepts: only the five known bits, reading
/// or writing or both, `EXCLUSIVE` only with `CREATE`, and `TRUNCATE` only with `WRITE`.
pub open spec fn valid_open_flags(flags: u32) -> bool {
    &&& flags & !(READ | WRITE | CREATE | EXCLUSIVE | TRUNCATE) == 0
    &&& flags & (READ | WRITE) != 0
    &&& (flags & EXCLUSIVE == 0 || flags & CREATE != 0)
    &&& (flags & TRUNCATE == 0 || flags & WRITE != 0)
}

/// Whether `flags` is a combination `open` accepts.
pub fn valid_open(flags: u32) -> (r: bool)
    ensures
        r == valid_open_flags(flags),
{
    flags & !(READ | WRITE | CREATE | EXCLUSIVE | TRUNCATE) == 0 && flags & (READ | WRITE) != 0
        && (flags & EXCLUSIVE == 0 || flags & CREATE != 0) && (flags & TRUNCATE == 0 || flags & WRITE != 0)
}

/// Successful calls per operation, and the rejected or failed ones.
#[derive(Clone, Copy, Debug, Default, PartialEq, Eq, Structural)]
pub struct Stats {
    pub open_ok: u64,
    pub close_ok: u64,
    pub read_ok: u64,
    pub write_ok: u64,
    pub size_ok: u64,
    pub flush_ok: u64,
    pub status_ok: u64,
    pub remove_ok: u64,
    pub rename_ok: u64,
    pub directory_ok: u64,
    pub rejected_or_failed: u64,
    pub attribute_ok: u64,
    pub link_ok: u64,
    pub lock_ok: u64,
}

pub const DIRECTORY: usize = 9;
pub const FAILED: usize = 10;
pub const ATTRIBUTE: usize = 11;
pub const LINK: usize = 12;
pub const LOCK: usize = 13;
pub const COUNTERS: usize = 14;

/// The statuses this group reports; anything else is `OS_ERROR`.
pub open spec fn sanitized(status: u32) -> u32 {
    if status == OK || status == UNSUPPORTED || status == INVALID_ARGUMENT || status == OS_ERROR || status == OUT_OF_MEMORY
        || status == BUSY || status == NOT_FOUND || status == ALREADY_EXISTS || status == ACCESS_DENIED || status == IS_DIRECTORY
        || status == NOT_DIRECTORY || status == NOT_EMPTY || status == NO_SPACE || status == TOO_MANY_HANDLES
        || status == NAME_TOO_LONG || status == READ_ONLY || status == CROSS_DEVICE {
        status
    } else {
        OS_ERROR
    }
}

/// How one counted call changes the counters: `slot` counts one more, the rest stay.
pub open spec fn counted(before: Counters, after: Counters, slot: int) -> bool {
    &&& after.len() == before.len()
    &&& after.value(slot) == saturated_next(before.value(slot))
    &&& forall|i: int| 0 <= i < before.len() && i != slot ==> after.value(i) == before.value(i)
}

/// Sanitizes a status and counts the call: counter `index` on success, `FAILED` otherwise.
pub fn record(status: u32, index: usize, counters: &mut Counters) -> (r: u32)
    requires
        index < COUNTERS,
        old(counters).len() == COUNTERS,
    ensures
        r == sanitized(status),
        counted(*old(counters), *final(counters), if r == OK { index as int } else { FAILED as int }),
{
    let status: u32 = if status == OK || status == UNSUPPORTED || status == INVALID_ARGUMENT || status == OS_ERROR
        || status == OUT_OF_MEMORY || status == BUSY || status == NOT_FOUND || status == ALREADY_EXISTS || status == ACCESS_DENIED
        || status == IS_DIRECTORY || status == NOT_DIRECTORY || status == NOT_EMPTY || status == NO_SPACE
        || status == TOO_MANY_HANDLES || status == NAME_TOO_LONG || status == READ_ONLY || status == CROSS_DEVICE {
        status
    } else {
        OS_ERROR
    };
    counters.increment(if status == OK { index } else { FAILED });
    status
}

/// `WOULD_BLOCK` belongs to a lock request that does not wait, so it bypasses the
/// shared set there and nowhere else: from a waiting request or an unlock it is a
/// broken provider. It counts as a failure.
pub fn record_lock(status: u32, may_refuse: bool, counters: &mut Counters) -> (r: u32)
    requires
        old(counters).len() == COUNTERS,
    ensures
        r == (if status == WOULD_BLOCK && may_refuse { WOULD_BLOCK } else { sanitized(status) }),
        counted(*old(counters), *final(counters), if r == OK { LOCK as int } else { FAILED as int }),
{
    if status == WOULD_BLOCK && may_refuse {
        counters.increment(FAILED);
        return status;
    }
    record(status, LOCK, counters)
}

/// Whether a buffer of `size` bytes at `address` is usable: at most `isize::MAX` bytes,
/// and, unless empty, not null and not wrapping around the address space.
pub open spec fn valid_buffer_spec(address: int, size: int) -> bool {
    size <= isize::MAX && (size == 0 || (address != 0 && address + size <= usize::MAX))
}

pub fn valid_buffer(address: usize, size: usize) -> (r: bool)
    ensures
        r == valid_buffer_spec(address as int, size as int),
{
    size <= isize::MAX as usize && (size == 0 || (address != 0 && address.checked_add(size).is_some()))
}

/// The status and handle a provider's open answer gives: a null handle is no handle.
pub open spec fn handle_result(result: Result<usize, Error>) -> (u32, usize) {
    match result {
        Ok(value) => if value == 0 { (OS_ERROR, 0) } else { (OK, value) },
        Err(e) => (error_status(e), 0),
    }
}

/// A handle result a consumer may keep: non-null.
pub fn handle(result: Result<usize, Error>) -> (r: (u32, usize))
    ensures
        r == handle_result(result),
{
    match result {
        Ok(value) => if value == 0 { (OS_ERROR, 0) } else { (OK, value) },
        Err(e) => (e.status(), 0),
    }
}

/// Whether `open` takes these flags and this mode (the path is checked on its own).
pub fn open_arguments(flags: u32, mode: u32) -> (r: bool)
    ensures
        r == (valid_open_flags(flags) && valid_mode(mode)),
{
    valid_open(flags) && mode & !MODE_MASK == 0
}

/// Whether a positioned read is well formed: a handle, a usable buffer, an offset inside `i64`.
pub fn read_arguments(file: usize, data: usize, capacity: usize, offset: u64) -> (r: bool)
    ensures
        r == (file != 0 && valid_buffer_spec(data as int, capacity as int) && offset <= i64::MAX),
{
    file != 0 && valid_buffer(data, capacity) && offset <= i64::MAX as u64
}

/// Whether a positioned write is well formed: a handle, a usable buffer, and the whole range inside `i64`.
pub fn write_arguments(file: usize, data: usize, size: usize, offset: u64) -> (r: bool)
    ensures
        r == (file != 0 && valid_buffer_spec(data as int, size as int) && offset <= i64::MAX && offset + size <= i64::MAX),
{
    file != 0 && valid_buffer(data, size) && offset <= i64::MAX as u64 && (offset as u128 + size as u128) <= i64::MAX as u128
}

/// The status and count a provider's read answer gives: more than asked for is a broken provider.
pub open spec fn read_result(answer: Result<usize, Error>, capacity: int) -> (u32, usize) {
    match answer {
        Ok(done) => if done > capacity { (OS_ERROR, 0) } else { (OK, done) },
        Err(e) => (error_status(e), 0),
    }
}

pub fn read_outcome(answer: Result<usize, Error>, capacity: usize) -> (r: (u32, usize))
    ensures
        r == read_result(answer, capacity as int),
{
    match answer {
        Ok(done) => if done > capacity { (OS_ERROR, 0) } else { (OK, done) },
        Err(e) => (e.status(), 0),
    }
}

/// The status and count a provider's write answer gives: no progress reported as
/// success would loop callers forever, and more than offered is a broken provider.
pub open spec fn write_result(answer: Result<usize, Error>, size: int) -> (u32, usize) {
    match answer {
        Ok(done) => if done == 0 || done > size { (OS_ERROR, 0) } else { (OK, done) },
        Err(e) => (error_status(e), 0),
    }
}

pub fn write_outcome(answer: Result<usize, Error>, size: usize) -> (r: (u32, usize))
    ensures
        r == write_result(answer, size as int),
{
    match answer {
        Ok(done) => if done == 0 || done > size { (OS_ERROR, 0) } else { (OK, done) },
        Err(e) => (e.status(), 0),
    }
}

/// Whether `set_size` takes these arguments: a handle and a size inside `i64`.
pub fn set_size_arguments(file: usize, size: u64) -> (r: bool)
    ensures
        r == (file != 0 && size <= i64::MAX),
{
    file != 0 && size <= i64::MAX as u64
}

/// The status and the status record a provider's answer gives: an inconsistent one is a broken provider.
pub open spec fn describe_result(result: Result<Status, Error>) -> (u32, Status) {
    match result {
        Ok(value) => if consistent_status(value) { (OK, value) } else { (OS_ERROR, Status::default_spec()) },
        Err(e) => (error_status(e), Status::default_spec()),
    }
}

impl Status {
    /// The all-zero status.
    pub open spec fn default_spec() -> Status {
        Status { kind: 0, mode: 0, size: 0, modified_ns: 0, accessed_ns: 0, changed_ns: 0, created_ns: 0, identity: 0, device: 0 }
    }

    pub fn zero() -> (s: Status)
        ensures s == Status::default_spec(),
    {
        Status { kind: 0, mode: 0, size: 0, modified_ns: 0, accessed_ns: 0, changed_ns: 0, created_ns: 0, identity: 0, device: 0 }
    }
}

pub fn describe(result: Result<Status, Error>) -> (r: (u32, Status))
    ensures
        r == describe_result(result),
{
    match result {
        Ok(value) => if value.consistent() { (OK, value) } else { (OS_ERROR, Status::zero()) },
        Err(e) => (e.status(), Status::zero()),
    }
}

/// What a directory read does with one provider entry.
#[derive(Clone, Copy, Debug, PartialEq, Eq, Structural)]
pub enum Entry {
    /// One of the two self references, which the consumer synthesizes: read the next entry.
    Skip,
    /// A name the consumer can use.
    Accept,
    /// A broken provider answer.
    Reject,
}

/// Whether `name` is `.` or `..`.
pub open spec fn is_self_reference(name: Seq<u8>) -> bool {
    name =~= seq![46u8] || name =~= seq![46u8, 46u8]
}

/// What a directory read does with an entry of `done` bytes of `name` and node kind `node`.
pub open spec fn entry_verdict(done: int, node: u32, name: Seq<u8>) -> Entry {
    if done == 0 || done > MAX_ENTRY_NAME || done > name.len() {
        Entry::Reject
    } else if is_self_reference(name.subrange(0, done)) {
        Entry::Skip
    } else if NODE_FILE <= node <= NODE_OTHER && crate::io::no_nul(name.subrange(0, done))
        && forall|i: int| 0 <= i < done ==> name[i] != 47u8 {
        Entry::Accept
    } else {
        Entry::Reject
    }
}

/// Judges one entry a provider wrote into the name buffer.
pub fn entry(done: usize, node: u32, name: &Vec<u8>) -> (r: Entry)
    ensures
        r == entry_verdict(done as int, node, name@),
{
    if done == 0 || done > MAX_ENTRY_NAME || done > name.len() {
        return Entry::Reject;
    }
    if (done == 1 && name[0] == 46) || (done == 2 && name[0] == 46 && name[1] == 46) {
        assert(is_self_reference(name@.subrange(0, done as int)));
        return Entry::Skip;
    }
    proof {
        if done == 1 {
            assert(name@.subrange(0, 1)[0] == name@[0]);
        }
        if done == 2 {
            assert(name@.subrange(0, 2)[0] == name@[0]);
            assert(name@.subrange(0, 2)[1] == name@[1]);
        }
        assert(!is_self_reference(name@.subrange(0, done as int)));
    }
    if !(NODE_FILE <= node && node <= NODE_OTHER) {
        return Entry::Reject;
    }
    let mut i: usize = 0;
    while i < done
        invariant
            0 < done <= name@.len(),
            done <= MAX_ENTRY_NAME,
            i <= done,
            forall|k: int| 0 <= k < i ==> name@[k] != 0 && name@[k] != 47u8,
        decreases done - i,
    {
        if name[i] == 0 || name[i] == 47 {
            assert(name@.subrange(0, done as int)[i as int] == name@[i as int]);
            return Entry::Reject;
        }
        i = i + 1;
    }
    assert(crate::io::no_nul(name@.subrange(0, done as int)));
    Entry::Accept
}

/// Where one directory read stands after a provider answer: read the next entry, or
/// done with a status, the name's length and its node kind.
#[derive(Clone, Copy, Debug, PartialEq, Eq, Structural)]
pub enum ReadStep {
    Again,
    Done(u32, usize, u32),
}

/// What a directory read does with one provider answer for a name buffer `name`:
/// a failure, or a broken entry, ends it with the status (`OS_ERROR` for a broken
/// entry) and zero length and kind; a self reference reads on; a usable entry ends it
/// with `OK`, its length and its kind.
pub open spec fn read_step_spec(answer: Result<(usize, u32), Error>, name: Seq<u8>) -> ReadStep {
    match answer {
        Err(e) => ReadStep::Done(error_status(e), 0, 0),
        Ok((done, node)) => match entry_verdict(done as int, node, name) {
            Entry::Skip => ReadStep::Again,
            Entry::Accept => ReadStep::Done(OK, done, node),
            Entry::Reject => ReadStep::Done(OS_ERROR, 0, 0),
        },
    }
}

/// Sets every byte of `name` to zero.
pub fn clear_name(name: &mut Vec<u8>)
    ensures
        final(name)@.len() == old(name)@.len(),
        forall|i: int| 0 <= i < final(name)@.len() ==> final(name)@[i] == 0,
        final(name)@ == zero_bytes(old(name)@.len() as int),
{
    let mut i: usize = 0;
    while i < name.len()
        invariant
            i <= name@.len(),
            name@.len() == old(name)@.len(),
            forall|k: int| 0 <= k < i ==> name@[k] == 0,
        decreases name@.len() - i,
    {
        name.set(i, 0);
        i = i + 1;
    }
    assert(name@ =~= zero_bytes(old(name)@.len() as int));
}

/// `n` zero bytes.
pub open spec fn zero_bytes(n: int) -> Seq<u8> {
    Seq::new(n as nat, |i: int| 0u8)
}

/// One step of a directory read, on the name buffer the provider just wrote: the name
/// stays only for a usable entry; every other outcome leaves the buffer zeroed, so a
/// read that fails leaves no name behind and one that reads on starts from zeros.
pub fn read_step(answer: Result<(usize, u32), Error>, name: &mut Vec<u8>) -> (r: ReadStep)
    ensures
        r == read_step_spec(answer, old(name)@),
        final(name)@.len() == old(name)@.len(),
        match r {
            ReadStep::Done(status, length, kind) => if status == OK {
                &&& final(name)@ == old(name)@
                &&& 1 <= length <= MAX_ENTRY_NAME
                &&& NODE_FILE <= kind <= NODE_OTHER
                &&& forall|i: int| 0 <= i < length ==> final(name)@[i] != 0 && final(name)@[i] != 47u8
                &&& !is_self_reference(final(name)@.subrange(0, length as int))
            } else {
                &&& length == 0 && kind == 0
                &&& forall|i: int| 0 <= i < final(name)@.len() ==> final(name)@[i] == 0
            },
            ReadStep::Again => forall|i: int| 0 <= i < final(name)@.len() ==> final(name)@[i] == 0,
        },
{
    let r: ReadStep = match answer {
        Err(e) => ReadStep::Done(e.status(), 0, 0),
        Ok((done, node)) => match entry(done, node, name) {
            Entry::Skip => ReadStep::Again,
            Entry::Accept => ReadStep::Done(OK, done, node),
            Entry::Reject => ReadStep::Done(OS_ERROR, 0, 0),
        },
    };
    proof {
        if let Ok((done, node)) = answer {
            if entry_verdict(done as int, node, old(name)@) == Entry::Accept {
                assert forall|i: int| 0 <= i < done implies old(name)@[i] != 0 by {
                    assert(old(name)@.subrange(0, done as int)[i] == old(name)@[i]);
                }
            }
        }
    }
    match r {
        ReadStep::Done(status, _, _) => {
            if status != OK {
                clear_name(name);
            }
        }
        ReadStep::Again => clear_name(name),
    }
    r
}

/// One time argument of `set_times`: `TIME_KEEP` leaves the time as it is, a time past
/// `i64::MAX` nanoseconds is refused.
pub open spec fn time_argument(ns: u64) -> Option<Option<u64>> {
    if ns == TIME_KEEP { Some(None) } else if ns > i64::MAX { None } else { Some(Some(ns)) }
}

/// The two time arguments of `set_times`, or `None` when either is refused.
pub fn times(accessed_ns: u64, modified_ns: u64) -> (r: Option<(Option<u64>, Option<u64>)>)
    ensures
        r == (match (time_argument(accessed_ns), time_argument(modified_ns)) {
            (Some(a), Some(m)) => Some((a, m)),
            _ => None,
        }),
{
    let accessed: Option<u64> = if accessed_ns == TIME_KEEP { None } else if accessed_ns > i64::MAX as u64 { return None } else { Some(accessed_ns) };
    let modified: Option<u64> = if modified_ns == TIME_KEEP { None } else if modified_ns > i64::MAX as u64 { return None } else { Some(modified_ns) };
    Some((accessed, modified))
}

/// Whether a whole-file lock request is well formed.
pub fn lock_arguments(file: usize, mode: u32, wait: u32) -> (r: bool)
    ensures
        r == (file != 0 && LOCK_SHARED <= mode <= LOCK_UNLOCK && wait <= 1),
{
    file != 0 && LOCK_SHARED <= mode && mode <= LOCK_UNLOCK && wait <= 1
}

/// Whether a byte-range lock request is well formed: a nonempty range inside `i64`.
pub fn lock_range_arguments(file: usize, offset: u64, length: u64, mode: u32) -> (r: bool)
    ensures
        r == (file != 0 && LOCK_SHARED <= mode <= LOCK_UNLOCK && length != 0 && offset <= i64::MAX && offset + length <= i64::MAX),
{
    file != 0 && LOCK_SHARED <= mode && mode <= LOCK_UNLOCK && length != 0 && offset <= i64::MAX as u64
        && length <= i64::MAX as u64 - offset
}

/// The capability bit of the group, and which of its callbacks a table publishes.
pub fn negotiate(provided: bool) -> (r: (u64, GroupOps))
    ensures
        r.0 == (if provided { CAP } else { 0 }),
        r.1 == crate::group_ops(provided),
{
    (if provided { CAP } else { 0 }, GroupOps { calls: provided, read_stats: true })
}

/// Whether every byte of `bytes` is zero.
pub open spec fn zeroed(bytes: Seq<u8>) -> bool {
    forall|i: int| 0 <= i < bytes.len() ==> bytes[i] == 0
}

/// Whether a finished directory read is what the last provider answer gives for the
/// name buffer it wrote (`capacity` bytes handed over): a buffer of another size is
/// `OS_ERROR`; otherwise the step's status, sanitized, its length and kind, and the
/// entry in the buffer on `OK`, zeros otherwise. A last answer that is still a self
/// reference is the one where the reading stopped: `OS_ERROR`.
pub open spec fn entry_read(answer: Result<(usize, u32), Error>, capacity: usize, written: Seq<u8>, r: u32, length: usize, kind: u32,
    name: Seq<u8>) -> bool {
    if written.len() != capacity {
        r == OS_ERROR && length == 0 && kind == 0 && name == zero_bytes(capacity as int)
    } else {
        match read_step_spec(answer, written) {
            ReadStep::Done(status, l, k) => {
                &&& r == sanitized(status)
                &&& length == l && kind == k
                &&& name.len() == written.len()
                &&& status == OK ==> name == written
                &&& status != OK ==> zeroed(name)
            },
            ReadStep::Again => r == OS_ERROR && length == 0 && kind == 0 && zeroed(name) && name.len() == capacity,
        }
    }
}

/// Whether a directory read may ask its provider: a directory, and a name buffer that
/// holds the longest entry name.
pub open spec fn directory_read_arguments(directory: usize, name: usize, capacity: usize) -> bool {
    directory != 0 && name != 0 && capacity >= MAX_ENTRY_NAME && valid_buffer_spec(name as int, capacity as int)
}

/// The next entry of an open directory, skipping the two self references. Unaligned
/// outputs are rejected unwritten; otherwise length and kind hold 0 unless an entry is
/// read, a bad directory or name buffer is `INVALID_ARGUMENT`, and the name buffer is
/// cleared before each provider answer and holds zeros after anything but `OK`. A
/// provider that changes the buffer's size answers nothing usable (`OS_ERROR`); so does
/// one that lists `u64::MAX` self references in a row, where the reading stops (a loop
/// needs a bound to end by; the original reading has none and would go on).
pub fn directory_read<F: Files>(counters: &mut Counters, directory: usize, name: &mut OutArray<u8>, capacity: usize,
    length: &mut Output<usize>, kind: &mut Output<u32>) -> (r: u32)
    requires
        old(counters).len() == COUNTERS,
        old(name).items@.len() == capacity,
    ensures
        final(name).address == old(name).address,
        final(length).address == old(length).address && final(kind).address == old(kind).address,
        counted(*old(counters), *final(counters), if r == OK { DIRECTORY as int } else { FAILED as int }),
        !(is_aligned_output(old(length).address as int, vstd::layout::align_of::<usize>() as int)
            && is_aligned_output(old(kind).address as int, vstd::layout::align_of::<u32>() as int))
            ==> r == INVALID_ARGUMENT && *final(length) == *old(length) && *final(kind) == *old(kind) && *final(name) == *old(name),
        is_aligned_output(old(length).address as int, vstd::layout::align_of::<usize>() as int)
            && is_aligned_output(old(kind).address as int, vstd::layout::align_of::<u32>() as int)
            && !directory_read_arguments(directory, old(name).address, capacity)
            ==> r == INVALID_ARGUMENT && final(length).value == 0 && final(kind).value == 0 && *final(name) == *old(name),
        is_aligned_output(old(length).address as int, vstd::layout::align_of::<usize>() as int)
            && is_aligned_output(old(kind).address as int, vstd::layout::align_of::<u32>() as int)
            && directory_read_arguments(directory, old(name).address, capacity)
            ==> final(name).items@.len() == capacity
                && (r != OK ==> final(length).value == 0 && final(kind).value == 0 && zeroed(final(name).items@))
                && exists|answer: Result<(usize, u32), Error>, written: Seq<u8>|
                    F::read_directory_answer(directory, capacity, zero_bytes(capacity as int), written, answer)
                    && #[trigger] entry_read(answer, capacity, written, r, final(length).value, final(kind).value, final(name).items@),
{
    broadcast use vstd::layout::align_nonzero;
    if !crate::aligned_output(length.address, core::mem::align_of::<usize>())
        || !crate::aligned_output(kind.address, core::mem::align_of::<u32>()) {
        return record(INVALID_ARGUMENT, DIRECTORY, counters);
    }
    length.value = 0;
    kind.value = 0;
    if directory == 0 || name.address == 0 || capacity < MAX_ENTRY_NAME || !valid_buffer(name.address, capacity) {
        return record(INVALID_ARGUMENT, DIRECTORY, counters);
    }
    let mut polls: u64 = u64::MAX;
    let ghost mut last: (Result<(usize, u32), Error>, Seq<u8>) = (Ok((0usize, 0u32)), Seq::empty());
    loop
        invariant
            name.items@.len() == capacity,
            name.address == old(name).address,
            length.address == old(length).address && kind.address == old(kind).address,
            length.value == 0 && kind.value == 0,
            *counters == *old(counters),
            old(counters).len() == COUNTERS,
            is_aligned_output(length.address as int, vstd::layout::align_of::<usize>() as int),
            is_aligned_output(kind.address as int, vstd::layout::align_of::<u32>() as int),
            directory_read_arguments(directory, name.address, capacity),
            polls < u64::MAX ==> F::read_directory_answer(directory, capacity, zero_bytes(capacity as int), last.1, last.0)
                && last.1.len() == capacity && read_step_spec(last.0, last.1) == ReadStep::Again && zeroed(name.items@),
        decreases polls,
    {
        if polls == 0 {
            clear_name(&mut name.items);
            let r: u32 = record(OS_ERROR, DIRECTORY, counters);
            assert(entry_read(last.0, capacity, last.1, r, length.value, kind.value, name.items@));
            return r;
        }
        polls = polls - 1;
        clear_name(&mut name.items);
        let answer: Result<(usize, u32), Error> = F::read_directory(directory, &mut name.items, capacity);
        if name.items.len() != capacity {
            let ghost written: Seq<u8> = name.items@;
            name.items = crate::io::zeros(capacity);
            let r: u32 = record(OS_ERROR, DIRECTORY, counters);
            assert(name.items@ =~= zero_bytes(capacity as int));
            assert(entry_read(answer, capacity, written, r, length.value, kind.value, name.items@));
            return r;
        }
        let ghost written: Seq<u8> = name.items@;
        match read_step(answer, &mut name.items) {
            ReadStep::Again => {
                proof {
                    last = (answer, written);
                }
            },
            ReadStep::Done(status, l, k) => {
                length.value = l;
                kind.value = k;
                let r: u32 = record(status, DIRECTORY, counters);
                assert(entry_read(answer, capacity, written, r, length.value, kind.value, name.items@));
                return r;
            },
        }
    }
}

/// The current directory, as a NUL-terminated text. A bad buffer or length output is
/// rejected unwritten; otherwise the needed length is 0 unless the text is answered, and
/// the buffer is cleared before the provider writes it and on anything but `OK`. A
/// buffer too short for the text is `BUFFER_TOO_SMALL`, counted as a failure. A provider
/// that changes the buffer's size answers nothing usable (`OS_ERROR`).
pub fn current_directory<F: Files>(counters: &mut Counters, buffer: &mut OutArray<u8>, capacity: usize, needed: &mut Output<usize>) -> (r: u32)
    requires
        old(counters).len() == COUNTERS,
        old(buffer).items@.len() == capacity,
    ensures
        final(buffer).address == old(buffer).address && final(needed).address == old(needed).address,
        counted(*old(counters), *final(counters), if r == OK { DIRECTORY as int } else { FAILED as int }),
        !(is_aligned_output(old(needed).address as int, vstd::layout::align_of::<usize>() as int)
            && valid_buffer_spec(old(buffer).address as int, capacity as int))
            ==> r == INVALID_ARGUMENT && *final(needed) == *old(needed) && *final(buffer) == *old(buffer),
        is_aligned_output(old(needed).address as int, vstd::layout::align_of::<usize>() as int)
            && valid_buffer_spec(old(buffer).address as int, capacity as int)
            ==> final(buffer).items@.len() == capacity
                && (r != OK ==> zeroed(final(buffer).items@))
                && exists|answer: Result<usize, Error>, written: Seq<u8>, status: u32|
                    F::current_directory_answer(capacity, zero_bytes(capacity as int), written, answer)
                    && #[trigger] crate::io::text_call(answer, capacity as int, written, status, final(needed).value, final(buffer).items@)
                    && r == (if status == BUFFER_TOO_SMALL { BUFFER_TOO_SMALL } else { sanitized(status) }),
{
    broadcast use vstd::layout::align_nonzero;
    if !crate::aligned_output(needed.address, core::mem::align_of::<usize>()) || !valid_buffer(buffer.address, capacity) {
        return record(INVALID_ARGUMENT, DIRECTORY, counters);
    }
    needed.value = 0;
    clear_name(&mut buffer.items);
    let answer: Result<usize, Error> = F::current_directory(&mut buffer.items, capacity);
    let ghost written: Seq<u8> = buffer.items@;
    if buffer.items.len() != capacity {
        buffer.items = crate::io::zeros(capacity);
        let r: u32 = record(OS_ERROR, DIRECTORY, counters);
        assert(buffer.items@ =~= zero_bytes(capacity as int));
        assert(crate::io::text_call(answer, capacity as int, written, OS_ERROR, needed.value, buffer.items@));
        return r;
    }
    let (status, length) = crate::io::text_finish(answer, crate::runtime::MAX_NAME + 1, &mut buffer.items);
    needed.value = match length { Some(v) => v, None => 0 };
    assert(crate::io::text_call(answer, capacity as int, written, status, needed.value, buffer.items@));
    if status == BUFFER_TOO_SMALL {
        counters.increment(FAILED);
        return status;
    }
    record(status, DIRECTORY, counters)
}

} // verus!
