//! Providers backed by immutable C host tables.
//!
//! A provider written in C/C++ supplies the tables before runtime startup. Each
//! table is validated once at negotiation: version, declared size, the capability
//! bits the feature requires and every callback behind them. A malformed required
//! table rejects negotiation; nothing falls back to another provider.
use vstd::prelude::*;
use crate::port::{error_status, Error};
use crate::io::MESSAGE_TOO_LARGE;
use crate::services::{CAP_CLOCK, CAP_SCHEDULER};
use crate::{Header, ABI_VERSION, CAP_VM};

verus! {

/// Whether a header-first table is usable: not null, aligned for its type, of this
/// ABI, declaring at least the type's size, and advertising every `required` bit.
pub open spec fn table_accepted(address: int, alignment: int, header: Header, size: int, required: u64) -> bool {
    &&& address != 0
    &&& address % alignment == 0
    &&& header.abi_version == ABI_VERSION
    &&& header.struct_size >= size
    &&& header.capabilities & required == required
}

/// Checks a table's place and header before any field past the header is read.
pub fn table(address: usize, alignment: usize, header: Header, size: usize, required: u64) -> (r: bool)
    requires
        alignment > 0,
    ensures
        r == table_accepted(address as int, alignment as int, header, size as int, required),
{
    if address == 0 || address % alignment != 0 {
        return false;
    }
    header.abi_version == ABI_VERSION && header.struct_size as usize >= size && header.capabilities & required == required
}

/// Whether every callback a feature needs is present.
pub open spec fn all_present(callbacks: Seq<bool>) -> bool {
    forall|i: int| 0 <= i < callbacks.len() ==> #[trigger] callbacks[i]
}

pub fn present(callbacks: &[bool]) -> (r: bool)
    ensures
        r == all_present(callbacks@),
{
    let mut i: usize = 0;
    while i < callbacks.len()
        invariant
            i <= callbacks@.len(),
            forall|j: int| 0 <= j < i ==> #[trigger] callbacks@[j],
        decreases callbacks@.len() - i,
    {
        if !callbacks[i] {
            return false;
        }
        i = i + 1;
    }
    true
}

/// Validates one feature's table: an accepted header and every required callback.
pub fn validate_table(address: usize, alignment: usize, header: Header, size: usize, required: u64, callbacks: &[bool]) -> (r: bool)
    requires
        alignment > 0,
    ensures
        r == (table_accepted(address as int, alignment as int, header, size as int, required) && all_present(callbacks@)),
{
    table(address, alignment, header, size, required) && present(callbacks)
}

/// One validated table, cached at negotiation. Signal-time callers read the cache and
/// never rediscover a foreign provider.
#[derive(Clone, Copy, Debug)]
pub struct Cached {
    pub table: Option<usize>,
}

impl Cached {
    pub fn new() -> (c: Cached)
        ensures c.table is None,
    {
        Cached { table: None }
    }

    pub fn get(&self) -> (r: Option<usize>)
        ensures r == self.table,
    {
        self.table
    }

    pub fn set(&mut self, table: usize)
        ensures final(self).table == Some(table),
    {
        self.table = Some(table);
    }
}

/// One feature's validation at negotiation: whether the build enables the feature,
/// and whether its table passed.
#[derive(Clone, Copy, Debug)]
pub struct Check {
    pub enabled: bool,
    pub valid: bool,
}

/// Whether every enabled feature's table is valid.
pub open spec fn all_valid(checks: Seq<Check>) -> bool {
    forall|i: int| 0 <= i < checks.len() ==> (#[trigger] checks[i]).enabled ==> checks[i].valid
}

/// Validates every table the enabled features require, in order: the first invalid
/// one rejects negotiation.
pub fn validate(checks: &[Check]) -> (r: bool)
    ensures
        r == all_valid(checks@),
{
    let mut i: usize = 0;
    while i < checks.len()
        invariant
            i <= checks@.len(),
            forall|j: int| 0 <= j < i ==> (#[trigger] checks@[j]).enabled ==> checks@[j].valid,
        decreases checks@.len() - i,
    {
        let c: Check = checks[i];
        if c.enabled && !c.valid {
            return false;
        }
        i = i + 1;
    }
    true
}

/// The index of the first enabled feature whose table is invalid, or the number of
/// features: the features validated before it are the ones whose tables were cached.
pub fn first_rejected(checks: &[Check]) -> (r: usize)
    ensures
        r <= checks@.len(),
        forall|j: int| 0 <= j < r ==> (#[trigger] checks@[j]).enabled ==> checks@[j].valid,
        r < checks@.len() ==> checks@[r as int].enabled && !checks@[r as int].valid,
{
    let mut i: usize = 0;
    while i < checks.len()
        invariant
            i <= checks@.len(),
            forall|j: int| 0 <= j < i ==> (#[trigger] checks@[j]).enabled ==> checks@[j].valid,
        decreases checks@.len() - i,
    {
        let c: Check = checks[i];
        if c.enabled && !c.valid {
            return i;
        }
        i = i + 1;
    }
    i
}

/// The services table a host supplies, by whether each callback is present.
#[derive(Clone, Copy, Debug)]
pub struct Table {
    pub header: Header,
    pub clock: bool,
    pub sleep: bool,
    pub yield_now: bool,
}

/// Validates the services table at `address`: clock and scheduler, with all three callbacks.
pub fn validate_services(address: usize, alignment: usize, size: usize, t: &Table) -> (r: bool)
    requires
        alignment > 0,
    ensures
        r == (table_accepted(address as int, alignment as int, t.header, size as int, CAP_CLOCK | CAP_SCHEDULER)
            && t.clock && t.sleep && t.yield_now),
{
    table(address, alignment, t.header, size, CAP_CLOCK | CAP_SCHEDULER) && t.clock && t.sleep && t.yield_now
}

/// The virtual-memory callbacks of the host's main table.
#[derive(Clone, Copy, Debug)]
pub struct VmCallbacks {
    pub page_size: bool,
    pub reserve: bool,
    pub commit: bool,
    pub decommit: bool,
    pub release: bool,
    pub reset: bool,
}

/// Validates the host's main table for virtual memory: the `CAP_VM` bit and all six callbacks.
pub fn validate_vm(address: usize, alignment: usize, header: Header, size: usize, vm: VmCallbacks) -> (r: bool)
    requires
        alignment > 0,
    ensures
        r == (table_accepted(address as int, alignment as int, header, size as int, CAP_VM)
            && vm.page_size && vm.reserve && vm.commit && vm.decommit && vm.release && vm.reset),
{
    table(address, alignment, header, size, CAP_VM) && vm.page_size && vm.reserve && vm.commit && vm.decommit && vm.release && vm.reset
}

/// The length a text callback answers: its `needed` count on success and on
/// `BUFFER_TOO_SMALL`, its error otherwise.
pub fn text_result(status: Result<(), Error>, needed: usize) -> (r: Result<usize, Error>)
    ensures
        r == (match status {
            Ok(()) => Ok(needed),
            Err(Error::BufferTooSmall) => Ok(needed),
            Err(e) => Err::<usize, Error>(e),
        }),
{
    match status {
        Ok(()) => Ok(needed),
        Err(Error::BufferTooSmall) => Ok(needed),
        Err(e) => Err(e),
    }
}

/// The count a list callback answers: a host that calls a list too small for a
/// buffer it fits in has written nothing the caller could use.
pub fn listed(status: Result<(), Error>, count: usize, capacity: usize) -> (r: Result<usize, Error>)
    ensures
        r == (match status {
            Ok(()) => Ok(count),
            Err(Error::BufferTooSmall) => if count > capacity { Ok(count) } else { Err(Error::Os) },
            Err(e) => Err::<usize, Error>(e),
        }),
{
    match status {
        Ok(()) => Ok(count),
        Err(Error::BufferTooSmall) => if count > capacity { Ok(count) } else { Err(Error::Os) },
        Err(e) => Err(e),
    }
}

/// The address an optional argument passes: null when there is none.
pub fn optional(address: Option<usize>) -> (r: usize)
    ensures
        r == (match address { Some(a) => a, None => 0usize }),
{
    match address {
        Some(a) => a,
        None => 0,
    }
}

/// What a host's reservation call answers: its status decides, and the address it
/// wrote counts only on success.
pub fn reserved(status: u32, address: usize) -> (r: Result<usize, Error>)
    ensures
        status == crate::OK ==> r == Ok::<usize, Error>(address),
        status != crate::OK && status <= MESSAGE_TOO_LARGE ==> (r matches Err(e) && error_status(e) == status),
        status > MESSAGE_TOO_LARGE ==> r == Err::<usize, Error>(Error::Os),
{
    match crate::port::from_status(status) {
        Ok(()) => Ok(address),
        Err(e) => Err(e),
    }
}

} // verus!
