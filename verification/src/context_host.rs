//! The context group backed by a C host table, validated once and cached.
use vstd::prelude::*;
use crate::context::{Prepared, CAP};
use crate::host::table_accepted;
use crate::Header;

verus! {

/// The callbacks a host context table supplies, by whether each is present.
#[derive(Clone, Copy, Debug)]
pub struct Callbacks {
    pub abi_tag: bool,
    pub action_size: bool,
    pub action_alignment: bool,
    pub install: bool,
    pub restore: bool,
    pub unblock_activation: bool,
    pub request_activation: bool,
    pub current_thread: bool,
    pub process_id_async: bool,
    pub ignore_broken_pipe: bool,
    pub signal_number: bool,
}

pub open spec fn complete(c: Callbacks) -> bool {
    c.abi_tag && c.action_size && c.action_alignment && c.install && c.restore && c.unblock_activation
        && c.request_activation && c.current_thread && c.process_id_async && c.ignore_broken_pipe && c.signal_number
}

/// The table at `address`, if the host's table is usable: a header-first table of
/// this ABI, large enough, advertising the context capability, with every callback.
pub fn validate(address: usize, alignment: usize, header: Header, size: usize, callbacks: Callbacks) -> (r: Option<usize>)
    requires
        alignment > 0,
    ensures
        r == (if table_accepted(address as int, alignment as int, header, size as int, CAP) && complete(callbacks) {
            Some(address)
        } else {
            None::<usize>
        }),
{
    if !crate::host::table(address, alignment, header, size, CAP) {
        return None;
    }
    if !(callbacks.abi_tag && callbacks.action_size && callbacks.action_alignment && callbacks.install && callbacks.restore
        && callbacks.unblock_activation && callbacks.request_activation && callbacks.current_thread
        && callbacks.process_id_async && callbacks.ignore_broken_pipe && callbacks.signal_number) {
        return None;
    }
    Some(address)
}

/// The cached table and the answer after one preparation that validated `validated`.
pub open spec fn prepare_step(cached: Option<usize>, validated: Option<usize>) -> (Option<usize>, bool) {
    if cached is Some { (cached, true) } else { (validated, validated is Some) }
}

/// Prepares the group: a table cached before stays; otherwise the validated table
/// is cached. Whether the group now has its table.
pub fn prepare(cache: &mut Prepared, validated: Option<usize>) -> (r: bool)
    ensures
        old(cache).table is Some ==> *final(cache) == *old(cache) && r,
        old(cache).table is None ==> final(cache).table == validated && r == validated is Some,
        (final(cache).table, r) == prepare_step(old(cache).table, validated),
{
    cache.prepare(validated)
}

/// A preparation succeeds exactly when a table was cached before or the host's table
/// validates; once one succeeded, every later preparation succeeds and keeps the same
/// table, whatever the host's table then looks like.
pub proof fn lemma_prepared_once(cached: Option<usize>, address: usize, alignment: usize, header: Header, size: usize,
    callbacks: Callbacks, later: Option<usize>)
    ensures
        ({
            let validated = if table_accepted(address as int, alignment as int, header, size as int, CAP) && complete(callbacks) {
                Some(address)
            } else {
                None::<usize>
            };
            let (table, ok) = prepare_step(cached, validated);
            let (again, ok2) = prepare_step(table, later);
            &&& ok == (cached is Some || (table_accepted(address as int, alignment as int, header, size as int, CAP) && complete(callbacks)))
            &&& ok ==> ok2 && again == table
        }),
{
}

} // verus!
