//! Users and groups of the target (`CAP_ACCOUNTS`): one account by its numeric id
//! or by its name, the supplementary groups of this process and the groups of an account.
use vstd::prelude::*;
use crate::counter::{saturated_next, Counters};
use crate::io::{no_nul, valid_text};
use crate::port::{error_status, Accounts, Error};
use crate::runtime::{BUFFER_TOO_SMALL, NOT_FOUND};
use crate::{is_aligned_output, OutArray, Output, INVALID_ARGUMENT, OK, OS_ERROR, OUT_OF_MEMORY, UNSUPPORTED};

use crate::GroupOps;

verus! {

pub const CAP: u64 = 549755813888;
/// Longest account name a lookup takes.
pub const MAX_ACCOUNT_NAME: usize = 255;
/// Most groups one answer holds.
pub const MAX_GROUPS: usize = 65536;

/// One account: its ids and three NUL-terminated texts, each ending inside its field.
#[derive(Clone, Copy, Debug)]
pub struct Account {
    pub user_id: u32,
    pub group_id: u32,
    pub name: [u8; 256],
    pub home: [u8; 1024],
    pub shell: [u8; 256],
}

/// The index of the first NUL of `s`, or its length when it has none.
pub open spec fn first_nul(s: Seq<u8>) -> int
    decreases s.len(),
{
    if s.len() == 0 {
        0
    } else if s[0] == 0 {
        0
    } else {
        1 + first_nul(s.drop_first())
    }
}

/// `s` cut at its first NUL.
pub open spec fn cut(s: Seq<u8>) -> Seq<u8> {
    s.take(first_nul(s))
}

/// A field of `n` bytes holding `text` and zeros after it.
pub open spec fn stored(text: Seq<u8>, n: int) -> Seq<u8> {
    Seq::new(n as nat, |i: int| if i < text.len() { text[i] } else { 0u8 })
}

/// `first_nul` is a position of `s`, before which there is no NUL, and at which (if inside `s`) there is one.
pub proof fn lemma_first_nul(s: Seq<u8>)
    ensures
        0 <= first_nul(s) <= s.len(),
        forall|i: int| 0 <= i < first_nul(s) ==> s[i] != 0,
        first_nul(s) < s.len() ==> s[first_nul(s)] == 0,
    decreases s.len(),
{
    if s.len() > 0 && s[0] != 0 {
        lemma_first_nul(s.drop_first());
        assert forall|i: int| 0 <= i < first_nul(s) implies s[i] != 0 by {
            if i > 0 {
                assert(s[i] == s.drop_first()[i - 1]);
            }
        }
    }
}

/// The index of the first NUL of `text`, or its length.
pub fn find_nul(text: &[u8]) -> (r: usize)
    ensures
        r == first_nul(text@),
{
    proof { lemma_first_nul(text@); }
    let mut i: usize = 0;
    while i < text.len()
        invariant
            i <= text@.len(),
            forall|k: int| 0 <= k < i ==> text@[k] != 0,
            0 <= first_nul(text@) <= text@.len(),
            forall|k: int| 0 <= k < first_nul(text@) ==> text@[k] != 0,
            first_nul(text@) < text@.len() ==> text@[first_nul(text@)] == 0,
        decreases text@.len() - i,
    {
        if text[i] == 0 {
            return i;
        }
        i = i + 1;
    }
    i
}

/// `text` cut at its first NUL and stored in an `N`-byte field with a terminator; `None` when it does not fit.
pub fn store<const N: usize>(text: &[u8]) -> (r: Option<[u8; N]>)
    ensures
        r is Some <==> first_nul(text@) < N,
        r matches Some(field) ==> field@ == stored(cut(text@), N as int),
{
    let end: usize = find_nul(text);
    proof { lemma_first_nul(text@); }
    if end >= N {
        return None;
    }
    let mut field: [u8; N] = [0u8; N];
    assert(forall|i: int| 0 <= i < N ==> field@[i] == 0);
    let mut i: usize = 0;
    while i < end
        invariant
            end == first_nul(text@),
            end < N,
            end <= text@.len(),
            i <= end,
            field@.len() == N,
            forall|k: int| 0 <= k < N ==> field@[k] == (if k < i { text@[k] } else { 0u8 }),
        decreases end - i,
    {
        field[i] = text[i];
        i = i + 1;
    }
    assert(field@ =~= stored(cut(text@), N as int));
    Some(field)
}

/// Whether `a` is the account with zero ids and empty texts.
pub open spec fn is_empty_account(a: Account) -> bool {
    &&& a.user_id == 0 && a.group_id == 0
    &&& a.name@ == stored(Seq::empty(), 256)
    &&& a.home@ == stored(Seq::empty(), 1024)
    &&& a.shell@ == stored(Seq::empty(), 256)
}

impl Account {
    /// The account with zero ids and empty texts.
    pub fn empty() -> (a: Account)
        ensures
            a.user_id == 0 && a.group_id == 0,
            a.name@ == stored(Seq::empty(), 256),
            a.home@ == stored(Seq::empty(), 1024),
            a.shell@ == stored(Seq::empty(), 256),
    {
        let a = Account { user_id: 0, group_id: 0, name: [0u8; 256], home: [0u8; 1024], shell: [0u8; 256] };
        assert(a.name@ =~= stored(Seq::empty(), 256));
        assert(a.home@ =~= stored(Seq::empty(), 1024));
        assert(a.shell@ =~= stored(Seq::empty(), 256));
        a
    }

    /// An account whose texts are cut at their first NUL; `None` when one does not fit
    /// its field with a terminator.
    pub fn new(user_id: u32, group_id: u32, name: &[u8], home: &[u8], shell: &[u8]) -> (r: Option<Account>)
        ensures
            r is Some <==> (first_nul(name@) < 256 && first_nul(home@) < 1024 && first_nul(shell@) < 256),
            r matches Some(a) ==> a.user_id == user_id && a.group_id == group_id
                && a.name@ == stored(cut(name@), 256) && a.home@ == stored(cut(home@), 1024) && a.shell@ == stored(cut(shell@), 256),
    {
        let name: [u8; 256] = match store::<256>(name) { Some(f) => f, None => return None };
        let home: [u8; 1024] = match store::<1024>(home) { Some(f) => f, None => return None };
        let shell: [u8; 256] = match store::<256>(shell) { Some(f) => f, None => return None };
        Some(Account { user_id, group_id, name, home, shell })
    }
}

/// Successful lookups and group lists, and the rejected or failed calls.
#[derive(Clone, Copy, Debug, Default, PartialEq, Eq, Structural)]
pub struct Stats {
    pub user_ok: u64,
    pub groups_ok: u64,
    pub rejected_or_failed: u64,
}

pub const FAILED: usize = 2;

/// The statuses this group reports; `BUFFER_TOO_SMALL` only from a group list.
pub open spec fn sanitized(status: u32, index: int) -> u32 {
    if status == OK || status == UNSUPPORTED || status == INVALID_ARGUMENT || status == OS_ERROR || status == OUT_OF_MEMORY || status == NOT_FOUND {
        status
    } else if status == BUFFER_TOO_SMALL && index == 1 {
        status
    } else {
        OS_ERROR
    }
}

/// Sanitizes a status and counts the call: counter `index` on success, `FAILED` otherwise.
pub fn record(status: u32, index: usize, counters: &mut Counters) -> (r: u32)
    requires
        index < FAILED,
        old(counters).len() == 3,
    ensures
        r == sanitized(status, index as int),
        crate::files::counted(*old(counters), *final(counters), if r == OK { index as int } else { FAILED as int }),
{
    let status: u32 = if status == OK || status == UNSUPPORTED || status == INVALID_ARGUMENT || status == OS_ERROR
        || status == OUT_OF_MEMORY || status == NOT_FOUND {
        status
    } else if status == BUFFER_TOO_SMALL && index == 1 {
        status
    } else {
        OS_ERROR
    };
    counters.increment(if status == OK { index } else { FAILED });
    status
}

/// Checks an account name argument: 1..=255 bytes without NUL.
pub fn name(address: usize, bytes: &[u8]) -> (r: bool)
    ensures
        r == valid_text(address as int, bytes@, MAX_ACCOUNT_NAME as int),
{
    crate::io::text_argument(address, bytes, MAX_ACCOUNT_NAME)
}

/// Whether a provider's account is one a consumer can use: a name, every text ending
/// inside its field, and the id it was asked by.
pub open spec fn usable_account(a: Account, asked: Option<u32>) -> bool {
    &&& a.name@[0] != 0
    &&& a.name@[255] == 0
    &&& a.home@[1023] == 0
    &&& a.shell@[255] == 0
    &&& (asked matches Some(id) ==> id == a.user_id)
}

/// `field` with everything after its first NUL cleared.
pub fn terminate<const N: usize>(field: &mut [u8; N])
    ensures
        final(field)@ == stored(cut(old(field)@), N as int),
{
    let end: usize = find_nul(field.as_slice());
    proof { lemma_first_nul(field@); }
    let mut i: usize = end;
    while i < N
        invariant
            end == first_nul(old(field)@),
            end <= i <= N,
            field@.len() == N,
            forall|k: int| 0 <= k < N ==> field@[k] == (if end <= k < i { 0u8 } else { old(field)@[k] }),
        decreases N - i,
    {
        field[i] = 0;
        i = i + 1;
    }
    assert(field@ =~= stored(cut(old(field)@), N as int));
}

/// Whether `r` is the status and account a provider's account answer gives: the
/// account with its texts cut at their first NUL when it is usable, else the empty
/// account with `OS_ERROR` or the provider's error.
pub open spec fn user_answered(answer: Result<Account, Error>, asked: Option<u32>, r: (u32, Account)) -> bool {
    match answer {
        Ok(a) => if usable_account(a, asked) {
            r.0 == OK && r.1.user_id == a.user_id && r.1.group_id == a.group_id
                && r.1.name@ == stored(cut(a.name@), 256) && r.1.home@ == stored(cut(a.home@), 1024)
                && r.1.shell@ == stored(cut(a.shell@), 256)
        } else {
            r.0 == OS_ERROR && is_empty_account(r.1)
        },
        Err(e) => r.0 == error_status(e) && is_empty_account(r.1),
    }
}

/// Checks a provider's account answer: the status and the account to write (the empty
/// account unless `OK`). What a provider left behind a terminator is not part of the text.
pub fn user_outcome(answer: Result<Account, Error>, asked: Option<u32>) -> (r: (u32, Account))
    ensures
        user_answered(answer, asked, r),
{
    match answer {
        Ok(a) => {
            let mismatch: bool = match asked { Some(id) => id != a.user_id, None => false };
            if a.name[0] == 0 || a.name[255] != 0 || a.home[1023] != 0 || a.shell[255] != 0 || mismatch {
                return (OS_ERROR, Account::empty());
            }
            let mut account: Account = a;
            terminate::<256>(&mut account.name);
            terminate::<1024>(&mut account.home);
            terminate::<256>(&mut account.shell);
            (OK, account)
        }
        Err(e) => (e.status(), Account::empty()),
    }
}

/// Whether the group-list call's outputs are usable: an aligned count, and at most
/// `MAX_GROUPS` ids in an aligned array.
pub fn groups_arguments(out: usize, capacity: usize, count: usize) -> (r: bool)
    ensures
        r == (is_aligned_output(count as int, vstd::layout::align_of::<usize>() as int) && capacity <= MAX_GROUPS
            && (capacity == 0 || is_aligned_output(out as int, vstd::layout::align_of::<u32>() as int))),
{
    broadcast use vstd::layout::align_nonzero;
    crate::aligned_output(count, core::mem::align_of::<usize>()) && capacity <= MAX_GROUPS
        && (capacity == 0 || crate::aligned_output(out, core::mem::align_of::<u32>()))
}

/// The status and the count a provider's group list gives: more than `MAX_GROUPS` is a
/// broken provider; more than fit is `BUFFER_TOO_SMALL` with the count needed.
pub open spec fn groups_result(answer: Result<usize, Error>, capacity: int) -> (u32, usize) {
    match answer {
        Ok(found) => if found > MAX_GROUPS { (OS_ERROR, 0) } else if found > capacity { (BUFFER_TOO_SMALL, found) } else { (OK, found) },
        Err(e) => (error_status(e), 0),
    }
}

pub fn groups_outcome(answer: Result<usize, Error>, capacity: usize) -> (r: (u32, usize))
    ensures
        r == groups_result(answer, capacity as int),
{
    match answer {
        Ok(found) => if found > MAX_GROUPS { (OS_ERROR, 0) } else if found > capacity { (BUFFER_TOO_SMALL, found) } else { (OK, found) },
        Err(e) => (e.status(), 0),
    }
}

/// Finishes a group-list call on the list the provider wrote: the status and count of
/// `groups_outcome`, and on anything but `OK` no partial list left behind (every id zero).
pub fn groups_finish(answer: Result<usize, Error>, capacity: usize, list: &mut Vec<u32>) -> (r: (u32, usize))
    ensures
        r == groups_result(answer, capacity as int),
        final(list)@.len() == old(list)@.len(),
        r.0 == OK ==> final(list)@ == old(list)@,
        r.0 != OK ==> forall|i: int| 0 <= i < final(list)@.len() ==> final(list)@[i] == 0,
{
    let r: (u32, usize) = groups_outcome(answer, capacity);
    if r.0 != OK {
        crate::machine::clear(list);
    }
    r
}

/// The capability bit of the group, and which of its callbacks a table publishes.
pub fn negotiate(provided: bool) -> (r: (u64, GroupOps))
    ensures
        r.0 == (if provided { CAP } else { 0 }),
        r.1 == crate::group_ops(provided),
{
    (if provided { CAP } else { 0 }, GroupOps { calls: provided, read_stats: true })
}

/// Whether an account output can be written: aligned, and at least an account large.
pub open spec fn account_output(out: Output<Account>, out_size: int) -> bool {
    is_aligned_output(out.address as int, vstd::layout::align_of::<Account>() as int)
        && out_size >= vstd::layout::size_of::<Account>()
}

/// Checks an account output.
pub fn account_output_ok(out: &Output<Account>, out_size: usize) -> (r: bool)
    ensures
        r == account_output(*out, out_size as int),
{
    crate::aligned_output(out.address, core::mem::align_of::<Account>()) && out_size >= core::mem::size_of::<Account>()
}

/// One account by its numeric id. An unusable output is rejected unwritten; otherwise it
/// holds the empty account unless the lookup succeeds, and then the account checked by
/// `user_outcome` against the id asked for.
pub fn user_by_id<A: Accounts>(counters: &mut Counters, user_id: u32, out: &mut Output<Account>, out_size: usize) -> (r: u32)
    requires
        old(counters).len() == 3,
    ensures
        final(out).address == old(out).address,
        crate::files::counted(*old(counters), *final(counters), if r == OK { 0 } else { FAILED as int }),
        !account_output(*old(out), out_size as int) ==> r == INVALID_ARGUMENT && final(out).value == old(out).value,
        account_output(*old(out), out_size as int) ==> exists|answer: Result<Account, Error>, status: u32|
            A::user_by_id_answer(user_id, answer) && #[trigger] user_answered(answer, Some(user_id), (status, final(out).value)) && r == sanitized(status, 0),
{
    if !account_output_ok(out, out_size) {
        return record(INVALID_ARGUMENT, 0, counters);
    }
    let answer: Result<Account, Error> = A::user_by_id(user_id);
    let (status, account) = user_outcome(answer, Some(user_id));
    out.value = account;
    let r: u32 = record(status, 0, counters);
    assert(user_answered(answer, Some(user_id), (status, out.value)));
    r
}

/// One account by its name: the output rules of `user_by_id`, and a name `name` refuses
/// is `INVALID_ARGUMENT` with the empty account written.
pub fn user_by_name<A: Accounts>(counters: &mut Counters, address: usize, text: &[u8], out: &mut Output<Account>, out_size: usize) -> (r: u32)
    requires
        old(counters).len() == 3,
    ensures
        final(out).address == old(out).address,
        crate::files::counted(*old(counters), *final(counters), if r == OK { 0 } else { FAILED as int }),
        !account_output(*old(out), out_size as int) ==> r == INVALID_ARGUMENT && final(out).value == old(out).value,
        account_output(*old(out), out_size as int) && !valid_text(address as int, text@, MAX_ACCOUNT_NAME as int)
            ==> r == INVALID_ARGUMENT && is_empty_account(final(out).value),
        account_output(*old(out), out_size as int) && valid_text(address as int, text@, MAX_ACCOUNT_NAME as int)
            ==> exists|answer: Result<Account, Error>, status: u32| A::user_by_name_answer(text@, answer)
                && #[trigger] user_answered(answer, None, (status, final(out).value)) && r == sanitized(status, 0),
{
    if !account_output_ok(out, out_size) {
        return record(INVALID_ARGUMENT, 0, counters);
    }
    out.value = Account::empty();
    if !name(address, text) {
        return record(INVALID_ARGUMENT, 0, counters);
    }
    let answer: Result<Account, Error> = A::user_by_name(text);
    let (status, account) = user_outcome(answer, None);
    out.value = account;
    let r: u32 = record(status, 0, counters);
    assert(user_answered(answer, None, (status, out.value)));
    r
}

/// Whether a group list's outputs are usable.
pub open spec fn groups_outputs(out: int, capacity: int, count: int) -> bool {
    is_aligned_output(count, vstd::layout::align_of::<usize>() as int) && capacity <= MAX_GROUPS
        && (capacity == 0 || is_aligned_output(out, vstd::layout::align_of::<u32>() as int))
}

/// Whether a finished group list is what a provider answer gives: the status and
/// count of `groups_result`, the list the provider wrote on `OK`, zeros otherwise.
pub open spec fn groups_answered(answer: Result<usize, Error>, capacity: int, written: Seq<u32>, status: u32, count: usize, list: Seq<u32>) -> bool {
    &&& (status, count) == groups_result(answer, capacity)
    &&& list.len() == written.len()
    &&& status == OK ==> list == written
    &&& status != OK ==> forall|i: int| 0 <= i < list.len() ==> list[i] == 0
}

/// The supplementary groups of this process. An unaligned count is rejected unwritten;
/// otherwise the count is 0 unless the list is answered, unusable list outputs are
/// `INVALID_ARGUMENT`, and a list that did not fit or a failed call leaves no partial list.
pub fn process_groups<A: Accounts>(counters: &mut Counters, list: &mut OutArray<u32>, capacity: usize, count: &mut Output<usize>) -> (r: u32)
    requires
        old(counters).len() == 3,
        old(list).items@.len() == capacity,
    ensures
        final(list).address == old(list).address && final(count).address == old(count).address,
        crate::files::counted(*old(counters), *final(counters), if r == OK { 1 } else { FAILED as int }),
        !is_aligned_output(old(count).address as int, vstd::layout::align_of::<usize>() as int)
            ==> r == INVALID_ARGUMENT && *final(count) == *old(count) && *final(list) == *old(list),
        is_aligned_output(old(count).address as int, vstd::layout::align_of::<usize>() as int)
            && !groups_outputs(old(list).address as int, capacity as int, old(count).address as int)
            ==> r == INVALID_ARGUMENT && final(count).value == 0 && *final(list) == *old(list),
        groups_outputs(old(list).address as int, capacity as int, old(count).address as int)
            ==> exists|answer: Result<usize, Error>, written: Seq<u32>, status: u32|
                A::process_groups_answer(capacity, old(list).items@, written, answer)
                && #[trigger] groups_answered(answer, capacity as int, written, status, final(count).value, final(list).items@)
                && r == sanitized(status, 1),
{
    broadcast use vstd::layout::align_nonzero;
    if !crate::aligned_output(count.address, core::mem::align_of::<usize>()) {
        return record(INVALID_ARGUMENT, 1, counters);
    }
    count.value = 0;
    if !groups_arguments(list.address, capacity, count.address) {
        return record(INVALID_ARGUMENT, 1, counters);
    }
    let answer: Result<usize, Error> = A::process_groups(&mut list.items, capacity);
    let ghost written: Seq<u32> = list.items@;
    let (status, found) = groups_finish(answer, capacity, &mut list.items);
    count.value = found;
    let r: u32 = record(status, 1, counters);
    assert(groups_answered(answer, capacity as int, written, status, count.value, list.items@));
    r
}

/// The groups of an account, with its primary group: the output rules of
/// `process_groups`, and a name `name` refuses is `INVALID_ARGUMENT` with the count 0.
pub fn user_groups<A: Accounts>(counters: &mut Counters, address: usize, text: &[u8], primary_group: u32,
    list: &mut OutArray<u32>, capacity: usize, count: &mut Output<usize>) -> (r: u32)
    requires
        old(counters).len() == 3,
        old(list).items@.len() == capacity,
    ensures
        final(list).address == old(list).address && final(count).address == old(count).address,
        crate::files::counted(*old(counters), *final(counters), if r == OK { 1 } else { FAILED as int }),
        !is_aligned_output(old(count).address as int, vstd::layout::align_of::<usize>() as int)
            ==> r == INVALID_ARGUMENT && *final(count) == *old(count) && *final(list) == *old(list),
        is_aligned_output(old(count).address as int, vstd::layout::align_of::<usize>() as int)
            && !(valid_text(address as int, text@, MAX_ACCOUNT_NAME as int)
                && groups_outputs(old(list).address as int, capacity as int, old(count).address as int))
            ==> r == INVALID_ARGUMENT && final(count).value == 0 && *final(list) == *old(list),
        valid_text(address as int, text@, MAX_ACCOUNT_NAME as int)
            && groups_outputs(old(list).address as int, capacity as int, old(count).address as int)
            ==> exists|answer: Result<usize, Error>, written: Seq<u32>, status: u32|
                A::user_groups_answer(text@, primary_group, capacity, old(list).items@, written, answer)
                && #[trigger] groups_answered(answer, capacity as int, written, status, final(count).value, final(list).items@)
                && r == sanitized(status, 1),
{
    broadcast use vstd::layout::align_nonzero;
    if !crate::aligned_output(count.address, core::mem::align_of::<usize>()) {
        return record(INVALID_ARGUMENT, 1, counters);
    }
    count.value = 0;
    if !name(address, text) || !groups_arguments(list.address, capacity, count.address) {
        return record(INVALID_ARGUMENT, 1, counters);
    }
    let answer: Result<usize, Error> = A::user_groups(text, primary_group, &mut list.items, capacity);
    let ghost written: Seq<u32> = list.items@;
    let (status, found) = groups_finish(answer, capacity, &mut list.items);
    count.value = found;
    let r: u32 = record(status, 1, counters);
    assert(groups_answered(answer, capacity as int, written, status, count.value, list.items@));
    r
}

} // verus!
