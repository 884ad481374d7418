//! Clock and scheduler services (`CAP_CLOCK`, `CAP_SCHEDULER`).
use vstd::prelude::*;
use crate::port::{error_status, Clock, Error};
use crate::OK;

verus! {

pub const CAP_CLOCK: u64 = 4;
pub const CAP_SCHEDULER: u64 = 8;

/// Which of the group's callbacks a table publishes.
#[derive(Clone, Copy, Debug, PartialEq, Eq, Structural)]
pub struct Ops {
    pub monotonic_ns: bool,
    pub sleep_ns: bool,
}

/// The capability bits of a port with these providers, and the callbacks it publishes:
/// the clock's exactly when there is a clock, the scheduler's exactly when there is a scheduler.
pub fn negotiate(clock: bool, scheduler: bool) -> (r: (u64, Ops))
    ensures
        r.0 == ((if clock { CAP_CLOCK } else { 0u64 }) | (if scheduler { CAP_SCHEDULER } else { 0u64 })),
        r.1 == (Ops { monotonic_ns: clock, sleep_ns: scheduler }),
{
    let c: u64 = if clock { CAP_CLOCK } else { 0 };
    let s: u64 = if scheduler { CAP_SCHEDULER } else { 0 };
    (c | s, Ops { monotonic_ns: clock, sleep_ns: scheduler })
}

/// The status and the reading a clock answer gives; the output stays zero on failure.
pub open spec fn clock_result(answer: Result<u64, Error>) -> (u32, u64) {
    match answer {
        Ok(v) => (OK, v),
        Err(e) => (error_status(e), 0u64),
    }
}

pub fn clock_outcome(answer: Result<u64, Error>) -> (r: (u32, u64))
    ensures
        r == clock_result(answer),
{
    match answer {
        Ok(v) => (OK, v),
        Err(e) => (e.status(), 0),
    }
}

/// The clock callback: the reading goes to `out` on success, zero otherwise.
pub fn monotonic_ns<C: Clock>(out: &mut u64) -> (r: u32)
    ensures
        exists|answer: Result<u64, Error>| C::monotonic_ns_answer(answer) && (r, *final(out)) == #[trigger] clock_result(answer),
{
    let answer: Result<u64, Error> = C::monotonic_ns();
    let (status, value) = clock_outcome(answer);
    *out = value;
    status
}

} // verus!
