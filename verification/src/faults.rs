//! Synchronous CPU faults without POSIX signals (`CAP_FAULTS`).
//!
//! The port owns its trap path and reports each fault with the interrupted
//! registers in a layout the boundary defines per architecture. The consumer's
//! handler may edit the frame and ask the port to resume from it. A fault taken
//! while a handler runs on the same thread is the port's to end the run with.
use vstd::prelude::*;
use crate::counter::Counters;
use crate::files::counted;
use crate::kernel::BUSY;
use crate::port::{error_status, Error};
use crate::{INVALID_ARGUMENT, OK, OS_ERROR, UNSUPPORTED};

verus! {

pub const CAP: u64 = 536870912;
/// Invalid memory access; the address is the one that faulted.
pub const ACCESS: u32 = 1;
pub const ALIGNMENT: u32 = 2;
pub const INTEGER_DIVIDE: u32 = 3;
pub const INTEGER_OVERFLOW: u32 = 4;
pub const FLOATING_POINT: u32 = 5;
pub const ILLEGAL_INSTRUCTION: u32 = 6;
pub const BREAKPOINT: u32 = 7;
pub const STACK_OVERFLOW: u32 = 8;
pub const UNHANDLED: u32 = 0;
pub const RESUME: u32 = 1;
pub const FRAME_ARM64: u64 = 0x4652_414d_4500_0001;
pub const FRAME_X64: u64 = 0x4652_414d_4500_0002;

/// AArch64: `x[30]` is the link register.
#[derive(Clone, Copy, Debug)]
pub struct FrameArm64 {
    pub x: [u64; 31],
    pub sp: u64,
    pub pc: u64,
    pub pstate: u64,
}

/// x86-64: general registers in instruction-encoding order (rax, rcx, rdx, rbx,
/// rsp, rbp, rsi, rdi, r8..r15).
#[derive(Clone, Copy, Debug)]
pub struct FrameX64 {
    pub registers: [u64; 16],
    pub rip: u64,
    pub rflags: u64,
}

/// Placeholder on architectures the boundary defines no frame for.
#[derive(Clone, Copy, Debug)]
pub struct NoFrame {
    pub reserved: u64,
}

/// Installs, faults delivered to a handler, resumed faults, unhandled faults, and rejected calls.
#[derive(Clone, Copy, Debug, Default, PartialEq, Eq, Structural)]
pub struct Stats {
    pub installs: u64,
    pub delivered: u64,
    pub resumed: u64,
    pub unhandled: u64,
    pub rejected: u64,
}

pub const INSTALLS: usize = 0;
pub const DELIVERED: usize = 1;
pub const RESUMED: usize = 2;
pub const UNHANDLED_COUNT: usize = 3;
pub const REJECTED: usize = 4;

/// What the port does after a fault was reported.
#[derive(Clone, Copy, Debug, PartialEq, Eq, Structural)]
pub enum Disposition {
    /// Nobody claimed the fault: end the run as the port would without a handler.
    Unhandled,
    /// Continue from the frame, which the handler has edited.
    Resume,
}

/// Where the one-time installation stands.
#[derive(Clone, Copy, Debug, PartialEq, Eq, Structural)]
pub enum Phase {
    Empty,
    Installing,
    Installed,
}

/// The installed handler and its data, published once. The data is published
/// before the handler, so a fault never sees one without the other.
#[derive(Clone, Copy, Debug)]
pub struct Installation {
    pub phase: Phase,
    pub handler: Option<usize>,
    pub data: usize,
}

/// The installation and answer after an install request.
pub open spec fn begin_step(s: Installation, handler: Option<usize>, data: usize) -> (Installation, u32) {
    if handler is None {
        (s, INVALID_ARGUMENT)
    } else if s.phase != Phase::Empty {
        (s, BUSY)
    } else {
        (Installation { phase: Phase::Installing, handler: handler, data: data }, OK)
    }
}

/// The installation and answer once enabling the trap path answered `enabled`.
pub open spec fn finish_step(s: Installation, enabled: Result<(), Error>) -> (Installation, u32) {
    match enabled {
        Ok(()) => (Installation { phase: Phase::Installed, ..s }, OK),
        Err(e) => (Installation { phase: Phase::Empty, handler: None, ..s },
            if error_status(e) == UNSUPPORTED { UNSUPPORTED } else { OS_ERROR }),
    }
}

impl Installation {
    pub fn new() -> (s: Installation)
        ensures s.phase == Phase::Empty && s.handler is None,
    {
        Installation { phase: Phase::Empty, handler: None, data: 0 }
    }

    /// Starts an installation: no handler is `INVALID_ARGUMENT`, a second one `BUSY`;
    /// otherwise the handler and data are published and the port's trap path must now
    /// be enabled (`finish`). Rejections are counted.
    pub fn begin(&mut self, handler: Option<usize>, data: usize, counters: &mut Counters) -> (r: u32)
        requires
            old(counters).len() == 5,
        ensures
            (*final(self), r) == begin_step(*old(self), handler, data),
            r == OK ==> *final(counters) == *old(counters),
            r != OK ==> counted(*old(counters), *final(counters), REJECTED as int),
    {
        if handler.is_none() {
            counters.increment(REJECTED);
            return INVALID_ARGUMENT;
        }
        match self.phase {
            Phase::Empty => {
                self.phase = Phase::Installing;
                self.data = data;
                self.handler = handler;
                OK
            }
            _ => {
                counters.increment(REJECTED);
                BUSY
            }
        }
    }

    /// Completes an installation with what enabling the trap path answered: success
    /// installs for good; a failure withdraws the handler, so a later install may try
    /// again, and reports `UNSUPPORTED` or `OS_ERROR`.
    pub fn finish(&mut self, enabled: Result<(), Error>, counters: &mut Counters) -> (r: u32)
        requires
            old(self).phase == Phase::Installing,
            old(counters).len() == 5,
        ensures
            (*final(self), r) == finish_step(*old(self), enabled),
            counted(*old(counters), *final(counters), if r == OK { INSTALLS as int } else { REJECTED as int }),
    {
        match enabled {
            Ok(()) => {
                self.phase = Phase::Installed;
                counters.increment(INSTALLS);
                OK
            }
            Err(e) => {
                let status: u32 = if e.status() == UNSUPPORTED { UNSUPPORTED } else { OS_ERROR };
                self.handler = None;
                self.phase = Phase::Empty;
                counters.increment(REJECTED);
                status
            }
        }
    }

    /// Whether a fault of `kind` goes to the handler: only with a handler and a known
    /// kind. A fault that does not is counted as unhandled (no handler) or rejected
    /// (unknown kind); one that does is counted as delivered.
    pub fn deliver(&self, kind: u32, counters: &mut Counters) -> (r: bool)
        requires
            old(counters).len() == 5,
        ensures
            r == (self.handler is Some && ACCESS <= kind <= STACK_OVERFLOW),
            counted(*old(counters), *final(counters),
                if r { DELIVERED as int } else if self.handler is None { UNHANDLED_COUNT as int } else { REJECTED as int }),
    {
        if self.handler.is_none() {
            counters.increment(UNHANDLED_COUNT);
            return false;
        }
        if kind < ACCESS || kind > STACK_OVERFLOW {
            counters.increment(REJECTED);
            return false;
        }
        counters.increment(DELIVERED);
        true
    }
}

/// What the port does with the handler's answer: `RESUME` resumes, anything else is unhandled.
pub fn disposition(answer: u32, counters: &mut Counters) -> (r: Disposition)
    requires
        old(counters).len() == 5,
    ensures
        r == (if answer == RESUME { Disposition::Resume } else { Disposition::Unhandled }),
        counted(*old(counters), *final(counters), if answer == RESUME { RESUMED as int } else { UNHANDLED_COUNT as int }),
{
    if answer == RESUME {
        counters.increment(RESUMED);
        Disposition::Resume
    } else {
        counters.increment(UNHANDLED_COUNT);
        Disposition::Unhandled
    }
}

/// Reports one fault to the installed handler. Without a handler, or for an unknown
/// kind, no handler is called and the fault is unhandled. Otherwise `call` makes the
/// one call of the handler, with the handler, the kind, the address, the frame's address
/// and size, and the installed data; its answer decides (`RESUME` resumes).
pub fn deliver<C: Fn(usize, u32, usize, usize, usize, usize) -> u32>(installation: &Installation, kind: u32, address: usize,
    frame: usize, frame_size: usize, call: C, counters: &mut Counters) -> (r: Disposition)
    requires
        old(counters).len() == 5,
        forall|h: usize, k: u32, a: usize, f: usize, s: usize, d: usize| #[trigger] call.requires((h, k, a, f, s, d)),
    ensures
        !(installation.handler is Some && ACCESS <= kind <= STACK_OVERFLOW) ==> r == Disposition::Unhandled
            && counted(*old(counters), *final(counters), if installation.handler is None { UNHANDLED_COUNT as int } else { REJECTED as int }),
        installation.handler is Some && ACCESS <= kind <= STACK_OVERFLOW ==> exists|answer: u32, middle: Counters|
            #![trigger call.ensures((installation.handler->0, kind, address, frame, frame_size, installation.data), answer), counted(*old(counters), middle, DELIVERED as int)]
            call.ensures((installation.handler->0, kind, address, frame, frame_size, installation.data), answer)
            && r == (if answer == RESUME { Disposition::Resume } else { Disposition::Unhandled })
            && counted(*old(counters), middle, DELIVERED as int)
            && counted(middle, *final(counters), if answer == RESUME { RESUMED as int } else { UNHANDLED_COUNT as int }),
{
    if !installation.deliver(kind, counters) {
        return Disposition::Unhandled;
    }
    let ghost middle: Counters = *counters;
    let handler: usize = match installation.handler {
        Some(h) => h,
        None => 0,
    };
    let answer: u32 = call(handler, kind, address, frame, frame_size, installation.data);
    let r: Disposition = disposition(answer, counters);
    assert(counted(*old(counters), middle, DELIVERED as int));
    r
}

/// The answer a host's trap path gets for a disposition.
pub fn disposition_status(d: Disposition) -> (r: u32)
    ensures
        r == (match d { Disposition::Resume => RESUME, Disposition::Unhandled => UNHANDLED }),
{
    match d {
        Disposition::Resume => RESUME,
        Disposition::Unhandled => UNHANDLED,
    }
}

/// Whether a frame a host lends may be delivered: not null, aligned, exactly one
/// frame long, on an architecture with a frame layout.
pub fn raw_frame(frame: usize, size: usize, frame_alignment: usize, frame_size: usize, frame_tag: u64) -> (r: bool)
    requires
        frame_alignment > 0,
    ensures
        r == (frame != 0 && frame % frame_alignment == 0 && size == frame_size && frame_tag != 0),
{
    frame != 0 && frame % frame_alignment == 0 && size == frame_size && frame_tag != 0
}

/// The capability bit of a port: none without a provider; a provider on an
/// architecture without a frame layout rejects negotiation.
/// Installs the fault handler: `begin`, then the provider's trap path is switched on and
/// `finish` takes its answer. A refused start never reaches the provider.
pub fn install<F: crate::port::Faults>(state: &mut Installation, handler: Option<usize>, data: usize, counters: &mut Counters) -> (r: u32)
    requires
        old(counters).len() == 5,
    ensures
        begin_step(*old(state), handler, data).1 != OK ==> (*final(state), r) == begin_step(*old(state), handler, data)
            && counted(*old(counters), *final(counters), REJECTED as int),
        begin_step(*old(state), handler, data).1 == OK ==> exists|enabled: Result<(), Error>| F::enable_answer(enabled)
            && (*final(state), r) == #[trigger] finish_step(begin_step(*old(state), handler, data).0, enabled)
            && counted(*old(counters), *final(counters), if r == OK { INSTALLS as int } else { REJECTED as int }),
{
    let started: u32 = state.begin(handler, data, counters);
    if started != OK {
        return started;
    }
    let enabled: Result<(), Error> = F::enable();
    let r: u32 = state.finish(enabled, counters);
    assert((*state, r) == finish_step(begin_step(*old(state), handler, data).0, enabled));
    r
}

/// Which of the group's callbacks a table publishes.
#[derive(Clone, Copy, Debug, PartialEq, Eq, Structural)]
pub struct Ops {
    pub frame_tag: bool,
    pub frame_size: bool,
    pub install: bool,
    pub read_stats: bool,
}

/// The group's bits and callbacks, or `None` when a port claims fault reporting on an
/// architecture without a frame layout: a consumer must never install against a frame
/// it cannot read. Without a provider only the statistics reader is published.
pub fn negotiate(provided: bool, frame_tag: u64) -> (r: Option<(u64, Ops)>)
    ensures
        r == (if !provided {
            Some((0u64, Ops { frame_tag: false, frame_size: false, install: false, read_stats: true }))
        } else if frame_tag == 0 {
            None::<(u64, Ops)>
        } else {
            Some((CAP, Ops { frame_tag: true, frame_size: true, install: true, read_stats: true }))
        }),
{
    if !provided {
        return Some((0, Ops { frame_tag: false, frame_size: false, install: false, read_stats: true }));
    }
    if frame_tag == 0 {
        return None;
    }
    Some((CAP, Ops { frame_tag: true, frame_size: true, install: true, read_stats: true }))
}

/// Installation is once: after an install whose trap path was enabled, another
/// install is refused with `BUSY` and changes nothing; after one whose enabling
/// failed, the handler is withdrawn and a new install is accepted.
pub proof fn lemma_install_once(s: Installation, first: usize, data: usize, enabled: Result<(), Error>, second: usize, data2: usize)
    requires
        s.phase == Phase::Empty,
    ensures
        ({
            let (s1, r1) = begin_step(s, Some(first), data);
            let (s2, r2) = finish_step(s1, enabled);
            let (s3, r3) = begin_step(s2, Some(second), data2);
            &&& r1 == OK
            &&& s1.handler == Some(first) && s1.data == data
            &&& (enabled is Ok ==> r2 == OK && s2.phase == Phase::Installed && s2.handler == Some(first) && r3 == BUSY && s3 == s2)
            &&& (enabled is Err ==> r2 != OK && s2.handler is None && r3 == OK && s3.handler == Some(second))
        }),
{
}

} // verus!
