use dotnet_pal::arena;
use dotnet_pal::{accounts, files, image, io, linear_heap};
use dotnet_pal::context::{self, Prepared};
use dotnet_pal::context_host;
use dotnet_pal::counter::Counters;
use dotnet_pal::elf::{self, Image};
use dotnet_pal::faults::{self, Disposition, Installation, Phase};
use dotnet_pal::host::{self, Check, Table, VmCallbacks};
use dotnet_pal::images::{self, SymbolInfo, View};
use dotnet_pal::kernel::{self, BUSY, TIMEOUT};
use dotnet_pal::linear;
use dotnet_pal::linux::{
    self, ChildState, Errnos, EventState, MutexState, Registrations, Signals, WaitAction, WaitAnswer, WaitEnd, Wake,
};
use dotnet_pal::local_sockets;
use dotnet_pal::port::Error;
use dotnet_pal::runtime::NOT_FOUND;
use dotnet_pal::{Header, ABI_VERSION, CAP_VM, INVALID_ARGUMENT, OK, OS_ERROR, UNSUPPORTED};

fn header(capabilities: u64, size: u32) -> Header {
    Header { abi_version: ABI_VERSION, struct_size: size, capabilities }
}

#[test]
fn host_tables_are_checked_before_use() {
    assert!(host::table(0x1000, 8, header(CAP_VM, 64), 64, CAP_VM));
    assert!(!host::table(0, 8, header(CAP_VM, 64), 64, CAP_VM));
    assert!(!host::table(0x1004, 8, header(CAP_VM, 64), 64, CAP_VM));
    assert!(!host::table(0x1000, 8, Header { abi_version: 1, struct_size: 64, capabilities: CAP_VM }, 64, CAP_VM));
    assert!(!host::table(0x1000, 8, header(CAP_VM, 32), 64, CAP_VM));
    assert!(!host::table(0x1000, 8, header(0, 64), 64, CAP_VM));
    let vm = VmCallbacks { page_size: true, reserve: true, commit: true, decommit: true, release: true, reset: true };
    assert!(host::validate_vm(0x1000, 8, header(CAP_VM, 64), 64, vm));
    assert!(!host::validate_vm(0x1000, 8, header(CAP_VM, 64), 64, VmCallbacks { reset: false, ..vm }));
    let services = Table { header: header(12, 40), clock: true, sleep: true, yield_now: true };
    assert!(host::validate_services(0x2000, 8, 40, &services));
    assert!(!host::validate_services(0x2000, 8, 40, &Table { sleep: false, ..services }));
    assert!(host::validate_table(0x1000, 8, header(1, 64), 64, 1, &[true, true]));
    assert!(!host::validate_table(0x1000, 8, header(1, 64), 64, 1, &[true, false]));
}

#[test]
fn validation_stops_at_the_first_bad_table() {
    let checks = [
        Check { enabled: true, valid: true },
        Check { enabled: false, valid: false },
        Check { enabled: true, valid: false },
        Check { enabled: true, valid: true },
    ];
    assert!(!host::validate(&checks));
    assert_eq!(host::first_rejected(&checks), 2);
    assert!(host::validate(&checks[..2]));
    assert_eq!(host::first_rejected(&checks[..2]), 2);
    let mut cache = host::Cached::new();
    assert_eq!(cache.get(), None);
    cache.set(0x3000);
    assert_eq!(cache.get(), Some(0x3000));
}

#[test]
fn host_answers_are_read_as_the_contract_says() {
    assert_eq!(host::text_result(Ok(()), 5), Ok(5));
    assert_eq!(host::text_result(Err(Error::BufferTooSmall), 9), Ok(9));
    assert_eq!(host::text_result(Err(Error::NotFound), 9), Err(Error::NotFound));
    assert_eq!(host::listed(Err(Error::BufferTooSmall), 10, 4), Ok(10));
    assert_eq!(host::listed(Err(Error::BufferTooSmall), 3, 4), Err(Error::Os));
    assert_eq!(host::listed(Ok(()), 3, 4), Ok(3));
    assert_eq!(host::optional(None), 0);
    assert_eq!(host::optional(Some(7)), 7);
    assert_eq!(host::reserved(OK, 0x5000), Ok(0x5000));
    assert_eq!(host::reserved(4, 0x5000), Err(Error::OutOfMemory));
    assert_eq!(host::reserved(999, 0x5000), Err(Error::Os));
}

#[test]
fn the_context_group_checks_handler_records() {
    assert!(context::valid_action(0x1000, 152, 152, 8));
    assert!(!context::valid_action(0, 152, 152, 8));
    assert!(!context::valid_action(0x1004, 152, 152, 8));
    assert!(!context::valid_action(0x1000, 100, 152, 8));
    assert!(!context::valid_action(0x1000, 152, 152, 6));
    assert!(!context::install_arguments(5, true, 0x1000, 152, 152, 8));
    assert!(!context::install_arguments(0, false, 0x1000, 152, 152, 8));
    assert!(context::restore_arguments(4, 0x1000, 152, 152, 8));
    assert_eq!(context::signal_number(9, Some(11)), -1);
    assert_eq!(context::signal_number(1, Some(11)), 11);
    assert_eq!(context::signal_number(1, None), -1);
    assert_eq!(context::thread_outcome(OK, 0), (OS_ERROR, 0));
    assert_eq!(context::thread_outcome(OK, 77), (OK, 77));
    assert_eq!(context::process_id_outcome(OK, 0), (OS_ERROR, 0));
    assert_eq!(context::ignore_outcome(5), OS_ERROR);
    let mut counters = Counters::new(6);
    assert_eq!(context::record(42, 0, &mut counters), OS_ERROR);
    assert_eq!(context::record(6, 1, &mut counters), 6);
    assert_eq!(counters.load(5), 2);
    assert!(context::available(false, false));
    assert!(!context::available(true, false));
}

#[test]
fn the_host_context_table_is_prepared_once() {
    let all = context_host::Callbacks {
        abi_tag: true,
        action_size: true,
        action_alignment: true,
        install: true,
        restore: true,
        unblock_activation: true,
        request_activation: true,
        current_thread: true,
        process_id_async: true,
        ignore_broken_pipe: true,
        signal_number: true,
    };
    assert_eq!(context_host::validate(0x4000, 8, header(context::CAP, 128), 128, all), Some(0x4000));
    assert_eq!(context_host::validate(0x4000, 8, header(0, 128), 128, all), None);
    let mut cache = Prepared::new();
    assert!(!context_host::prepare(&mut cache, None));
    assert!(context_host::prepare(&mut cache, Some(0x4000)));
    assert!(context_host::prepare(&mut cache, None));
    assert_eq!(cache.table, Some(0x4000));
}

fn image(name: usize, headers: usize, count: u32, flags: u32) -> Image {
    Image { load_bias: 0, name, headers, header_count: count, flags, loads: 0, unloads: 0 }
}

#[test]
fn elf_enumeration_rejects_malformed_images() {
    assert!(elf::valid_image(&image(0x10, 0x1000, 3, 1)));
    assert!(elf::valid_image(&image(0x10, 0, 0, 0)));
    assert!(!elf::valid_image(&image(0, 0x1000, 3, 0)));
    assert!(!elf::valid_image(&image(0x10, 0x1000, 3, 2)));
    assert!(!elf::valid_image(&image(0x10, 0x1004, 3, 0)));
    assert!(!elf::valid_image(&image(0x10, 0, 3, 0)));
    assert!(!elf::valid_image(&image(0x10, 0x1000, 70000, 0)));
    let mut visit = elf::Visit::new();
    assert_eq!(visit.offer(true), None);
    assert_eq!(visit.answered(0), 0);
    assert_eq!(visit.offer(true), None);
    assert_eq!(visit.answered(5), 5);
    assert_eq!(visit.offer(true), Some(1));
    assert!(visit.invalid);
    assert_eq!(elf::enumerate_outcome(OK, visit, 5), OS_ERROR);
    let mut good = elf::Visit::new();
    assert_eq!(good.offer(true), None);
    assert_eq!(good.answered(3), 3);
    assert_eq!(elf::enumerate_outcome(OK, good, 3), OK);
    assert_eq!(elf::enumerate_outcome(OK, good, 4), OS_ERROR);
    assert_eq!(elf::lookup_outcome(OK, 1, 1, 0, 0), OK);
    assert_eq!(elf::lookup_outcome(OK, 1, 1, 5, 0), OS_ERROR);
    assert_eq!(elf::lookup_outcome(NOT_FOUND, 0, 0, 0, 0), NOT_FOUND);
}

fn view(name: usize, name_length: usize, headers: usize, count: usize) -> View {
    View { format: images::ELF64_LE, reserved: 0, load_bias: 0, name, name_length, headers, header_count: count, added: 0, removed: 0 }
}

#[test]
fn image_views_need_terminated_names() {
    assert!(images::valid_string(0, 0, true, None));
    assert!(!images::valid_string(0, 3, true, None));
    assert!(!images::valid_string(0, 0, false, None));
    assert!(images::valid_string(0x10, 3, false, Some(0)));
    assert!(!images::valid_string(0x10, 3, false, Some(b'x')));
    assert!(!images::valid_string(usize::MAX, 3, false, Some(0)));
    assert!(images::valid_view(&view(0x10, 3, 0x1000, 2), Some(0)));
    assert!(!images::valid_view(&view(0x10, 3, 0x1000, 0), Some(0)));
    assert!(!images::valid_view(&view(0x10, 3, 0x1004, 2), Some(0)));
    let mut counters = Counters::new(4);
    let mut visit = images::Visit::new();
    assert_eq!(visit.offer(true, &mut counters), None);
    assert_eq!(visit.answered(0), 0);
    assert_eq!(visit.offer(false, &mut counters), Some(1));
    assert!(visit.stopped && visit.invalid);
    assert_eq!(counters.load(images::SEEN), 1);
    assert_eq!(images::iterate_outcome(UNSUPPORTED, visit, 0), OS_ERROR);
    let info = SymbolInfo { base: 0x1000, name: 0x20, name_length: 4, symbol_address: 0, symbol_name: 0, symbol_name_length: 0 };
    assert_eq!(images::address_outcome(OK, &info, Some(0), None), OK);
    assert_eq!(images::address_outcome(OK, &SymbolInfo { base: 0, ..info }, Some(0), None), OS_ERROR);
}

#[test]
fn faults_install_once_and_report_dispositions() {
    let mut counters = Counters::new(5);
    let mut install = Installation::new();
    assert_eq!(install.begin(None, 0, &mut counters), INVALID_ARGUMENT);
    assert_eq!(install.begin(Some(0x100), 7, &mut counters), OK);
    assert_eq!(install.phase, Phase::Installing);
    assert_eq!(install.begin(Some(0x200), 7, &mut counters), BUSY);
    assert_eq!(install.finish(Err(Error::Unsupported), &mut counters), UNSUPPORTED);
    assert_eq!(install.phase, Phase::Empty);
    assert!(!install.deliver(faults::ACCESS, &mut counters));
    assert_eq!(install.begin(Some(0x300), 9, &mut counters), OK);
    assert_eq!(install.finish(Ok(()), &mut counters), OK);
    assert_eq!(install.begin(Some(0x400), 9, &mut counters), BUSY);
    assert!(install.deliver(faults::STACK_OVERFLOW, &mut counters));
    assert!(!install.deliver(9, &mut counters));
    assert_eq!(faults::disposition(faults::RESUME, &mut counters), Disposition::Resume);
    assert_eq!(faults::disposition(7, &mut counters), Disposition::Unhandled);
    assert_eq!(faults::disposition_status(Disposition::Resume), faults::RESUME);
    assert_eq!(counters.load(faults::INSTALLS), 1);
    assert_eq!(counters.load(faults::DELIVERED), 1);
    assert_eq!(counters.load(faults::RESUMED), 1);
    assert_eq!(faults::negotiate(true, 0), None);
    let (bits, ops) = faults::negotiate(true, faults::FRAME_ARM64).unwrap();
    assert_eq!(bits, faults::CAP);
    assert!(ops.install && ops.frame_tag && ops.frame_size && ops.read_stats);
    let (bits, ops) = faults::negotiate(false, 0).unwrap();
    assert_eq!(bits, 0);
    assert!(!ops.install && ops.read_stats);
    assert!(faults::raw_frame(0x1000, 272, 8, 272, faults::FRAME_X64));
    assert!(!faults::raw_frame(0x1000, 271, 8, 272, faults::FRAME_X64));
}

#[test]
fn local_socket_statuses_depend_on_the_call() {
    let mut counters = Counters::new(5);
    assert_eq!(local_sockets::record(dotnet_pal::io::ADDRESS_IN_USE, local_sockets::BIND, &mut counters), dotnet_pal::io::ADDRESS_IN_USE);
    assert_eq!(local_sockets::record(dotnet_pal::io::ADDRESS_IN_USE, local_sockets::CONNECT, &mut counters), OS_ERROR);
    assert_eq!(local_sockets::record(TIMEOUT, local_sockets::CONNECT, &mut counters), TIMEOUT);
    assert_eq!(local_sockets::record(OK, local_sockets::PEER, &mut counters), OK);
    assert_eq!(counters.load(local_sockets::FAILED), 3);
    assert_eq!(local_sockets::peer_outcome(Err(Error::NotConnected)), (dotnet_pal::io::NOT_CONNECTED, u32::MAX));
    assert_eq!(local_sockets::peer_outcome(Ok(1000)), (OK, 1000));
    assert_eq!(local_sockets::address_arguments(1, 0, 0, 0, true), Ok(true));
    assert_eq!(local_sockets::address_arguments(1, 2, 0, 0, true), Ok(false));
    assert_eq!(local_sockets::address_arguments(1, 0, 0, 8, true), Err(INVALID_ARGUMENT));
    assert!(local_sockets::path_arguments(1, 0x100, b"/tmp/s"));
    assert!(!local_sockets::path_arguments(0, 0x100, b"/tmp/s"));
}

fn errnos() -> Errnos {
    Errnos {
        eagain: 11, einval: 22, enomem: 12, etimedout: 110, ebusy: 16, einprogress: 115, epipe: 32, econnrefused: 111,
        econnreset: 104, econnaborted: 103, enotconn: 107, eisconn: 106, eaddrinuse: 98, eaddrnotavail: 99, enetunreach: 101,
        enetdown: 100, ehostunreach: 113, emfile: 24, enfile: 23, emsgsize: 90, eacces: 13, eperm: 1, enobufs: 105,
        eafnosupport: 97, eprotonosupport: 93, eopnotsupp: 95, enoprotoopt: 92, enoent: 2, eisdir: 21, enotdir: 20,
        enametoolong: 36, esrch: 3,
    }
}

#[test]
fn error_numbers_become_boundary_errors() {
    let e = errnos();
    assert_eq!(linux::status(0, &e), Ok(()));
    assert_eq!(linux::status(11, &e), Err(Error::OutOfMemory));
    assert_eq!(linux::status(16, &e), Err(Error::Busy));
    assert_eq!(linux::status(5, &e), Err(Error::Os));
    assert_eq!(linux::kernel_status(110, &e), TIMEOUT);
    assert_eq!(linux::socket_error(11, &e), Error::WouldBlock);
    assert_eq!(linux::socket_error(100, &e), Error::NetworkUnreachable);
    assert_eq!(linux::socket_error(92, &e), Error::Unsupported);
    assert_eq!(linux::waited_error(11, false, &e), Error::Timeout);
    assert_eq!(linux::waited_error(11, true, &e), Error::WouldBlock);
    assert_eq!(linux::spawn_error(11, &e), Error::OutOfMemory);
    assert_eq!(linux::spawn_error(2, &e), Error::NotFound);
    assert_eq!(linux::transfer_error(32, &e), Error::BrokenPipe);
    assert_eq!(linux::activation_status(3, &e), NOT_FOUND);
    assert_eq!(linux::activation_status(11, &e), BUSY);
}

#[test]
fn clocks_names_and_buffers() {
    assert_eq!(linux::timespec_ns(2, 5), Ok(2_000_000_005));
    assert_eq!(linux::timespec_ns(-1, 5), Err(Error::Os));
    assert_eq!(linux::timespec_ns(1, 1_000_000_000), Err(Error::Os));
    assert_eq!(linux::timespec_ns(i64::MAX, 0), Err(Error::Os));
    assert_eq!(linux::sleep_request(2_500_000_000), (2, 500_000_000));
    assert_eq!(linux::positive_id(0), Err(Error::Os));
    assert_eq!(linux::positive_id(42), Ok(42));
    let mut n = usize::MAX;
    assert!(!linux::checked_increment(&mut n));
    let mut m = 1;
    assert!(linux::checked_increment(&mut m));
    assert_eq!(m, 2);
    let name = linux::name_buffer(b"PATH");
    assert_eq!(&name[..5], b"PATH\0");
    assert_eq!(linux::environment_lookup(None, 10), Err(Error::NotFound));
    assert_eq!(linux::environment_lookup(Some(12), 10), Ok(linux::Lookup::TooSmall(12)));
    assert_eq!(linux::environment_lookup(Some(8), 10), Ok(linux::Lookup::Copied(8)));
    assert_eq!(linux::entropy_chunk(0, 1 << 20), 262144);
    assert_eq!(linux::entropy_chunk(10, 20), 10);
    let prot = linux::Protections { read: 1, write: 2, execute: 4 };
    assert_eq!(linux::protection(5, &prot), 5);
    assert!(linux::page_aligned(0x2000, 0x1000));
    assert!(!linux::page_aligned(0x2001, 0x1000));
    assert!(linux::thread_name(b"0123456789abcdef").is_err());
    assert_eq!(&linux::thread_name(b"worker").unwrap()[..7], b"worker\0");
    assert_eq!(linux::sysfs(b"eth0", b"speed").map(|p| p[..26].to_vec()), Some(b"/sys/class/net/eth0/speed\0".to_vec()));
    assert!(linux::sysfs(b"a/b", b"speed").is_none());
    assert_eq!(linux::speed(b"1000\n"), 1_000_000_000);
    assert_eq!(linux::speed(b"-1\n"), 0);
    assert!(linux::CPath::new(&[b'a'; 4096]).is_err());
    assert_eq!(linux::check(0), Ok(()));
    assert_eq!(linux::check(9), Err(9));
    let table = [0, 2, 3, 15, 1, 18, 28, 21, 22, 20];
    assert_eq!(linux::notification_signal(3, &table), Ok(15));
    assert_eq!(linux::notification_signal(0, &table), Err(Error::InvalidArgument));
    assert_eq!(linux::notification_kind(28, &table), Some(6));
    assert_eq!(linux::notification_kind(99, &table), None);
}

#[test]
fn mutex_bookkeeping_refuses_relocking() {
    let mut m = MutexState::new(false);
    assert_eq!(m.begin_lock(7), Ok(()));
    m.end_lock(7, true);
    assert_eq!(m.owner, 7);
    assert_eq!(m.begin_lock(7), Err(Error::Os));
    assert_eq!(m.destroy_check(), Err(Error::Busy));
    assert_eq!(m.begin_unlock(8), Err(Error::Os));
    assert_eq!(m.begin_unlock(7), Ok(()));
    m.end_unlock(7, true);
    assert_eq!(m, MutexState::new(false));
    assert_eq!(m.destroy_check(), Ok(()));
    let mut r = MutexState::new(true);
    assert_eq!(r.begin_lock(3), Ok(()));
    r.end_lock(3, true);
    assert_eq!(r.begin_lock(3), Ok(()));
    r.end_lock(3, true);
    assert_eq!(r.depth, 2);
    assert_eq!(r.users, 2);
}

#[test]
fn auto_reset_events_release_one_waiter() {
    let mut e = EventState::new(false, false);
    assert_eq!(e.action(0), WaitAction::Expired);
    assert_eq!(e.action(kernel::INFINITE), WaitAction::Block { timed: false });
    assert_eq!(e.action(5), WaitAction::Block { timed: true });
    assert_eq!(e.set(), Wake::Signal);
    e.enter();
    assert_eq!(e.action(5), WaitAction::Signaled);
    assert_eq!(e.destroy_check(), BUSY);
    assert_eq!(e.leave(WaitEnd::TimedOut), WaitEnd::Woken);
    assert!(!e.signaled);
    e.enter();
    assert_eq!(e.action(0), WaitAction::Expired);
    assert_eq!(e.leave(WaitEnd::TimedOut), WaitEnd::TimedOut);
    let mut manual = EventState::new(true, true);
    assert_eq!(manual.set(), Wake::Broadcast);
    manual.enter();
    assert_eq!(manual.leave(WaitEnd::Woken), WaitEnd::Woken);
    assert!(manual.signaled);
    assert_eq!(manual.destroy_check(), OK);
}

#[test]
fn signal_kinds_are_registered_once() {
    let signals = Signals { activation: 34, segmentation: 11, bus: 7, floating_point: 8, illegal_instruction: 4 };
    let mut r = Registrations::new();
    assert_eq!(r.claim(5, true, &signals), Err(INVALID_ARGUMENT));
    assert_eq!(r.claim(1, false, &signals), Err(INVALID_ARGUMENT));
    assert_eq!(r.claim(1, true, &signals), Ok(11));
    assert_eq!(r.claim(1, true, &signals), Err(BUSY));
    r.publish(1, 11, 0x500, 0x600);
    assert_eq!(r.dispatch(11), Some((0x500, 0x600)));
    assert_eq!(r.dispatch(7), None);
    assert_eq!(r.restore_check(1, &signals), Ok(11));
    assert_eq!(r.restore_check(2, &signals), Err(INVALID_ARGUMENT));
    r.withdraw(1);
    assert_eq!(r.dispatch(11), None);
    assert_eq!(r.claim(1, true, &signals), Ok(11));
    assert_eq!(linux::action_flags(0x0800_0000, 0x1000_0000, 4, 0x0800_0000), (0x1800_0004, true));
    assert_eq!(linux::action_flags(0, 0x1000_0000, 4, 0x0800_0000), (0x1000_0004, false));
}

#[test]
fn children_are_reaped_once() {
    let mut child = ChildState::Running;
    assert_eq!(linux::look(&mut child, WaitAnswer::Running), Ok(None));
    assert_eq!(linux::look(&mut child, WaitAnswer::Signaled(9)), Ok(Some(137)));
    assert_eq!(linux::look(&mut child, WaitAnswer::Exited(0)), Ok(Some(137)));
    assert_eq!(linux::verdict(child), Some(Ok(137)));
    let mut lost = ChildState::Running;
    assert_eq!(linux::look(&mut lost, WaitAnswer::Lost), Err(Error::Os));
    assert_eq!(linux::look(&mut lost, WaitAnswer::Exited(0)), Err(Error::Os));
}

#[test]
fn kernel_results_are_checked() {
    assert_eq!(kernel::create_outcome(Ok(0)), (OS_ERROR, 0));
    assert_eq!(kernel::create_outcome(Ok(0x40)), (OK, 0x40));
    assert_eq!(kernel::create_outcome(Err(Error::Timeout)), (OS_ERROR, 0));
    assert_eq!(kernel::create_outcome(Err(Error::OutOfMemory)), (dotnet_pal::OUT_OF_MEMORY, 0));
    assert!(kernel::event_arguments(1, 0));
    assert!(!kernel::event_arguments(2, 0));
    assert!(!kernel::thread_arguments(true, usize::MAX));
    let mut counters = Counters::new(12);
    assert_eq!(kernel::simple(0, Ok(()), &mut counters), INVALID_ARGUMENT);
    assert_eq!(kernel::simple(0x10, Ok(()), &mut counters), OK);
    assert_eq!(kernel::simple(0x10, Err(Error::Busy), &mut counters), BUSY);
    assert_eq!(counters.load(kernel::FAILED), 2);
    assert_eq!(kernel::record(TIMEOUT, kernel::EVENT_WAIT, &mut counters), TIMEOUT);
    assert_eq!(kernel::record(TIMEOUT, kernel::EVENT_SET, &mut counters), OS_ERROR);
    assert_eq!(counters.load(kernel::EVENT_TIMEOUT), 1);
    assert_eq!(kernel::stack_outcome(Ok((0x1000, 0x2000))), OK);
    assert_eq!(kernel::stack_outcome(Ok((0x2000, 0x2000))), OS_ERROR);
    assert_eq!(kernel::barrier_mode(-1, true), 1);
    assert_eq!(kernel::barrier_mode(24, true), 2);
    assert_eq!(kernel::barrier_mode(25, false), 3);
    assert_eq!(kernel::barrier_command(2), Some(8));
    assert!(kernel::has_barrier(3));
    assert_eq!(kernel::deadline(10, 999_999_999, 1), Ok((11, 0)));
    assert_eq!(kernel::deadline(-1, 0, 1), Err(OS_ERROR));
    assert_eq!(kernel::deadline(i64::MAX, 0, 1_000_000_000), Err(INVALID_ARGUMENT));
}

#[test]
fn arena_reservations_are_released_exactly() {
    let mut state = arena::State::new();
    assert_eq!(state.reserve(4096, 0x1000).0, OS_ERROR);
    assert_eq!(state.initialize(0x10000, 0x10000, 0x1000), OK);
    assert_eq!(state.initialize(0x10000, 0x10000, 0x1000), INVALID_ARGUMENT);
    let (status, first) = state.reserve(0x2000, 0x1000);
    assert_eq!(status, OK);
    let (status, second) = state.reserve(0x1000, 0x4000);
    assert_eq!(status, OK);
    assert_eq!(second % 0x4000, 0);
    assert!(second >= first + 0x2000 || second + 0x1000 <= first);
    assert_eq!(state.commit(first, 0x1000), OK);
    assert_eq!(state.release(first, 0x1000), INVALID_ARGUMENT);
    assert_eq!(state.release(first, 0x2000), OK);
    assert_eq!(state.commit(first, 0x1000), INVALID_ARGUMENT);
}

#[test]
fn linear_blocks_are_handed_out_and_back() {
    let mut a = linear::Arena::new(0x100000);
    let (status, address) = a.allocate(5000, 4096);
    assert_eq!(status, OK);
    assert_eq!(address % linear::GRANULARITY, 0);
    // A partial block is not counted: the allocation is one block long.
    assert_eq!(a.zero(address, 4096), OK);
    assert_eq!(a.zero(address, 5000), INVALID_ARGUMENT);
    assert_eq!(a.release(address, 5000), OK);
    assert_eq!(a.release(address, 5000), INVALID_ARGUMENT);
}

#[test]
fn arena_reservations_take_the_lowest_free_start() {
    let mut state = arena::State::new();
    assert_eq!(state.initialize(0x10000, 0x10000, 0x1000), OK);
    assert_eq!(state.reserve(0x2000, 0x1000), (OK, 0x10000));
    assert_eq!(state.reserve(0x1000, 0x1000), (OK, 0x12000));
    // The gap left by a release is found again before the higher free space.
    assert_eq!(state.release(0x10000, 0x2000), OK);
    assert_eq!(state.reserve(0x1000, 0x1000), (OK, 0x10000));
    // No aligned start leaves room for this much.
    assert_eq!(state.reserve(0xF000, 0x1000), (OS_ERROR, 0));
}

#[test]
fn linear_allocations_take_the_lowest_aligned_free_blocks() {
    let mut a = linear::Arena::new(0x100000);
    assert_eq!(a.allocate(4096, 4096), (OK, 0x100000));
    // The next start aligned to 8192 past the first block is block 2.
    assert_eq!(a.allocate(4096, 8192), (OK, 0x102000));
    assert_eq!(a.allocate(4096, 4096), (OK, 0x101000));
    assert_eq!(a.allocate(100, 4096), (dotnet_pal::OUT_OF_MEMORY, 0));
    assert_eq!(a.allocate(linear::CAPACITY, 4096), (dotnet_pal::OUT_OF_MEMORY, 0));
    // A range inside one allocation may be zeroed; one reaching past it may not.
    assert_eq!(a.zero(0x102010, 100), OK);
    assert_eq!(a.zero(0x101ff0, 0x20), INVALID_ARGUMENT);
    assert_eq!(a.zero(0x103000, 1), INVALID_ARGUMENT);
    assert_eq!(a.release(0x102000, 4096), OK);
    assert_eq!(a.zero(0x102010, 100), INVALID_ARGUMENT);
}

struct GoodHost;
impl linear_heap::StorageHost for GoodHost {
    fn allocate(_size: usize, _alignment: usize) -> (u32, usize) {
        (OK, 0x40000)
    }
    fn release(_address: usize, _size: usize) -> u32 {
        OK
    }
}

struct RefusingHost;
impl linear_heap::StorageHost for RefusingHost {
    fn allocate(_size: usize, _alignment: usize) -> (u32, usize) {
        (77, 0)
    }
    fn release(_address: usize, _size: usize) -> u32 {
        dotnet_pal::OUT_OF_MEMORY
    }
}

#[test]
fn the_ledger_checks_host_answers() {
    let mut ledger = linear_heap::Ledger::new();
    assert_eq!(ledger.plan(0), Err(dotnet_pal::OUT_OF_MEMORY));
    assert_eq!(ledger.plan(linear_heap::CAPACITY + 1), Err(dotnet_pal::OUT_OF_MEMORY));
    assert_eq!(ledger.plan(4096), Ok(0));
    assert_eq!(ledger.allocate::<RefusingHost>(4096, 4096), (OS_ERROR, 0));
    assert_eq!(ledger.allocate::<GoodHost>(4096, 4096), (OK, 0x40000));
    assert_eq!(ledger.owned, 4096);
    // The same storage again would overlap what the ledger owns.
    assert_eq!(ledger.allocate::<GoodHost>(4096, 4096), (OS_ERROR, 0));
    // A misaligned answer is refused.
    assert_eq!(ledger.accept(1, 16, 0x100000, (OK, 0x80000)), (OS_ERROR, 0));
    assert_eq!(ledger.zero(0x40010, 16), OK);
    assert_eq!(ledger.release::<RefusingHost>(0x40000, 4096), dotnet_pal::OUT_OF_MEMORY);
    assert_eq!(ledger.owned, 4096);
    assert_eq!(ledger.release::<GoodHost>(0x40000, 100), INVALID_ARGUMENT);
    assert_eq!(ledger.release::<GoodHost>(0x40000, 4096), OK);
    assert_eq!(ledger.owned, 0);
}

#[test]
fn outputs_are_cleared_on_failure() {
    let mut name = b"..\0\0".to_vec();
    assert_eq!(files::read_step(Ok((2, files::NODE_DIRECTORY)), &mut name), files::ReadStep::Again);
    assert_eq!(name, vec![0; 4]);
    let mut name = b"a/b\0".to_vec();
    assert_eq!(files::read_step(Ok((3, files::NODE_FILE)), &mut name), files::ReadStep::Done(OS_ERROR, 0, 0));
    assert_eq!(name, vec![0; 4]);
    let mut name = b"abc\0".to_vec();
    assert_eq!(files::read_step(Ok((3, files::NODE_FILE)), &mut name), files::ReadStep::Done(OK, 3, files::NODE_FILE));
    assert_eq!(name, b"abc\0".to_vec());
    let mut name = b"abc\0".to_vec();
    assert_eq!(files::read_step(Err(Error::AccessDenied), &mut name), files::ReadStep::Done(Error::AccessDenied.status(), 0, 0));
    assert_eq!(name, vec![0; 4]);

    let mut text = b"ab".to_vec();
    assert_eq!(io::text_finish(Ok(3), 16, &mut text), (dotnet_pal::runtime::BUFFER_TOO_SMALL, Some(3)));
    assert_eq!(text, vec![0, 0]);
    let mut text = b"a\0".to_vec();
    assert_eq!(io::text_finish(Ok(2), 16, &mut text), (OK, Some(2)));
    assert_eq!(text, b"a\0".to_vec());

    let mut list = vec![7u32, 8];
    assert_eq!(accounts::groups_finish(Ok(3), 2, &mut list), (dotnet_pal::runtime::BUFFER_TOO_SMALL, 3));
    assert_eq!(list, vec![0, 0]);
    let mut list = vec![7u32, 8];
    assert_eq!(accounts::groups_finish(Ok(2), 2, &mut list), (OK, 2));
    assert_eq!(list, vec![7, 8]);

    let mut id = vec![1u8, 2, 3];
    assert_eq!(image::build_id_finish(Ok(0), 3, &mut id), (OS_ERROR, 0));
    assert_eq!(id, vec![0, 0, 0]);

    let (status, account) = accounts::user_outcome(Err(Error::NotFound), None);
    assert_eq!(status, Error::NotFound.status());
    assert_eq!((account.user_id, account.group_id), (0, 0));
    assert!(account.name.iter().chain(account.home.iter()).chain(account.shell.iter()).all(|b| *b == 0));
}

#[test]
fn the_barrier_mode_is_settled_once() {
    let mut cache = kernel::BarrierCache::new();
    assert_eq!(cache.cached(), None);
    assert_eq!(cache.settle(kernel::barrier_mode(24, true)), 2);
    assert_eq!(cache.settle(kernel::barrier_mode(-1, false)), 2);
    assert_eq!(cache.cached(), Some(2));
    assert_eq!(kernel::barrier_status(2, true), OK);
    assert_eq!(kernel::barrier_status(2, false), OS_ERROR);
    assert_eq!(kernel::barrier_status(1, true), UNSUPPORTED);
}
