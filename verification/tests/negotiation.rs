use dotnet_pal::port::{from_status, Error};
use dotnet_pal::kernel::Providers;
use dotnet_pal::port::Clock;
use dotnet_pal::{
    accounts, context, faults, files, geometry, image, images, kernel, local_sockets, round_size, services, Api, PortShape,
    Slot, ABI_VERSION, OK,
};

/// The kernel providers of a port that has none.
fn no_kernel() -> Providers {
    Providers {
        events: false,
        mutexes: false,
        threads: false,
        thread_local: false,
        stack_bounds: false,
        process_barrier: false,
        barrier_available: false,
    }
}

/// A port with no provider but, when `clock` says so, a clock.
fn shape(valid: bool, clock: bool) -> PortShape {
    PortShape {
        virtual_memory: false,
        linear: false,
        valid,
        page_size: 0,
        granularity: 0,
        capacity: 0,
        dynamic: false,
        clock,
        scheduler: false,
        kernel: no_kernel(),
        context: false,
        context_provider: false,
        image: false,
        files: false,
        faults: false,
        frame_tag: faults::FRAME_X64,
        local_sockets: false,
        accounts: false,
    }
}

/// A clock that always reads 1.
struct One;

impl Clock for One {
    fn monotonic_ns() -> Result<u64, Error> {
        Ok(1)
    }
}

#[test]
fn rounding_is_checked() {
    assert_eq!(round_size(1, 4096), Some(4096));
    assert_eq!(round_size(4097, 4096), Some(8192));
    assert_eq!(round_size(usize::MAX, 4096), None);
    assert_eq!(round_size(isize::MAX as usize, 4096), None);
    assert_eq!(round_size(0, 4096), None);
    assert_eq!(round_size(1, 0), None);
    assert_eq!(round_size(1, 3000), None);
}

#[test]
fn geometry_rejects_overflow_and_bad_alignment() {
    assert_eq!(geometry(1, 3, 4096), None);
    assert_eq!(geometry(1, 1, 4096), Some((4096, 4096)));
    assert_eq!(geometry(1, 1usize << (usize::BITS - 1), 4096), None);
}

#[test]
fn an_empty_port_negotiates_with_no_capabilities() {
    let mut slot = Slot::new();
    let empty = shape(true, false);
    assert!(slot.negotiate(99, &empty).is_none());
    let api = slot.negotiate(ABI_VERSION, &empty);
    assert!(api.is_some());
    let api = api.unwrap();
    assert_eq!(api.header.capabilities, 0);
    assert_eq!(api.header.abi_version, ABI_VERSION);
    assert_eq!(api.header.struct_size as usize, std::mem::size_of::<Api>());
    assert!(!api.vm.reserve && !api.linear.allocate && !api.services.monotonic_ns);
    assert!(!api.kernel.event_create && !api.files.calls && !api.faults.install && api.faults.read_stats);
    assert!(!api.context.calls && !api.image.calls && !api.local_sockets.calls && !api.accounts.calls);
    assert!(api.read_stats && api.kernel.read_stats);
    assert_eq!(slot.negotiate(ABI_VERSION, &empty), Some(api));
    // The same table, in the same place, answers every request.
    let first = format!("{:p}", slot.table().unwrap());
    assert!(slot.negotiate(ABI_VERSION, &empty).is_some());
    assert_eq!(first, format!("{:p}", slot.table().unwrap()));
}

#[test]
fn validation_failure_is_final_and_clock_only_ports_work() {
    let mut reject = Slot::new();
    let rejecting = shape(false, true);
    assert!(reject.negotiate(ABI_VERSION, &rejecting).is_none());
    assert!(reject.negotiate(ABI_VERSION, &rejecting).is_none());
    let mut clock = Slot::new();
    let api = clock.negotiate(ABI_VERSION, &shape(true, true)).unwrap();
    assert_eq!(api.header.capabilities, services::CAP_CLOCK);
    assert!(api.services.monotonic_ns);
    let mut value = 0;
    assert_eq!(services::monotonic_ns::<One>(&mut value), OK);
    assert_eq!(value, 1);
    assert!(!api.services.sleep_ns);
}

#[test]
fn a_signal_context_without_a_provider_rejects_the_port() {
    let mut port = shape(true, false);
    port.context = true;
    assert!(Slot::new().negotiate(ABI_VERSION, &port).is_none());
    port.context_provider = true;
    let api = Slot::new().negotiate(ABI_VERSION, &port).unwrap();
    assert_eq!(api.header.capabilities, context::CAP);
    assert!(api.context.calls && api.context.read_stats);
    assert_eq!(context::negotiate(false, false), Some((0, dotnet_pal::GroupOps { calls: false, read_stats: true })));
}

#[test]
fn a_rejecting_group_rejects_the_port_for_good() {
    let mut slot = Slot::new();
    let mut bad = shape(true, false);
    bad.faults = true;
    bad.frame_tag = 0;
    assert!(slot.negotiate(ABI_VERSION, &bad).is_none());
    assert!(slot.negotiate(ABI_VERSION, &shape(true, true)).is_none());
}

#[test]
fn each_group_publishes_its_calls_with_its_bit() {
    let mut port = shape(true, true);
    port.scheduler = true;
    port.kernel.events = true;
    port.kernel.process_barrier = true;
    port.files = true;
    port.faults = true;
    let api = Slot::new().negotiate(ABI_VERSION, &port).unwrap();
    assert_eq!(
        api.header.capabilities,
        services::CAP_CLOCK | services::CAP_SCHEDULER | kernel::CAP_EVENTS | files::CAP | faults::CAP
    );
    assert!(api.services.sleep_ns && api.kernel.event_wait && !api.kernel.mutex_lock && api.files.calls && api.faults.install);
    // A barrier that is not available publishes neither its bit nor its call.
    assert!(!api.kernel.process_barrier);
    let (bits, ops) = kernel::negotiate(Providers { process_barrier: true, barrier_available: true, ..no_kernel() });
    assert_eq!(bits, kernel::CAP_BARRIER);
    assert!(ops.process_barrier && ops.read_stats && !ops.event_wait);
}

#[test]
fn memory_contracts_are_exclusive_and_checked() {
    let mut both = shape(true, false);
    both.virtual_memory = true;
    both.linear = true;
    both.page_size = 4096;
    both.granularity = 4096;
    both.capacity = 1;
    assert!(Slot::new().negotiate(ABI_VERSION, &both).is_none());
    let mut vm = shape(true, false);
    vm.virtual_memory = true;
    vm.page_size = 4096;
    let api = Slot::new().negotiate(ABI_VERSION, &vm).unwrap();
    assert_eq!(api.header.capabilities, dotnet_pal::CAP_VM);
    assert!(api.vm.reserve && api.vm.release && !api.linear.allocate);
    vm.page_size = 3000;
    assert!(Slot::new().negotiate(ABI_VERSION, &vm).is_none());
    let mut linear = shape(true, false);
    linear.linear = true;
    linear.dynamic = true;
    linear.granularity = 65536;
    linear.capacity = 1 << 20;
    assert_eq!(
        Slot::new().negotiate(ABI_VERSION, &linear).unwrap().header.capabilities,
        dotnet_pal::CAP_LINEAR | dotnet_pal::CAP_DYNAMIC_LINEAR
    );
}

#[test]
fn capability_groups_do_not_overlap() {
    let bits = [
        dotnet_pal::CAP_VM,
        dotnet_pal::CAP_LINEAR,
        dotnet_pal::CAP_DYNAMIC_LINEAR,
        services::CAP_CLOCK,
        services::CAP_SCHEDULER,
        kernel::ALL,
        context::CAP,
        image::CAP,
        files::CAP,
        faults::CAP,
        local_sockets::CAP,
        accounts::CAP,
    ];
    for (i, a) in bits.iter().enumerate() {
        assert_ne!(*a, 0);
        for b in &bits[i + 1..] {
            assert_eq!(a & b, 0);
        }
    }
    assert_eq!(kernel::ALL, kernel::CAP_EVENTS | kernel::CAP_MUTEX | kernel::CAP_THREADS | kernel::CAP_TLS | kernel::CAP_STACK | kernel::CAP_BARRIER);
    assert_eq!(images::ALL, images::CAP_ELF | images::CAP_SYMBOL);
}

#[test]
fn every_status_names_one_error() {
    for status in 1..=31u32 {
        let error = Error::from_status(status).unwrap();
        assert_eq!(error.status(), status);
        assert_eq!(from_status(status), Err(error));
    }
    assert_eq!(Error::from_status(0), None);
    assert_eq!(Error::from_status(32), None);
    assert_eq!(from_status(32), Err(Error::Os));
    assert_eq!(from_status(OK), Ok(()));
}
