use dotnet_pal::accounts::{self, Account};
use dotnet_pal::counter::{Counter, Counters};
use dotnet_pal::counters::StatelessCounter;
use dotnet_pal::faults::{self, Installation};
use dotnet_pal::files;
use dotnet_pal::image::{self, UnwindInfo};
use dotnet_pal::kernel;
use dotnet_pal::linux::{self, Registrations, Signals};
use dotnet_pal::linux_platform::{discover_cgroups, Path};
use dotnet_pal::local_sockets;
use dotnet_pal::port::{
    Accounts, Error, Events, Faults, Files, Image, LocalSockets, Mutexes, SignalActions, StackBounds, ThreadLocal, Threads,
};
use dotnet_pal::runtime::{BUFFER_TOO_SMALL, NOT_FOUND};
use dotnet_pal::{OutArray, Output, INVALID_ARGUMENT, OK, OS_ERROR, UNSUPPORTED};

const ALIGNED: usize = 0x1000;

struct Directory;
impl Accounts for Directory {
    fn user_by_id(user_id: u32) -> Result<Account, Error> {
        Account::new(user_id, 100, b"alice\0junk", b"/home/alice", b"/bin/sh").ok_or(Error::Os)
    }
    fn user_by_name(_name: &[u8]) -> Result<Account, Error> {
        Err(Error::NotFound)
    }
    fn process_groups(out: &mut Vec<u32>, capacity: usize) -> Result<usize, Error> {
        for (i, id) in [10u32, 20, 30].iter().enumerate().take(capacity) {
            out[i] = *id;
        }
        Ok(3)
    }
    fn user_groups(_name: &[u8], primary_group: u32, out: &mut Vec<u32>, capacity: usize) -> Result<usize, Error> {
        if capacity > 0 {
            out[0] = primary_group;
        }
        Ok(1)
    }
}

#[test]
fn accounts_are_looked_up_and_listed() {
    let mut counters = Counters::new(3);
    let mut out = Output { address: ALIGNED, value: Account::empty() };
    let size = std::mem::size_of::<Account>();
    assert_eq!(accounts::user_by_id::<Directory>(&mut counters, 7, &mut out, size), OK);
    assert_eq!(out.value.user_id, 7);
    assert_eq!(&out.value.name[..6], b"alice\0");
    assert!(out.value.name[6..].iter().all(|b| *b == 0));
    let mut bad = Output { address: ALIGNED + 1, value: Account::empty() };
    assert_eq!(accounts::user_by_id::<Directory>(&mut counters, 7, &mut bad, size), INVALID_ARGUMENT);
    assert_eq!(accounts::user_by_name::<Directory>(&mut counters, ALIGNED, b"bob", &mut out, size), NOT_FOUND);
    assert_eq!(out.value.user_id, 0);
    assert_eq!(accounts::user_by_name::<Directory>(&mut counters, ALIGNED, b"", &mut out, size), INVALID_ARGUMENT);

    let mut list = OutArray { address: ALIGNED, items: vec![0u32; 2] };
    let mut count = Output { address: ALIGNED, value: 99usize };
    assert_eq!(accounts::process_groups::<Directory>(&mut counters, &mut list, 2, &mut count), BUFFER_TOO_SMALL);
    assert_eq!(count.value, 3);
    assert_eq!(list.items, vec![0, 0]);
    let mut list = OutArray { address: ALIGNED, items: vec![0u32; 4] };
    assert_eq!(accounts::process_groups::<Directory>(&mut counters, &mut list, 4, &mut count), OK);
    assert_eq!((count.value, &list.items[..3]), (3, &[10u32, 20, 30][..]));
    assert_eq!(accounts::user_groups::<Directory>(&mut counters, ALIGNED, b"alice", 5, &mut list, 4, &mut count), OK);
    assert_eq!((count.value, list.items[0]), (1, 5));
    assert_eq!(accounts::user_groups::<Directory>(&mut counters, ALIGNED, b"a\0b", 5, &mut list, 4, &mut count), INVALID_ARGUMENT);
    assert_eq!(count.value, 0);
}

struct Native;
impl Events for Native {
    fn create(_manual: bool, _initial: bool) -> Result<usize, Error> {
        Ok(0x5000)
    }
    fn destroy(_handle: usize) -> Result<(), Error> {
        Ok(())
    }
    fn reset(_handle: usize) -> Result<(), Error> {
        Err(Error::Busy)
    }
    fn set(_handle: usize) -> Result<(), Error> {
        Ok(())
    }
    fn wait(_handle: usize, timeout_ns: u64) -> Result<(), Error> {
        if timeout_ns == 0 { Err(Error::Timeout) } else { Ok(()) }
    }
}
impl Mutexes for Native {
    fn create(_recursive: bool) -> Result<usize, Error> {
        Ok(0)
    }
    fn destroy(_handle: usize) -> Result<(), Error> {
        Err(Error::Timeout)
    }
    fn lock(_handle: usize) -> Result<(), Error> {
        Err(Error::Busy)
    }
    fn unlock(_handle: usize) -> Result<(), Error> {
        Ok(())
    }
}
impl Threads for Native {
    fn create(_entry: usize, _argument: usize, _stack: usize) -> Result<usize, Error> {
        Err(Error::OutOfMemory)
    }
    fn join(_handle: usize) -> Result<(), Error> {
        Ok(())
    }
    fn detach(_handle: usize) -> Result<(), Error> {
        Err(Error::InvalidArgument)
    }
}
impl ThreadLocal for Native {
    fn create(_destructor: usize) -> Result<usize, Error> {
        Err(Error::Busy)
    }
    fn destroy(_handle: usize) -> Result<(), Error> {
        Ok(())
    }
    fn set(_handle: usize, _value: usize) -> Result<(), Error> {
        Ok(())
    }
    fn get(handle: usize) -> Result<usize, Error> {
        if handle == 1 { Ok(0x42) } else { Err(Error::Os) }
    }
}
impl StackBounds for Native {
    fn bounds() -> Result<(usize, usize), Error> {
        Ok((0x7000, 0x9000))
    }
}

#[test]
fn kernel_objects_are_created_through_the_provider() {
    let mut counters = Counters::new(12);
    let mut out = Output { address: ALIGNED, value: 1usize };
    assert_eq!(kernel::event_create::<Native>(&mut counters, 0, 1, &mut out), OK);
    assert_eq!(out.value, 0x5000);
    assert_eq!(kernel::event_create::<Native>(&mut counters, 2, 0, &mut out), INVALID_ARGUMENT);
    assert_eq!(out.value, 0);
    // A null handle is a broken provider.
    assert_eq!(kernel::mutex_create::<Native>(&mut counters, 0, &mut out), OS_ERROR);
    assert_eq!(kernel::thread_create::<Native>(&mut counters, 0x100, 0, 0, &mut out), dotnet_pal::OUT_OF_MEMORY);
    assert_eq!(kernel::thread_create::<Native>(&mut counters, 0, 0, 0, &mut out), INVALID_ARGUMENT);
    // BUSY is no create result.
    assert_eq!(kernel::tls_create::<Native>(&mut counters, 0, &mut out), OS_ERROR);
    let mut low = Output { address: ALIGNED, value: 1usize };
    let mut high = Output { address: ALIGNED + 8, value: 1usize };
    assert_eq!(kernel::stack_bounds::<Native>(&mut counters, &mut low, &mut high), OK);
    assert_eq!((low.value, high.value), (0x7000, 0x9000));
    let mut same = Output { address: ALIGNED, value: 1usize };
    assert_eq!(kernel::stack_bounds::<Native>(&mut counters, &mut low, &mut same), INVALID_ARGUMENT);
    assert_eq!(counters.load(kernel::EVENT_CREATE), 1);
}

struct Images;
impl Image for Images {
    fn unwind_info(address: usize) -> Result<UnwindInfo, Error> {
        Ok(UnwindInfo { base: 0x1000, text_start: 0x1000, text_length: if address == 0x1010 { 0x100 } else { 0x10 }, eh_frame_hdr: 0x2000, eh_frame_hdr_length: 8, eh_frame: 0, eh_frame_length: 0 })
    }
    fn readable(address: usize, _size: usize) -> Result<bool, Error> {
        Ok(address < 0x8000)
    }
    fn build_id(_base: usize, out: &mut Vec<u8>, capacity: usize) -> Result<usize, Error> {
        for i in 0..capacity.min(20) {
            out[i] = 0xAB;
        }
        Ok(20)
    }
}

#[test]
fn image_queries_check_the_provider() {
    let mut counters = Counters::new(4);
    let mut out = Output { address: ALIGNED, value: UnwindInfo::zero() };
    let size = std::mem::size_of::<UnwindInfo>();
    assert_eq!(image::unwind_info::<Images>(&mut counters, 0x1010, &mut out, size), OK);
    assert_eq!(out.value.eh_frame_hdr, 0x2000);
    // The answer's text range does not contain the address: broken.
    assert_eq!(image::unwind_info::<Images>(&mut counters, 0x1020, &mut out, size), OS_ERROR);
    assert_eq!(out.value, UnwindInfo::zero());
    assert_eq!(image::unwind_info::<Images>(&mut counters, 0, &mut out, size), INVALID_ARGUMENT);
    assert_eq!(image::readable::<Images>(&mut counters, 0x1000, 16), OK);
    assert_eq!(image::readable::<Images>(&mut counters, 0x9000, 16), NOT_FOUND);
    assert_eq!(image::readable::<Images>(&mut counters, usize::MAX, 16), INVALID_ARGUMENT);
    let mut buffer = OutArray { address: ALIGNED, items: vec![0u8; 8] };
    let mut needed = Output { address: ALIGNED, value: 0usize };
    assert_eq!(image::build_id::<Images>(&mut counters, 0x1000, &mut buffer, 8, &mut needed), BUFFER_TOO_SMALL);
    assert_eq!((needed.value, buffer.items.clone()), (20, vec![0u8; 8]));
    let mut buffer = OutArray { address: ALIGNED, items: vec![0u8; 32] };
    assert_eq!(image::build_id::<Images>(&mut counters, 0x1000, &mut buffer, 32, &mut needed), OK);
    assert_eq!(needed.value, 20);
    assert_eq!(&buffer.items[..20], &[0xABu8; 20][..]);
}

struct Sockets;
impl LocalSockets for Sockets {
    fn bind(_socket: usize, _path: &[u8]) -> Result<(), Error> {
        Err(Error::AddressInUse)
    }
    fn connect(_socket: usize, _path: &[u8]) -> Result<(), Error> {
        Ok(())
    }
    fn address(_socket: usize, _peer: bool, out: &mut Vec<u8>, capacity: usize) -> Result<usize, Error> {
        let text = b"/run/app.sock\0";
        if capacity >= text.len() {
            out[..text.len()].copy_from_slice(text);
        }
        Ok(text.len())
    }
    fn peer_user(_socket: usize) -> Result<u32, Error> {
        Err(Error::NotConnected)
    }
}

#[test]
fn local_sockets_check_paths_and_answers() {
    let mut counters = Counters::new(5);
    assert_eq!(local_sockets::bind::<Sockets>(&mut counters, 1, ALIGNED, b"/run/x"), dotnet_pal::io::ADDRESS_IN_USE);
    assert_eq!(local_sockets::connect::<Sockets>(&mut counters, 1, ALIGNED, b"/run/x"), OK);
    assert_eq!(local_sockets::connect::<Sockets>(&mut counters, 0, ALIGNED, b"/run/x"), INVALID_ARGUMENT);
    let mut buffer = OutArray { address: ALIGNED, items: vec![7u8; 4] };
    let mut needed = Output { address: ALIGNED, value: 9usize };
    assert_eq!(local_sockets::address::<Sockets>(&mut counters, 1, 0, &mut buffer, 4, &mut needed), BUFFER_TOO_SMALL);
    assert_eq!((needed.value, buffer.items.clone()), (14, vec![0u8; 4]));
    let mut buffer = OutArray { address: ALIGNED, items: vec![0u8; 32] };
    assert_eq!(local_sockets::address::<Sockets>(&mut counters, 1, 1, &mut buffer, 32, &mut needed), OK);
    assert_eq!(&buffer.items[..14], b"/run/app.sock\0");
    assert_eq!(local_sockets::address::<Sockets>(&mut counters, 1, 2, &mut buffer, 32, &mut needed), INVALID_ARGUMENT);
    assert_eq!(needed.value, 0);
    let mut user = Output { address: ALIGNED, value: 5u32 };
    assert_eq!(local_sockets::peer_user::<Sockets>(&mut counters, 1, &mut user), dotnet_pal::io::NOT_CONNECTED);
    assert_eq!(user.value, u32::MAX);
}

struct Trap;
impl Faults for Trap {
    fn enable() -> Result<(), Error> {
        Err(Error::Unsupported)
    }
}
struct GoodTrap;
impl Faults for GoodTrap {
    fn enable() -> Result<(), Error> {
        Ok(())
    }
}

#[test]
fn faults_install_through_the_provider() {
    let mut counters = Counters::new(5);
    let mut state = Installation::new();
    assert_eq!(faults::install::<Trap>(&mut state, Some(0x100), 0, &mut counters), UNSUPPORTED);
    assert_eq!(faults::install::<GoodTrap>(&mut state, Some(0x100), 0, &mut counters), OK);
    assert_eq!(faults::install::<GoodTrap>(&mut state, Some(0x200), 0, &mut counters), kernel::BUSY);
    assert_eq!(faults::install::<GoodTrap>(&mut state, None, 0, &mut counters), INVALID_ARGUMENT);
}

#[test]
fn a_fault_reaches_the_installed_handler_once() {
    let mut counters = Counters::new(5);
    let mut state = Installation::new();
    let calls = std::cell::Cell::new(0u32);
    let seen = std::cell::Cell::new((0usize, 0u32, 0usize, 0usize, 0usize, 0usize));
    let handler = |h: usize, k: u32, a: usize, f: usize, size: usize, d: usize| {
        calls.set(calls.get() + 1);
        seen.set((h, k, a, f, size, d));
        if a == 0xdead { faults::RESUME } else { faults::UNHANDLED }
    };
    // No handler yet: nothing is called.
    assert_eq!(faults::deliver(&state, faults::ACCESS, 0xdead, 0x8000, 64, &handler, &mut counters), faults::Disposition::Unhandled);
    assert_eq!(calls.get(), 0);
    assert_eq!(faults::install::<GoodTrap>(&mut state, Some(0x100), 0x77, &mut counters), OK);
    assert_eq!(faults::deliver(&state, faults::ACCESS, 0xdead, 0x8000, 64, &handler, &mut counters), faults::Disposition::Resume);
    assert_eq!((calls.get(), seen.get()), (1, (0x100, faults::ACCESS, 0xdead, 0x8000, 64, 0x77)));
    assert_eq!(faults::deliver(&state, faults::ACCESS, 0xbeef, 0x8000, 64, &handler, &mut counters), faults::Disposition::Unhandled);
    assert_eq!(calls.get(), 2);
    // An unknown kind reaches no handler.
    assert_eq!(faults::deliver(&state, 0, 0xdead, 0x8000, 64, &handler, &mut counters), faults::Disposition::Unhandled);
    assert_eq!(calls.get(), 2);
    assert_eq!(counters.load(faults::DELIVERED), 2);
    assert_eq!(counters.load(faults::RESUMED), 1);
}

fn signals() -> Signals {
    Signals { activation: 34, segmentation: 11, bus: 7, floating_point: 8, illegal_instruction: 4 }
}

struct Fresh;
impl SignalActions for Fresh {
    fn previous(_signal: i32) -> Option<(bool, i32)> {
        Some((false, 0))
    }
    fn set(_signal: i32, _flags: i32, _keep_mask: bool) -> bool {
        true
    }
    fn put_back(_signal: i32) -> bool {
        true
    }
}
struct Taken;
impl SignalActions for Taken {
    fn previous(_signal: i32) -> Option<(bool, i32)> {
        Some((true, 0))
    }
    fn set(_signal: i32, _flags: i32, _keep_mask: bool) -> bool {
        true
    }
    fn put_back(_signal: i32) -> bool {
        false
    }
}

#[test]
fn signal_handlers_install_once() {
    let s = signals();
    let mut regs = Registrations::new();
    // Another installer's handler is already there: BUSY, and the claim is given back.
    assert_eq!(linux::install_sequence::<Taken>(&mut regs, 1, 0x100, 0x200, &s, 0x10000000, 4, 0x08000000), kernel::BUSY);
    assert!(!regs.slots[1].claimed);
    assert_eq!(linux::restore_sequence::<Fresh>(&regs, 1, &s), INVALID_ARGUMENT);
    assert_eq!(linux::install_sequence::<Fresh>(&mut regs, 1, 0x100, 0x200, &s, 0x10000000, 4, 0x08000000), OK);
    assert_eq!(regs.dispatch(11), Some((0x100, 0x200)));
    assert_eq!(linux::restore_sequence::<Taken>(&regs, 1, &s), OS_ERROR);
    assert_eq!(linux::restore_sequence::<Fresh>(&regs, 1, &s), OK);
    assert_eq!(linux::install_sequence::<Fresh>(&mut regs, 1, 0x300, 0, &s, 0x10000000, 4, 0x08000000), kernel::BUSY);
    assert_eq!(regs.dispatch(11), Some((0x100, 0x200)));
    assert_eq!(linux::install_sequence::<Fresh>(&mut regs, 9, 0x300, 0, &s, 0x10000000, 4, 0x08000000), INVALID_ARGUMENT);
}

#[test]
fn counters_count_every_increment_until_they_saturate() {
    let mut c = Counter(usize::MAX - 3);
    for _ in 0..10 {
        c.increment();
    }
    assert_eq!(c.load(), usize::MAX as u64);
    let mut c = Counter::new();
    for _ in 0..5 {
        c.increment();
    }
    assert_eq!(c.load(), 5);
    let mut stateless = StatelessCounter::new(3);
    assert_eq!(stateless.fetch_add(4), 0);
    assert_eq!(stateless.load(), 0);
}

#[test]
fn cgroup_discovery_finds_both_controllers() {
    let mountinfo: Vec<Vec<u8>> = vec![
        b"30 25 0:26 / /sys/fs/cgroup/memory rw - cgroup cgroup rw,memory".to_vec(),
        b"31 25 0:27 / /sys/fs/cgroup/cpu,cpuacct rw - cgroup cgroup rw,cpu,cpuacct".to_vec(),
    ];
    let cgroup: Vec<Vec<u8>> = vec![b"5:cpu,cpuacct:/app".to_vec(), b"4:memory:/app".to_vec()];
    let groups = discover_cgroups(1, &mountinfo, &cgroup);
    assert_eq!(groups.memory.as_slice(), b"/sys/fs/cgroup/memory/app");
    assert_eq!(groups.memory_mount.as_slice(), b"/sys/fs/cgroup/memory");
    assert_eq!(groups.cpu.as_slice(), b"/sys/fs/cgroup/cpu,cpuacct/app");
    let none = discover_cgroups(1, &mountinfo[..1].to_vec(), &cgroup);
    assert_eq!(none.cpu.as_slice(), b"");
    assert_eq!(Path::new().as_slice(), b"");
}

#[test]
fn kernel_calls_on_handles_go_through_the_provider() {
    let mut counters = Counters::new(12);
    assert_eq!(kernel::event_destroy::<Native>(&mut counters, 0), INVALID_ARGUMENT);
    assert_eq!(counters.load(kernel::FAILED), 1);
    assert_eq!(kernel::event_destroy::<Native>(&mut counters, 1), OK);
    // BUSY belongs to the lifecycle calls.
    assert_eq!(kernel::event_reset::<Native>(&mut counters, 1), kernel::BUSY);
    assert_eq!(counters.load(kernel::FAILED), 2);
    // TIMEOUT is no lifecycle answer.
    assert_eq!(kernel::mutex_destroy::<Native>(&mut counters, 1), OS_ERROR);
    assert_eq!(kernel::mutex_unlock::<Native>(&mut counters, 1), OK);
    assert_eq!(kernel::thread_join::<Native>(&mut counters, 1), OK);
    assert_eq!(kernel::thread_detach::<Native>(&mut counters, 1), INVALID_ARGUMENT);
    assert_eq!(kernel::tls_destroy::<Native>(&mut counters, 1), OK);
    assert_eq!(counters.load(kernel::FAILED), 4);
    assert_eq!(kernel::event_set::<Native>(&mut counters, 1), OK);
    assert_eq!(counters.load(kernel::EVENT_SET), 1);
    assert_eq!(kernel::event_wait::<Native>(&mut counters, 1, 0), kernel::TIMEOUT);
    assert_eq!(counters.load(kernel::EVENT_TIMEOUT), 1);
    assert_eq!(kernel::event_wait::<Native>(&mut counters, 1, kernel::INFINITE), OK);
    assert_eq!(counters.load(kernel::EVENT_WAIT), 1);
    // BUSY from a counted call is a broken provider.
    assert_eq!(kernel::mutex_lock::<Native>(&mut counters, 1), OS_ERROR);
    assert_eq!(kernel::tls_set::<Native>(&mut counters, 0, 7), INVALID_ARGUMENT);
    assert_eq!(kernel::tls_set::<Native>(&mut counters, 1, 7), OK);
    assert_eq!(counters.load(kernel::TLS_SET), 1);
    let mut out = Output { address: ALIGNED, value: 9usize };
    assert_eq!(kernel::tls_get::<Native>(&mut counters, 1, &mut out), OK);
    assert_eq!(out.value, 0x42);
    assert_eq!(kernel::tls_get::<Native>(&mut counters, 2, &mut out), OS_ERROR);
    assert_eq!(out.value, 0);
    let mut unaligned = Output { address: ALIGNED + 1, value: 9usize };
    assert_eq!(kernel::tls_get::<Native>(&mut counters, 1, &mut unaligned), INVALID_ARGUMENT);
    assert_eq!(unaligned.value, 9);
}

struct Listing;
impl Files for Listing {
    fn read_directory(directory: usize, name: &mut Vec<u8>, _capacity: usize) -> Result<(usize, u32), Error> {
        // Directory 2 lists a name with a slash, directory 3 fails, directory 5 lists
        // "log", and any other shrinks the buffer.
        match directory {
            5 => {
                name[..3].copy_from_slice(b"log");
                Ok((3, files::NODE_DIRECTORY))
            }
            2 => {
                name[..3].copy_from_slice(b"a/b");
                Ok((3, files::NODE_FILE))
            }
            3 => Err(Error::AccessDenied),
            _ => {
                name.truncate(4);
                Ok((1, files::NODE_FILE))
            }
        }
    }
    fn current_directory(out: &mut Vec<u8>, capacity: usize) -> Result<usize, Error> {
        let text = b"/srv\0";
        if capacity >= text.len() {
            out[..text.len()].copy_from_slice(text);
        }
        Ok(text.len())
    }
}

#[test]
fn directory_reads_check_the_provider() {
    let mut counters = Counters::new(files::COUNTERS);
    let mut length = Output { address: ALIGNED, value: 7usize };
    let mut kind = Output { address: ALIGNED + 8, value: 7u32 };
    let mut name = OutArray { address: ALIGNED, items: vec![0xEEu8; 256] };
    assert_eq!(files::directory_read::<Listing>(&mut counters, 2, &mut name, 256, &mut length, &mut kind), OS_ERROR);
    assert_eq!((length.value, kind.value), (0, 0));
    assert!(name.items.iter().all(|b| *b == 0));
    assert_eq!(files::directory_read::<Listing>(&mut counters, 3, &mut name, 256, &mut length, &mut kind), dotnet_pal::io::ACCESS_DENIED);
    assert_eq!(files::directory_read::<Listing>(&mut counters, 4, &mut name, 256, &mut length, &mut kind), OS_ERROR);
    assert_eq!(name.items.len(), 256);
    assert_eq!(files::directory_read::<Listing>(&mut counters, 0, &mut name, 256, &mut length, &mut kind), INVALID_ARGUMENT);
    let mut small = OutArray { address: ALIGNED, items: vec![0u8; 16] };
    assert_eq!(files::directory_read::<Listing>(&mut counters, 2, &mut small, 16, &mut length, &mut kind), INVALID_ARGUMENT);
    assert_eq!(counters.load(files::FAILED), 5);
    assert_eq!(files::directory_read::<Listing>(&mut counters, 5, &mut name, 256, &mut length, &mut kind), OK);
    assert_eq!((length.value, kind.value, &name.items[..4]), (3, files::NODE_DIRECTORY, &b"log\0"[..]));
    let mut buffer = OutArray { address: ALIGNED, items: vec![0u8; 3] };
    let mut needed = Output { address: ALIGNED, value: 0usize };
    assert_eq!(files::current_directory::<Listing>(&mut counters, &mut buffer, 3, &mut needed), BUFFER_TOO_SMALL);
    assert_eq!((needed.value, buffer.items.clone()), (5, vec![0u8; 3]));
    let mut buffer = OutArray { address: ALIGNED, items: vec![0u8; 8] };
    assert_eq!(files::current_directory::<Listing>(&mut counters, &mut buffer, 8, &mut needed), OK);
    assert_eq!((needed.value, &buffer.items[..5]), (5, &b"/srv\0"[..]));
    assert_eq!(counters.load(files::DIRECTORY), 2);
}
