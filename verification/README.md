# dotnet_pal

A platform abstraction layer for a managed runtime, written in Verus: the
status codes, argument checks, provider-answer checks and capability
negotiation of the boundary, and the decisions behind the reference Linux
providers (procfs, sysfs and cgroup parsing, CPU lists, ELF program headers and
notes, and the bookkeeping of events, mutexes, signal registrations and child
processes), each with its contract and proof.

Layout:

- `src/` — the verified library. `lib.rs` holds the shared statuses, size and
  alignment rules and the once-only negotiation; one module per group
  (`kernel`, `machine`, `files`, `accounts`, `image`, `images`, `elf`,
  `context`, `faults`, `local_sockets`, `services`, `host`, …); `arena`,
  `linear` and `linear_heap` are the storage providers; `linux_platform` and
  `linux` hold the Linux providers' decisions, `windows_sockets` the desktop
  port's Winsock error mapping and poll readiness. `port` declares the provider
  traits, each method with a relation naming the answers a port may give for
  the arguments it is handed; each group's calls are composed over them (`kernel::event_create`,
  `files::directory_read`, `image::build_id`, `linux::install_sequence`, …),
  with outputs modelled as `Output` and `OutArray` values that carry their
  address, so alignment and null checks are stated in the contracts.
- `tests/` — executable tests of the library.
- `app/` — the Linux system calls and file reads around the library, with the
  C library's constants handed in as plain values; `Linux` there is the
  reference provider of the virtual-memory trait the library drives, `kernel`
  the pthread-backed events, mutexes, threads, keys and process barrier, and
  `storage` the byte side (zeroing) of the storage providers.
