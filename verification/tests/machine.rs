use dotnet_pal::machine::{self, affinity, bind, current, query, CpuList, MAX_CPUS, ONLINE_CPUS, PAGE_BYTES};
use dotnet_pal::port::{Error, Machine};
use dotnet_pal::runtime::BUFFER_TOO_SMALL;
use dotnet_pal::{OutArray, Output, INVALID_ARGUMENT, OK, OS_ERROR, UNSUPPORTED};

struct Model<const MODE: u8>;

impl<const MODE: u8> Machine for Model<MODE> {
    fn query(kind: u32) -> Result<u64, Error> {
        Ok(match MODE {
            1 => 0,
            2 => MAX_CPUS as u64 + 1,
            _ => {
                if kind == PAGE_BYTES {
                    4096
                } else {
                    8
                }
            }
        })
    }
    fn process_affinity(out: &mut Vec<u32>, capacity: usize) -> Result<CpuList, Error> {
        if MODE == 3 {
            return Ok(CpuList::Written(capacity + 1));
        }
        if MODE == 4 {
            return Ok(CpuList::Required(MAX_CPUS + 1));
        }
        if MODE == 5 {
            return Ok(CpuList::Required(capacity));
        }
        if capacity < 2 {
            return Ok(CpuList::Required(2));
        }
        out[0] = 1;
        out[1] = if MODE == 6 { 1 } else { 7 };
        if MODE == 7 {
            return Err(Error::Os);
        }
        Ok(CpuList::Written(2))
    }
    fn bind_current(_: u32) -> Result<(), Error> {
        Ok(())
    }
    fn current_cpu() -> Result<u32, Error> {
        Ok(if MODE == 8 { u32::MAX } else { 7 })
    }
}

/// Addresses of caller storage, aligned for every output type.
const COUNT_AT: usize = 0x1000;
const LIST_AT: usize = 0x2000;

#[test]
fn query_validation_and_failure_output() {
    let mut counters = machine::counters();
    let mut n = Output { address: COUNT_AT, value: 99u64 };
    assert_eq!(query::<Model<0>>(&mut counters, PAGE_BYTES, &mut n), OK);
    assert_eq!(n.value, 4096);
    assert_eq!(query::<Model<1>>(&mut counters, ONLINE_CPUS, &mut n), OS_ERROR);
    assert_eq!(n.value, 0);
    assert_eq!(query::<Model<2>>(&mut counters, ONLINE_CPUS, &mut n), OS_ERROR);
    assert_eq!(n.value, 0);
    assert_eq!(query::<Model<0>>(&mut counters, 99, &mut n), UNSUPPORTED);
    assert_eq!(n.value, 0);
    let mut null = Output { address: 0, value: 0u64 };
    assert_eq!(query::<Model<0>>(&mut counters, ONLINE_CPUS, &mut null), INVALID_ARGUMENT);
}

#[test]
fn affinity_sizing_and_copy() {
    let mut counters = machine::counters();
    let mut n = Output { address: COUNT_AT, value: 99usize };
    let mut none = OutArray { address: 0, items: Vec::new() };
    assert_eq!(affinity::<Model<0>>(&mut counters, &mut none, 0, &mut n), BUFFER_TOO_SMALL);
    assert_eq!(n.value, 2);
    let mut list = OutArray { address: LIST_AT, items: vec![99, 99, 99] };
    assert_eq!(affinity::<Model<0>>(&mut counters, &mut list, 3, &mut n), OK);
    assert_eq!(n.value, 2);
    assert_eq!(list.items, vec![1, 7, 0]);
}

fn rejected<const MODE: u8>() {
    let mut counters = machine::counters();
    let mut list = OutArray { address: LIST_AT, items: vec![99, 99, 99] };
    let mut n = Output { address: COUNT_AT, value: 99usize };
    assert_eq!(affinity::<Model<MODE>>(&mut counters, &mut list, 3, &mut n), OS_ERROR);
    assert_eq!(list.items, vec![0, 0, 0]);
    assert_eq!(n.value, 0);
}

#[test]
fn invalid_host_counts_and_duplicates_are_rejected() {
    rejected::<3>();
    rejected::<4>();
    rejected::<5>();
    rejected::<6>();
    rejected::<7>();
}

#[test]
fn output_overlap_and_bad_geometry_are_rejected_without_access() {
    let mut counters = machine::counters();
    let p = COUNT_AT;
    let mut list = OutArray { address: p, items: vec![55, 55] };
    let mut n = Output { address: p, value: 55usize };
    assert_eq!(affinity::<Model<0>>(&mut counters, &mut list, 2, &mut n), INVALID_ARGUMENT);
    assert_eq!(list.items, vec![55, 55]);
    assert_eq!(n.value, 55);
    let mut none = OutArray { address: 0, items: vec![55; MAX_CPUS + 1] };
    assert_eq!(affinity::<Model<0>>(&mut counters, &mut none, MAX_CPUS + 1, &mut n), INVALID_ARGUMENT);
    assert_eq!(n.value, 55);
}

#[test]
fn current_cpu_and_binding_bounds() {
    let mut counters = machine::counters();
    let mut cpu = Output { address: COUNT_AT, value: 10u32 };
    assert_eq!(current::<Model<8>>(&mut counters, &mut cpu), OS_ERROR);
    assert_eq!(cpu.value, u32::MAX);
    assert_eq!(current::<Model<0>>(&mut counters, &mut cpu), OK);
    assert_eq!(cpu.value, 7);
    assert_eq!(bind::<Model<0>>(&mut counters, MAX_CPUS as u32), INVALID_ARGUMENT);
}

#[test]
fn statistics_count_successes_and_rejections() {
    let mut counters = machine::counters();
    let mut cpu = Output { address: COUNT_AT, value: 0u32 };
    assert_eq!(current::<Model<0>>(&mut counters, &mut cpu), OK);
    assert_eq!(bind::<Model<0>>(&mut counters, 1), OK);
    assert_eq!(bind::<Model<0>>(&mut counters, MAX_CPUS as u32), INVALID_ARGUMENT);
    let s = machine::stats(&counters);
    assert_eq!(s.current_ok, 1);
    assert_eq!(s.bind_ok, 1);
    assert_eq!(s.rejected, 1);
}
