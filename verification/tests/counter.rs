use dotnet_pal::counter::{Counter, Counters};
use dotnet_pal::counters;

#[test]
fn saturates_instead_of_wrapping() {
    let mut c = Counter(usize::MAX - 1);
    c.increment();
    c.increment();
    assert_eq!(c.load(), usize::MAX as u64);
}

#[test]
fn a_bank_counts_one_slot_at_a_time() {
    let mut bank = Counters::new(3);
    bank.increment(1);
    bank.increment(1);
    bank.increment(2);
    assert_eq!(bank.load(0), 0);
    assert_eq!(bank.load(1), 2);
    assert_eq!(bank.load(2), 1);
}

#[test]
fn a_wrapping_counter_wraps() {
    let mut c = counters::Counter::new(u64::MAX);
    assert_eq!(c.fetch_add(2), u64::MAX);
    assert_eq!(c.load(), 1);
}
