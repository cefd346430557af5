use lust_gc::accounting::AllocationCounter;

#[test]
fn new_counter_starts_at_zero() {
    let counter = AllocationCounter::new(100);
    assert_eq!(counter.allocated(), 0);
    assert_eq!(counter.threshold(), 100);
}

#[test]
fn threshold_zero_collects_on_every_allocation() {
    let mut counter = AllocationCounter::new(0);
    assert!(counter.record_allocation(16));
    assert_eq!(counter.allocated(), 0);
    assert!(counter.record_allocation(1));
    assert!(counter.record_allocation(0));
    assert_eq!(counter.allocated(), 0);
}

#[test]
fn allocations_add_up_to_the_threshold() {
    let mut counter = AllocationCounter::new(100);
    assert!(!counter.record_allocation(40));
    assert_eq!(counter.allocated(), 40);
    assert!(!counter.record_allocation(59));
    assert_eq!(counter.allocated(), 99);
    assert!(counter.record_allocation(1));
    assert_eq!(counter.allocated(), 0);
    assert!(!counter.record_allocation(99));
    assert_eq!(counter.allocated(), 99);
    assert_eq!(counter.threshold(), 100);
}

#[test]
fn an_amount_above_the_threshold_collects_at_once() {
    let mut counter = AllocationCounter::new(64);
    assert!(counter.record_allocation(65));
    assert_eq!(counter.allocated(), 0);
    assert!(counter.record_allocation(64));
    assert_eq!(counter.allocated(), 0);
}

#[test]
fn the_count_saturates() {
    let mut counter = AllocationCounter::new(i64::MAX);
    assert!(!counter.record_allocation(i64::MAX - 1));
    assert_eq!(counter.allocated(), i64::MAX - 1);
    assert!(counter.record_allocation(i64::MAX));
    assert_eq!(counter.allocated(), 0);
    let mut low = AllocationCounter::new(5);
    assert!(!low.record_allocation(i64::MIN));
    assert!(!low.record_allocation(-1));
    assert_eq!(low.allocated(), i64::MIN);
    assert!(!low.record_allocation(i64::MAX));
    assert_eq!(low.allocated(), -1);
    assert!(low.record_allocation(6));
}
