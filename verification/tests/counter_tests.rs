use stellar_wallet_tools::counter::{CounterContract, LIVENESS_WINDOW};

#[test]
fn new_contract_reports_zero() {
    let contract = CounterContract::new();
    assert_eq!(contract.stored, None);
    assert_eq!(contract.get_count(), 0);
    assert_eq!(contract.live_for, 0);
}

#[test]
fn initialize_stores_and_renews() {
    let mut contract = CounterContract::new();
    contract.initialize(7);
    assert_eq!(contract.stored, Some(7));
    assert_eq!(contract.get_count(), 7);
    assert_eq!(contract.live_for, LIVENESS_WINDOW);
    assert_eq!(LIVENESS_WINDOW, 604_800);
}

#[test]
fn initialize_takes_every_count() {
    for count in [0, 1, 41, u32::MAX] {
        let mut contract = CounterContract::new();
        contract.initialize(count);
        assert_eq!(contract.stored, Some(count));
    }
}

#[test]
fn increment_before_initialize_counts_from_zero_and_stores() {
    let mut contract = CounterContract::new();
    assert_eq!(contract.increment(3), 3);
    // The contract holds a count now, as after an initialization.
    assert_eq!(contract.stored, Some(3));
    assert_eq!(contract.get_count(), 3);
}

#[test]
fn increment_stops_at_the_largest_number() {
    let mut contract = CounterContract::new();
    contract.initialize(u32::MAX - 2);
    assert_eq!(contract.increment(1), u32::MAX - 1);
    assert_eq!(contract.increment(5), u32::MAX);
    assert_eq!(contract.increment(u32::MAX), u32::MAX);
    assert_eq!(contract.get_count(), u32::MAX);
}

#[test]
fn decrement_to_zero_is_allowed() {
    let mut contract = CounterContract::new();
    contract.initialize(5);
    assert_eq!(contract.decrement(5), 0);
    assert_eq!(contract.decrement(0), 0);
    assert_eq!(contract.get_count(), 0);
    assert_eq!(contract.stored, Some(0));
}

#[test]
fn decrement_by_nothing_before_initialize_stores_zero() {
    let mut contract = CounterContract::new();
    assert_eq!(contract.decrement(0), 0);
    assert_eq!(contract.stored, Some(0));
    assert_eq!(contract.live_for, LIVENESS_WINDOW);
}

#[test]
fn every_change_renews_the_liveness_window() {
    let mut contract = CounterContract { stored: Some(4), live_for: 1 };
    contract.increment(1);
    assert_eq!(contract.live_for, LIVENESS_WINDOW);
    contract.live_for = 2;
    assert_eq!(contract.decrement(1), 4);
    assert_eq!(contract.live_for, LIVENESS_WINDOW);
    contract.live_for = 3;
    assert_eq!(contract.get_count(), 4);
    assert_eq!(contract.live_for, 3);
}
