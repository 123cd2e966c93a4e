use server::limits::{ClientLimits, Limit, TokenBucket};

const SEC: u128 = 1_000_000_000;

#[test]
fn bucket_drains_and_refills() {
    let t0: u128 = 5 * SEC;
    let mut b = TokenBucket::new(2, 1_000, t0);
    assert!(b.try_take(t0));
    assert!(b.try_take(t0));
    assert!(!b.try_take(t0));
    assert!(b.try_take(t0 + 1000 * 1_000_000));
    assert!(!b.try_take(t0 + 1000 * 1_000_000));
    // Never exceeds capacity.
    assert!(b.try_take(t0 + 100 * SEC));
    assert!(b.try_take(t0 + 100 * SEC));
    assert!(!b.try_take(t0 + 100 * SEC));
}

#[test]
fn a_token_is_back_exactly_when_it_is_due() {
    let mut b = TokenBucket::new(1, 500, 0);
    assert!(b.try_take(0));
    assert!(!b.try_take(2 * SEC - 1));
    assert!(b.try_take(2 * SEC));
}

#[test]
fn a_clock_that_goes_back_gives_nothing() {
    let mut b = TokenBucket::new(1, 1_000, 10 * SEC);
    assert!(b.try_take(10 * SEC));
    assert!(!b.try_take(5 * SEC));
    assert!(b.try_take(6 * SEC));
}

#[test]
fn far_futures_do_not_overflow() {
    let mut b = TokenBucket::new(u32::MAX, u32::MAX, 0);
    assert!(b.try_take(u128::MAX));
    let mut never = TokenBucket::new(0, 0, 0);
    assert!(!never.try_take(u128::MAX));
}

fn burst(which: Limit) -> usize {
    let mut limits = ClientLimits::new(7);
    let mut n = 0;
    while limits.try_take(which, 7) {
        n += 1;
    }
    n
}

#[test]
fn bursts_are_what_they_should_be() {
    assert_eq!(burst(Limit::Chat), 5);
    assert_eq!(burst(Limit::Moves), 40);
    assert_eq!(burst(Limit::RoomUpdates), 10);
    assert_eq!(burst(Limit::UserData), 3);
    assert_eq!(burst(Limit::Auth), 5);
    assert_eq!(burst(Limit::Joins), 10);
}

#[test]
fn budgets_do_not_touch_each_other() {
    let mut limits = ClientLimits::new(0);
    while limits.try_take(Limit::Chat, 0) {}
    assert!(limits.try_take(Limit::Moves, 0));
    assert!(limits.try_take(Limit::Auth, 0));
    assert!(!limits.try_take(Limit::Chat, 2 * SEC - 1));
    assert!(limits.try_take(Limit::Chat, 2 * SEC));
}

#[test]
fn no_more_is_granted_than_was_held_and_regained() {
    let mut b = TokenBucket::new(5, 500, 0);
    let mut granted = 0u128;
    let mut now = 0u128;
    for step in 0..200u128 {
        now += (step % 7) * 100_000_000;
        if b.try_take(now) {
            granted += 1;
        }
    }
    assert!(granted * 1_000_000_000_000 <= 5_000_000_000_000 + now * 500);
}
