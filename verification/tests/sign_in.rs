//! Who is signed in, and what a wrong PIN costs.

use servepoint::state::{Session, Throttle, FREE_ATTEMPTS, MAX_LOCKOUT_MS};

const NOW: i64 = 1_786_500_000_000;

#[test]
fn the_first_few_mistakes_are_free() {
    // A bartender mistyping at 2am must not be locked out of the till.
    let mut throttle = Throttle::default();
    for _ in 0..FREE_ATTEMPTS {
        assert_eq!(throttle.record_failure(NOW), 0);
        assert_eq!(throttle.locked_for(NOW), 0);
    }
}

#[test]
fn persistent_guessing_gets_progressively_expensive() {
    let mut throttle = Throttle::default();
    for _ in 0..FREE_ATTEMPTS {
        throttle.record_failure(NOW);
    }
    assert_eq!(throttle.record_failure(NOW), 5_000);
    assert_eq!(throttle.record_failure(NOW), 10_000);
    assert_eq!(throttle.record_failure(NOW), 20_000);
    assert_eq!(throttle.record_failure(NOW), 40_000);
}

#[test]
fn the_lockout_stops_growing_at_five_minutes() {
    // Never permanent: staff must always be able to get back in eventually
    // without an engineer.
    let mut throttle = Throttle::default();
    let mut last: i64 = 0;
    for _ in 0..40 {
        last = throttle.record_failure(NOW);
    }
    assert_eq!(last, MAX_LOCKOUT_MS);
}

#[test]
fn the_lock_expires_on_its_own() {
    let mut throttle = Throttle::default();
    for _ in 0..=FREE_ATTEMPTS {
        throttle.record_failure(NOW);
    }
    assert_eq!(throttle.locked_for(NOW), 5_000);
    assert_eq!(throttle.locked_for(NOW + 2_000), 3_000);
    assert_eq!(throttle.locked_for(NOW + 5_000), 0);
    assert_eq!(throttle.locked_for(NOW + 60_000), 0);
}

#[test]
fn getting_it_right_clears_the_record() {
    let mut throttle = Throttle::default();
    for _ in 0..6 {
        throttle.record_failure(NOW);
    }
    throttle.record_success();
    assert_eq!(throttle.failures(), 0);
    assert_eq!(throttle.locked_for(NOW), 0);
}

#[test]
fn a_session_knows_whether_it_may_change_settings() {
    let owner = Session {
        staff_id: 7,
        code: "OWN-1".into(),
        name: "Selam".into(),
        role: "OWNER".into(),
    };
    let cashier = Session {
        role: "CASHIER".into(),
        ..owner.clone()
    };
    assert!(owner.is_owner());
    assert!(!cashier.is_owner());
}
