//! Tests for the revision-counter scheme, run against the real
//! order-preserving cipher.

use tor_hscrypto::ope::{AesOpeKey, SrvPeriodOffset};
use tor_hsservice::errors::FatalError;
use tor_hsservice::revision::{
    generate_revision_counter, offset_within_period, revision_counters_in_order, TimePeriod,
};

fn day_period() -> TimePeriod {
    TimePeriod { interval_num: 3, length_minutes: 1440, epoch_offset_secs: 0 }
}

#[test]
fn offsets_within_period() {
    let p = day_period();
    let start_ms: u64 = 3 * 1440 * 60 * 1000;
    assert_eq!(offset_within_period(p, start_ms), Some(0));
    assert_eq!(offset_within_period(p, start_ms + 5_000), Some(5));
    assert_eq!(offset_within_period(p, start_ms + 5_999), Some(5));
    // Before the period, and from its end on, there is no offset.
    assert_eq!(offset_within_period(p, start_ms - 1), None);
    assert_eq!(offset_within_period(p, start_ms + 1440 * 60 * 1000), None);
}

#[test]
fn counters_strictly_increase_within_period() {
    let secret = vec![7u8; 32];
    let p = day_period();
    let start_ms: u64 = 3 * 1440 * 60 * 1000;
    let (c1, c2) =
        revision_counters_in_order(&secret, p, start_ms + 1_000, start_ms + 9_000).unwrap();
    assert!(c1 < c2);
}

#[test]
fn counters_are_deterministic_and_real() {
    let secret = vec![42u8; 32];
    let p = day_period();
    let start_ms: u64 = 3 * 1440 * 60 * 1000;
    let t = start_ms + 17_000;
    let a = generate_revision_counter(&secret, p, t).unwrap();
    let b = generate_revision_counter(&secret, p, t).unwrap();
    assert_eq!(a, b);
    // The counter is exactly what the cipher produces for this offset.
    let direct = AesOpeKey::from_secret(&secret).encrypt(SrvPeriodOffset::from(17u32));
    assert_eq!(a, direct);
}

#[test]
fn wall_clock_outside_period_is_an_error() {
    let secret = vec![1u8; 32];
    let p = day_period();
    match generate_revision_counter(&secret, p, 0) {
        Err(FatalError::Bug) => {}
        other => panic!("expected an internal error, got {:?}", other),
    }
}
