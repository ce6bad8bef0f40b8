use std::time::Duration;
use vong::reconnect::ExponentialBackoff;

fn secs(n: u64) -> u128 {
    Duration::from_secs(n).as_nanos()
}

#[test]
fn backoff_doubles() {
    let mut b = ExponentialBackoff::new(5, secs(60));
    assert_eq!(b.next_delay(), Some(secs(1)));
    assert_eq!(b.next_delay(), Some(secs(2)));
    assert_eq!(b.next_delay(), Some(secs(4)));
    assert_eq!(b.next_delay(), Some(secs(8)));
    assert_eq!(b.next_delay(), Some(secs(16)));
}

#[test]
fn backoff_respects_cap() {
    let mut b = ExponentialBackoff::new(10, secs(10));
    let _ = b.next_delay();
    let _ = b.next_delay();
    let _ = b.next_delay();
    let _ = b.next_delay();
    assert_eq!(b.next_delay(), Some(secs(10)));
}

#[test]
fn backoff_exhausts() {
    let mut b = ExponentialBackoff::new(2, secs(30));
    assert!(b.next_delay().is_some());
    assert!(b.next_delay().is_some());
    assert_eq!(b.next_delay(), None);
    assert!(b.exhausted());
}

#[test]
fn backoff_reset() {
    let mut b = ExponentialBackoff::new(2, secs(30));
    let _ = b.next_delay();
    let _ = b.next_delay();
    assert!(b.exhausted());
    b.reset();
    assert!(!b.exhausted());
    assert_eq!(b.next_delay(), Some(secs(1)));
}

#[test]
fn default_is_three_attempts_30s_cap() {
    let mut b = ExponentialBackoff::default();
    let mut count = 0;
    while b.next_delay().is_some() {
        count += 1;
    }
    assert_eq!(count, 3);
}

#[test]
fn backoff_counts_attempts_and_caps_sub_second() {
    let mut b = ExponentialBackoff::new(3, Duration::from_millis(1500).as_nanos());
    assert_eq!(b.attempts(), 0);
    assert_eq!(b.next_delay(), Some(secs(1)));
    assert_eq!(b.next_delay(), Some(Duration::from_millis(1500).as_nanos()));
    assert_eq!(b.attempts(), 2);
}

#[test]
fn saturating_pow2_saturates() {
    assert_eq!(vong::reconnect::saturating_pow2(0), 1);
    assert_eq!(vong::reconnect::saturating_pow2(10), 1024);
    assert_eq!(vong::reconnect::saturating_pow2(63), 1u64 << 63);
    assert_eq!(vong::reconnect::saturating_pow2(64), u64::MAX);
    assert_eq!(vong::reconnect::saturating_pow2(1000), u64::MAX);
}
