use eggtimer::{Duration, FromDuration, ToDuration, NANOS_PER_SEC};

#[test]
fn new_carries_nanoseconds_into_seconds() {
    let d = Duration::new(1, 1_500_000_000);
    assert_eq!(d.as_secs(), 2);
    assert_eq!(d.subsec_nanos(), 500_000_000);
}

#[test]
fn from_secs_has_no_sub_second_part() {
    let d = Duration::from_secs(7);
    assert_eq!(d.as_secs(), 7);
    assert_eq!(d.subsec_nanos(), 0);
    assert!(!d.is_zero());
    assert!(Duration::zero().is_zero());
}

#[test]
fn checked_sub_borrows_a_second() {
    let a = Duration::new(3, 100);
    let b = Duration::new(1, 200);
    let r = a.checked_sub(&b).unwrap();
    assert_eq!(r, Duration::new(1, NANOS_PER_SEC - 100));
}

#[test]
fn checked_sub_underflow_is_none() {
    let a = Duration::new(1, 0);
    let b = Duration::new(1, 1);
    assert_eq!(a.checked_sub(&b), None);
    assert_eq!(a.checked_sub(&a), Some(Duration::zero()));
}

#[test]
fn checked_add_carries_and_overflows() {
    let a = Duration::new(1, 700_000_000);
    let b = Duration::new(2, 600_000_000);
    assert_eq!(a.checked_add(&b), Some(Duration::new(4, 300_000_000)));
    let big = Duration::new(u64::MAX, 999_999_999);
    assert_eq!(big.checked_add(&Duration::new(0, 1)), None);
    assert_eq!(big.checked_add(&Duration::zero()), Some(big));
}

#[test]
fn saturating_add_holds_at_the_largest_span() {
    let big = Duration::new(u64::MAX, 999_999_999);
    assert_eq!(big.saturating_add(&Duration::from_secs(1)), big);
    assert_eq!(
        Duration::from_secs(1).saturating_add(&Duration::new(0, 5)),
        Duration::new(1, 5)
    );
}

#[test]
fn at_least_compares_whole_spans() {
    assert!(Duration::new(2, 0).at_least(&Duration::new(1, 999_999_999)));
    assert!(Duration::new(1, 5).at_least(&Duration::new(1, 5)));
    assert!(!Duration::new(1, 4).at_least(&Duration::new(1, 5)));
}

#[test]
fn integers_convert_to_whole_seconds() {
    assert_eq!(5u8.to_duration(), Duration::from_secs(5));
    assert_eq!(300u16.to_duration(), Duration::from_secs(300));
    assert_eq!(70_000u32.to_duration(), Duration::from_secs(70_000));
    assert_eq!(9u64.to_duration(), Duration::from_secs(9));
    assert_eq!(11u128.to_duration(), Duration::from_secs(11));
    assert_eq!(13usize.to_duration(), Duration::from_secs(13));
    let d = Duration::new(4, 2);
    assert_eq!(d.to_duration(), d);
}

#[test]
fn durations_convert_to_whole_seconds() {
    let d = Duration::new(3, 999_999_999);
    assert_eq!(u64::from_duration(d), 3);
    assert_eq!(u128::from_duration(d), 3);
    assert_eq!(usize::from_duration(d), 3);
    assert_eq!(Duration::from_duration(d), d);
}
