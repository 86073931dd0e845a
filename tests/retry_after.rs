use emicon::bucket::{RefillRate, TokenBucket};
use emicon::retry_after::{delay_until, parse_decimal_u64, retry_after_at, FALLBACK_NANOS};

const SEC: u64 = 1_000_000_000;
// Wed, 21 Oct 2015 07:28:00 GMT
const DATE_SECS: u64 = 1_445_412_480;

fn bucket() -> TokenBucket {
    TokenBucket::new(1, RefillRate { tokens: 1, per_secs: 1 }, 0).ok().unwrap()
}

#[test]
fn seconds_value() {
    let b = bucket();
    assert_eq!(b.parse_retry_after("120"), 120 * SEC);
    assert_eq!(b.parse_retry_after("  120 \t"), 120 * SEC);
    assert_eq!(b.parse_retry_after("0"), 0);
}

#[test]
fn past_date_is_zero() {
    let b = bucket();
    assert_eq!(b.parse_retry_after("Wed, 21 Oct 2015 07:28:00 GMT"), 0);
}

#[test]
fn future_date_counts_down() {
    let now = (DATE_SECS as u128 - 5) * SEC as u128;
    assert_eq!(retry_after_at("Wed, 21 Oct 2015 07:28:00 GMT", now), 5 * SEC);
    assert_eq!(retry_after_at(" Wednesday, 21-Oct-15 07:28:00 GMT ", now), 5 * SEC);
    assert_eq!(retry_after_at("Wed Oct 21 07:28:00 2015", now + 1), 5 * SEC - 1);
    assert_eq!(retry_after_at("Wed, 21 Oct 2015 07:28:00 GMT", now + 10 * SEC as u128), 0);
}

#[test]
fn unreadable_value_falls_back() {
    let b = bucket();
    assert_eq!(b.parse_retry_after("soon"), 30 * SEC);
    assert_eq!(b.parse_retry_after(""), FALLBACK_NANOS);
    assert_eq!(b.parse_retry_after("-5"), FALLBACK_NANOS);
    assert_eq!(retry_after_at("1.5", 0), FALLBACK_NANOS);
}

#[test]
fn huge_seconds_saturate() {
    assert_eq!(retry_after_at("18446744073709551615", 0), u64::MAX);
    assert_eq!(retry_after_at("18446744074", 0), u64::MAX);
    assert_eq!(retry_after_at("18446744073", 0), 18_446_744_073 * SEC);
}

#[test]
fn decimal_parsing() {
    assert_eq!(parse_decimal_u64("120"), Some(120));
    assert_eq!(parse_decimal_u64("+7"), Some(7));
    assert_eq!(parse_decimal_u64("007"), Some(7));
    assert_eq!(parse_decimal_u64("18446744073709551615"), Some(u64::MAX));
    assert_eq!(parse_decimal_u64("18446744073709551616"), None);
    assert_eq!(parse_decimal_u64(""), None);
    assert_eq!(parse_decimal_u64("+"), None);
    assert_eq!(parse_decimal_u64("-1"), None);
    assert_eq!(parse_decimal_u64("12a"), None);
    assert_eq!(parse_decimal_u64(" 1"), None);
}

#[test]
fn delay_until_dates() {
    assert_eq!(delay_until(10, 0), 10 * SEC);
    assert_eq!(delay_until(10, 10 * SEC as u128), 0);
    assert_eq!(delay_until(10, 11 * SEC as u128), 0);
    assert_eq!(delay_until(u64::MAX, 0), u64::MAX);
}
