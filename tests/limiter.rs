use emicon::bucket::{ConfigError, ConsumeStep, RefillRate};
use emicon::limiter::RateLimiter;
use emicon::limits::{HardLimitRegistry, Period};

const SEC: u64 = 1_000_000_000;

fn limiter(capacity: u32, tokens: u32, per_secs: u32) -> RateLimiter {
    RateLimiter::new(capacity, RefillRate { tokens, per_secs }, 0).ok().unwrap()
}

#[test]
fn hard_limit_three_per_minute() {
    let mut l = limiter(100, 100, 1);
    l.add_hard_limit("api".to_string(), 3, Period::Minute, 0);
    for _ in 0..3 {
        assert!(matches!(l.acquire(1, 0), Ok(ConsumeStep::Granted)));
    }
    match l.acquire(1, SEC) {
        Err(e) => {
            assert_eq!(e.name, "api");
            assert_eq!(e.period, Period::Minute);
            assert_eq!(e.current, 3);
            assert_eq!(e.max, 3);
            assert_eq!(e.reset_in, 59 * SEC);
        }
        Ok(_) => panic!("the fourth call must be refused"),
    }
    assert!(matches!(l.acquire(1, 60 * SEC), Ok(ConsumeStep::Granted)));
    let st = l.hard_limit_status(60 * SEC);
    assert_eq!(st.len(), 1);
    assert_eq!(st[0].current, 1);
    assert_eq!(st[0].remaining, 2);
    assert_eq!(st[0].reset_in, 60 * SEC);
}

#[test]
fn refused_check_leaves_counters() {
    let mut l = limiter(100, 100, 1);
    l.add_hard_limit("api".to_string(), 2, Period::Hour, 0);
    assert!(matches!(l.try_acquire(2, 0), Ok(true)));
    let tokens = l.available_tokens(0);
    assert!(l.try_acquire(1, 0).is_err());
    assert!(l.try_acquire(1, 0).is_err());
    assert_eq!(l.hard_limit_status(0)[0].current, 2);
    assert_eq!(l.available_tokens(0), tokens);
}

#[test]
fn first_violated_limit_is_reported() {
    let mut l = limiter(100, 100, 1);
    l.add_hard_limit("wide".to_string(), 10, Period::Day, 0);
    l.add_hard_limit("narrow".to_string(), 1, Period::Minute, 0);
    l.add_hard_limit("narrower".to_string(), 1, Period::Minute, 0);
    assert!(matches!(l.try_acquire(1, 0), Ok(true)));
    match l.try_acquire(1, 0) {
        Err(e) => assert_eq!(e.name, "narrow"),
        Ok(_) => panic!("must be refused"),
    }
    let st = l.hard_limit_status(0);
    assert_eq!(st[0].current, 1);
    assert_eq!(st[1].current, 1);
    assert_eq!(st[2].current, 1);
}

#[test]
fn bucket_exhaustion_is_false_and_spends_no_quota() {
    let mut l = limiter(2, 1, 1);
    l.add_hard_limit("api".to_string(), 10, Period::Minute, 0);
    assert!(matches!(l.try_acquire(1, 0), Ok(true)));
    assert!(matches!(l.try_acquire(1, 0), Ok(true)));
    assert!(matches!(l.try_acquire(1, 0), Ok(false)));
    assert_eq!(l.hard_limit_status(0)[0].current, 2);
}

#[test]
fn zero_tokens_is_a_no_op() {
    let mut l = limiter(1, 1, 1);
    l.add_hard_limit("none".to_string(), 0, Period::Minute, 0);
    assert!(matches!(l.try_acquire(0, 0), Ok(true)));
    assert!(matches!(l.acquire(0, 0), Ok(ConsumeStep::Granted)));
    assert_eq!(l.available_tokens(0), 1);
}

#[test]
fn abandoned_wait_changes_nothing() {
    let mut l = limiter(1, 1, 10);
    l.add_hard_limit("api".to_string(), 5, Period::Minute, 0);
    assert!(matches!(l.acquire(1, 0), Ok(ConsumeStep::Granted)));
    let step = l.acquire(1, SEC);
    assert!(matches!(step, Ok(ConsumeStep::WaitUntil(d)) if d == 10 * SEC));
    // the caller gives up here
    assert_eq!(l.hard_limit_status(SEC)[0].current, 1);
    assert_eq!(l.available_tokens(SEC), 0);
    assert!(matches!(l.acquire(1, 10 * SEC), Ok(ConsumeStep::Granted)));
    assert_eq!(l.hard_limit_status(10 * SEC)[0].current, 2);
}

#[test]
fn backoff_through_limiter() {
    let mut l = limiter(5, 5, 1);
    l.add_hard_limit("api".to_string(), 5, Period::Minute, 0);
    l.backoff_for(3 * SEC, 0);
    assert_eq!(l.available_tokens(0), 0);
    assert!(matches!(l.try_acquire(1, 2 * SEC), Ok(false)));
    assert!(matches!(l.acquire(1, 2 * SEC), Ok(ConsumeStep::WaitUntil(d)) if d == 3 * SEC));
    assert!(matches!(l.try_acquire(1, 3 * SEC), Ok(true)));
    // tokens kept accruing during the backoff: four are left, the fifth is 0.2 s away
    assert_eq!(l.time_until_available(4, 3 * SEC), Some(0));
    assert_eq!(l.time_until_available(5, 3 * SEC), Some(SEC / 5));
    assert_eq!(l.time_until_available(6, 3 * SEC), None);
}

#[test]
fn add_replaces_and_resets_remove_drops() {
    let mut l = limiter(100, 100, 1);
    l.add_hard_limit("api".to_string(), 1, Period::Minute, 0);
    assert!(matches!(l.try_acquire(1, 0), Ok(true)));
    assert!(l.try_acquire(1, 0).is_err());
    l.add_hard_limit("api".to_string(), 2, Period::Hour, 0);
    let st = l.hard_limit_status(0);
    assert_eq!(st.len(), 1);
    assert_eq!(st[0].current, 0);
    assert_eq!(st[0].max, 2);
    assert_eq!(st[0].period, Period::Hour);
    l.remove_hard_limit("api");
    assert_eq!(l.hard_limit_status(0).len(), 0);
    for _ in 0..5 {
        assert!(matches!(l.try_acquire(1, 0), Ok(true)));
    }
    l.remove_hard_limit("absent");
}

#[test]
fn limiter_rejects_bad_configuration() {
    assert!(matches!(
        RateLimiter::new(0, RefillRate { tokens: 1, per_secs: 1 }, 0),
        Err(ConfigError::ZeroCapacity)
    ));
    assert!(matches!(
        RateLimiter::new(3, RefillRate { tokens: 0, per_secs: 1 }, 0),
        Err(ConfigError::ZeroRefillRate)
    ));
}

#[test]
fn period_lengths() {
    assert_eq!(Period::Minute.nanos(), 60 * SEC);
    assert_eq!(Period::Hour.nanos(), 3_600 * SEC);
    assert_eq!(Period::Day.nanos(), 86_400 * SEC);
    assert_eq!(Period::Month.nanos(), 2_629_746 * SEC);
    assert_eq!(Period::Year.nanos(), 31_556_952 * SEC);
}

#[test]
fn registry_status_of_expired_window() {
    let mut r = HardLimitRegistry::new();
    r.add("api".to_string(), 4, Period::Minute, 0);
    assert!(r.check(3, 0).is_ok());
    r.commit(3);
    let st = r.status(30 * SEC);
    assert_eq!(st[0].current, 3);
    assert_eq!(st[0].remaining, 1);
    assert_eq!(st[0].reset_in, 30 * SEC);
    let st = r.status(61 * SEC);
    assert_eq!(st[0].current, 0);
    assert_eq!(st[0].remaining, 4);
    assert_eq!(st[0].reset_in, 0);
    assert_eq!(r.len(), 1);
}

#[test]
fn randomized_stress_never_overspends() {
    let capacity: u32 = 7;
    let mut l = limiter(capacity, 3, 1);
    l.add_hard_limit("minute".to_string(), 20, Period::Minute, 0);
    l.add_hard_limit("hour".to_string(), 50, Period::Hour, 0);
    let mut seed: u64 = 0x2545_f491_4f6c_dd1d;
    let mut now: u64 = 0;
    let mut granted_at_now: u64 = 0;
    let mut granted_in_hour: u64 = 0;
    for _ in 0..5_000 {
        seed = seed.wrapping_mul(6364136223846793005).wrapping_add(1442695040888963407);
        let advance = (seed >> 33) % 4;
        if advance != 0 {
            now += (seed >> 40) % (2 * SEC);
            granted_at_now = 0;
        }
        if now >= 3_600 * SEC {
            break;
        }
        let n = ((seed >> 20) % 3) as u32;
        let granted = if seed & 1 == 0 {
            matches!(l.try_acquire(n, now), Ok(true))
        } else {
            matches!(l.acquire(n, now), Ok(ConsumeStep::Granted))
        };
        if granted {
            granted_at_now += n as u64;
            granted_in_hour += n as u64;
        }
        if (seed >> 50) % 97 == 0 {
            l.backoff_for((seed >> 45) % (5 * SEC), now);
        }
        assert!(granted_at_now <= capacity as u64);
        assert!(l.available_tokens(now) <= capacity);
        for st in l.hard_limit_status(now) {
            assert!(st.current <= st.max);
        }
    }
    assert!(granted_in_hour <= 50);
}
