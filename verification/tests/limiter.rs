use std::collections::HashMap;

use fetchly::error::Error;
use fetchly::limiter::{
    consume_outcome, is_over_limit, needs_expiry, rate_limit_key, usage_from, window_started,
    Usage, RATE_WINDOW_SECS,
};

#[test]
fn key_format() {
    assert_eq!(rate_limit_key(123), "fetchly:ratelimit:123");
}

/// A stand-in for the counter store: INCR, EXPIRE on a new window, TTL.
struct Store {
    counts: HashMap<u64, i64>,
    ttl: HashMap<u64, i64>,
}

impl Store {
    fn new() -> Self {
        Store {
            counts: HashMap::new(),
            ttl: HashMap::new(),
        }
    }

    fn consume(&mut self, user: u64, max: u32) -> Result<u32, Error> {
        let count = {
            let c = self.counts.entry(user).or_insert(0);
            *c += 1;
            *c
        };
        if needs_expiry(count) {
            self.ttl.insert(user, RATE_WINDOW_SECS as i64);
        }
        let ttl = if is_over_limit(count, max) {
            *self.ttl.get(&user).unwrap_or(&-1)
        } else {
            -2
        };
        consume_outcome(count, max, ttl)
    }

    fn usage(&self, user: u64, max: u32) -> Usage {
        let stored = self.counts.get(&user).copied();
        let ttl = if window_started(stored) {
            *self.ttl.get(&user).unwrap_or(&-1)
        } else {
            -2
        };
        usage_from(stored, max, ttl)
    }
}

#[test]
fn counts_down_to_zero_then_rate_limits() {
    let mut s = Store::new();
    assert_eq!(s.consume(1001, 3).expect("1st"), 2);
    assert_eq!(s.consume(1001, 3).expect("2nd"), 1);
    assert_eq!(s.consume(1001, 3).expect("3rd"), 0);
    match s.consume(1001, 3) {
        Err(Error::RateLimited {
            retry_in_secs,
            remaining,
        }) => {
            assert!(retry_in_secs > 0 && retry_in_secs <= 3600);
            assert_eq!(remaining, 0);
        }
        other => panic!("expected RateLimited, got {other:?}"),
    }
}

#[test]
fn usage_reads_without_consuming() {
    let mut s = Store::new();
    assert_eq!(
        s.usage(3001, 3),
        Usage {
            used: 0,
            remaining: 3,
            reset_in_secs: 0,
        }
    );
    s.consume(3001, 3).expect("consume");
    s.consume(3001, 3).expect("consume");
    let mid = s.usage(3001, 3);
    assert_eq!(mid.used, 2);
    assert_eq!(mid.remaining, 1);
    assert!(mid.reset_in_secs > 0 && mid.reset_in_secs <= 3600);
    let again = s.usage(3001, 3);
    assert_eq!(again, mid);
}

#[test]
fn limiter_users_are_counted_apart() {
    let mut s = Store::new();
    assert_eq!(s.consume(2001, 2).expect("A1"), 1);
    assert_eq!(s.consume(2001, 2).expect("A2"), 0);
    assert!(s.consume(2001, 2).is_err());
    assert_eq!(s.consume(2002, 2).expect("B1"), 1);
}

#[test]
fn usage_caps_used_at_the_limit() {
    assert_eq!(
        usage_from(Some(7), 3, 100),
        Usage {
            used: 3,
            remaining: 0,
            reset_in_secs: 100,
        }
    );
    assert_eq!(
        usage_from(Some(-4), 3, 100),
        Usage {
            used: 0,
            remaining: 3,
            reset_in_secs: 0,
        }
    );
    assert_eq!(
        usage_from(Some(1), 3, -1),
        Usage {
            used: 1,
            remaining: 2,
            reset_in_secs: 0,
        }
    );
}

#[test]
fn retry_hint_falls_back_to_the_window() {
    match consume_outcome(5, 3, -1) {
        Err(Error::RateLimited { retry_in_secs, .. }) => assert_eq!(retry_in_secs, 3600),
        other => panic!("expected RateLimited, got {other:?}"),
    }
    match consume_outcome(5, 3, 0) {
        Err(Error::RateLimited { retry_in_secs, .. }) => assert_eq!(retry_in_secs, 1),
        other => panic!("expected RateLimited, got {other:?}"),
    }
    match consume_outcome(4, 3, 1234) {
        Err(Error::RateLimited { retry_in_secs, .. }) => assert_eq!(retry_in_secs, 1234),
        other => panic!("expected RateLimited, got {other:?}"),
    }
}

#[test]
fn expiry_only_on_a_new_window() {
    assert!(needs_expiry(1));
    assert!(!needs_expiry(2));
    assert!(!needs_expiry(0));
    assert!(!is_over_limit(3, 3));
    assert!(is_over_limit(4, 3));
    assert!(!window_started(None));
    assert!(!window_started(Some(0)));
    assert!(window_started(Some(1)));
}
