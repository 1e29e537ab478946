//! Per-user download rate limiting: N downloads per rolling hour.
//!
//! The store keeps, under `fetchly:ratelimit:{user_id}`, the count for the
//! current window (`INCR`), set to expire one hour after the first download
//! (`EXPIRE`); its TTL is the seconds left. This module decides what the
//! counter and TTL mean; the store calls are made by the caller.
use vstd::prelude::*;

use crate::error::Error;
use crate::text::{chars_of, decimal, push_decimal, string_of};

verus! {

/// Length of a rate-limit window in seconds.
pub const RATE_WINDOW_SECS: u64 = 3600;

/// Snapshot of one user's rate-limit window.
#[derive(Debug, Clone, Copy, PartialEq, Eq, Structural)]
pub struct Usage {
    pub used: u32,
    pub remaining: u32,
    pub reset_in_secs: u64,
}

/// Store key of a user's counter.
pub open spec fn rate_limit_key_text(user_id: u64) -> Seq<char> {
    "fetchly:ratelimit:"@ + decimal(user_id as nat)
}

/// Store key of a user's counter: `fetchly:ratelimit:{user_id}`.
pub fn rate_limit_key(user_id: u64) -> (r: String)
    ensures
        r@ == rate_limit_key_text(user_id),
{
    let mut v = chars_of("fetchly:ratelimit:");
    push_decimal(&mut v, user_id);
    string_of(&v)
}

/// The counter's value: a missing key counts as 0, and so does a negative one.
pub open spec fn counter_of(stored: Option<i64>) -> int {
    match stored {
        Some(c) => if c > 0 {
            c as int
        } else {
            0
        },
        None => 0,
    }
}

/// The window has started (its TTL is worth reading).
pub fn window_started(stored: Option<i64>) -> (r: bool)
    ensures
        r == (counter_of(stored) > 0),
{
    match stored {
        Some(c) => c > 0,
        None => false,
    }
}

/// A TTL as seconds; a negative TTL (no expiry, no key) is 0.
pub open spec fn ttl_secs(ttl: i64) -> nat {
    if ttl >= 0 {
        ttl as nat
    } else {
        0
    }
}

/// Read-only view of a user's window from the stored counter and, when the
/// window has started, the key's TTL. Never consumes quota.
pub fn usage_from(stored: Option<i64>, max_per_hour: u32, ttl: i64) -> (u: Usage)
    ensures
        u.used == (if counter_of(stored) < max_per_hour {
            counter_of(stored)
        } else {
            max_per_hour as int
        }),
        u.used + u.remaining == max_per_hour,
        u.reset_in_secs == (if counter_of(stored) > 0 {
            ttl_secs(ttl)
        } else {
            0
        }),
{
    let count: i64 = match stored {
        Some(c) => if c > 0 {
            c
        } else {
            0
        },
        None => 0,
    };
    let max = max_per_hour as i64;
    let capped: i64 = if count < max {
        count
    } else {
        max
    };
    let reset_in_secs: u64 = if count > 0 {
        if ttl >= 0 {
            ttl as u64
        } else {
            0
        }
    } else {
        0
    };
    Usage { used: capped as u32, remaining: (max - capped) as u32, reset_in_secs }
}

/// After `INCR`, a count of 1 opens a new window, which gets its expiry.
pub fn needs_expiry(count: i64) -> (r: bool)
    ensures
        r == (count == 1),
{
    count == 1
}

/// After `INCR`, a count above the limit means the user is rate limited and
/// the key's TTL is needed for the retry hint.
pub fn is_over_limit(count: i64, max_per_hour: u32) -> (r: bool)
    ensures
        r == (count > max_per_hour),
{
    count > max_per_hour as i64
}

/// Seconds until a retry may succeed: the TTL, 3600 when it is negative, at least 1.
pub open spec fn retry_secs(ttl: i64) -> nat {
    let t: nat = if ttl >= 0 {
        ttl as nat
    } else {
        RATE_WINDOW_SECS as nat
    };
    if t < 1 {
        1
    } else {
        t
    }
}

/// Quota left after `count` downloads in the window (0 when it does not fit in `u32`).
pub open spec fn remaining_after(count: int, max_per_hour: u32) -> nat {
    let left = max_per_hour - count;
    if 0 <= left <= u32::MAX {
        left as nat
    } else {
        0
    }
}

/// The outcome of consuming one unit, given the count after `INCR` and, when
/// over the limit, the key's TTL: the remaining quota, or
/// [`Error::RateLimited`] with a TTL-based retry hint.
pub fn consume_outcome(count: i64, max_per_hour: u32, ttl: i64) -> (r: Result<u32, Error>)
    ensures
        count > max_per_hour ==> (r matches Err(Error::RateLimited { retry_in_secs, remaining })
            && retry_in_secs == retry_secs(ttl) && remaining == 0),
        count <= max_per_hour ==> (r matches Ok(left) && left == remaining_after(count as int, max_per_hour)),
{
    let max = max_per_hour as i64;
    if count > max {
        let t: u64 = if ttl >= 0 {
            ttl as u64
        } else {
            RATE_WINDOW_SECS
        };
        let retry_in_secs: u64 = if t < 1 {
            1
        } else {
            t
        };
        return Err(Error::RateLimited { retry_in_secs, remaining: 0 });
    }
    let left = max as i128 - count as i128;
    if 0 <= left && left <= u32::MAX as i128 {
        Ok(left as u32)
    } else {
        Ok(0)
    }
}

/// Successive downloads in one window count down: the `k`-th download (1-based)
/// of a window leaves `max - k`, the one after the last allowed is refused
/// with no quota left and a retry hint within the window.
pub proof fn lemma_quota_counts_down(max_per_hour: u32, k: int, ttl: i64)
    requires
        1 <= k,
        0 <= ttl <= RATE_WINDOW_SECS,
    ensures
        k <= max_per_hour ==> remaining_after(k, max_per_hour) == max_per_hour - k,
        k == max_per_hour ==> remaining_after(k, max_per_hour) == 0,
        1 <= retry_secs(ttl) <= RATE_WINDOW_SECS,
{
}

} // verus!
