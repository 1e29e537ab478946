//! Runtime configuration, read from environment variables.
use vstd::prelude::*;

use crate::error::Error;
use crate::text::{all_digits, chars_of, digits_value, eq_str, is_digit_char, string_of, trim, trimmed};

verus! {

/// Default per-download wall-clock budget (15 minutes).
pub const DEFAULT_DOWNLOAD_TIMEOUT_SECS: u64 = 900;

/// Runtime configuration, all from environment (see `.env.example`).
#[derive(Debug, Clone)]
pub struct Config {
    /// Telegram Bot API token (`TELEGRAM_BOT_TOKEN`, required).
    pub bot_token: String,
    /// Optional custom Bot API base URL (Local Bot API Server for >50 MB files).
    pub api_url: Option<String>,
    /// Max concurrent downloads (global semaphore).
    pub max_workers: usize,
    /// Max wall-clock seconds for one download pipeline (yt-dlp + convert).
    /// Queued time does not count; the clock starts at semaphore acquisition.
    pub download_timeout_secs: u64,
    /// Downloads allowed per user per hour.
    pub rate_limit: u32,
    /// Downloads one user may have queued or running at once.
    pub max_per_user: usize,
    /// Downloads that may wait for a worker at once (global backpressure).
    pub max_queued: usize,
    /// `SQLite` file for the `file_id` cache.
    pub db_path: String,
    /// Directory for temp downloads (`/tmp/fetchly/{session_id}/`).
    pub temp_dir: String,
    /// Redis URL for sessions + rate limiting.
    pub redis_url: String,
}

// ---------------------------------------------------------------------------
// Unsigned integer syntax (`str::parse` for `u32` / `u64` / `usize`)
// ---------------------------------------------------------------------------

/// What `str::parse` accepts for an unsigned integer: an optional `+`, then at
/// least one decimal digit and nothing else. The value may be any size here;
/// the caller bounds it by the target type.
pub open spec fn parse_uint(s: Seq<char>) -> Option<nat> {
    let body = if s.len() > 0 && s[0] == '+' {
        s.drop_first()
    } else {
        s
    };
    if body.len() > 0 && all_digits(body) {
        Some(digits_value(body))
    } else {
        None
    }
}

/// `s` parsed as an unsigned integer of at most `max`.
pub open spec fn parse_bounded(s: Seq<char>, max: nat) -> Option<nat> {
    match parse_uint(s) {
        Some(n) => if n <= max {
            Some(n)
        } else {
            None
        },
        None => None,
    }
}

proof fn lemma_digits_value_mono(s: Seq<char>, k: int)
    requires
        0 <= k <= s.len(),
        all_digits(s),
    ensures
        digits_value(s.subrange(0, k)) <= digits_value(s),
    decreases s.len() - k,
{
    if k < s.len() {
        let t = s.subrange(0, k + 1);
        assert(t.drop_last() =~= s.subrange(0, k));
        assert(is_digit_char(s[k]));
        assert(t.last() == s[k]);
        assert(digits_value(t) >= digits_value(s.subrange(0, k)));
        lemma_digits_value_mono(s, k + 1);
    } else {
        assert(s.subrange(0, k) =~= s);
    }
}

/// `str::parse` for an unsigned integer type whose maximum is `max`.
pub fn parse_unsigned(s: &Vec<char>, max: u64) -> (r: Option<u64>)
    ensures
        (match r {
            Some(n) => parse_bounded(s@, max as nat) == Some(n as nat),
            None => parse_bounded(s@, max as nat) is None,
        }),
{
    let start: usize = if s.len() > 0 && s[0] == '+' {
        1
    } else {
        0
    };
    let ghost body = s@.subrange(start as int, s@.len() as int);
    proof {
        if s.len() > 0 && s@[0] == '+' {
            assert(body =~= s@.drop_first());
        } else {
            assert(body =~= s@);
        }
    }
    if start >= s.len() {
        return None;
    }
    let mut acc: u64 = 0;
    let mut i: usize = start;
    while i < s.len()
        invariant
            start <= i <= s.len(),
            start < s.len(),
            body == s@.subrange(start as int, s@.len() as int),
            parse_uint(s@) == (if body.len() > 0 && all_digits(body) {
                Some(digits_value(body))
            } else {
                None::<nat>
            }),
            forall|j: int| start <= j < i ==> is_digit_char(#[trigger] s@[j]),
            acc == digits_value(s@.subrange(start as int, i as int)),
            acc <= max,
        decreases s.len() - i,
    {
        let c = s[i];
        if !('0' <= c && c <= '9') {
            proof {
                assert(body[i - start] == c);
                assert(!is_digit_char(body[i - start]));
                assert(!all_digits(body));
                assert(parse_uint(s@) is None);
            }
            return None;
        }
        let d: u64 = (c as u32 - 48) as u64;
        proof {
            let pre = s@.subrange(start as int, i as int);
            let nxt = s@.subrange(start as int, i + 1);
            assert(nxt.drop_last() =~= pre);
            assert(nxt.last() == c);
        }
        if (acc as u128) * 10 + (d as u128) > max as u128 {
            proof {
                let nxt = s@.subrange(start as int, i + 1);
                assert(digits_value(nxt) > max as nat);
                if all_digits(body) {
                    assert(nxt =~= body.subrange(0, i + 1 - start));
                    lemma_digits_value_mono(body, i + 1 - start);
                }
            }
            return None;
        }
        acc = acc * 10 + d;
        i = i + 1;
    }
    proof {
        assert(s@.subrange(start as int, s@.len() as int) =~= body);
        assert(all_digits(body)) by {
            assert forall|j: int| 0 <= j < body.len() implies is_digit_char(#[trigger] body[j]) by {
                assert(body[j] == s@[start + j]);
            }
        }
    }
    Some(acc)
}

// ---------------------------------------------------------------------------
// Environment lookup
// ---------------------------------------------------------------------------

/// The value of `key` in the variable list; a later entry wins, as when the
/// list is collected into a map.
pub open spec fn lookup(vars: Seq<(String, String)>, key: Seq<char>) -> Option<Seq<char>>
    decreases vars.len(),
{
    if vars.len() == 0 {
        None
    } else if vars.last().0@ == key {
        Some(vars.last().1@)
    } else {
        lookup(vars.drop_last(), key)
    }
}

/// A strictly positive number of at most `max` under `key`, if one is set.
pub open spec fn positive_setting(vars: Seq<(String, String)>, key: Seq<char>, max: nat) -> Option<nat> {
    match lookup(vars, key) {
        Some(v) => match parse_bounded(v, max) {
            Some(n) => if n > 0 {
                Some(n)
            } else {
                None
            },
            None => None,
        },
        None => None,
    }
}

/// `opt` or `default`.
pub open spec fn or_default(opt: Option<nat>, default: nat) -> nat {
    match opt {
        Some(n) => n,
        None => default,
    }
}

/// The string under `key`, or `default`.
pub open spec fn text_setting(vars: Seq<(String, String)>, key: Seq<char>, default: Seq<char>) -> Seq<char> {
    match lookup(vars, key) {
        Some(v) => v,
        None => default,
    }
}

/// The token is present and not blank.
pub open spec fn token_present(vars: Seq<(String, String)>) -> bool {
    trim(text_setting(vars, "TELEGRAM_BOT_TOKEN"@, Seq::empty())).len() > 0
}

/// Every field of `c` is what the variables say, defaults filling the gaps.
pub open spec fn config_matches(c: Config, vars: Seq<(String, String)>) -> bool {
    &&& c.bot_token@ == text_setting(vars, "TELEGRAM_BOT_TOKEN"@, Seq::empty())
    &&& match lookup(vars, "TELEGRAM_API_URL"@) {
        Some(u) => if trim(u).len() > 0 {
            c.api_url is Some && c.api_url->0@ == u
        } else {
            c.api_url is None
        },
        None => c.api_url is None,
    }
    &&& c.max_workers == or_default(positive_setting(vars, "FETCHLY_MAX_WORKERS"@, usize::MAX as nat), 4)
    &&& c.download_timeout_secs == or_default(
        positive_setting(vars, "FETCHLY_DOWNLOAD_TIMEOUT_SECS"@, u64::MAX as nat),
        DEFAULT_DOWNLOAD_TIMEOUT_SECS as nat,
    )
    &&& c.rate_limit == or_default(positive_setting(vars, "FETCHLY_RATE_LIMIT"@, u32::MAX as nat), 20)
    &&& c.max_per_user == or_default(positive_setting(vars, "FETCHLY_MAX_PER_USER"@, usize::MAX as nat), 2)
    &&& c.max_queued == or_default(positive_setting(vars, "FETCHLY_MAX_QUEUED"@, usize::MAX as nat), 20)
    &&& c.db_path@ == text_setting(vars, "FETCHLY_DB_PATH"@, "./fetchly.db"@)
    &&& c.temp_dir@ == text_setting(vars, "FETCHLY_TEMP_DIR"@, "/tmp/fetchly"@)
    &&& c.redis_url@ == text_setting(vars, "REDIS_URL"@, "redis://127.0.0.1:6379"@)
}

/// The value under `key`, if any (the last entry with that key).
pub fn lookup_var(vars: &Vec<(String, String)>, key: &str) -> (r: Option<String>)
    ensures
        (match r {
            Some(v) => lookup(vars@, key@) == Some(v@),
            None => lookup(vars@, key@) is None,
        }),
{
    let mut i: usize = vars.len();
    proof {
        assert(vars@.subrange(0, vars@.len() as int) =~= vars@);
    }
    while i > 0
        invariant
            i <= vars.len(),
            lookup(vars@, key@) == lookup(vars@.subrange(0, i as int), key@),
        decreases i,
    {
        let k = chars_of(vars[i - 1].0.as_str());
        proof {
            let pre = vars@.subrange(0, i as int);
            assert(pre.drop_last() =~= vars@.subrange(0, i - 1));
            assert(pre.last() == vars@[i - 1]);
        }
        if eq_str(&k, key) {
            return Some(vars[i - 1].1.clone());
        }
        i = i - 1;
    }
    None
}

/// A strictly positive setting of at most `max`.
fn positive(vars: &Vec<(String, String)>, key: &str, max: u64) -> (r: Option<u64>)
    ensures
        (match r {
            Some(n) => positive_setting(vars@, key@, max as nat) == Some(n as nat),
            None => positive_setting(vars@, key@, max as nat) is None,
        }),
{
    match lookup_var(vars, key) {
        Some(v) => {
            let cs = chars_of(v.as_str());
            match parse_unsigned(&cs, max) {
                Some(n) => if n > 0 {
                    Some(n)
                } else {
                    None
                },
                None => None,
            }
        },
        None => None,
    }
}

/// The string under `key`, or the literal `default`.
fn text_or(vars: &Vec<(String, String)>, key: &str, default: &str) -> (r: String)
    ensures
        r@ == text_setting(vars@, key@, default@),
{
    match lookup_var(vars, key) {
        Some(v) => v,
        None => {
            let d = chars_of(default);
            string_of(&d)
        },
    }
}

impl Config {
    /// Pure constructor over an explicit variable list (keeps tests hermetic:
    /// no global `env` mutation). A blank token is the one error.
    pub fn from_map(vars: &Vec<(String, String)>) -> (r: Result<Config, Error>)
        ensures
            (match r {
                Ok(c) => token_present(vars@) && config_matches(c, vars@),
                Err(e) => !token_present(vars@) && e is Config && e->Config_0@
                    == "TELEGRAM_BOT_TOKEN is not set. See .env.example."@,
            }),
    {
        proof {
            reveal_strlit("");
        }
        let bot_token = text_or(vars, "TELEGRAM_BOT_TOKEN", "");
        let tv = chars_of(bot_token.as_str());
        let tt = trimmed(&tv);
        if tt.len() == 0 {
            let m = chars_of("TELEGRAM_BOT_TOKEN is not set. See .env.example.");
            return Err(Error::Config(string_of(&m)));
        }
        let api_url = match lookup_var(vars, "TELEGRAM_API_URL") {
            Some(u) => {
                let uv = chars_of(u.as_str());
                let ut = trimmed(&uv);
                if ut.len() > 0 {
                    Some(u)
                } else {
                    None
                }
            },
            None => None,
        };
        let max_workers: usize = match positive(vars, "FETCHLY_MAX_WORKERS", usize::MAX as u64) {
            Some(n) => n as usize,
            None => 4,
        };
        let download_timeout_secs: u64 = match positive(
            vars,
            "FETCHLY_DOWNLOAD_TIMEOUT_SECS",
            u64::MAX,
        ) {
            Some(n) => n,
            None => DEFAULT_DOWNLOAD_TIMEOUT_SECS,
        };
        let rate_limit: u32 = match positive(vars, "FETCHLY_RATE_LIMIT", u32::MAX as u64) {
            Some(n) => n as u32,
            None => 20,
        };
        let max_per_user: usize = match positive(vars, "FETCHLY_MAX_PER_USER", usize::MAX as u64) {
            Some(n) => n as usize,
            None => 2,
        };
        let max_queued: usize = match positive(vars, "FETCHLY_MAX_QUEUED", usize::MAX as u64) {
            Some(n) => n as usize,
            None => 20,
        };
        Ok(Config {
            bot_token,
            api_url,
            max_workers,
            download_timeout_secs,
            rate_limit,
            max_per_user,
            max_queued,
            db_path: text_or(vars, "FETCHLY_DB_PATH", "./fetchly.db"),
            temp_dir: text_or(vars, "FETCHLY_TEMP_DIR", "/tmp/fetchly"),
            redis_url: text_or(vars, "REDIS_URL", "redis://127.0.0.1:6379"),
        })
    }
}

} // verus!
