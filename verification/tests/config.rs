use fetchly::config::{parse_unsigned, Config};

fn vars(pairs: &[(&str, &str)]) -> Vec<(String, String)> {
    pairs
        .iter()
        .map(|(k, v)| ((*k).to_owned(), (*v).to_owned()))
        .collect()
}

#[test]
fn defaults_apply() {
    let cfg = Config::from_map(&vars(&[("TELEGRAM_BOT_TOKEN", "test-token")])).expect("config loads");
    assert_eq!(cfg.max_workers, 4);
    assert_eq!(cfg.rate_limit, 20);
    assert_eq!(cfg.download_timeout_secs, 900);
    assert!(cfg.api_url.is_none());
    assert_eq!(cfg.redis_url, "redis://127.0.0.1:6379");
}

#[test]
fn overrides_apply() {
    let cfg = Config::from_map(&vars(&[
        ("TELEGRAM_BOT_TOKEN", "t"),
        ("FETCHLY_MAX_WORKERS", "8"),
        ("FETCHLY_RATE_LIMIT", "5"),
        ("FETCHLY_DOWNLOAD_TIMEOUT_SECS", "300"),
        ("TELEGRAM_API_URL", "http://botapi:8081"),
    ]))
    .expect("config loads");
    assert_eq!(cfg.max_workers, 8);
    assert_eq!(cfg.rate_limit, 5);
    assert_eq!(cfg.download_timeout_secs, 300);
    assert_eq!(cfg.api_url.as_deref(), Some("http://botapi:8081"));
}

#[test]
fn invalid_numbers_fall_back_to_defaults() {
    let cfg = Config::from_map(&vars(&[
        ("TELEGRAM_BOT_TOKEN", "t"),
        ("FETCHLY_MAX_WORKERS", "0"),
        ("FETCHLY_RATE_LIMIT", "banana"),
        ("FETCHLY_DOWNLOAD_TIMEOUT_SECS", "0"),
    ]))
    .expect("config loads");
    assert_eq!(cfg.max_workers, 4);
    assert_eq!(cfg.rate_limit, 20);
    assert_eq!(cfg.download_timeout_secs, 900);
}

#[test]
fn missing_token_errors() {
    assert!(Config::from_map(&vars(&[])).is_err());
    assert!(Config::from_map(&vars(&[("TELEGRAM_BOT_TOKEN", "  ")])).is_err());
}

#[test]
fn missing_token_error_names_the_variable() {
    match Config::from_map(&vars(&[("TELEGRAM_BOT_TOKEN", "\t\n")])) {
        Err(fetchly::error::Error::Config(msg)) => {
            assert_eq!(msg, "TELEGRAM_BOT_TOKEN is not set. See .env.example.")
        }
        other => panic!("expected a config error, got {other:?}"),
    }
}

#[test]
fn other_defaults_apply() {
    let cfg = Config::from_map(&vars(&[("TELEGRAM_BOT_TOKEN", "x")])).expect("config loads");
    assert_eq!(cfg.bot_token, "x");
    assert_eq!(cfg.max_per_user, 2);
    assert_eq!(cfg.max_queued, 20);
    assert_eq!(cfg.db_path, "./fetchly.db");
    assert_eq!(cfg.temp_dir, "/tmp/fetchly");
}

#[test]
fn number_syntax_follows_str_parse() {
    let cfg = Config::from_map(&vars(&[
        ("TELEGRAM_BOT_TOKEN", "t"),
        ("FETCHLY_MAX_WORKERS", "+7"),
        ("FETCHLY_RATE_LIMIT", "4294967296"),
        ("FETCHLY_DOWNLOAD_TIMEOUT_SECS", " 60"),
        ("FETCHLY_MAX_PER_USER", "007"),
        ("FETCHLY_MAX_QUEUED", "-3"),
    ]))
    .expect("config loads");
    assert_eq!(cfg.max_workers, 7);
    // One past u32::MAX does not parse as u32.
    assert_eq!(cfg.rate_limit, 20);
    // Whitespace is not trimmed before parsing.
    assert_eq!(cfg.download_timeout_secs, 900);
    assert_eq!(cfg.max_per_user, 7);
    assert_eq!(cfg.max_queued, 20);
}

#[test]
fn later_entries_win_and_blank_api_url_is_none() {
    let cfg = Config::from_map(&vars(&[
        ("TELEGRAM_BOT_TOKEN", "a"),
        ("FETCHLY_RATE_LIMIT", "3"),
        ("FETCHLY_RATE_LIMIT", "9"),
        ("TELEGRAM_API_URL", "   "),
        ("REDIS_URL", "redis://redis:6379"),
        ("FETCHLY_TEMP_DIR", "/var/tmp/f"),
    ]))
    .expect("config loads");
    assert_eq!(cfg.rate_limit, 9);
    assert!(cfg.api_url.is_none());
    assert_eq!(cfg.redis_url, "redis://redis:6379");
    assert_eq!(cfg.temp_dir, "/var/tmp/f");
}

#[test]
fn parse_unsigned_limits() {
    let c = |s: &str| s.chars().collect::<Vec<char>>();
    assert_eq!(parse_unsigned(&c("18446744073709551615"), u64::MAX), Some(u64::MAX));
    assert_eq!(parse_unsigned(&c("18446744073709551616"), u64::MAX), None);
    assert_eq!(parse_unsigned(&c("256"), 255), None);
    assert_eq!(parse_unsigned(&c("255"), 255), Some(255));
    assert_eq!(parse_unsigned(&c("+"), 255), None);
    assert_eq!(parse_unsigned(&c(""), 255), None);
    assert_eq!(parse_unsigned(&c("1_0"), 255), None);
}
