use fetchly::session::{
    new_session_id, parse_callback, session_id_of, session_key, MAX_SESSION_ID_BYTES,
    SESSION_TTL_SECS,
};

#[test]
fn callback_parses() {
    assert_eq!(
        parse_callback("v:720:abc123xy"),
        Some(('v', "720".to_owned(), "abc123xy".to_owned()))
    );
    assert_eq!(
        parse_callback("a:best:abc123xy"),
        Some(('a', "best".to_owned(), "abc123xy".to_owned()))
    );
    assert_eq!(
        parse_callback("cancel:x:abc123xy"),
        Some(('c', "x".to_owned(), "abc123xy".to_owned()))
    );
    assert_eq!(parse_callback("x:720:abc"), None);
    assert_eq!(parse_callback("v:720:"), None);
    assert_eq!(parse_callback("garbage"), None);
}

#[test]
fn callback_fits_telegram_limit() {
    // Telegram caps callback_data at 64 bytes.
    for data in ["v:720:abcdefgh", "a:best:abcdefgh", "cancel:x:abcdefgh"] {
        assert!(data.len() <= 64, "{data}");
    }
}

#[test]
fn callback_session_keeps_later_colons() {
    assert_eq!(
        parse_callback("v:720:ab:cd"),
        Some(('v', "720".to_owned(), "ab:cd".to_owned()))
    );
}

#[test]
fn callback_with_two_fields_is_rejected() {
    assert_eq!(parse_callback("v:720"), None);
    assert_eq!(parse_callback(""), None);
}

#[test]
fn callback_session_id_length_is_capped() {
    let ok = format!("v:720:{}", "a".repeat(MAX_SESSION_ID_BYTES));
    assert!(parse_callback(&ok).is_some());
    let long = format!("v:720:{}", "a".repeat(MAX_SESSION_ID_BYTES + 1));
    assert_eq!(parse_callback(&long), None);
}

#[test]
fn callback_kind_must_match_exactly() {
    assert_eq!(parse_callback("video:720:abc"), None);
    assert_eq!(parse_callback("cancelx:x:abc"), None);
    assert_eq!(parse_callback(":720:abc"), None);
}

#[test]
fn session_key_format() {
    assert_eq!(session_key("abc123xy"), "session:abc123xy");
    assert_eq!(session_key(""), "session:");
}

#[test]
fn new_session_ids_are_short_hex() {
    let a = new_session_id();
    let b = new_session_id();
    for id in [&a, &b] {
        assert_eq!(id.len(), 8, "{id}");
        assert!(
            id.chars().all(|c| c.is_ascii_digit() || ('a'..='f').contains(&c)),
            "{id}"
        );
    }
    assert_ne!(a, b);
}

#[test]
fn session_ttl_is_ten_minutes() {
    assert_eq!(SESSION_TTL_SECS, 600);
}

#[test]
fn two_field_cancel_parses() {
    assert_eq!(
        parse_callback("cancel:abc123xy"),
        Some(('c', String::new(), "abc123xy".to_owned()))
    );
    assert_eq!(parse_callback("cancel:"), None);
    assert_eq!(parse_callback("cancel"), None);
    assert_eq!(parse_callback("v:abc123xy"), None);
    let long = format!("cancel:{}", "a".repeat(MAX_SESSION_ID_BYTES + 1));
    assert_eq!(parse_callback(&long), None);
}

#[test]
fn session_id_is_the_uuid_head() {
    assert_eq!(session_id_of("67e5504410b1426f9247bb680e5fe0c8"), "67e55044");
    assert_eq!(session_id_of("0123456789abcdef0123456789abcdef"), "01234567");
}
