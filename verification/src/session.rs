//! Sessions between button presses: ids, store keys, callback data.
//!
//! Telegram callback data is limited to 64 bytes, so callbacks carry only
//! `v:720:<session_id>` / `a:320:<session_id>` and the full metadata lives in
//! the session store with a 10-minute TTL.
use vstd::prelude::*;

use crate::media::ytdlp::Metadata;
use crate::text::{
    all_ascii, chars_of, eq_str, find_char_from, first_index_from, lemma_utf8_len_ascii,
    push_str, slice_of, string_of, utf8_len, utf8_len_capped,
};
use crate::media::ytdlp::lemma_first_index_from;

verus! {

/// Seconds a session lives in the store.
pub const SESSION_TTL_SECS: u64 = 600;

/// Longest session id (in bytes) that a callback may carry.
pub const MAX_SESSION_ID_BYTES: usize = 32;

/// What the session store holds for one preview.
#[derive(Debug, Clone)]
pub struct StoredSession {
    pub url_hash: String,
    pub url: String,
    pub metadata: Metadata,
}

/// Store key of a session.
pub open spec fn session_key_text(session_id: Seq<char>) -> Seq<char> {
    "session:"@ + session_id
}

/// Store key of a session: `session:{session_id}`.
pub fn session_key(session_id: &str) -> (r: String)
    ensures
        r@ == session_key_text(session_id@),
{
    let mut v = chars_of("session:");
    push_str(&mut v, session_id);
    string_of(&v)
}

// ---------------------------------------------------------------------------
// Session ids
// ---------------------------------------------------------------------------

/// A lowercase hexadecimal digit.
pub open spec fn is_hex_lower(c: char) -> bool {
    ('0' <= c <= '9') || ('a' <= c <= 'f')
}

/// `uuid::Uuid::new_v4().simple().to_string()`: a random UUID in its simple
/// form, 32 lowercase hex digits. The contract states that format and nothing
/// of the value, which is random.
#[verifier::external_body]
fn random_uuid_simple() -> (r: String)
    ensures
        r@.len() == 32,
        forall|i: int| 0 <= i < 32 ==> is_hex_lower(#[trigger] r@[i]),
{
    uuid::Uuid::new_v4().simple().to_string()
}

/// A well-formed session id: 8 lowercase hex digits.
pub open spec fn valid_session_id(s: Seq<char>) -> bool {
    s.len() == 8 && forall|i: int| 0 <= i < 8 ==> is_hex_lower(#[trigger] s[i])
}

/// The session id cut from a UUID in simple form: its first 8 characters.
pub fn session_id_of(uuid: &str) -> (r: String)
    requires
        uuid@.len() == 32,
    ensures
        r@ == uuid@.subrange(0, 8),
{
    let v = chars_of(uuid);
    let s = slice_of(&v, 0, 8);
    string_of(&s)
}

/// A fresh random session id: the first 8 characters of a random UUID
/// (see [`session_id_of`]).
pub fn new_session_id() -> (r: String)
    ensures
        valid_session_id(r@),
{
    let full = random_uuid_simple();
    let r = session_id_of(full.as_str());
    proof {
        assert forall|i: int| 0 <= i < 8 implies is_hex_lower(#[trigger] r@[i]) by {
            assert(r@[i] == full@[i]);
        }
    }
    r
}

/// A session id is short enough for callback data and holds no `:`.
pub proof fn lemma_session_id_fits(s: Seq<char>)
    requires
        valid_session_id(s),
    ensures
        s.len() > 0,
        utf8_len(s) == 8,
        forall|i: int| 0 <= i < s.len() ==> s[i] != ':',
{
    assert(all_ascii(s)) by {
        assert forall|i: int| 0 <= i < s.len() implies (#[trigger] s[i] as u32) < 0x80 by {
            assert(is_hex_lower(s[i]));
        }
    }
    lemma_utf8_len_ascii(s);
    assert forall|i: int| 0 <= i < s.len() implies s[i] != ':' by {
        assert(is_hex_lower(s[i]));
    }
}

// ---------------------------------------------------------------------------
// Callback data
// ---------------------------------------------------------------------------

/// The first three `:`-separated fields of `d` (the third keeps any later
/// `:`), as `str::splitn(3, ':')` yields them; `None` with fewer than three.
pub open spec fn callback_fields(d: Seq<char>) -> Option<(Seq<char>, Seq<char>, Seq<char>)> {
    match first_index_from(d, ':', 0) {
        None => None,
        Some(i) => match first_index_from(d, ':', i + 1) {
            None => None,
            Some(j) => Some((d.subrange(0, i), d.subrange(i + 1, j), d.subrange(j + 1, d.len() as int))),
        },
    }
}

/// A session id a callback may carry: non-empty, at most 32 bytes.
pub open spec fn session_fits(session: Seq<char>) -> bool {
    session.len() > 0 && utf8_len(session) <= 32
}

/// The two-field cancel form `cancel:<session_id>` (no second `:`): the
/// session id, when `d` has that form.
pub open spec fn short_cancel_of(d: Seq<char>) -> Option<Seq<char>> {
    match first_index_from(d, ':', 0) {
        None => None,
        Some(i) => if d.subrange(0, i) == "cancel"@ && session_fits(d.subrange(i + 1, d.len() as int)) {
            Some(d.subrange(i + 1, d.len() as int))
        } else {
            None
        },
    }
}

/// What [`parse_callback`] reads from callback data `d`: three fields
/// `{kind}:{quality}:{session}`, or the two-field `cancel:{session}`, which
/// reads as kind `c` with an empty quality code.
pub open spec fn callback_of(d: Seq<char>) -> Option<(char, Seq<char>, Seq<char>)> {
    match callback_fields(d) {
        None => match short_cancel_of(d) {
            Some(session) => Some(('c', Seq::empty(), session)),
            None => None,
        },
        Some((kind, quality, session)) => if session.len() == 0 || utf8_len(session) > 32 {
            None
        } else if kind == "v"@ || kind == "a"@ || kind == "cancel"@ {
            Some((kind[0], quality, session))
        } else {
            None
        },
    }
}

/// Parse callback data `v:720:<session_id>` / `a:320:<session_id>` /
/// `cancel:<session_id>` into `(kind, quality_code, session_id)`. The cancel
/// button also comes as `cancel:<x>:<session_id>` (three fields); the
/// two-field form has an empty quality code.
pub fn parse_callback(data: &str) -> (r: Option<(char, String, String)>)
    ensures
        (match r {
            Some((k, q, s)) => callback_of(data@) == Some((k, q@, s@)),
            None => callback_of(data@) is None,
        }),
{
    let d = chars_of(data);
    let i = match find_char_from(&d, ':', 0) {
        Some(i) => i,
        None => return None,
    };
    proof {
        lemma_first_index_from(d@, ':', 0);
        lemma_first_index_from(d@, ':', i + 1);
    }
    let j = match find_char_from(&d, ':', i + 1) {
        Some(j) => j,
        None => {
            let kind = slice_of(&d, 0, i);
            let session = slice_of(&d, i + 1, d.len());
            if !eq_str(&kind, "cancel") || session.len() == 0 {
                return None;
            }
            if utf8_len_capped(&session, MAX_SESSION_ID_BYTES).is_none() {
                return None;
            }
            let empty: Vec<char> = Vec::new();
            proof {
                assert(empty@ =~= Seq::<char>::empty());
            }
            return Some(('c', string_of(&empty), string_of(&session)));
        },
    };
    let kind = slice_of(&d, 0, i);
    let quality = slice_of(&d, i + 1, j);
    let session = slice_of(&d, j + 1, d.len());
    if session.len() == 0 {
        return None;
    }
    if utf8_len_capped(&session, MAX_SESSION_ID_BYTES).is_none() {
        return None;
    }
    if eq_str(&kind, "v") || eq_str(&kind, "a") || eq_str(&kind, "cancel") {
        proof {
            reveal_strlit("v");
            reveal_strlit("a");
            reveal_strlit("cancel");
        }
        Some((kind[0], string_of(&quality), string_of(&session)))
    } else {
        None
    }
}

/// Callback data as the keyboards build it: `{kind}:{quality}:{session}`.
pub open spec fn callback_data(kind: Seq<char>, quality: Seq<char>, session: Seq<char>) -> Seq<char> {
    kind + ":"@ + quality + ":"@ + session
}

/// Callback data that the keyboards build parses back to its parts, when the
/// kind is known, the quality holds no `:` and the session id is a non-empty
/// run of at most 32 bytes.
pub proof fn lemma_callback_roundtrip(kind: Seq<char>, quality: Seq<char>, session: Seq<char>)
    requires
        kind == "v"@ || kind == "a"@ || kind == "cancel"@,
        forall|i: int| 0 <= i < quality.len() ==> quality[i] != ':',
        session.len() > 0,
        utf8_len(session) <= 32,
    ensures
        callback_of(callback_data(kind, quality, session)) == Some((kind[0], quality, session)),
{
    reveal_strlit(":");
    reveal_strlit("v");
    reveal_strlit("a");
    reveal_strlit("cancel");
    let d = callback_data(kind, quality, session);
    let i = kind.len() as int;
    let j = i + 1 + quality.len();
    assert(forall|k: int| 0 <= k < kind.len() ==> kind[k] != ':');
    assert(d =~= kind + seq![':'] + quality + seq![':'] + session);
    assert forall|k: int| 0 <= k < i implies d[k] != ':' by {
        assert(d[k] == kind[k]);
    }
    assert(d[i] == ':');
    lemma_first_index_from(d, ':', 0);
    assert(first_index_from(d, ':', 0) == Some(i)) by {
        lemma_first_index_unique(d, ':', 0, i);
    }
    assert forall|k: int| i + 1 <= k < j implies d[k] != ':' by {
        assert(d[k] == quality[k - i - 1]);
    }
    assert(d[j] == ':');
    assert(first_index_from(d, ':', i + 1) == Some(j)) by {
        lemma_first_index_unique(d, ':', i + 1, j);
    }
    assert(d.subrange(0, i) =~= kind);
    assert(d.subrange(i + 1, j) =~= quality);
    assert(d.subrange(j + 1, d.len() as int) =~= session);
}

/// The two-field cancel form `cancel:<session_id>` parses to kind `c`, an
/// empty quality code and the session id, for any session id of 1 to 32
/// bytes without `:`.
pub proof fn lemma_short_cancel(session: Seq<char>)
    requires
        forall|i: int| 0 <= i < session.len() ==> session[i] != ':',
        session_fits(session),
    ensures
        callback_of("cancel:"@ + session) == Some(('c', Seq::<char>::empty(), session)),
{
    reveal_strlit("cancel:");
    reveal_strlit("cancel");
    let d = "cancel:"@ + session;
    let i = 6int;
    assert forall|k: int| 0 <= k < i implies d[k] != ':' by {}
    assert(d[i] == ':');
    assert(first_index_from(d, ':', 0) == Some(i)) by {
        lemma_first_index_unique(d, ':', 0, i);
    }
    assert forall|k: int| i + 1 <= k < d.len() implies d[k] != ':' by {
        assert(d[k] == session[k - i - 1]);
    }
    lemma_first_index_from(d, ':', i + 1);
    assert(first_index_from(d, ':', i + 1) is None);
    assert(d.subrange(0, i) =~= "cancel"@);
    assert(d.subrange(i + 1, d.len() as int) =~= session);
}

/// `first_index_from` finds the first matching position.
pub proof fn lemma_first_index_unique(s: Seq<char>, c: char, from: int, k: int)
    requires
        0 <= from <= k < s.len(),
        s[k] == c,
        forall|j: int| from <= j < k ==> s[j] != c,
    ensures
        first_index_from(s, c, from) == Some(k),
    decreases k - from,
{
    if from < k {
        lemma_first_index_unique(s, c, from + 1, k);
    }
}

} // verus!
