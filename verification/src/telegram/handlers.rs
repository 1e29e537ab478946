//! The decisions behind the message and callback handlers and the download
//! pipelines. Each function here takes what the bot received or what an
//! outside operation returned, and says what to do next; the Telegram, store
//! and subprocess calls are made by the caller.
use vstd::prelude::*;

use std::collections::HashMap;

use crate::error::{owned, Error};
use crate::i18n::{error_generic, over_limit, Lang};
use crate::media::ytdlp::{audio_quality_of_code, video_quality_of_code, AudioQuality, VideoQuality};
use crate::session::{callback_data, callback_of, lemma_callback_roundtrip, parse_callback};
use crate::telegram::keyboard::lemma_codes_plain;
use crate::media::ytdlp::lemma_quality_codes_roundtrip;
use crate::text::utf8_len;
use crate::text::{
    chars_of, contains_str, contains_sub, is_whitespace, is_ws, lowercase, lowercase_of, slice_of,
    starts_with_str, string_of,
};

verus! {

broadcast use vstd::std_specs::hash::group_hash_axioms;

/// Bot profile description (`setMyDescription`, at most 512 characters).
pub const BOT_DESCRIPTION: &'static str =
    "Send me a YouTube, TikTok, Instagram, or X link and I'll fetch the video or audio for you.";

/// Bot profile short description (`setMyShortDescription`, at most 120 characters).
pub const BOT_SHORT_DESCRIPTION: &'static str =
    "Send a link, get video or audio back. YouTube, TikTok, Instagram, X.";

/// `/start` reply.
pub const WELCOME: &'static str =
    "Send me a YouTube, TikTok, Instagram, or X link and I'll fetch the video or audio for you.";

/// `/help` reply.
pub const HELP: &'static str = "Send a link → tap 🎬 Video or 🎵 Audio → pick quality.\n\nCommands:\n/start — welcome\n/help — this guide\n\nLimits: 20 downloads/hour, 2 at a time, 2 GB max file size.";

// ---------------------------------------------------------------------------
// URLs in free text
// ---------------------------------------------------------------------------

/// An autolink wrapper character.
pub open spec fn is_angle(c: char) -> bool {
    c == '<' || c == '>'
}

/// `s` without leading `<` / `>`.
pub open spec fn strip_angle_start(s: Seq<char>) -> Seq<char>
    decreases s.len(),
{
    if s.len() > 0 && is_angle(s[0]) {
        strip_angle_start(s.drop_first())
    } else {
        s
    }
}

/// `s` without trailing `<` / `>`.
pub open spec fn strip_angle_end(s: Seq<char>) -> Seq<char>
    decreases s.len(),
{
    if s.len() > 0 && is_angle(s.last()) {
        strip_angle_end(s.drop_last())
    } else {
        s
    }
}

/// `s` with `<` / `>` removed from both ends (`trim_matches`).
pub open spec fn strip_angles(s: Seq<char>) -> Seq<char> {
    strip_angle_end(strip_angle_start(s))
}

/// The token starts with an http(s) scheme.
pub open spec fn url_like(s: Seq<char>) -> bool {
    "http://"@.is_prefix_of(s) || "https://"@.is_prefix_of(s)
}

/// End of the whitespace-free run that starts at `i`.
pub open spec fn word_end(s: Seq<char>, i: int) -> int
    decreases s.len() - i,
{
    if i < 0 || i >= s.len() || is_ws(s[i]) {
        i
    } else {
        word_end(s, i + 1)
    }
}

proof fn lemma_word_end(s: Seq<char>, i: int)
    requires
        0 <= i,
    ensures
        i <= word_end(s, i),
        word_end(s, i) <= s.len() || word_end(s, i) == i,
        i < s.len() && !is_ws(s[i]) ==> i < word_end(s, i),
        forall|j: int| i <= j < word_end(s, i) ==> !is_ws(#[trigger] s[j]),
        word_end(s, i) < s.len() ==> is_ws(s[word_end(s, i)]),
    decreases s.len() - i,
{
    if !(i >= s.len() || is_ws(s[i])) {
        lemma_word_end(s, i + 1);
    }
}

/// The first whitespace-separated token at or after `i` that, stripped of
/// `<` / `>`, starts with `http://` or `https://`; the stripped token.
pub open spec fn url_from(s: Seq<char>, i: int) -> Option<Seq<char>>
    decreases s.len() - i,
{
    if i < 0 || i >= s.len() {
        None
    } else if is_ws(s[i]) {
        url_from(s, i + 1)
    } else {
        let e = word_end(s, i);
        if i < e <= s.len() {
            let w = strip_angles(s.subrange(i, e));
            if url_like(w) {
                Some(w)
            } else {
                url_from(s, e)
            }
        } else {
            None
        }
    }
}

/// Stripping leading `<` / `>` leaves a suffix.
proof fn lemma_strip_start_suffix(t: Seq<char>)
    ensures
        strip_angle_start(t).len() <= t.len(),
        strip_angle_start(t) == t.subrange(t.len() - strip_angle_start(t).len(), t.len() as int),
    decreases t.len(),
{
    if t.len() > 0 && is_angle(t[0]) {
        lemma_strip_start_suffix(t.drop_first());
        let r = strip_angle_start(t.drop_first());
        assert(t.drop_first().subrange(t.len() - 1 - r.len(), t.len() - 1) =~= t.subrange(
            t.len() - r.len(),
            t.len() as int,
        ));
    } else {
        assert(t.subrange(0, t.len() as int) =~= t);
    }
}

/// Stripping trailing `<` / `>` leaves a prefix.
proof fn lemma_strip_end_prefix(t: Seq<char>)
    ensures
        strip_angle_end(t).len() <= t.len(),
        strip_angle_end(t) == t.subrange(0, strip_angle_end(t).len() as int),
    decreases t.len(),
{
    if t.len() > 0 && is_angle(t.last()) {
        lemma_strip_end_prefix(t.drop_last());
        let r = strip_angle_end(t.drop_last());
        assert(t.drop_last().subrange(0, r.len() as int) =~= t.subrange(0, r.len() as int));
    } else {
        assert(t.subrange(0, t.len() as int) =~= t);
    }
}

/// What [`extract_url`] finds is a link: it starts with `http://` or
/// `https://`, holds no whitespace, and stands in the text as it is.
pub proof fn lemma_url_from_is_token(s: Seq<char>, i: int)
    requires
        0 <= i,
    ensures
        url_from(s, i) matches Some(u) ==> url_like(u) && (forall|k: int| 0 <= k < u.len() ==> !is_ws(#[trigger] u[k]))
            && contains_sub(s, u),
    decreases s.len() - i,
{
    if i < s.len() {
        if is_ws(s[i]) {
            lemma_url_from_is_token(s, i + 1);
        } else {
            let e = word_end(s, i);
            lemma_word_end(s, i);
            if i < e <= s.len() {
                let t = s.subrange(i, e);
                let a = strip_angle_start(t);
                let w = strip_angle_end(a);
                lemma_strip_start_suffix(t);
                lemma_strip_end_prefix(a);
                if url_like(w) {
                    let off = t.len() - a.len();
                    assert(w =~= s.subrange(i + off, i + off + w.len()));
                    assert forall|k: int| 0 <= k < w.len() implies !is_ws(#[trigger] w[k]) by {
                        assert(w[k] == s[i + off + k]);
                    }
                    assert(s.subrange(i + off, i + off + w.len()) == w);
                } else {
                    lemma_url_from_is_token(s, e);
                }
            }
        }
    }
}

/// Bounds of `v[a..b]` stripped of `<` / `>` at both ends.
fn strip_angle_bounds(v: &Vec<char>, a: usize, b: usize) -> (r: (usize, usize))
    requires
        a <= b <= v.len(),
    ensures
        a <= r.0 <= r.1 <= b,
        v@.subrange(r.0 as int, r.1 as int) == strip_angles(v@.subrange(a as int, b as int)),
{
    let mut x: usize = a;
    while x < b && (v[x] == '<' || v[x] == '>')
        invariant
            a <= x <= b,
            b <= v.len(),
            strip_angle_start(v@.subrange(a as int, b as int)) == strip_angle_start(
                v@.subrange(x as int, b as int),
            ),
        decreases b - x,
    {
        proof {
            let t = v@.subrange(x as int, b as int);
            assert(t.drop_first() =~= v@.subrange(x + 1, b as int));
            assert(t[0] == v@[x as int]);
        }
        x = x + 1;
    }
    let ghost t = v@.subrange(x as int, b as int);
    proof {
        if x < b {
            assert(t[0] == v@[x as int]);
        }
        assert(strip_angle_start(t) == t);
        assert(t.subrange(0, t.len() as int) =~= t);
    }
    let mut y: usize = b;
    while y > x && (v[y - 1] == '<' || v[y - 1] == '>')
        invariant
            x <= y <= b,
            b <= v.len(),
            t == v@.subrange(x as int, b as int),
            strip_angle_end(t) == strip_angle_end(t.subrange(0, y - x)),
        decreases y - x,
    {
        proof {
            let u = t.subrange(0, y - x);
            assert(u.drop_last() =~= t.subrange(0, y - x - 1));
            assert(u.last() == v@[y - 1]);
        }
        y = y - 1;
    }
    proof {
        let u = t.subrange(0, y - x);
        if y > x {
            assert(u.last() == v@[y - 1]);
        }
        assert(strip_angle_end(u) == u);
        assert(u =~= v@.subrange(x as int, y as int));
    }
    (x, y)
}

/// First URL-like token in free text.
///
/// Leading `<` / trailing `>` wrapping (some clients autolink that way) is
/// stripped before the scheme check.
pub fn extract_url(text: &str) -> (r: Option<String>)
    ensures
        (match r {
            Some(u) => url_from(text@, 0) == Some(u@),
            None => url_from(text@, 0) is None,
        }),
{
    let v = chars_of(text);
    let n = v.len();
    let mut i: usize = 0;
    while i < n
        invariant
            i <= n,
            n == v.len(),
            v@ == text@,
            url_from(v@, 0) == url_from(v@, i as int),
        decreases n - i,
    {
        if is_whitespace(v[i]) {
            i = i + 1;
        } else {
            let mut e: usize = i;
            while e < n && !is_whitespace(v[e])
                invariant
                    i <= e <= n,
                    n == v.len(),
                    word_end(v@, i as int) == word_end(v@, e as int),
                decreases n - e,
            {
                e = e + 1;
            }
            proof {
                lemma_word_end(v@, i as int);
                assert(word_end(v@, e as int) == e);
            }
            let (a, b) = strip_angle_bounds(&v, i, e);
            let w = slice_of(&v, a, b);
            proof {
                assert(i < e);
                assert(w@ == strip_angles(v@.subrange(i as int, e as int)));
            }
            if starts_with_str(&w, "http://") || starts_with_str(&w, "https://") {
                proof {
                    assert(url_like(w@));
                    assert(url_from(v@, i as int) == Some(w@));
                }
                return Some(string_of(&w));
            }
            i = e;
        }
    }
    None
}

// ---------------------------------------------------------------------------
// Message and callback routing
// ---------------------------------------------------------------------------

/// What to do with a text message.
#[derive(Debug, Clone)]
pub enum MessageRoute {
    /// `/start`: welcome text.
    Start,
    /// `/help`: usage guide.
    Help,
    /// A link to resolve.
    Url(String),
    /// No link found: hint to send one.
    NoUrl,
}

/// Route a text message: `/start…` and `/help…` commands (also with a bot
/// username suffix), otherwise the first link in it.
pub fn route_message(text: &str) -> (r: MessageRoute)
    ensures
        "/start"@.is_prefix_of(text@) ==> r is Start,
        !"/start"@.is_prefix_of(text@) && "/help"@.is_prefix_of(text@) ==> r is Help,
        !"/start"@.is_prefix_of(text@) && !"/help"@.is_prefix_of(text@) ==> (match r {
            MessageRoute::Url(u) => url_from(text@, 0) == Some(u@),
            MessageRoute::NoUrl => url_from(text@, 0) is None,
            _ => false,
        }),
{
    let v = chars_of(text);
    if starts_with_str(&v, "/start") {
        MessageRoute::Start
    } else if starts_with_str(&v, "/help") {
        MessageRoute::Help
    } else {
        match extract_url(text) {
            Some(u) => MessageRoute::Url(u),
            None => MessageRoute::NoUrl,
        }
    }
}

/// What a tap on a session button asks for, once the session is loaded.
#[derive(Debug, Clone, Copy, PartialEq, Eq, Structural)]
pub enum SessionAction {
    /// Show the video quality picker.
    ShowVideoPicker,
    /// Show the audio quality picker.
    ShowAudioPicker,
    /// Start the video pipeline.
    StartVideo(VideoQuality),
    /// Start the audio pipeline.
    StartAudio(AudioQuality),
    /// The quality code is not one the bot offers.
    UnknownQuality,
    /// Nothing to do but acknowledge.
    Acknowledge,
}

/// What to do with callback data.
#[derive(Debug, Clone)]
pub enum CallbackRoute {
    /// Unparseable data: "Outdated button".
    Outdated,
    /// ❌: cancel the download of this session (if any).
    Cancel { session_id: String },
    /// Load the session, then act.
    WithSession { session_id: String, action: SessionAction },
}

/// The action that kind `k` with quality code `q` asks for.
pub open spec fn session_action_of(k: char, q: Seq<char>) -> SessionAction {
    if k == 'v' && q == "pick"@ {
        SessionAction::ShowVideoPicker
    } else if k == 'a' && q == "pick"@ {
        SessionAction::ShowAudioPicker
    } else if k == 'v' {
        match video_quality_of_code(q) {
            Some(vq) => SessionAction::StartVideo(vq),
            None => SessionAction::UnknownQuality,
        }
    } else if k == 'a' {
        match audio_quality_of_code(q) {
            Some(aq) => SessionAction::StartAudio(aq),
            None => SessionAction::UnknownQuality,
        }
    } else {
        SessionAction::Acknowledge
    }
}

/// `r` is where callback data `data` routes.
pub open spec fn routed(data: Seq<char>, r: CallbackRoute) -> bool {
    match callback_of(data) {
        None => r is Outdated,
        Some((k, q, s)) => if "cancel:"@.is_prefix_of(data) {
            r matches CallbackRoute::Cancel { session_id } && session_id@ == s
        } else {
            r matches CallbackRoute::WithSession { session_id, action } && session_id@ == s
                && action == session_action_of(k, q)
        },
    }
}

/// Route callback data.
pub fn route_callback(data: &str) -> (r: CallbackRoute)
    ensures
        routed(data@, r),
{
    let parsed = parse_callback(data);
    let (kind, quality, session_id) = match parsed {
        Some(p) => p,
        None => return CallbackRoute::Outdated,
    };
    let d = chars_of(data);
    if starts_with_str(&d, "cancel:") {
        return CallbackRoute::Cancel { session_id };
    }
    let qv = chars_of(quality.as_str());
    let is_pick = crate::text::eq_str(&qv, "pick");
    let action = if kind == 'v' && is_pick {
        SessionAction::ShowVideoPicker
    } else if kind == 'a' && is_pick {
        SessionAction::ShowAudioPicker
    } else if kind == 'v' {
        match VideoQuality::parse_code(quality.as_str()) {
            Some(vq) => SessionAction::StartVideo(vq),
            None => SessionAction::UnknownQuality,
        }
    } else if kind == 'a' {
        match AudioQuality::parse_code(quality.as_str()) {
            Some(aq) => SessionAction::StartAudio(aq),
            None => SessionAction::UnknownQuality,
        }
    } else {
        SessionAction::Acknowledge
    };
    CallbackRoute::WithSession { session_id, action }
}

/// A quality button starts a download at exactly the quality it shows: for
/// every video quality `vq`, audio quality `aq` and session id of 1 to 32
/// bytes, the data `v:{code of vq}:{id}` routes to starting the video pipeline
/// at `vq` for that session, and `a:{code of aq}:{id}` to starting the audio
/// pipeline at `aq`.
pub proof fn lemma_quality_buttons_route(vq: VideoQuality, aq: AudioQuality, session: Seq<char>, rv: CallbackRoute, ra: CallbackRoute)
    requires
        session.len() > 0,
        utf8_len(session) <= 32,
        routed("v"@ + ":"@ + vq.as_str()@ + ":"@ + session, rv),
        routed("a"@ + ":"@ + aq.as_str()@ + ":"@ + session, ra),
    ensures
        rv matches CallbackRoute::WithSession { session_id, action } && session_id@ == session
            && action == SessionAction::StartVideo(vq),
        ra matches CallbackRoute::WithSession { session_id, action } && session_id@ == session
            && action == SessionAction::StartAudio(aq),
{
    reveal_strlit("v");
    reveal_strlit("a");
    reveal_strlit(":");
    reveal_strlit("pick");
    reveal_strlit("cancel:");
    lemma_codes_plain(vq, aq);
    lemma_quality_codes_roundtrip(vq, aq);
    lemma_callback_roundtrip("v"@, vq.as_str()@, session);
    lemma_callback_roundtrip("a"@, aq.as_str()@, session);
    let dv = "v"@ + ":"@ + vq.as_str()@ + ":"@ + session;
    let da = "a"@ + ":"@ + aq.as_str()@ + ":"@ + session;
    assert(dv == callback_data("v"@, vq.as_str()@, session));
    assert(da == callback_data("a"@, aq.as_str()@, session));
    assert(!"cancel:"@.is_prefix_of(dv)) by {
        assert(dv[0] == 'v');
        assert("cancel:"@[0] == 'c');
    }
    assert(!"cancel:"@.is_prefix_of(da)) by {
        assert(da[0] == 'a');
        assert("cancel:"@[0] == 'c');
    }
    reveal_strlit("360");
    reveal_strlit("480");
    reveal_strlit("720");
    reveal_strlit("1080");
    reveal_strlit("best");
    reveal_strlit("128");
    reveal_strlit("192");
    reveal_strlit("320");
    assert(vq.as_str()@ != "pick"@) by {
        assert("pick"@[0] == 'p');
        assert(vq.as_str()@[0] != 'p');
    }
    assert(aq.as_str()@ != "pick"@) by {
        assert("pick"@[0] == 'p');
        assert(aq.as_str()@[0] != 'p');
    }
}

// ---------------------------------------------------------------------------
// Small decisions
// ---------------------------------------------------------------------------

/// Standard Bot API caps uploads at 50 MB; larger files need a Local Bot API
/// Server (`TELEGRAM_API_URL`).
pub const STANDARD_UPLOAD_LIMIT: u64 = 50_000_000;

/// Largest thumbnail sent as a photo with the preview (exclusive).
pub const MAX_THUMBNAIL_BYTES: usize = 5_000_000;

/// A file this size cannot go through the standard Bot API.
pub fn exceeds_standard_limit(len: u64) -> (r: bool)
    ensures
        r == (len > STANDARD_UPLOAD_LIMIT),
{
    len > STANDARD_UPLOAD_LIMIT
}

/// A fetched thumbnail is sent as the preview photo when non-empty and under 5 MB.
pub fn thumbnail_acceptable(len: usize) -> (r: bool)
    ensures
        r == (0 < len && len < MAX_THUMBNAIL_BYTES),
{
    len != 0 && len < MAX_THUMBNAIL_BYTES
}

/// Text for an upload failure whose lowercased error text is `lower`.
pub open spec fn upload_error_text_of(lower: Seq<char>) -> Seq<char> {
    if contains_sub(lower, "too large"@) {
        over_limit(Lang::En)@
    } else {
        error_generic(Lang::En)@
    }
}

/// Text of [`upload_error_message`].
pub open spec fn upload_error_text(raw: Seq<char>) -> Seq<char> {
    upload_error_text_of(lowercase_of(raw))
}

/// User text for an upload failure, given the failure text in lowercase.
pub fn upload_error_from_lowercase(lower: &str) -> (r: String)
    ensures
        r@ == upload_error_text_of(lower@),
{
    let l = chars_of(lower);
    if contains_str(&l, "too large") {
        owned(over_limit(Lang::En))
    } else {
        Error::Telegram(owned(lower)).user_message(Lang::En)
    }
}

/// Map an upload failure to user text. A 413 from Telegram ("Request Entity
/// Too Large") means the file exceeds the 50 MB standard-API cap.
pub fn upload_error_message(raw: &str) -> (r: String)
    ensures
        r@ == upload_error_text(raw@),
{
    let low = lowercase(raw);
    upload_error_from_lowercase(low.as_str())
}

/// Whole minutes reported for a pipeline deadline of `secs` (at least 1).
pub open spec fn timeout_minutes_of(secs: nat) -> nat {
    if secs / 60 >= 1 {
        secs / 60
    } else {
        1
    }
}

/// Whole minutes reported for a pipeline deadline of `secs` (at least 1).
pub fn timeout_minutes(secs: u64) -> (r: u64)
    ensures
        r == timeout_minutes_of(secs as nat),
{
    let m = secs / 60;
    if m >= 1 {
        m
    } else {
        1
    }
}

/// The error a stage that hit the deadline reports.
pub fn timed_out(secs: u64) -> (e: Error)
    ensures
        e matches Error::TimedOut { minutes } && minutes == timeout_minutes_of(secs as nat),
{
    Error::TimedOut { minutes: timeout_minutes(secs) }
}

/// Progress 0–100 of the download scaled into the bar's `0..=scale_to` range
/// (audio keeps the last 20% for convert + upload); a result that does not
/// fit `u8` shows as 100.
pub fn scale_progress(pct: u8, scale_to: u8) -> (r: u8)
    ensures
        r == (if pct * scale_to / 100 <= 255 {
            pct * scale_to / 100
        } else {
            100
        }),
{
    proof {
        assert((pct as int) * (scale_to as int) <= 255 * 255) by (nonlinear_arith)
            requires
                pct <= 255,
                scale_to <= 255,
        ;
    }
    let scaled: u16 = (pct as u16) * (scale_to as u16) / 100;
    if scaled <= 255 {
        scaled as u8
    } else {
        100
    }
}

/// How a tap is admitted to the download workers.
#[derive(Debug, Clone, Copy, PartialEq, Eq, Structural)]
pub enum Admission {
    /// Too many taps already wait: refuse with a busy notice.
    Busy,
    /// All workers busy: show "Queued…" and wait.
    Queued,
    /// A worker is free.
    Immediate,
}

/// Admission of a tap, given how many taps already wait (before this one),
/// the waiter cap, and the free workers.
pub fn admission(parked: usize, max_queued: usize, available_permits: usize) -> (r: Admission)
    ensures
        parked >= max_queued ==> r is Busy,
        parked < max_queued && available_permits == 0 ==> r is Queued,
        parked < max_queued && available_permits > 0 ==> r is Immediate,
{
    if parked >= max_queued {
        Admission::Busy
    } else if available_permits == 0 {
        Admission::Queued
    } else {
        Admission::Immediate
    }
}

// ---------------------------------------------------------------------------
// Per-user slots
// ---------------------------------------------------------------------------

/// In-flight downloads per user (queued and running both count).
/// Users with no download have no entry.
pub struct UserSlots {
    slots: HashMap<u64, usize>,
}

impl View for UserSlots {
    type V = Map<u64, usize>;

    closed spec fn view(&self) -> Map<u64, usize> {
        self.slots@
    }
}

/// Slots `user` holds in `m`.
pub open spec fn held(m: Map<u64, usize>, user: u64) -> nat {
    if m.contains_key(user) {
        m[user] as nat
    } else {
        0
    }
}

/// No user is listed with zero slots.
pub open spec fn slots_wf(m: Map<u64, usize>) -> bool {
    forall|u: u64| m.contains_key(u) ==> m[u] > 0
}

/// The map after `user` takes a slot under cap `max`.
pub open spec fn after_acquire(m: Map<u64, usize>, user: u64, max: usize) -> Map<u64, usize> {
    if held(m, user) >= max {
        m
    } else {
        m.insert(user, (held(m, user) + 1) as usize)
    }
}

/// The map after `user` gives a slot back.
pub open spec fn after_release(m: Map<u64, usize>, user: u64) -> Map<u64, usize> {
    if !m.contains_key(user) {
        m
    } else if m[user] <= 1 {
        m.remove(user)
    } else {
        m.insert(user, (m[user] - 1) as usize)
    }
}

impl UserSlots {
    /// No user is listed with zero slots.
    #[verifier::type_invariant]
    closed spec fn wf(&self) -> bool {
        slots_wf(self.slots@)
    }

    /// No user holds a slot.
    pub fn new() -> (r: UserSlots)
        ensures
            r@ == Map::<u64, usize>::empty(),
    {
        UserSlots { slots: HashMap::new() }
    }

    /// Slots `user` holds.
    pub fn count(&self, user: u64) -> (r: usize)
        ensures
            r == held(self@, user),
    {
        match self.slots.get(&user) {
            Some(n) => *n,
            None => 0,
        }
    }

    /// No user holds a slot.
    pub fn is_empty(&self) -> (r: bool)
        ensures
            r == (self@.dom().len() == 0),
    {
        proof {
            vstd::std_specs::hash::axiom_hashmap_view_finite_dom(self.slots);
        }
        self.slots.is_empty()
    }

    /// Take one of `user`'s slots under cap `max`. Returns `false` when the
    /// user is at the cap.
    pub fn acquire(&mut self, user: u64, max: usize) -> (r: bool)
        ensures
            r == (held(old(self)@, user) < max),
            final(self)@ == after_acquire(old(self)@, user, max),
    {
        proof {
            use_type_invariant(&*self);
        }
        let used = self.count(user);
        if used >= max {
            return false;
        }
        let mut slots: HashMap<u64, usize> = HashMap::new();
        std::mem::swap(&mut slots, &mut self.slots);
        slots.insert(user, used + 1);
        self.slots = slots;
        true
    }

    /// Give back a slot taken by [`UserSlots::acquire`]; a user without
    /// slots is left alone.
    pub fn release(&mut self, user: u64)
        ensures
            final(self)@ == after_release(old(self)@, user),
    {
        proof {
            use_type_invariant(&*self);
        }
        let used = self.count(user);
        if used == 0 {
            return;
        }
        let mut slots: HashMap<u64, usize> = HashMap::new();
        std::mem::swap(&mut slots, &mut self.slots);
        if used <= 1 {
            slots.remove(&user);
        } else {
            slots.insert(user, used - 1);
        }
        self.slots = slots;
    }
}

/// A user never holds more than the cap through [`UserSlots::acquire`];
/// other users' counts do not change; a granted acquire undone by a release
/// gives back the table it started from.
pub proof fn lemma_slots_laws(m: Map<u64, usize>, user: u64, other: u64, max: usize)
    requires
        slots_wf(m),
    ensures
        held(m, user) <= max ==> held(after_acquire(m, user, max), user) <= max,
        other != user ==> held(after_acquire(m, user, max), other) == held(m, other),
        other != user ==> held(after_release(m, user), other) == held(m, other),
        held(m, user) < max ==> after_release(after_acquire(m, user, max), user) == m,
        slots_wf(after_acquire(m, user, max)),
        slots_wf(after_release(m, user)),
{
    if held(m, user) < max {
        let a = after_acquire(m, user, max);
        if m.contains_key(user) {
            assert(after_release(a, user) =~= m);
        } else {
            assert(after_release(a, user) =~= m);
        }
    }
}

} // verus!
