//! Inline keyboards, preview captions, progress bars.
//!
//! A keyboard is built here as rows of (label, callback data) buttons; the
//! Telegram markup is made from it at the edge.
use vstd::prelude::*;

use crate::i18n::{audio_button, cancel_button, live_unknown, video_button, views, views_text, Lang};
use crate::media::ytdlp::{duration_label_text, AudioOption, Metadata, VideoOption};
use crate::media::ytdlp::{AudioQuality, VideoQuality};
use crate::session::{callback_data, callback_of, lemma_callback_roundtrip};
use crate::text::{
    all_ascii, chars_of, contains_sub, decimal, lemma_contains_concat, lemma_prefix_concat,
    lemma_utf8_len_add, lemma_utf8_len_ascii, push_decimal, push_str, string_of, utf8_len,
};

verus! {

/// One inline button: its label and callback data.
#[derive(Debug, Clone)]
pub struct Button {
    pub text: String,
    pub data: String,
}

/// Rows of buttons.
pub type Keyboard = Vec<Vec<Button>>;

/// The (label, data) view of a row.
pub open spec fn row_view(row: Seq<Button>) -> Seq<(Seq<char>, Seq<char>)> {
    row.map_values(|b: Button| (b.text@, b.data@))
}

/// The (label, data) view of a keyboard.
pub open spec fn keyboard_view(k: Seq<Vec<Button>>) -> Seq<Seq<(Seq<char>, Seq<char>)>> {
    k.map_values(|row: Vec<Button>| row_view(row@))
}

/// A button from a label and callback data parts `{kind}:{quality}:{session}`.
fn callback_button(text: &str, kind: &str, quality: &str, session_id: &str) -> (b: Button)
    ensures
        b.text@ == text@,
        b.data@ == callback_data(kind@, quality@, session_id@),
{
    let mut data = chars_of(kind);
    push_str(&mut data, ":");
    push_str(&mut data, quality);
    push_str(&mut data, ":");
    push_str(&mut data, session_id);
    let t = chars_of(text);
    Button { text: string_of(&t), data: string_of(&data) }
}

/// Preview card buttons: `[🎬 Video] [🎵 Audio]`.
pub fn preview_keyboard(session_id: &str, lang: Lang) -> (k: Keyboard)
    ensures
        keyboard_view(k@) == seq![
            seq![
                (video_button(lang)@, callback_data("v"@, "pick"@, session_id@)),
                (audio_button(lang)@, callback_data("a"@, "pick"@, session_id@)),
            ],
        ],
{
    let mut row: Vec<Button> = Vec::new();
    row.push(callback_button(video_button(lang), "v", "pick", session_id));
    row.push(callback_button(audio_button(lang), "a", "pick", session_id));
    let mut k: Keyboard = Vec::new();
    k.push(row);
    proof {
        assert(row_view(k@[0]@) =~= seq![
            (video_button(lang)@, callback_data("v"@, "pick"@, session_id@)),
            (audio_button(lang)@, callback_data("a"@, "pick"@, session_id@)),
        ]);
        assert(keyboard_view(k@) =~= seq![row_view(k@[0]@)]);
    }
    k
}

/// Label of a quality option: `720p — ~42 MB` when the size is known.
pub open spec fn option_label(label: Seq<char>, estimated: Option<u64>) -> Seq<char> {
    match estimated {
        Some(b) => label + " — ~"@ + format_bytes_text(b as nat),
        None => label,
    }
}

/// The cancel row under a quality picker.
pub open spec fn cancel_row(session_id: Seq<char>, lang: Lang) -> Seq<(Seq<char>, Seq<char>)> {
    seq![(cancel_button(lang)@, callback_data("cancel"@, "x"@, session_id))]
}

/// Rows of the video quality picker.
pub open spec fn video_rows(opts: Seq<VideoOption>, session_id: Seq<char>, lang: Lang) -> Seq<Seq<(Seq<char>, Seq<char>)>> {
    opts.map_values(|o: VideoOption| seq![(option_label(o.quality.label(lang)@, o.estimated_bytes), callback_data("v"@, o.quality.as_str()@, session_id))])
}

/// Rows of the audio quality picker.
pub open spec fn audio_rows(opts: Seq<AudioOption>, session_id: Seq<char>, lang: Lang) -> Seq<Seq<(Seq<char>, Seq<char>)>> {
    opts.map_values(|o: AudioOption| seq![(option_label(o.quality.label(lang)@, o.estimated_bytes), callback_data("a"@, o.quality.as_str()@, session_id))])
}

/// The label of a quality option.
fn option_label_string(label: &str, estimated: Option<u64>) -> (r: String)
    ensures
        r@ == option_label(label@, estimated),
{
    let mut v = chars_of(label);
    match estimated {
        Some(b) => {
            push_str(&mut v, " — ~");
            push_format_bytes(&mut v, b);
        },
        None => {},
    }
    string_of(&v)
}

/// Quality picker for video. Each button shows `720p — ~42 MB` when known.
pub fn video_quality_keyboard(meta: &Metadata, session_id: &str, lang: Lang) -> (k: Keyboard)
    ensures
        keyboard_view(k@) == video_rows(meta.video_options@, session_id@, lang).push(cancel_row(session_id@, lang)),
{
    let opts = &meta.video_options;
    let mut k: Keyboard = Vec::new();
    let mut i: usize = 0;
    while i < opts.len()
        invariant
            i <= opts.len(),
            keyboard_view(k@) == video_rows(opts@.subrange(0, i as int), session_id@, lang),
        decreases opts.len() - i,
    {
        let o = opts[i];
        let label = option_label_string(o.quality.label(lang), o.estimated_bytes);
        let b = callback_button(label.as_str(), "v", o.quality.as_str(), session_id);
        let mut row: Vec<Button> = Vec::new();
        row.push(b);
        let ghost old_k = k@;
        k.push(row);
        proof {
            let expected = seq![(option_label(o.quality.label(lang)@, o.estimated_bytes), callback_data("v"@, o.quality.as_str()@, session_id@))];
            assert(row_view(row@) =~= expected);
            assert(opts@.subrange(0, i + 1) =~= opts@.subrange(0, i as int).push(o));
            assert(keyboard_view(k@) =~= keyboard_view(old_k).push(row_view(row@)));
            assert(video_rows(opts@.subrange(0, i + 1), session_id@, lang) =~= video_rows(opts@.subrange(0, i as int), session_id@, lang).push(expected));
        }
        i = i + 1;
    }
    let mut last: Vec<Button> = Vec::new();
    last.push(callback_button(cancel_button(lang), "cancel", "x", session_id));
    k.push(last);
    proof {
        assert(opts@.subrange(0, opts@.len() as int) =~= opts@);
        assert(row_view(last@) =~= cancel_row(session_id@, lang));
        assert(keyboard_view(k@) =~= video_rows(opts@, session_id@, lang).push(cancel_row(session_id@, lang)));
    }
    k
}

/// Quality picker for audio.
pub fn audio_quality_keyboard(meta: &Metadata, session_id: &str, lang: Lang) -> (k: Keyboard)
    ensures
        keyboard_view(k@) == audio_rows(meta.audio_options@, session_id@, lang).push(cancel_row(session_id@, lang)),
{
    let opts = &meta.audio_options;
    let mut k: Keyboard = Vec::new();
    let mut i: usize = 0;
    while i < opts.len()
        invariant
            i <= opts.len(),
            keyboard_view(k@) == audio_rows(opts@.subrange(0, i as int), session_id@, lang),
        decreases opts.len() - i,
    {
        let o = opts[i];
        let label = option_label_string(o.quality.label(lang), o.estimated_bytes);
        let b = callback_button(label.as_str(), "a", o.quality.as_str(), session_id);
        let mut row: Vec<Button> = Vec::new();
        row.push(b);
        let ghost old_k = k@;
        k.push(row);
        proof {
            let expected = seq![(option_label(o.quality.label(lang)@, o.estimated_bytes), callback_data("a"@, o.quality.as_str()@, session_id@))];
            assert(row_view(row@) =~= expected);
            assert(opts@.subrange(0, i + 1) =~= opts@.subrange(0, i as int).push(o));
            assert(keyboard_view(k@) =~= keyboard_view(old_k).push(row_view(row@)));
            assert(audio_rows(opts@.subrange(0, i + 1), session_id@, lang) =~= audio_rows(opts@.subrange(0, i as int), session_id@, lang).push(expected));
        }
        i = i + 1;
    }
    let mut last: Vec<Button> = Vec::new();
    last.push(callback_button(cancel_button(lang), "cancel", "x", session_id));
    k.push(last);
    proof {
        assert(opts@.subrange(0, opts@.len() as int) =~= opts@);
        assert(row_view(last@) =~= cancel_row(session_id@, lang));
        assert(keyboard_view(k@) =~= audio_rows(opts@, session_id@, lang).push(cancel_row(session_id@, lang)));
    }
    k
}

/// Single cancel button shown under the progress message during download.
pub fn cancel_keyboard(session_id: &str, lang: Lang) -> (k: Keyboard)
    ensures
        keyboard_view(k@) == seq![cancel_row(session_id@, lang)],
{
    let mut row: Vec<Button> = Vec::new();
    row.push(callback_button(cancel_button(lang), "cancel", "x", session_id));
    let mut k: Keyboard = Vec::new();
    k.push(row);
    proof {
        assert(row_view(k@[0]@) =~= cancel_row(session_id@, lang));
        assert(keyboard_view(k@) =~= seq![cancel_row(session_id@, lang)]);
    }
    k
}

/// Language picker for `/language`: `[English] [Русский]`, one per row.
pub fn language_keyboard() -> (k: Keyboard)
    ensures
        keyboard_view(k@) == seq![seq![("English"@, "lang:en"@)], seq![("Русский"@, "lang:ru"@)]],
{
    let en = chars_of("English");
    let en_d = chars_of("lang:en");
    let ru = chars_of("Русский");
    let ru_d = chars_of("lang:ru");
    let mut r1: Vec<Button> = Vec::new();
    r1.push(Button { text: string_of(&en), data: string_of(&en_d) });
    let mut r2: Vec<Button> = Vec::new();
    r2.push(Button { text: string_of(&ru), data: string_of(&ru_d) });
    let mut k: Keyboard = Vec::new();
    k.push(r1);
    k.push(r2);
    proof {
        assert(row_view(k@[0]@) =~= seq![("English"@, "lang:en"@)]);
        assert(row_view(k@[1]@) =~= seq![("Русский"@, "lang:ru"@)]);
        assert(keyboard_view(k@) =~= seq![seq![("English"@, "lang:en"@)], seq![("Русский"@, "lang:ru"@)]]);
    }
    k
}

// ---------------------------------------------------------------------------
// Texts
// ---------------------------------------------------------------------------

/// Human-readable byte count with decimal units: `42 MB`, `3.1 GB`, `512 KB`.
pub open spec fn format_bytes_text(bytes: nat) -> Seq<char> {
    if bytes >= 1_000_000_000 {
        decimal(bytes / 1_000_000_000) + "."@ + decimal((bytes % 1_000_000_000) / 100_000_000) + " GB"@
    } else if bytes >= 1_000_000 {
        decimal(bytes / 1_000_000) + " MB"@
    } else if bytes >= 1_000 {
        decimal(bytes / 1_000) + " KB"@
    } else {
        decimal(bytes) + " B"@
    }
}

/// Appends the byte count text.
fn push_format_bytes(v: &mut Vec<char>, bytes: u64)
    ensures
        final(v)@ == old(v)@ + format_bytes_text(bytes as nat),
{
    if bytes >= 1_000_000_000 {
        push_decimal(v, bytes / 1_000_000_000);
        push_str(v, ".");
        push_decimal(v, (bytes % 1_000_000_000) / 100_000_000);
        push_str(v, " GB");
    } else if bytes >= 1_000_000 {
        push_decimal(v, bytes / 1_000_000);
        push_str(v, " MB");
    } else if bytes >= 1_000 {
        push_decimal(v, bytes / 1_000);
        push_str(v, " KB");
    } else {
        push_decimal(v, bytes);
        push_str(v, " B");
    }
}

/// Human-readable byte count: `42 MB`, `3.1 GB`, `512 KB`.
/// Integer math only — no float precision loss even for huge files.
pub fn format_bytes(bytes: u64) -> (r: String)
    ensures
        r@ == format_bytes_text(bytes as nat),
{
    let mut v: Vec<char> = Vec::new();
    push_format_bytes(&mut v, bytes);
    string_of(&v)
}

/// HTML escape of one character.
pub open spec fn escape_char(c: char) -> Seq<char> {
    if c == '&' {
        "&amp;"@
    } else if c == '<' {
        "&lt;"@
    } else if c == '>' {
        "&gt;"@
    } else {
        seq![c]
    }
}

/// `s` escaped for Telegram HTML parse mode: `&`, `<`, `>` become entities.
pub open spec fn escape_html(s: Seq<char>) -> Seq<char>
    decreases s.len(),
{
    if s.len() == 0 {
        s
    } else {
        escape_html(s.drop_last()) + escape_char(s.last())
    }
}

/// Escape text for Telegram HTML parse mode (captions are sent as HTML).
pub fn escape_caption(s: &str) -> (r: String)
    ensures
        r@ == escape_html(s@),
{
    let v = chars_of(s);
    let mut out: Vec<char> = Vec::new();
    let mut i: usize = 0;
    while i < v.len()
        invariant
            i <= v.len(),
            out@ == escape_html(v@.subrange(0, i as int)),
        decreases v.len() - i,
    {
        let c = v[i];
        proof {
            let nxt = v@.subrange(0, i + 1);
            assert(nxt.drop_last() =~= v@.subrange(0, i as int));
            assert(nxt.last() == c);
        }
        if c == '&' {
            push_str(&mut out, "&amp;");
        } else if c == '<' {
            push_str(&mut out, "&lt;");
        } else if c == '>' {
            push_str(&mut out, "&gt;");
        } else {
            out.push(c);
            proof {
                assert(out@ =~= escape_html(v@.subrange(0, i as int)) + seq![c]);
            }
        }
        i = i + 1;
    }
    proof {
        assert(v@.subrange(0, v@.len() as int) =~= v@);
    }
    string_of(&out)
}

/// What the preview card's second line starts with: the duration (or the
/// live label when unknown).
pub open spec fn preview_lead(meta: Metadata, lang: Lang) -> Seq<char> {
    match meta.duration_secs {
        Some(_) => duration_label_text(meta.duration_secs),
        None => live_unknown(lang)@,
    }
}

/// The preview card's second line: `{duration} · {platform}`, then
/// ` · {views}` when known, then ` · {uploader}` when known and non-empty.
pub open spec fn preview_line(meta: Metadata, lang: Lang) -> Seq<char> {
    let base = preview_lead(meta, lang) + " · "@ + meta.platform.as_str()@;
    let with_views = match meta.view_count {
        Some(n) => base + " · "@ + views_text(lang, n as nat),
        None => base,
    };
    match meta.uploader {
        Some(u) => if u@.len() > 0 {
            with_views + " · "@ + u@
        } else {
            with_views
        },
        None => with_views,
    }
}

/// Preview card text: `{title}\n{duration} · {platform} · {views} · {uploader}`.
pub open spec fn preview_text_spec(meta: Metadata, lang: Lang) -> Seq<char> {
    escape_html(meta.title@) + "\n"@ + preview_line(meta, lang)
}

/// Layout of the preview card: the HTML-escaped title, a newline, then a line
/// that starts with the duration (or the live label) and the platform, shows
/// ` · {views}` whenever the view count is known, and is just
/// `{duration} · {platform}` when neither views nor uploader are known.
pub proof fn lemma_preview_layout(meta: Metadata, lang: Lang)
    ensures
        preview_text_spec(meta, lang) == escape_html(meta.title@) + "\n"@ + preview_line(meta, lang),
        (preview_lead(meta, lang) + " · "@ + meta.platform.as_str()@).is_prefix_of(preview_line(meta, lang)),
        meta.view_count matches Some(n) ==> contains_sub(preview_line(meta, lang), " · "@ + views_text(lang, n as nat)),
        meta.view_count is None && meta.uploader is None ==> preview_line(meta, lang)
            == preview_lead(meta, lang) + " · "@ + meta.platform.as_str()@,
{
    let base = preview_lead(meta, lang) + " · "@ + meta.platform.as_str()@;
    lemma_prefix_concat(base, base, Seq::empty());
    let with_views = match meta.view_count {
        Some(n) => base + " · "@ + views_text(lang, n as nat),
        None => base,
    };
    match meta.view_count {
        Some(n) => {
            let vt = " · "@ + views_text(lang, n as nat);
            assert(with_views =~= base + vt);
            lemma_prefix_concat(base, base, vt);
            lemma_contains_concat(base, vt, vt);
        },
        None => {},
    }
    match meta.uploader {
        Some(u) => if u@.len() > 0 {
            let tail = " · "@ + u@;
            assert(with_views + " · "@ + u@ =~= with_views + tail);
            lemma_prefix_concat(base, with_views, tail);
            match meta.view_count {
                Some(n) => lemma_contains_concat(with_views, tail, " · "@ + views_text(lang, n as nat)),
                None => {},
            }
        },
        None => {},
    }
}

/// The preview card names the uploader whenever it is known: with a
/// non-empty uploader `u`, the text ends with ` · {u}`, whether or not the
/// view count is known. Without one it ends with the view count when that is
/// known, else with the platform name. The text always opens with the
/// escaped title and a newline.
pub proof fn lemma_preview_ends(meta: Metadata, lang: Lang)
    ensures
        (escape_html(meta.title@) + "\n"@).is_prefix_of(preview_text_spec(meta, lang)),
        meta.uploader matches Some(u) ==> (u@.len() > 0 ==> (" · "@ + u@).is_suffix_of(
            preview_text_spec(meta, lang),
        )),
        (match meta.uploader {
            Some(u) => u@.len() == 0,
            None => true,
        }) ==> (match meta.view_count {
            Some(n) => (" · "@ + views_text(lang, n as nat)).is_suffix_of(preview_text_spec(meta, lang)),
            None => (" · "@ + meta.platform.as_str()@).is_suffix_of(preview_text_spec(meta, lang)),
        }),
{
    let head = escape_html(meta.title@) + "\n"@;
    let t = preview_text_spec(meta, lang);
    let line = preview_line(meta, lang);
    assert(t == head + line);
    assert(t.subrange(0, head.len() as int) =~= head);
    let lead = preview_lead(meta, lang);
    let base = lead + " · "@ + meta.platform.as_str()@;
    let with_views = match meta.view_count {
        Some(n) => base + " · "@ + views_text(lang, n as nat),
        None => base,
    };
    let tail: Seq<char> = match meta.uploader {
        Some(u) => if u@.len() > 0 {
            " · "@ + u@
        } else {
            match meta.view_count {
                Some(n) => " · "@ + views_text(lang, n as nat),
                None => " · "@ + meta.platform.as_str()@,
            }
        },
        None => match meta.view_count {
            Some(n) => " · "@ + views_text(lang, n as nat),
            None => " · "@ + meta.platform.as_str()@,
        },
    };
    let pre = match meta.uploader {
        Some(u) => if u@.len() > 0 {
            with_views
        } else {
            match meta.view_count {
                Some(n) => base,
                None => lead,
            }
        },
        None => match meta.view_count {
            Some(n) => base,
            None => lead,
        },
    };
    assert(line =~= pre + tail);
    assert(t =~= (head + pre) + tail);
    let hp = head + pre;
    assert(t.subrange(t.len() - tail.len(), t.len() as int) =~= tail);
}

/// Preview card text; the title is HTML-escaped.
#[verifier::spinoff_prover]
#[verifier::rlimit(40)]
pub fn preview_text(meta: &Metadata, lang: Lang) -> (r: String)
    ensures
        r@ == preview_text_spec(*meta, lang),
{
    let title = escape_caption(meta.title.as_str());
    let mut v = chars_of(title.as_str());
    push_str(&mut v, "\n");
    match meta.duration_secs {
        Some(_) => {
            let d = meta.duration_label();
            push_str(&mut v, d.as_str());
        },
        None => push_str(&mut v, live_unknown(lang)),
    }
    push_str(&mut v, " · ");
    push_str(&mut v, meta.platform.as_str());
    match meta.view_count {
        Some(n) => {
            push_str(&mut v, " · ");
            let w = views(lang, n);
            push_str(&mut v, w.as_str());
        },
        None => {},
    }
    match &meta.uploader {
        Some(u) => {
            if u.as_str().is_empty() {
            } else {
                push_str(&mut v, " · ");
                push_str(&mut v, u.as_str());
            }
        },
        None => {},
    }
    string_of(&v)
}

/// `n` copies of `c`.
pub open spec fn repeat(c: char, n: nat) -> Seq<char> {
    Seq::new(n, |i: int| c)
}

/// Progress bar text: `⬇️ Downloading ████████░░ 82%`.
pub open spec fn progress_bar_text(prefix: Seq<char>, pct: nat) -> Seq<char> {
    let filled = pct * 10 / 100;
    prefix + " "@ + repeat('█', filled) + repeat('░', (10 - filled) as nat) + " "@ + decimal(pct) + "%"@
}

/// Appends `n` copies of `c`.
fn push_repeat(v: &mut Vec<char>, c: char, n: usize)
    ensures
        final(v)@ == old(v)@ + repeat(c, n as nat),
{
    let ghost start = v@;
    let mut i: usize = 0;
    while i < n
        invariant
            i <= n,
            v@ == start + repeat(c, i as nat),
        decreases n - i,
    {
        v.push(c);
        proof {
            assert(repeat(c, (i + 1) as nat) =~= repeat(c, i as nat).push(c));
        }
        i = i + 1;
    }
}

/// Progress bar: ten cells, one filled per 10%. A percentage of 110 or more
/// would overfill the bar and is not accepted.
pub fn progress_bar(prefix: &str, pct: u8) -> (r: String)
    requires
        pct <= 109,
    ensures
        r@ == progress_bar_text(prefix@, pct as nat),
{
    let filled: usize = (pct as usize) * 10 / 100;
    let empty: usize = 10 - filled;
    let mut v = chars_of(prefix);
    push_str(&mut v, " ");
    push_repeat(&mut v, '█', filled);
    push_repeat(&mut v, '░', empty);
    push_str(&mut v, " ");
    push_decimal(&mut v, pct as u64);
    push_str(&mut v, "%");
    string_of(&v)
}

// ---------------------------------------------------------------------------
// Callback data laws
// ---------------------------------------------------------------------------

/// A short plain code: ASCII, at most 6 characters, no `:`.
pub open spec fn plain_code(s: Seq<char>) -> bool {
    &&& all_ascii(s)
    &&& s.len() <= 6
    &&& forall|i: int| 0 <= i < s.len() ==> s[i] != ':'
}

/// Quality codes and callback kinds are plain codes.
pub proof fn lemma_codes_plain(v: VideoQuality, a: AudioQuality)
    ensures
        plain_code(v.as_str()@),
        plain_code(a.as_str()@),
        plain_code("pick"@),
        plain_code("x"@),
        plain_code("v"@),
        plain_code("a"@),
        plain_code("cancel"@),
{
    reveal_strlit("360");
    reveal_strlit("480");
    reveal_strlit("720");
    reveal_strlit("1080");
    reveal_strlit("best");
    reveal_strlit("128");
    reveal_strlit("192");
    reveal_strlit("320");
    reveal_strlit("pick");
    reveal_strlit("x");
    reveal_strlit("v");
    reveal_strlit("a");
    reveal_strlit("cancel");
    match v {
        VideoQuality::P360 => {},
        VideoQuality::P480 => {},
        VideoQuality::P720 => {},
        VideoQuality::P1080 => {},
        VideoQuality::Best => {},
    }
    match a {
        AudioQuality::K128 => {},
        AudioQuality::K192 => {},
        AudioQuality::K320 => {},
        AudioQuality::Best => {},
    }
}

/// Callback data made of plain codes and a session id of at most 32 bytes
/// fits Telegram's 64-byte limit.
pub proof fn lemma_callback_fits(kind: Seq<char>, quality: Seq<char>, session_id: Seq<char>)
    requires
        plain_code(kind),
        plain_code(quality),
        utf8_len(session_id) <= 32,
    ensures
        utf8_len(callback_data(kind, quality, session_id)) <= 64,
{
    reveal_strlit(":");
    let colon = ":"@;
    assert(all_ascii(colon));
    lemma_utf8_len_ascii(kind);
    lemma_utf8_len_ascii(quality);
    lemma_utf8_len_ascii(colon);
    lemma_utf8_len_add(kind, colon);
    lemma_utf8_len_add(kind + colon, quality);
    lemma_utf8_len_add(kind + colon + quality, colon);
    lemma_utf8_len_add(kind + colon + quality + colon, session_id);
}

/// Callback data made of a known kind, a plain quality code and a valid
/// session id parses back to its parts and fits in 64 bytes.
pub proof fn lemma_button_data(kind: Seq<char>, quality: Seq<char>, session_id: Seq<char>)
    requires
        kind == "v"@ || kind == "a"@ || kind == "cancel"@,
        plain_code(quality),
        session_id.len() > 0,
        utf8_len(session_id) <= 32,
    ensures
        callback_of(callback_data(kind, quality, session_id)) == Some((kind[0], quality, session_id)),
        utf8_len(callback_data(kind, quality, session_id)) <= 64,
{
    lemma_codes_plain(VideoQuality::Best, AudioQuality::Best);
    lemma_callback_roundtrip(kind, quality, session_id);
    lemma_callback_fits(kind, quality, session_id);
}

/// Every button the bot shows for a session carries callback data that
/// [`crate::session::parse_callback`] reads back as the intended
/// (kind, quality, session), and that fits Telegram's 64-byte limit, for any
/// session id of 1 to 32 bytes.
pub proof fn lemma_keyboards_roundtrip(meta: Metadata, session_id: Seq<char>, lang: Lang)
    requires
        session_id.len() > 0,
        utf8_len(session_id) <= 32,
    ensures
        forall|i: int|
            0 <= i < meta.video_options@.len() ==> {
                let data = (#[trigger] video_rows(meta.video_options@, session_id, lang)[i])[0].1;
                &&& callback_of(data) == Some(('v', meta.video_options@[i].quality.as_str()@, session_id))
                &&& utf8_len(data) <= 64
            },
        forall|i: int|
            0 <= i < meta.audio_options@.len() ==> {
                let data = (#[trigger] audio_rows(meta.audio_options@, session_id, lang)[i])[0].1;
                &&& callback_of(data) == Some(('a', meta.audio_options@[i].quality.as_str()@, session_id))
                &&& utf8_len(data) <= 64
            },
        callback_of(callback_data("v"@, "pick"@, session_id)) == Some(('v', "pick"@, session_id)),
        callback_of(callback_data("a"@, "pick"@, session_id)) == Some(('a', "pick"@, session_id)),
        callback_of(callback_data("cancel"@, "x"@, session_id)) == Some(('c', "x"@, session_id)),
        utf8_len(callback_data("v"@, "pick"@, session_id)) <= 64,
        utf8_len(callback_data("a"@, "pick"@, session_id)) <= 64,
        utf8_len(callback_data("cancel"@, "x"@, session_id)) <= 64,
{
    reveal_strlit("v");
    reveal_strlit("a");
    reveal_strlit("cancel");
    lemma_codes_plain(VideoQuality::Best, AudioQuality::Best);
    assert forall|i: int| 0 <= i < meta.video_options@.len() implies {
        let data = (#[trigger] video_rows(meta.video_options@, session_id, lang)[i])[0].1;
        &&& callback_of(data) == Some(('v', meta.video_options@[i].quality.as_str()@, session_id))
        &&& utf8_len(data) <= 64
    } by {
        let q = meta.video_options@[i].quality;
        lemma_codes_plain(q, AudioQuality::Best);
        lemma_button_data("v"@, q.as_str()@, session_id);
    }
    assert forall|i: int| 0 <= i < meta.audio_options@.len() implies {
        let data = (#[trigger] audio_rows(meta.audio_options@, session_id, lang)[i])[0].1;
        &&& callback_of(data) == Some(('a', meta.audio_options@[i].quality.as_str()@, session_id))
        &&& utf8_len(data) <= 64
    } by {
        let q = meta.audio_options@[i].quality;
        lemma_codes_plain(VideoQuality::Best, q);
        lemma_button_data("a"@, q.as_str()@, session_id);
    }
    lemma_button_data("v"@, "pick"@, session_id);
    lemma_button_data("a"@, "pick"@, session_id);
    lemma_button_data("cancel"@, "x"@, session_id);
}

} // verus!
