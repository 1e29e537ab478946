//! yt-dlp: quality choices, metadata and size estimates, error classification,
//! progress lines and command lines.
use vstd::prelude::*;

use crate::error::{owned, Error};
use crate::i18n::{best_label, Lang};
use crate::media::url::{MediaUrl, Platform};
use crate::text::{
    all_digits, chars_of, contains_str, contains_sub, decimal, decimal2, digits_value, eq_str,
    find_char_from, first_index_from, is_digit_char, lowercase, lowercase_of, push_decimal, push_decimal2, push_str,
    slice_of, starts_with_str, string_of,
};

verus! {

/// Video quality offered to the user.
#[derive(Debug, Clone, Copy, PartialEq, Eq, Structural)]
pub enum VideoQuality {
    P360,
    P480,
    P720,
    P1080,
    Best,
}

impl VideoQuality {
    /// Short callback code.
    #[verifier::allow_in_spec]
    pub fn as_str(self) -> &'static str
        returns
            (match self {
                VideoQuality::P360 => "360",
                VideoQuality::P480 => "480",
                VideoQuality::P720 => "720",
                VideoQuality::P1080 => "1080",
                VideoQuality::Best => "best",
            }),
    {
        match self {
            VideoQuality::P360 => "360",
            VideoQuality::P480 => "480",
            VideoQuality::P720 => "720",
            VideoQuality::P1080 => "1080",
            VideoQuality::Best => "best",
        }
    }

    /// Button label; only `Best` is translated.
    #[verifier::allow_in_spec]
    pub fn label(self, lang: Lang) -> &'static str
        returns
            (match self {
                VideoQuality::P360 => "360p",
                VideoQuality::P480 => "480p",
                VideoQuality::P720 => "720p",
                VideoQuality::P1080 => "1080p",
                VideoQuality::Best => best_label(lang),
            }),
    {
        match self {
            VideoQuality::P360 => "360p",
            VideoQuality::P480 => "480p",
            VideoQuality::P720 => "720p",
            VideoQuality::P1080 => "1080p",
            VideoQuality::Best => best_label(lang),
        }
    }

    /// Parse the short callback code (`360`, `480`, `720`, `1080`, `best`).
    pub fn parse_code(s: &str) -> (r: Option<VideoQuality>)
        ensures
            r == video_quality_of_code(s@),
    {
        let v = chars_of(s);
        if eq_str(&v, "360") {
            Some(VideoQuality::P360)
        } else if eq_str(&v, "480") {
            Some(VideoQuality::P480)
        } else if eq_str(&v, "720") {
            Some(VideoQuality::P720)
        } else if eq_str(&v, "1080") {
            Some(VideoQuality::P1080)
        } else if eq_str(&v, "best") {
            Some(VideoQuality::Best)
        } else {
            None
        }
    }

    /// yt-dlp `-f` selector that caps height at the requested quality.
    #[verifier::allow_in_spec]
    pub fn format_selector(self) -> &'static str
        returns
            (match self {
                VideoQuality::P360 => "bestvideo[height<=360]+bestaudio/best[height<=360]/best",
                VideoQuality::P480 => "bestvideo[height<=480]+bestaudio/best[height<=480]/best",
                VideoQuality::P720 => "bestvideo[height<=720]+bestaudio/best[height<=720]/best",
                VideoQuality::P1080 => "bestvideo[height<=1080]+bestaudio/best[height<=1080]/best",
                VideoQuality::Best => "bestvideo+bestaudio/best",
            }),
    {
        match self {
            VideoQuality::P360 => "bestvideo[height<=360]+bestaudio/best[height<=360]/best",
            VideoQuality::P480 => "bestvideo[height<=480]+bestaudio/best[height<=480]/best",
            VideoQuality::P720 => "bestvideo[height<=720]+bestaudio/best[height<=720]/best",
            VideoQuality::P1080 => "bestvideo[height<=1080]+bestaudio/best[height<=1080]/best",
            VideoQuality::Best => "bestvideo+bestaudio/best",
        }
    }
}

/// The video quality a callback code names.
pub open spec fn video_quality_of_code(s: Seq<char>) -> Option<VideoQuality> {
    if s == "360"@ {
        Some(VideoQuality::P360)
    } else if s == "480"@ {
        Some(VideoQuality::P480)
    } else if s == "720"@ {
        Some(VideoQuality::P720)
    } else if s == "1080"@ {
        Some(VideoQuality::P1080)
    } else if s == "best"@ {
        Some(VideoQuality::Best)
    } else {
        None
    }
}

/// Audio quality offered to the user.
#[derive(Debug, Clone, Copy, PartialEq, Eq, Structural)]
pub enum AudioQuality {
    K128,
    K192,
    K320,
    Best,
}

impl AudioQuality {
    /// Short callback code.
    #[verifier::allow_in_spec]
    pub fn as_str(self) -> &'static str
        returns
            (match self {
                AudioQuality::K128 => "128",
                AudioQuality::K192 => "192",
                AudioQuality::K320 => "320",
                AudioQuality::Best => "best",
            }),
    {
        match self {
            AudioQuality::K128 => "128",
            AudioQuality::K192 => "192",
            AudioQuality::K320 => "320",
            AudioQuality::Best => "best",
        }
    }

    /// Button label; only `Best` is translated.
    #[verifier::allow_in_spec]
    pub fn label(self, lang: Lang) -> &'static str
        returns
            (match self {
                AudioQuality::K128 => "128 kbps",
                AudioQuality::K192 => "192 kbps",
                AudioQuality::K320 => "320 kbps",
                AudioQuality::Best => best_label(lang),
            }),
    {
        match self {
            AudioQuality::K128 => "128 kbps",
            AudioQuality::K192 => "192 kbps",
            AudioQuality::K320 => "320 kbps",
            AudioQuality::Best => best_label(lang),
        }
    }

    /// Parse the short callback code (`128`, `192`, `320`, `best`).
    pub fn parse_code(s: &str) -> (r: Option<AudioQuality>)
        ensures
            r == audio_quality_of_code(s@),
    {
        let v = chars_of(s);
        if eq_str(&v, "128") {
            Some(AudioQuality::K128)
        } else if eq_str(&v, "192") {
            Some(AudioQuality::K192)
        } else if eq_str(&v, "320") {
            Some(AudioQuality::K320)
        } else if eq_str(&v, "best") {
            Some(AudioQuality::Best)
        } else {
            None
        }
    }

    /// ffmpeg `-b:a` value for the final MP3.
    #[verifier::allow_in_spec]
    pub fn mp3_bitrate(self) -> &'static str
        returns
            (match self {
                AudioQuality::K128 => "128k",
                AudioQuality::K192 => "192k",
                AudioQuality::K320 => "320k",
                AudioQuality::Best => "320k",
            }),
    {
        match self {
            AudioQuality::K128 => "128k",
            AudioQuality::K192 => "192k",
            AudioQuality::K320 | AudioQuality::Best => "320k",
        }
    }
}

/// The audio quality a callback code names.
pub open spec fn audio_quality_of_code(s: Seq<char>) -> Option<AudioQuality> {
    if s == "128"@ {
        Some(AudioQuality::K128)
    } else if s == "192"@ {
        Some(AudioQuality::K192)
    } else if s == "320"@ {
        Some(AudioQuality::K320)
    } else if s == "best"@ {
        Some(AudioQuality::Best)
    } else {
        None
    }
}

/// Every quality's callback code parses back to that quality.
pub proof fn lemma_quality_codes_roundtrip(v: VideoQuality, a: AudioQuality)
    ensures
        video_quality_of_code(v.as_str()@) == Some(v),
        audio_quality_of_code(a.as_str()@) == Some(a),
{
    reveal_strlit("360");
    reveal_strlit("480");
    reveal_strlit("720");
    reveal_strlit("1080");
    reveal_strlit("best");
    reveal_strlit("128");
    reveal_strlit("192");
    reveal_strlit("320");
    assert("360"@ != "480"@ && "360"@ != "720"@ && "480"@ != "720"@) by {
        assert("360"@[0] != "480"@[0] && "360"@[0] != "720"@[0] && "480"@[0] != "720"@[0]);
    }
    assert("128"@ != "192"@ && "128"@ != "320"@ && "192"@ != "320"@) by {
        assert("128"@[1] != "192"@[1] && "128"@[0] != "320"@[0] && "192"@[0] != "320"@[0]);
    }
    assert("360"@ != "1080"@ && "480"@ != "1080"@ && "720"@ != "1080"@) by {
        assert("1080"@.len() == 4 && "360"@.len() == 3 && "480"@.len() == 3 && "720"@.len() == 3);
    }
    assert("360"@ != "best"@ && "480"@ != "best"@ && "720"@ != "best"@ && "1080"@ != "best"@) by {
        assert("best"@[0] == 'b');
        assert("360"@[0] != 'b' && "480"@[0] != 'b' && "720"@[0] != 'b' && "1080"@[0] != 'b');
    }
    assert("128"@ != "best"@ && "192"@ != "best"@ && "320"@ != "best"@) by {
        assert("best"@[0] == 'b');
        assert("128"@[0] != 'b' && "192"@[0] != 'b' && "320"@[0] != 'b');
    }
    match v {
        VideoQuality::P360 => {},
        VideoQuality::P480 => {},
        VideoQuality::P720 => {},
        VideoQuality::P1080 => {},
        VideoQuality::Best => {},
    }
    match a {
        AudioQuality::K128 => {},
        AudioQuality::K192 => {},
        AudioQuality::K320 => {},
        AudioQuality::Best => {},
    }
}

/// One video quality option with an estimated size (from metadata, if known).
#[derive(Debug, Clone, Copy)]
pub struct VideoOption {
    pub quality: VideoQuality,
    pub estimated_bytes: Option<u64>,
}

/// One audio quality option with an estimated size.
#[derive(Debug, Clone, Copy)]
pub struct AudioOption {
    pub quality: AudioQuality,
    pub estimated_bytes: Option<u64>,
}

/// Metadata resolved from a URL via `yt-dlp --dump-single-json`.
#[derive(Debug, Clone)]
pub struct Metadata {
    pub title: String,
    pub duration_secs: Option<u64>,
    pub thumbnail_url: Option<String>,
    pub platform: Platform,
    pub webpage_url: String,
    pub view_count: Option<u64>,
    pub uploader: Option<String>,
    pub video_options: Vec<VideoOption>,
    pub audio_options: Vec<AudioOption>,
}

/// Text of [`Metadata::duration_label`].
pub open spec fn duration_label_text(d: Option<u64>) -> Seq<char> {
    match d {
        None => "live/unknown"@,
        Some(s) => decimal(s as nat / 60) + ":"@ + decimal2(s as nat % 60),
    }
}

impl Metadata {
    /// `m:ss`, or `live/unknown` when yt-dlp reports no duration.
    pub fn duration_label(&self) -> (r: String)
        ensures
            r@ == duration_label_text(self.duration_secs),
    {
        match self.duration_secs {
            None => owned("live/unknown"),
            Some(s) => {
                let mut v: Vec<char> = Vec::new();
                push_decimal(&mut v, s / 60);
                push_str(&mut v, ":");
                push_decimal2(&mut v, s % 60);
                string_of(&v)
            },
        }
    }
}

// ---------------------------------------------------------------------------
// Size estimates from the yt-dlp format list
// ---------------------------------------------------------------------------

/// The fields of one yt-dlp format entry that the estimates read.
#[derive(Debug, Clone)]
pub struct FormatInfo {
    pub filesize: Option<u64>,
    pub filesize_approx: Option<u64>,
    pub height: Option<u64>,
    pub acodec: Option<String>,
    pub vcodec: Option<String>,
}

/// The fields of yt-dlp's `--dump-single-json` output that metadata reads.
/// `duration_secs` is the reported duration already rounded to whole seconds.
#[derive(Debug, Clone)]
pub struct YtdlpInfo {
    pub title: Option<String>,
    pub duration_secs: Option<u64>,
    pub thumbnail: Option<String>,
    pub webpage_url: Option<String>,
    pub view_count: Option<u64>,
    pub uploader: Option<String>,
    pub formats: Vec<FormatInfo>,
}

/// `filesize`, else `filesize_approx`.
pub open spec fn format_size(f: FormatInfo) -> Option<u64> {
    match f.filesize {
        Some(s) => Some(s),
        None => f.filesize_approx,
    }
}

/// The codec field is the literal `"none"`.
pub open spec fn codec_is_none(c: Option<String>) -> bool {
    match c {
        Some(s) => s@ == "none"@,
        None => false,
    }
}

/// A height as stored in a `u32` map key (saturating).
pub open spec fn clamp_height(h: u64) -> nat {
    if h <= u32::MAX {
        h as nat
    } else {
        u32::MAX as nat
    }
}

/// The size of `f` when it is a video format of height at most `cap`.
pub open spec fn video_size_at(f: FormatInfo, cap: nat) -> Option<nat> {
    match (f.height, format_size(f)) {
        (Some(h), Some(size)) => if !codec_is_none(f.vcodec) && clamp_height(h) <= cap {
            Some(size as nat)
        } else {
            None
        },
        _ => None,
    }
}

/// The size of `f` when it is a pure-audio format.
pub open spec fn audio_size(f: FormatInfo) -> Option<nat> {
    if codec_is_none(f.vcodec) && !codec_is_none(f.acodec) {
        match format_size(f) {
            Some(s) => Some(s as nat),
            None => None,
        }
    } else {
        None
    }
}

/// The larger of two optional sizes.
pub open spec fn max_opt(a: Option<nat>, b: Option<nat>) -> Option<nat> {
    match (a, b) {
        (Some(x), Some(y)) => Some(if x >= y {
            x
        } else {
            y
        }),
        (Some(x), None) => Some(x),
        (None, y) => y,
    }
}

/// Largest video size with height at most `cap`.
pub open spec fn best_video(fs: Seq<FormatInfo>, cap: nat) -> Option<nat>
    decreases fs.len(),
{
    if fs.len() == 0 {
        None
    } else {
        max_opt(best_video(fs.drop_last(), cap), video_size_at(fs.last(), cap))
    }
}

/// Largest pure-audio size.
pub open spec fn best_audio(fs: Seq<FormatInfo>) -> Option<nat>
    decreases fs.len(),
{
    if fs.len() == 0 {
        None
    } else {
        max_opt(best_audio(fs.drop_last()), audio_size(fs.last()))
    }
}

/// Estimated MP3 size at `kbps`: the best audio size scaled from an assumed
/// 192 kbps, else duration × bitrate.
pub open spec fn audio_estimate(info: YtdlpInfo, kbps: nat) -> Option<nat> {
    match best_audio(info.formats@) {
        Some(b) => Some(b * kbps / 192),
        None => match info.duration_secs {
            Some(d) => Some(d as nat * kbps * 1000 / 8),
            None => None,
        },
    }
}

/// Estimated size of a video quality.
pub open spec fn video_estimate(info: YtdlpInfo, q: VideoQuality) -> Option<nat> {
    match q {
        VideoQuality::P360 => best_video(info.formats@, 360),
        VideoQuality::P480 => best_video(info.formats@, 480),
        VideoQuality::P720 => best_video(info.formats@, 720),
        VideoQuality::P1080 => best_video(info.formats@, 1080),
        VideoQuality::Best => match best_video(info.formats@, u32::MAX as nat) {
            Some(s) => Some(s),
            None => match info.duration_secs {
                Some(d) => Some(d as nat * 1_500_000 / 8),
                None => None,
            },
        },
    }
}

/// Estimated size of an audio quality.
pub open spec fn audio_quality_estimate(info: YtdlpInfo, q: AudioQuality) -> Option<nat> {
    match q {
        AudioQuality::K128 => audio_estimate(info, 128),
        AudioQuality::K192 => audio_estimate(info, 192),
        AudioQuality::K320 | AudioQuality::Best => audio_estimate(info, 320),
    }
}

/// The estimates fit in `u64` (the arithmetic does not overflow).
pub open spec fn estimates_fit(info: YtdlpInfo) -> bool {
    &&& (best_audio(info.formats@) matches Some(b) ==> b * 320 <= u64::MAX)
    &&& (best_audio(info.formats@) is None && info.duration_secs is Some
        ==> info.duration_secs->0 * 320 * 1000 <= u64::MAX)
    &&& (best_video(info.formats@, u32::MAX as nat) is None && info.duration_secs is Some
        ==> info.duration_secs->0 * 1_500_000 <= u64::MAX)
}

/// The offered video qualities, in button order.
pub open spec fn video_qualities() -> Seq<VideoQuality> {
    seq![VideoQuality::P360, VideoQuality::P480, VideoQuality::P720, VideoQuality::P1080, VideoQuality::Best]
}

/// The offered audio qualities, in button order.
pub open spec fn audio_qualities() -> Seq<AudioQuality> {
    seq![AudioQuality::K128, AudioQuality::K192, AudioQuality::K320, AudioQuality::Best]
}

/// An optional `u64` as an optional number.
pub open spec fn opt_nat(o: Option<u64>) -> Option<nat> {
    match o {
        Some(x) => Some(x as nat),
        None => None,
    }
}

/// The view of an optional string.
pub open spec fn opt_str(o: Option<String>) -> Option<Seq<char>> {
    match o {
        Some(s) => Some(s@),
        None => None,
    }
}

/// `m` is the metadata that `info` describes for `media`.
pub open spec fn metadata_matches(m: Metadata, info: YtdlpInfo, media: MediaUrl) -> bool {
    &&& m.title@ == (match info.title {
        Some(t) => t@,
        None => "Untitled"@,
    })
    &&& m.duration_secs == info.duration_secs
    &&& opt_str(m.thumbnail_url) == opt_str(info.thumbnail)
    &&& m.platform == media.platform
    &&& m.webpage_url@ == (match info.webpage_url {
        Some(u) => u@,
        None => media.url@,
    })
    &&& m.view_count == info.view_count
    &&& opt_str(m.uploader) == opt_str(info.uploader)
    &&& m.video_options@.len() == 5
    &&& forall|i: int|
        0 <= i < 5 ==> (#[trigger] m.video_options@[i]).quality == video_qualities()[i] && opt_nat(
            m.video_options@[i].estimated_bytes,
        ) == video_estimate(info, video_qualities()[i])
    &&& m.audio_options@.len() == 4
    &&& forall|i: int|
        0 <= i < 4 ==> (#[trigger] m.audio_options@[i]).quality == audio_qualities()[i] && opt_nat(
            m.audio_options@[i].estimated_bytes,
        ) == audio_quality_estimate(info, audio_qualities()[i])
}

/// The size yt-dlp reports for `f` (`filesize`, else `filesize_approx`)
/// when `f` is a pure-audio format: its video codec is `"none"` and its audio
/// codec is not.
pub open spec fn pure_audio_bytes(f: FormatInfo) -> Option<u64> {
    if (f.vcodec matches Some(v) && v@ == "none"@) && !(f.acodec matches Some(a) && a@ == "none"@) {
        if f.filesize is Some {
            f.filesize
        } else {
            f.filesize_approx
        }
    } else {
        None
    }
}

/// `best_audio` is the largest pure-audio size of the list, attained by one
/// of its formats; it is absent exactly when no format is a sized pure-audio
/// format.
proof fn lemma_best_audio_is_largest(fs: Seq<FormatInfo>)
    ensures
        forall|i: int| 0 <= i < fs.len() && #[trigger] pure_audio_bytes(fs[i]) is Some ==> best_audio(fs) is Some
            && pure_audio_bytes(fs[i])->0 <= best_audio(fs)->0,
        best_audio(fs) is Some ==> exists|i: int| 0 <= i < fs.len() && #[trigger] pure_audio_bytes(fs[i]) is Some
            && pure_audio_bytes(fs[i])->0 == best_audio(fs)->0,
        best_audio(fs) is None ==> forall|i: int| 0 <= i < fs.len() ==> #[trigger] pure_audio_bytes(fs[i]) is None,
    decreases fs.len(),
{
    if fs.len() > 0 {
        let p = fs.drop_last();
        lemma_best_audio_is_largest(p);
        let f = fs.last();
        assert(opt_nat(pure_audio_bytes(f)) == audio_size(f));
        assert forall|i: int| 0 <= i < fs.len() && #[trigger] pure_audio_bytes(fs[i]) is Some implies best_audio(fs) is Some
            && pure_audio_bytes(fs[i])->0 <= best_audio(fs)->0 by {
            if i < p.len() {
                assert(fs[i] == p[i]);
            } else {
                assert(fs[i] == f);
            }
        }
        if best_audio(fs) is Some {
            let b = best_audio(fs)->0;
            if audio_size(f) == Some(b) {
                assert(fs[fs.len() - 1] == f);
                assert(pure_audio_bytes(fs[fs.len() - 1]) is Some && pure_audio_bytes(fs[fs.len() - 1])->0 == b);
            } else {
                let i = choose|i: int| 0 <= i < p.len() && #[trigger] pure_audio_bytes(p[i]) is Some
                    && pure_audio_bytes(p[i])->0 == best_audio(p)->0;
                assert(fs[i] == p[i]);
            }
        } else {
            assert forall|i: int| 0 <= i < fs.len() implies #[trigger] pure_audio_bytes(fs[i]) is None by {
                if i < p.len() {
                    assert(fs[i] == p[i]);
                } else {
                    assert(fs[i] == f);
                }
            }
        }
    }
}

/// The audio options carry the audio estimates at 128, 192, 320 and 320 kbps.
proof fn lemma_audio_option_estimates(m: Metadata, info: YtdlpInfo, media: MediaUrl)
    requires
        metadata_matches(m, info, media),
    ensures
        opt_nat(m.audio_options@[0].estimated_bytes) == audio_estimate(info, 128),
        opt_nat(m.audio_options@[1].estimated_bytes) == audio_estimate(info, 192),
        opt_nat(m.audio_options@[2].estimated_bytes) == audio_estimate(info, 320),
        opt_nat(m.audio_options@[3].estimated_bytes) == audio_estimate(info, 320),
{
    assert(m.audio_options@[0].quality == audio_qualities()[0]);
    assert(m.audio_options@[1].quality == audio_qualities()[1]);
    assert(m.audio_options@[2].quality == audio_qualities()[2]);
    assert(m.audio_options@[3].quality == audio_qualities()[3]);
}

/// The audio estimates are scaled from the largest pure-audio size: when the
/// list has a sized pure-audio format, there is one, of size `b`, that no
/// other pure-audio format exceeds, and the estimates are `b × kbps / 192`
/// for 128, 192, 320 and 320 kbps (so the 192 kbps one is `b` itself). With
/// no such format they are `duration × kbps × 1000 / 8`, or unknown without a
/// duration.
#[verifier::rlimit(30)]
pub proof fn lemma_audio_estimates_from_largest(m: Metadata, info: YtdlpInfo, media: MediaUrl)
    requires
        metadata_matches(m, info, media),
    ensures
        (exists|i: int| 0 <= i < info.formats@.len() && #[trigger] pure_audio_bytes(info.formats@[i]) is Some)
            ==> exists|j: int| 0 <= j < info.formats@.len() && #[trigger] pure_audio_bytes(info.formats@[j]) is Some
            && (forall|i: int| 0 <= i < info.formats@.len() && #[trigger] pure_audio_bytes(info.formats@[i]) is Some
                ==> pure_audio_bytes(info.formats@[i])->0 <= pure_audio_bytes(info.formats@[j])->0)
            && opt_nat(m.audio_options@[0].estimated_bytes) == Some((pure_audio_bytes(info.formats@[j])->0 * 128 / 192) as nat)
            && opt_nat(m.audio_options@[1].estimated_bytes) == Some(pure_audio_bytes(info.formats@[j])->0 as nat)
            && opt_nat(m.audio_options@[2].estimated_bytes) == Some((pure_audio_bytes(info.formats@[j])->0 * 320 / 192) as nat)
            && opt_nat(m.audio_options@[3].estimated_bytes) == Some((pure_audio_bytes(info.formats@[j])->0 * 320 / 192) as nat),
        (forall|i: int| 0 <= i < info.formats@.len() ==> #[trigger] pure_audio_bytes(info.formats@[i]) is None)
            ==> (match info.duration_secs {
            Some(d) => opt_nat(m.audio_options@[0].estimated_bytes) == Some((d * 128 * 1000 / 8) as nat)
                && opt_nat(m.audio_options@[1].estimated_bytes) == Some((d * 192 * 1000 / 8) as nat)
                && opt_nat(m.audio_options@[2].estimated_bytes) == Some((d * 320 * 1000 / 8) as nat)
                && opt_nat(m.audio_options@[3].estimated_bytes) == Some((d * 320 * 1000 / 8) as nat),
            None => m.audio_options@[0].estimated_bytes is None && m.audio_options@[1].estimated_bytes is None
                && m.audio_options@[2].estimated_bytes is None && m.audio_options@[3].estimated_bytes is None,
        }),
{
    let fs = info.formats@;
    lemma_audio_option_estimates(m, info, media);
    lemma_best_audio_is_largest(fs);
    if exists|i: int| 0 <= i < fs.len() && #[trigger] pure_audio_bytes(fs[i]) is Some {
        let i = choose|i: int| 0 <= i < fs.len() && #[trigger] pure_audio_bytes(fs[i]) is Some;
        assert(best_audio(fs) is Some);
        let b = best_audio(fs)->0;
        let j = choose|j: int| 0 <= j < fs.len() && #[trigger] pure_audio_bytes(fs[j]) is Some
            && pure_audio_bytes(fs[j])->0 == b;
        assert(b * 192 / 192 == b) by (nonlinear_arith);
    } else {
        if best_audio(fs) is Some {
            let j = choose|j: int| 0 <= j < fs.len() && #[trigger] pure_audio_bytes(fs[j]) is Some
                && pure_audio_bytes(fs[j])->0 == best_audio(fs)->0;
            assert(false);
        }
    }
}

/// The size yt-dlp reports for `f` (`filesize`, else `filesize_approx`)
/// when `f` is a video format (video codec other than `"none"`) with a known
/// height of at most `cap` (heights beyond `u32::MAX` count as `u32::MAX`).
pub open spec fn video_bytes_within(f: FormatInfo, cap: nat) -> Option<u64> {
    if f.height is Some && !(f.vcodec matches Some(v) && v@ == "none"@) && (if f.height->0 <= u32::MAX {
        f.height->0 as nat
    } else {
        u32::MAX as nat
    }) <= cap {
        if f.filesize is Some {
            f.filesize
        } else {
            f.filesize_approx
        }
    } else {
        None
    }
}

/// `best_video` is the largest size among the video formats within the cap,
/// attained by one of them; it is absent exactly when there is none.
proof fn lemma_best_video_is_largest(fs: Seq<FormatInfo>, cap: nat)
    ensures
        forall|i: int| 0 <= i < fs.len() && #[trigger] video_bytes_within(fs[i], cap) is Some ==> best_video(fs, cap) is Some
            && video_bytes_within(fs[i], cap)->0 <= best_video(fs, cap)->0,
        best_video(fs, cap) is Some ==> exists|i: int| 0 <= i < fs.len() && #[trigger] video_bytes_within(fs[i], cap) is Some
            && video_bytes_within(fs[i], cap)->0 == best_video(fs, cap)->0,
        best_video(fs, cap) is None ==> forall|i: int| 0 <= i < fs.len() ==> #[trigger] video_bytes_within(fs[i], cap) is None,
    decreases fs.len(),
{
    if fs.len() > 0 {
        let p = fs.drop_last();
        lemma_best_video_is_largest(p, cap);
        let f = fs.last();
        assert(opt_nat(video_bytes_within(f, cap)) == video_size_at(f, cap));
        assert forall|i: int| 0 <= i < fs.len() && #[trigger] video_bytes_within(fs[i], cap) is Some implies best_video(fs, cap) is Some
            && video_bytes_within(fs[i], cap)->0 <= best_video(fs, cap)->0 by {
            if i < p.len() {
                assert(fs[i] == p[i]);
            } else {
                assert(fs[i] == f);
            }
        }
        if best_video(fs, cap) is Some {
            let b = best_video(fs, cap)->0;
            if video_size_at(f, cap) == Some(b) {
                assert(fs[fs.len() - 1] == f);
                assert(video_bytes_within(fs[fs.len() - 1], cap) is Some && video_bytes_within(fs[fs.len() - 1], cap)->0 == b);
            } else {
                let i = choose|i: int| 0 <= i < p.len() && #[trigger] video_bytes_within(p[i], cap) is Some
                    && video_bytes_within(p[i], cap)->0 == best_video(p, cap)->0;
                assert(fs[i] == p[i]);
            }
        } else {
            assert forall|i: int| 0 <= i < fs.len() implies #[trigger] video_bytes_within(fs[i], cap) is None by {
                if i < p.len() {
                    assert(fs[i] == p[i]);
                } else {
                    assert(fs[i] == f);
                }
            }
        }
    }
}

/// `o` is the largest size among the video formats of `fs` within `cap`, or
/// absent when there is none.
pub open spec fn is_largest_video(o: Option<nat>, fs: Seq<FormatInfo>, cap: nat) -> bool {
    match o {
        Some(b) => (exists|j: int| 0 <= j < fs.len() && #[trigger] video_bytes_within(fs[j], cap) == Some(b as u64))
            && b <= u64::MAX
            && (forall|i: int| 0 <= i < fs.len() && #[trigger] video_bytes_within(fs[i], cap) is Some
                ==> video_bytes_within(fs[i], cap)->0 <= b),
        None => forall|i: int| 0 <= i < fs.len() ==> #[trigger] video_bytes_within(fs[i], cap) is None,
    }
}

proof fn lemma_best_video_largest_at(fs: Seq<FormatInfo>, cap: nat)
    ensures
        is_largest_video(best_video(fs, cap), fs, cap),
{
    lemma_best_video_is_largest(fs, cap);
    if best_video(fs, cap) is Some {
        let j = choose|j: int| 0 <= j < fs.len() && #[trigger] video_bytes_within(fs[j], cap) is Some
            && video_bytes_within(fs[j], cap)->0 == best_video(fs, cap)->0;
        assert(video_bytes_within(fs[j], cap) == Some(best_video(fs, cap)->0 as u64));
    }
}

/// Each video estimate is the largest size among the video formats no
/// taller than its quality (360, 480, 720, 1080 lines), attained by one of
/// them, or unknown when there is none. `Best` takes the largest video
/// format of any height, and without one falls back to 1.5 Mbit/s over the
/// duration (`duration × 1 500 000 / 8`), or is unknown without a duration.
#[verifier::rlimit(30)]
pub proof fn lemma_video_estimates_largest(m: Metadata, info: YtdlpInfo, media: MediaUrl)
    requires
        metadata_matches(m, info, media),
    ensures
        is_largest_video(opt_nat(m.video_options@[0].estimated_bytes), info.formats@, 360),
        is_largest_video(opt_nat(m.video_options@[1].estimated_bytes), info.formats@, 480),
        is_largest_video(opt_nat(m.video_options@[2].estimated_bytes), info.formats@, 720),
        is_largest_video(opt_nat(m.video_options@[3].estimated_bytes), info.formats@, 1080),
        (exists|i: int| 0 <= i < info.formats@.len() && #[trigger] video_bytes_within(info.formats@[i], u32::MAX as nat) is Some)
            ==> is_largest_video(opt_nat(m.video_options@[4].estimated_bytes), info.formats@, u32::MAX as nat),
        (forall|i: int| 0 <= i < info.formats@.len() ==> #[trigger] video_bytes_within(info.formats@[i], u32::MAX as nat) is None)
            ==> opt_nat(m.video_options@[4].estimated_bytes) == (match info.duration_secs {
            Some(d) => Some((d * 1_500_000 / 8) as nat),
            None => None,
        }),
{
    let fs = info.formats@;
    assert(m.video_options@[0].quality == video_qualities()[0]);
    assert(m.video_options@[1].quality == video_qualities()[1]);
    assert(m.video_options@[2].quality == video_qualities()[2]);
    assert(m.video_options@[3].quality == video_qualities()[3]);
    assert(m.video_options@[4].quality == video_qualities()[4]);
    lemma_best_video_largest_at(fs, 360);
    lemma_best_video_largest_at(fs, 480);
    lemma_best_video_largest_at(fs, 720);
    lemma_best_video_largest_at(fs, 1080);
    lemma_best_video_largest_at(fs, u32::MAX as nat);
    lemma_best_video_is_largest(fs, u32::MAX as nat);
}

/// Is the codec field the literal `"none"`?
fn is_none_codec(c: &Option<String>) -> (r: bool)
    ensures
        r == codec_is_none(*c),
{
    match c {
        Some(s) => {
            let v = chars_of(s.as_str());
            eq_str(&v, "none")
        },
        None => false,
    }
}

/// `filesize`, else `filesize_approx`.
fn size_of_format(f: &FormatInfo) -> (r: Option<u64>)
    ensures
        r == format_size(*f),
{
    match f.filesize {
        Some(s) => Some(s),
        None => f.filesize_approx,
    }
}

/// Largest video size with height at most `cap`.
///
/// Each estimate is the largest size among the formats whose height fits the
/// cap, so one pass over the format list gives it directly; a table of the
/// largest size per height would only be an intermediate step towards the
/// same maximum, and it is not kept.
pub fn best_video_size(fs: &Vec<FormatInfo>, cap: u64) -> (r: Option<u64>)
    ensures
        opt_nat(r) == best_video(fs@, cap as nat),
{
    let mut best: Option<u64> = None;
    let mut i: usize = 0;
    while i < fs.len()
        invariant
            i <= fs.len(),
            opt_nat(best) == best_video(fs@.subrange(0, i as int), cap as nat),
        decreases fs.len() - i,
    {
        let f = &fs[i];
        proof {
            let pre = fs@.subrange(0, i as int);
            let nxt = fs@.subrange(0, i + 1);
            assert(nxt.drop_last() =~= pre);
            assert(nxt.last() == fs@[i as int]);
        }
        let size = size_of_format(f);
        match (f.height, size) {
            (Some(h), Some(s)) => {
                let ch: u64 = if h <= u32::MAX as u64 {
                    h
                } else {
                    u32::MAX as u64
                };
                if !is_none_codec(&f.vcodec) && ch <= cap {
                    best = match best {
                        Some(b) => Some(if b >= s {
                            b
                        } else {
                            s
                        }),
                        None => Some(s),
                    };
                }
            },
            _ => {},
        }
        i = i + 1;
    }
    proof {
        assert(fs@.subrange(0, fs@.len() as int) =~= fs@);
    }
    best
}

/// Largest pure-audio size.
pub fn best_audio_size(fs: &Vec<FormatInfo>) -> (r: Option<u64>)
    ensures
        opt_nat(r) == best_audio(fs@),
{
    let mut best: Option<u64> = None;
    let mut i: usize = 0;
    while i < fs.len()
        invariant
            i <= fs.len(),
            opt_nat(best) == best_audio(fs@.subrange(0, i as int)),
        decreases fs.len() - i,
    {
        let f = &fs[i];
        proof {
            let pre = fs@.subrange(0, i as int);
            let nxt = fs@.subrange(0, i + 1);
            assert(nxt.drop_last() =~= pre);
            assert(nxt.last() == fs@[i as int]);
        }
        if is_none_codec(&f.vcodec) && !is_none_codec(&f.acodec) {
            match size_of_format(f) {
                Some(s) => {
                    best = match best {
                        Some(b) => Some(if b >= s {
                            b
                        } else {
                            s
                        }),
                        None => Some(s),
                    };
                },
                None => {},
            }
        }
        i = i + 1;
    }
    proof {
        assert(fs@.subrange(0, fs@.len() as int) =~= fs@);
    }
    best
}

/// Estimated MP3 size at `kbps` (`kbps` is one of the offered bitrates).
fn audio_estimate_bytes(best_audio_bytes: Option<u64>, duration: Option<u64>, kbps: u64) -> (r: Option<u64>)
    requires
        kbps <= 320,
        best_audio_bytes matches Some(b) ==> b * 320 <= u64::MAX,
        best_audio_bytes is None && duration is Some ==> duration->0 * 320 * 1000 <= u64::MAX,
    ensures
        opt_nat(r) == (match opt_nat(best_audio_bytes) {
            Some(b) => Some(b * (kbps as nat) / 192),
            None => match duration {
                Some(d) => Some(d as nat * (kbps as nat) * 1000 / 8),
                None => None,
            },
        }),
{
    match best_audio_bytes {
        Some(b) => {
            proof {
                assert(b * kbps <= b * 320) by (nonlinear_arith)
                    requires
                        kbps <= 320,
                ;
            }
            Some(b * kbps / 192)
        },
        None => match duration {
            Some(d) => {
                proof {
                    assert(d * kbps * 1000 <= d * 320 * 1000) by (nonlinear_arith)
                        requires
                            kbps <= 320,
                    ;
                }
                Some(d * kbps * 1000 / 8)
            },
            None => None,
        },
    }
}

/// Whether the size estimates of `info` fit `u64`: what
/// [`metadata_from_info`] requires.
pub fn estimates_in_range(info: &YtdlpInfo) -> (r: bool)
    ensures
        r == estimates_fit(*info),
{
    let fs = &info.formats;
    let audio_ok = match best_audio_size(fs) {
        Some(b) => {
            proof {
                assert(b <= u64::MAX / 320 <==> b * 320 <= u64::MAX) by (nonlinear_arith);
            }
            b <= u64::MAX / 320
        },
        None => match info.duration_secs {
            Some(d) => {
                proof {
                    assert(d <= u64::MAX / 320_000 <==> d * 320 * 1000 <= u64::MAX) by (nonlinear_arith);
                }
                d <= u64::MAX / 320_000
            },
            None => true,
        },
    };
    let video_ok = match best_video_size(fs, u32::MAX as u64) {
        Some(_) => true,
        None => match info.duration_secs {
            Some(d) => {
                proof {
                    assert(d <= u64::MAX / 1_500_000 <==> d * 1_500_000 <= u64::MAX) by (nonlinear_arith);
                }
                d <= u64::MAX / 1_500_000
            },
            None => true,
        },
    };
    audio_ok && video_ok
}

/// Build [`Metadata`] from the fields of yt-dlp's JSON.
pub fn metadata_from_info(info: &YtdlpInfo, media: &MediaUrl) -> (m: Metadata)
    requires
        estimates_fit(*info),
    ensures
        metadata_matches(m, *info, *media),
{
    let title = match &info.title {
        Some(t) => t.clone(),
        None => owned("Untitled"),
    };
    let webpage_url = match &info.webpage_url {
        Some(u) => u.clone(),
        None => media.url.clone(),
    };
    let fs = &info.formats;
    let all = best_video_size(fs, u32::MAX as u64);
    let best_video_est = match all {
        Some(s) => Some(s),
        None => match info.duration_secs {
            Some(d) => Some(d * 1_500_000 / 8),
            None => None,
        },
    };
    let mut video_options: Vec<VideoOption> = Vec::new();
    video_options.push(VideoOption { quality: VideoQuality::P360, estimated_bytes: best_video_size(fs, 360) });
    video_options.push(VideoOption { quality: VideoQuality::P480, estimated_bytes: best_video_size(fs, 480) });
    video_options.push(VideoOption { quality: VideoQuality::P720, estimated_bytes: best_video_size(fs, 720) });
    video_options.push(VideoOption { quality: VideoQuality::P1080, estimated_bytes: best_video_size(fs, 1080) });
    video_options.push(VideoOption { quality: VideoQuality::Best, estimated_bytes: best_video_est });
    let ba = best_audio_size(fs);
    let mut audio_options: Vec<AudioOption> = Vec::new();
    audio_options.push(AudioOption { quality: AudioQuality::K128, estimated_bytes: audio_estimate_bytes(ba, info.duration_secs, 128) });
    audio_options.push(AudioOption { quality: AudioQuality::K192, estimated_bytes: audio_estimate_bytes(ba, info.duration_secs, 192) });
    audio_options.push(AudioOption { quality: AudioQuality::K320, estimated_bytes: audio_estimate_bytes(ba, info.duration_secs, 320) });
    audio_options.push(AudioOption { quality: AudioQuality::Best, estimated_bytes: audio_estimate_bytes(ba, info.duration_secs, 320) });
    let m = Metadata {
        title,
        duration_secs: info.duration_secs,
        thumbnail_url: info.thumbnail.clone(),
        platform: media.platform,
        webpage_url,
        view_count: info.view_count,
        uploader: info.uploader.clone(),
        video_options,
        audio_options,
    };
    proof {
        assert forall|i: int| 0 <= i < 5 implies (#[trigger] m.video_options@[i]).quality
            == video_qualities()[i] && opt_nat(m.video_options@[i].estimated_bytes)
            == video_estimate(*info, video_qualities()[i]) by {}
        assert forall|i: int| 0 <= i < 4 implies (#[trigger] m.audio_options@[i]).quality
            == audio_qualities()[i] && opt_nat(m.audio_options@[i].estimated_bytes)
            == audio_quality_estimate(*info, audio_qualities()[i]) by {}
    }
    m
}

// ---------------------------------------------------------------------------
// Error classification
// ---------------------------------------------------------------------------

/// The lowercased stderr says the content is private or restricted.
pub open spec fn says_private(l: Seq<char>) -> bool {
    contains_sub(l, "private"@) || contains_sub(l, "login required"@) || contains_sub(l, "log in"@)
        || contains_sub(l, "restricted"@) || contains_sub(l, "unavailable"@) || contains_sub(
        l,
        "not available"@,
    )
}

/// The lowercased stderr says the link is not supported.
pub open spec fn says_unsupported(l: Seq<char>) -> bool {
    contains_sub(l, "unsupported url"@) || contains_sub(l, "no video formats found"@)
}

/// The lowercased stderr says the file is too large.
pub open spec fn says_too_large(l: Seq<char>) -> bool {
    contains_sub(l, "file is larger than"@) || contains_sub(l, "larger than the maximum"@)
}

/// The first 300 characters of `s`.
pub open spec fn snippet(s: Seq<char>) -> Seq<char> {
    if s.len() <= 300 {
        s
    } else {
        s.subrange(0, 300)
    }
}

/// `e` is the error for `stderr` whose lowercase form is `l`.
pub open spec fn classified_as(stderr: Seq<char>, l: Seq<char>, e: Error) -> bool {
    if says_private(l) {
        e is PrivateOrRestricted
    } else if says_unsupported(l) {
        e is UnsupportedUrl
    } else if says_too_large(l) {
        e is TooLarge
    } else {
        e is Download && e->Download_0@ == snippet(stderr)
    }
}

/// `e` is the error that [`classify_ytdlp_error`] gives for `stderr`.
pub open spec fn classified(stderr: Seq<char>, e: Error) -> bool {
    classified_as(stderr, lowercase_of(stderr), e)
}

/// The error for yt-dlp stderr `stderr`, given its lowercase form `lower`.
/// Unknown failures keep a truncated copy of the raw output for logs.
pub fn classify_lowercased(stderr: &str, lower: &str) -> (r: Error)
    ensures
        classified_as(stderr@, lower@, r),
{
    let l = chars_of(lower);
    if contains_str(&l, "private") || contains_str(&l, "login required") || contains_str(
        &l,
        "log in",
    ) || contains_str(&l, "restricted") || contains_str(&l, "unavailable") || contains_str(
        &l,
        "not available",
    ) {
        Error::PrivateOrRestricted
    } else if contains_str(&l, "unsupported url") || contains_str(&l, "no video formats found") {
        Error::UnsupportedUrl
    } else if contains_str(&l, "file is larger than") || contains_str(&l, "larger than the maximum") {
        Error::TooLarge
    } else {
        let raw = chars_of(stderr);
        let cut: usize = if raw.len() <= 300 {
            raw.len()
        } else {
            300
        };
        let s = slice_of(&raw, 0, cut);
        proof {
            assert(raw@.subrange(0, raw@.len() as int) =~= raw@);
        }
        Error::Download(string_of(&s))
    }
}

/// Map yt-dlp stderr to a user-facing error.
pub fn classify_ytdlp_error(stderr: &str) -> (r: Error)
    ensures
        classified(stderr@, r),
{
    let low = lowercase(stderr);
    classify_lowercased(stderr, low.as_str())
}

// ---------------------------------------------------------------------------
// Progress lines
// ---------------------------------------------------------------------------

/// A character that a percentage is made of.
pub open spec fn is_num_char(c: char) -> bool {
    is_digit_char(c) || c == '.'
}

/// The digits and dots of `s`, in order.
pub open spec fn numeric_chars(s: Seq<char>) -> Seq<char>
    decreases s.len(),
{
    if s.len() == 0 {
        s
    } else if is_num_char(s.last()) {
        numeric_chars(s.drop_last()).push(s.last())
    } else {
        numeric_chars(s.drop_last())
    }
}

/// The percentage that a run of digits and dots denotes, rounded half away
/// from zero and capped at 100; `None` when it is not a number (no digit, or
/// more than one dot).
pub open spec fn percent_value(num: Seq<char>) -> Option<nat> {
    match first_index_from(num, '.', 0) {
        Some(d) => {
            let int_part = num.subrange(0, d);
            let frac = num.subrange(d + 1, num.len() as int);
            if first_index_from(num, '.', d + 1) is Some || (int_part.len() == 0 && frac.len() == 0) {
                None
            } else {
                Some(cap100(digits_value(int_part) + if frac.len() > 0 && frac[0] >= '5' {
                    1nat
                } else {
                    0nat
                }))
            }
        },
        None => if num.len() == 0 {
            None
        } else {
            Some(cap100(digits_value(num)))
        },
    }
}

/// `n` capped at 100.
pub open spec fn cap100(n: nat) -> nat {
    if n > 100 {
        100
    } else {
        n
    }
}

/// What [`parse_progress_line`] reads from `line`: the number after the
/// first `:` (only its digits and dots count), as a percentage.
pub open spec fn progress_of_line(line: Seq<char>) -> Option<nat> {
    match first_index_from(line, ':', 0) {
        Some(i) => percent_value(numeric_chars(line.subrange(i + 1, line.len() as int))),
        None => None,
    }
}

/// 10 to the power `n`.
pub open spec fn pow10(n: nat) -> nat
    decreases n,
{
    if n == 0 {
        1
    } else {
        10 * pow10((n - 1) as nat)
    }
}

/// Appending digits shifts the value: `digits_value(a + b)` is
/// `digits_value(a) * 10^|b| + digits_value(b)`.
proof fn lemma_digits_value_concat(a: Seq<char>, b: Seq<char>)
    ensures
        digits_value(a + b) == digits_value(a) * pow10(b.len()) + digits_value(b),
    decreases b.len(),
{
    if b.len() == 0 {
        assert(a + b =~= a);
        assert(digits_value(b) == 0);
        assert(pow10(b.len()) == 1);
    } else {
        let b0 = b.drop_last();
        lemma_digits_value_concat(a, b0);
        assert((a + b).drop_last() =~= a + b0);
        assert((a + b).last() == b.last());
        let da = digits_value(a);
        let p = pow10(b0.len());
        let d = ((b.last() as u32) - 48) as nat;
        let v0 = digits_value(b0);
        assert(digits_value(a + b0) == da * p + v0);
        assert(digits_value(a + b) == digits_value(a + b0) * 10 + d);
        assert(digits_value(b) == v0 * 10 + d);
        assert(pow10(b.len()) == 10 * p);
        assert((da * p + v0) * 10 + d == da * (10 * p) + (v0 * 10 + d)) by (nonlinear_arith);
        assert(digits_value(a + b) == da * pow10(b.len()) + digits_value(b));
    }
}

/// A run of `n` digits is worth less than `10^n`.
proof fn lemma_digits_value_bound(s: Seq<char>)
    requires
        all_digits(s),
    ensures
        digits_value(s) < pow10(s.len()),
    decreases s.len(),
{
    if s.len() > 0 {
        let s0 = s.drop_last();
        assert(all_digits(s0)) by {
            assert forall|i: int| 0 <= i < s0.len() implies is_digit_char(#[trigger] s0[i]) by {
                assert(s0[i] == s[i]);
            }
        }
        lemma_digits_value_bound(s0);
        assert(is_digit_char(s[s.len() - 1]));
        let d = ((s.last() as u32) - 48) as nat;
        assert(d <= 9);
        let v0 = digits_value(s0);
        let p = pow10(s0.len());
        assert(v0 * 10 + d < 10 * p) by (nonlinear_arith)
            requires
                v0 < p,
                d <= 9,
        ;
    }
}

/// A progress percentage is the number its digits spell, rounded half up and
/// capped at 100. For digits `int_part`, a dot and digits `frac` (not both
/// empty), the number is `x = N / 10^L`, with `N` the digits without the dot
/// and `L` the digits after it; `floor(x + 1/2)` is `(2N + 10^L) / (2 * 10^L)`.
/// A run of digits without a dot is its value.
pub proof fn lemma_percent_value_rounds(int_part: Seq<char>, frac: Seq<char>)
    requires
        all_digits(int_part),
        all_digits(frac),
    ensures
        int_part.len() > 0 ==> percent_value(int_part) == Some(cap100(digits_value(int_part))),
        int_part.len() + frac.len() > 0 ==> percent_value(int_part + seq!['.'] + frac) == Some(
            cap100(
                (2 * digits_value(int_part + frac) + pow10(frac.len())) / (2 * pow10(frac.len())),
            ),
        ),
{
    assert forall|k: int| 0 <= k < int_part.len() implies int_part[k] != '.' by {
        assert(is_digit_char(int_part[k]));
    }
    lemma_first_index_from(int_part, '.', 0);
    let num = int_part + seq!['.'] + frac;
    let i = int_part.len() as int;
    assert(num[i] == '.');
    assert forall|k: int| 0 <= k < i implies num[k] != '.' by {
        assert(num[k] == int_part[k]);
    }
    crate::session::lemma_first_index_unique(num, '.', 0, i);
    assert forall|k: int| i + 1 <= k < num.len() implies num[k] != '.' by {
        assert(num[k] == frac[k - i - 1]);
        assert(is_digit_char(frac[k - i - 1]));
    }
    lemma_first_index_from(num, '.', i + 1);
    assert(num.subrange(0, i) =~= int_part);
    assert(num.subrange(i + 1, num.len() as int) =~= frac);
    if int_part.len() + frac.len() > 0 {
        let a = digits_value(int_part);
        let f = digits_value(frac);
        let d = pow10(frac.len());
        lemma_digits_value_concat(int_part, frac);
        lemma_digits_value_bound(frac);
        let up: nat = if frac.len() > 0 && frac[0] >= '5' {
            1
        } else {
            0
        };
        // 2F >= D exactly when the first fractional digit is 5 or more.
        if frac.len() > 0 {
            let head = frac.subrange(0, 1);
            let tail = frac.subrange(1, frac.len() as int);
            assert(head + tail =~= frac);
            lemma_digits_value_concat(head, tail);
            assert(all_digits(tail)) by {
                assert forall|k: int| 0 <= k < tail.len() implies is_digit_char(#[trigger] tail[k]) by {
                    assert(tail[k] == frac[k + 1]);
                }
            }
            lemma_digits_value_bound(tail);
            assert(head.drop_last() =~= Seq::<char>::empty());
            assert(digits_value(head.drop_last()) == 0);
            assert(head.last() == frac[0]);
            assert(is_digit_char(frac[0]));
            let d0 = ((frac[0] as u32) - 48) as nat;
            assert(digits_value(head) == d0);
            let p = pow10(tail.len());
            let t = digits_value(tail);
            assert(tail.len() == frac.len() - 1);
            assert(d == 10 * p);
            assert(f == d0 * p + t);
            if frac[0] >= '5' {
                assert(2 * f >= d) by (nonlinear_arith)
                    requires
                        f == d0 * p + t,
                        d == 10 * p,
                        d0 >= 5,
                ;
            } else {
                assert(2 * f < d) by (nonlinear_arith)
                    requires
                        f == d0 * p + t,
                        d == 10 * p,
                        d0 <= 4,
                        t < p,
                ;
            }
        } else {
            assert(f == 0);
            assert(d == 1);
        }
        assert(d > 0) by {
            lemma_pow10_positive(frac.len());
        }
        let n = digits_value(int_part + frac);
        assert(n == a * d + f);
        let r: int = if up == 1 {
            2 * f - d
        } else {
            (2 * f + d) as int
        };
        assert(2 * n + d == (a + up) * (2 * d) + r) by (nonlinear_arith)
            requires
                n == a * d + f,
                up == 1 ==> r == 2 * f - d,
                up == 0 ==> r == 2 * f + d,
                up == 0 || up == 1,
        ;
        assert(0 <= r < 2 * d);
        vstd::arithmetic::div_mod::lemma_fundamental_div_mod_converse_div(
            (2 * n + d) as int,
            (2 * d) as int,
            (a + up) as int,
            r,
        );
    }
}

/// A progress line never reports more than 100, and a line without `:`
/// reports nothing.
pub proof fn lemma_progress_at_most_100(line: Seq<char>)
    ensures
        progress_of_line(line) matches Some(p) ==> p <= 100,
        first_index_from(line, ':', 0) is None ==> progress_of_line(line) is None,
{
}

/// Powers of ten are positive.
proof fn lemma_pow10_positive(n: nat)
    ensures
        pow10(n) > 0,
    decreases n,
{
    if n > 0 {
        lemma_pow10_positive((n - 1) as nat);
    }
}

/// What `first_index_from` tells about the characters it passes.
pub proof fn lemma_first_index_from(s: Seq<char>, c: char, from: int)
    requires
        0 <= from,
    ensures
        (match first_index_from(s, c, from) {
            Some(i) => from <= i < s.len() && s[i] == c && forall|j: int| from <= j < i ==> s[j] != c,
            None => forall|j: int| from <= j < s.len() ==> s[j] != c,
        }),
    decreases s.len() - from,
{
    if from < s.len() && s[from] != c {
        lemma_first_index_from(s, c, from + 1);
    }
}

/// Every character of `numeric_chars(s)` is a digit or a dot.
proof fn lemma_numeric_chars(s: Seq<char>)
    ensures
        forall|i: int| 0 <= i < numeric_chars(s).len() ==> is_num_char(#[trigger] numeric_chars(s)[i]),
    decreases s.len(),
{
    if s.len() > 0 {
        lemma_numeric_chars(s.drop_last());
        let p = numeric_chars(s.drop_last());
        assert forall|i: int| 0 <= i < numeric_chars(s).len() implies is_num_char(
            #[trigger] numeric_chars(s)[i],
        ) by {
            if i < p.len() {
                assert(numeric_chars(s)[i] == p[i]);
            }
        }
    }
}

/// The digits and dots of `v[from..]`.
fn numeric_filter(v: &Vec<char>, from: usize) -> (r: Vec<char>)
    requires
        from <= v.len(),
    ensures
        r@ == numeric_chars(v@.subrange(from as int, v@.len() as int)),
{
    let mut r: Vec<char> = Vec::new();
    let mut i: usize = from;
    while i < v.len()
        invariant
            from <= i <= v.len(),
            r@ == numeric_chars(v@.subrange(from as int, i as int)),
        decreases v.len() - i,
    {
        let c = v[i];
        proof {
            let nxt = v@.subrange(from as int, i + 1);
            assert(nxt.drop_last() =~= v@.subrange(from as int, i as int));
            assert(nxt.last() == c);
        }
        if ('0' <= c && c <= '9') || c == '.' {
            r.push(c);
        }
        i = i + 1;
    }
    r
}

/// `min(digits_value(v[a..b]), 101)` for a run of digits.
fn capped_digits_value(v: &Vec<char>, a: usize, b: usize) -> (r: u64)
    requires
        a <= b <= v.len(),
        forall|j: int| a <= j < b ==> is_digit_char(#[trigger] v@[j]),
    ensures
        r == (if digits_value(v@.subrange(a as int, b as int)) > 101 {
            101
        } else {
            digits_value(v@.subrange(a as int, b as int))
        }),
{
    let mut acc: u64 = 0;
    let mut i: usize = a;
    while i < b
        invariant
            a <= i <= b,
            b <= v.len(),
            forall|j: int| a <= j < b ==> is_digit_char(#[trigger] v@[j]),
            acc == (if digits_value(v@.subrange(a as int, i as int)) > 101 {
                101
            } else {
                digits_value(v@.subrange(a as int, i as int))
            }),
        decreases b - i,
    {
        let c = v[i];
        assert(is_digit_char(v@[i as int]));
        let d: u64 = (c as u32 - 48) as u64;
        let ghost pre = digits_value(v@.subrange(a as int, i as int));
        proof {
            let nxt = v@.subrange(a as int, i + 1);
            assert(nxt.drop_last() =~= v@.subrange(a as int, i as int));
            assert(nxt.last() == c);
            assert(digits_value(nxt) == pre * 10 + d);
            if pre > 101 {
                assert(pre * 10 + d > 101) by (nonlinear_arith)
                    requires
                        pre > 101,
                ;
            }
        }
        let next = acc * 10 + d;
        acc = if next > 101 {
            101
        } else {
            next
        };
        i = i + 1;
    }
    acc
}

/// Parse a yt-dlp `--progress-template` line like `download: 82.3%`.
/// Returns 0–100 or `None` when the line carries no progress. The value is
/// the number spelled by the digits and dots after the first `:`, rounded
/// half up and capped at 100 (see [`lemma_percent_value_rounds`]).
pub fn parse_progress_line(line: &str) -> (r: Option<u8>)
    ensures
        (match r {
            Some(p) => progress_of_line(line@) == Some(p as nat),
            None => progress_of_line(line@) is None,
        }),
{
    let v = chars_of(line);
    let colon = match find_char_from(&v, ':', 0) {
        Some(i) => i,
        None => return None,
    };
    let num = numeric_filter(&v, colon + 1);
    proof {
        lemma_numeric_chars(v@.subrange(colon + 1, v@.len() as int));
        lemma_first_index_from(num@, '.', 0);
    }
    let n = num.len();
    match find_char_from(&num, '.', 0) {
        Some(d) => {
            proof {
                lemma_first_index_from(num@, '.', d + 1);
            }
            if find_char_from(&num, '.', d + 1).is_some() || (d == 0 && d + 1 == n) {
                return None;
            }
            proof {
                assert forall|j: int| 0 <= j < d implies is_digit_char(#[trigger] num@[j]) by {
                    assert(is_num_char(num@[j]));
                }
                assert forall|j: int| d + 1 <= j < n implies is_digit_char(#[trigger] num@[j]) by {
                    assert(is_num_char(num@[j]));
                }
            }
            let int_val = capped_digits_value(&num, 0, d);
            let up: u64 = if d + 1 < n && num[d + 1] >= '5' {
                1
            } else {
                0
            };
            proof {
                let frac = num@.subrange(d + 1, n as int);
                if frac.len() > 0 {
                    assert(frac[0] == num@[d + 1]);
                }
            }
            let total = int_val + up;
            Some(if total > 100 {
                100
            } else {
                total as u8
            })
        },
        None => {
            if n == 0 {
                return None;
            }
            proof {
                assert forall|j: int| 0 <= j < n implies is_digit_char(#[trigger] num@[j]) by {
                    assert(is_num_char(num@[j]));
                }
                assert(num@.subrange(0, n as int) =~= num@);
            }
            let val = capped_digits_value(&num, 0, n);
            Some(if val > 100 {
                100
            } else {
                val as u8
            })
        },
    }
}

// ---------------------------------------------------------------------------
// Command lines
// ---------------------------------------------------------------------------

/// The views of a list of strings.
pub open spec fn strings_view(v: Seq<String>) -> Seq<Seq<char>> {
    v.map_values(|s: String| s@)
}

/// yt-dlp arguments that resolve metadata without downloading.
pub open spec fn resolve_args_spec(url: Seq<char>) -> Seq<Seq<char>> {
    seq![
        "--dump-single-json"@,
        "--no-playlist"@,
        "--no-warnings"@,
        "--no-colors"@,
        "--socket-timeout"@,
        "15"@,
        url,
    ]
}

/// yt-dlp arguments for `resolve`.
pub fn resolve_args(url: &str) -> (r: Vec<String>)
    ensures
        strings_view(r@) == resolve_args_spec(url@),
{
    let mut r: Vec<String> = Vec::new();
    r.push(owned("--dump-single-json"));
    r.push(owned("--no-playlist"));
    r.push(owned("--no-warnings"));
    r.push(owned("--no-colors"));
    r.push(owned("--socket-timeout"));
    r.push(owned("15"));
    r.push(owned(url));
    proof {
        assert(strings_view(r@) =~= resolve_args_spec(url@));
    }
    r
}

/// The `-o` output template: the target path without extension, then yt-dlp's
/// extension placeholder.
pub open spec fn output_template(stem: Seq<char>) -> Seq<char> {
    stem + ".%(ext)s"@
}

/// yt-dlp arguments that download a video at `q`, merged to MP4.
pub open spec fn video_args_spec(q: VideoQuality, stem: Seq<char>, url: Seq<char>) -> Seq<Seq<char>> {
    seq![
        "-f"@,
        q.format_selector()@,
        "--merge-output-format"@,
        "mp4"@,
        "--no-playlist"@,
        "--no-warnings"@,
        "--no-colors"@,
        "--newline"@,
        "--progress-template"@,
        "download:%(progress._percent_str)s"@,
        "-o"@,
        output_template(stem),
        url,
    ]
}

/// yt-dlp arguments that download the best audio source.
pub open spec fn audio_args_spec(stem: Seq<char>, url: Seq<char>) -> Seq<Seq<char>> {
    seq![
        "-f"@,
        "bestaudio/best"@,
        "--no-playlist"@,
        "--no-warnings"@,
        "--no-colors"@,
        "--newline"@,
        "--progress-template"@,
        "download:%(progress._percent_str)s"@,
        "-o"@,
        output_template(stem),
        url,
    ]
}

/// `stem` followed by yt-dlp's extension placeholder.
fn template_of(stem: &str) -> (r: String)
    ensures
        r@ == output_template(stem@),
{
    let mut v = chars_of(stem);
    push_str(&mut v, ".%(ext)s");
    string_of(&v)
}

/// yt-dlp arguments for a video download (`stem`: target path without extension).
pub fn video_download_args(q: VideoQuality, stem: &str, url: &str) -> (r: Vec<String>)
    ensures
        strings_view(r@) == video_args_spec(q, stem@, url@),
{
    let mut r: Vec<String> = Vec::new();
    r.push(owned("-f"));
    r.push(owned(q.format_selector()));
    r.push(owned("--merge-output-format"));
    r.push(owned("mp4"));
    r.push(owned("--no-playlist"));
    r.push(owned("--no-warnings"));
    r.push(owned("--no-colors"));
    r.push(owned("--newline"));
    r.push(owned("--progress-template"));
    r.push(owned("download:%(progress._percent_str)s"));
    r.push(owned("-o"));
    r.push(template_of(stem));
    r.push(owned(url));
    proof {
        assert(strings_view(r@) =~= video_args_spec(q, stem@, url@));
    }
    r
}

/// yt-dlp arguments for an audio-source download (`stem`: target path without extension).
pub fn audio_download_args(stem: &str, url: &str) -> (r: Vec<String>)
    ensures
        strings_view(r@) == audio_args_spec(stem@, url@),
{
    let mut r: Vec<String> = Vec::new();
    r.push(owned("-f"));
    r.push(owned("bestaudio/best"));
    r.push(owned("--no-playlist"));
    r.push(owned("--no-warnings"));
    r.push(owned("--no-colors"));
    r.push(owned("--newline"));
    r.push(owned("--progress-template"));
    r.push(owned("download:%(progress._percent_str)s"));
    r.push(owned("-o"));
    r.push(template_of(stem));
    r.push(owned(url));
    proof {
        assert(strings_view(r@) =~= audio_args_spec(stem@, url@));
    }
    r
}

/// Containers a merged video may come out in, in order of preference.
pub fn video_output_extensions() -> (r: Vec<String>)
    ensures
        strings_view(r@) == seq!["mp4"@, "mkv"@, "webm"@],
{
    let mut r: Vec<String> = Vec::new();
    r.push(owned("mp4"));
    r.push(owned("mkv"));
    r.push(owned("webm"));
    proof {
        assert(strings_view(r@) =~= seq!["mp4"@, "mkv"@, "webm"@]);
    }
    r
}

/// Index of the first name that starts with `stem`: the file yt-dlp wrote
/// for an output template, whatever extension it chose.
pub fn first_with_prefix(names: &Vec<String>, stem: &str) -> (r: Option<usize>)
    ensures
        (match r {
            Some(i) => i < names.len() && stem@.is_prefix_of(names@[i as int]@)
                && forall|j: int| 0 <= j < i ==> !stem@.is_prefix_of(#[trigger] names@[j]@),
            None => forall|j: int| 0 <= j < names.len() ==> !stem@.is_prefix_of(#[trigger] names@[j]@),
        }),
{
    let mut i: usize = 0;
    while i < names.len()
        invariant
            i <= names.len(),
            forall|j: int| 0 <= j < i ==> !stem@.is_prefix_of(#[trigger] names@[j]@),
        decreases names.len() - i,
    {
        let v = chars_of(names[i].as_str());
        if starts_with_str(&v, stem) {
            return Some(i);
        }
        i = i + 1;
    }
    None
}

/// Largest file the bot handles: Telegram caps Local Bot API uploads at 2 GB.
pub const MAX_FILE_BYTES: u64 = 2_000_000_000;

/// Reject a downloaded file larger than [`MAX_FILE_BYTES`].
pub fn check_size_limit(len: u64) -> (r: Result<(), Error>)
    ensures
        r is Ok <==> len <= MAX_FILE_BYTES,
        r matches Err(e) ==> e is TooLarge,
{
    if len > MAX_FILE_BYTES {
        Err(Error::TooLarge)
    } else {
        Ok(())
    }
}

} // verus!
