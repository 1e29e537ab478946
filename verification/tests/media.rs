use fetchly::media::ytdlp::classify_lowercased;
use fetchly::media::url::{normalisation, split_tracking};
use fetchly::i18n::Lang;
use fetchly::error::Error;
use fetchly::media::ffmpeg::mp3_args;
use fetchly::media::tag::{
    cover_acceptable, cover_mime_kind, tag_plan, CoverMime, ExistingTag, TagBase, TagInfo,
};
use fetchly::media::url::{detect_platform, parse, url_hash, MediaUrl, Platform};
use fetchly::media::ytdlp::{
    audio_download_args, check_size_limit, classify_ytdlp_error, estimates_in_range,
    first_with_prefix, metadata_from_info, video_output_extensions,
    parse_progress_line, resolve_args, video_download_args, AudioQuality, FormatInfo, Metadata,
    VideoQuality, YtdlpInfo,
};

#[test]
fn detects_all_platforms() {
    let cases = [
        (
            "https://www.youtube.com/watch?v=dQw4w9WgXcQ",
            Platform::Youtube,
        ),
        ("https://youtu.be/dQw4w9WgXcQ", Platform::Youtube),
        ("https://music.youtube.com/watch?v=abc", Platform::Youtube),
        ("https://www.tiktok.com/@user/video/123", Platform::Tiktok),
        ("https://vm.tiktok.com/abc123/", Platform::Tiktok),
        ("https://www.instagram.com/reel/abc/", Platform::Instagram),
        ("https://x.com/user/status/123", Platform::Twitter),
        ("https://twitter.com/user/status/123", Platform::Twitter),
    ];
    for (input, want) in cases {
        assert_eq!(parse(input).expect("parses").platform, want, "{input}");
    }
}

#[test]
fn rejects_unsupported() {
    for input in [
        "not a url",
        "https://example.com/video",
        "ftp://youtube.com/watch?v=1",
    ] {
        assert!(parse(input).is_err(), "{input}");
    }
}

#[test]
fn strips_tracking_params() {
    let m = parse("https://youtu.be/abc?si=XYZ&utm_source=share").expect("parses");
    assert!(!m.url.contains("si="), "{}", m.url);
    assert!(!m.url.contains("utm_"), "{}", m.url);
    let m = parse("https://www.youtube.com/watch?v=abc&t=42s&si=XYZ").expect("parses");
    assert!(m.url.contains("v=abc"), "{}", m.url);
    assert!(m.url.contains("t=42s"), "{}", m.url);
}

#[test]
fn hash_is_stable_hex() {
    assert_eq!(url_hash("a"), url_hash("a"));
    assert_ne!(url_hash("a"), url_hash("b"));
    assert_eq!(url_hash("a").len(), 64);
}

#[test]
fn hash_of_known_input() {
    assert_eq!(
        url_hash("abc"),
        "ba7816bf8f01cfea414140de5dae2223b00361a396177a9cb410ff61f20015ad"
    );
}

#[test]
fn parse_normalises_host_and_whitespace() {
    let m = parse("  https://WWW.YouTube.com/watch?v=abc\n").expect("parses");
    assert_eq!(m.platform, Platform::Youtube);
    assert_eq!(m.url, "https://www.youtube.com/watch?v=abc");
    let m = parse("https://vt.tiktok.com/xyz/").expect("parses");
    assert_eq!(m.platform, Platform::Tiktok);
    assert_eq!(m.url, "https://vt.tiktok.com/xyz/");
    let m = parse("https://www.instagram.com/p/abc/?igsh=1&fbclid=2&gclid=3&igshid=4").expect("parses");
    assert_eq!(m.platform, Platform::Instagram);
    assert!(!m.url.contains("igsh"), "{}", m.url);
    assert!(!m.url.contains("clid"), "{}", m.url);
    match parse("http://fixvx.com/a/status/1") {
        Ok(MediaUrl { platform, url }) => {
            assert_eq!(platform, Platform::Twitter);
            assert_eq!(url, "http://fixvx.com/a/status/1");
        }
        Err(e) => panic!("fixvx should parse: {e:?}"),
    }
    assert!(matches!(parse("https://notyoutube.com/x"), Err(Error::UnsupportedUrl)));
    assert!(matches!(parse("mailto:someone@youtube.com"), Err(Error::UnsupportedUrl)));
}

#[test]
fn platform_detection_by_host() {
    let h = |s: &str| s.chars().collect::<Vec<char>>();
    assert_eq!(detect_platform(&h("youtube-nocookie.com")), Some(Platform::Youtube));
    assert_eq!(detect_platform(&h("m.youtube.com")), Some(Platform::Youtube));
    assert_eq!(detect_platform(&h("www.x.com")), Some(Platform::Twitter));
    assert_eq!(detect_platform(&h("mobile.twitter.com")), Some(Platform::Twitter));
    assert_eq!(detect_platform(&h("vxtwitter.com")), Some(Platform::Twitter));
    assert_eq!(detect_platform(&h("api.instagram.com")), Some(Platform::Instagram));
    assert_eq!(detect_platform(&h("www.youtube.co.uk")), None);
    assert_eq!(detect_platform(&h("ex.com")), None);
    assert_eq!(Platform::Twitter.as_str(), "X");
    assert_eq!(Platform::Tiktok.as_str(), "TikTok");
}

#[test]
fn progress_parses() {
    assert_eq!(parse_progress_line("download: 82.3%"), Some(82));
    assert_eq!(parse_progress_line("download:100%"), Some(100));
    assert_eq!(parse_progress_line("download: NA"), None);
    assert_eq!(parse_progress_line("noise"), None);
}

#[test]
fn progress_rounds_and_clamps() {
    assert_eq!(parse_progress_line("download: 82.5%"), Some(83));
    assert_eq!(parse_progress_line("download: 82.49%"), Some(82));
    assert_eq!(parse_progress_line("download: 250%"), Some(100));
    assert_eq!(parse_progress_line("download: 100.7%"), Some(100));
    assert_eq!(parse_progress_line("download: .5%"), Some(1));
    assert_eq!(parse_progress_line("download: 7.%"), Some(7));
    assert_eq!(parse_progress_line("download: .%"), None);
    assert_eq!(parse_progress_line("download: 1.2.3%"), None);
    assert_eq!(parse_progress_line("a:b: 5%"), Some(5));
    assert_eq!(parse_progress_line("x:  0%"), Some(0));
}

#[test]
fn selectors_cover_all_qualities() {
    for q in [
        VideoQuality::P360,
        VideoQuality::P480,
        VideoQuality::P720,
        VideoQuality::P1080,
        VideoQuality::Best,
    ] {
        assert!(!q.format_selector().is_empty());
        assert!(VideoQuality::parse_code(q.as_str()) == Some(q));
    }
    for q in [
        AudioQuality::K128,
        AudioQuality::K192,
        AudioQuality::K320,
        AudioQuality::Best,
    ] {
        assert!(!q.mp3_bitrate().is_empty());
        assert!(AudioQuality::parse_code(q.as_str()) == Some(q));
    }
}

#[test]
fn quality_labels_and_codes() {
    assert_eq!(VideoQuality::P720.label(Lang::Ru), "720p");
    assert_eq!(VideoQuality::Best.label(Lang::Ru), "Лучшее");
    assert_eq!(AudioQuality::K192.label(Lang::En), "192 kbps");
    assert_eq!(AudioQuality::Best.label(Lang::En), "Best");
    assert_eq!(AudioQuality::Best.mp3_bitrate(), "320k");
    assert_eq!(VideoQuality::parse_code("pick"), None);
    assert_eq!(AudioQuality::parse_code("256"), None);
}

#[test]
fn classifies_errors() {
    assert!(matches!(
        classify_ytdlp_error("ERROR: Private video"),
        Error::PrivateOrRestricted
    ));
    assert!(matches!(
        classify_ytdlp_error("ERROR: Unsupported URL"),
        Error::UnsupportedUrl
    ));
    assert!(matches!(
        classify_ytdlp_error("ERROR: boom"),
        Error::Download(_)
    ));
}

#[test]
fn classification_order_and_snippet() {
    assert!(matches!(
        classify_ytdlp_error("ERROR: Video unavailable. Unsupported URL"),
        Error::PrivateOrRestricted
    ));
    assert!(matches!(
        classify_ytdlp_error("ERROR: File is larger than max-filesize"),
        Error::TooLarge
    ));
    assert!(matches!(
        classify_ytdlp_error("No video formats found!"),
        Error::UnsupportedUrl
    ));
    let long = "é".repeat(400);
    match classify_ytdlp_error(&long) {
        Error::Download(s) => assert_eq!(s.chars().count(), 300),
        other => panic!("expected Download, got {other:?}"),
    }
}

fn media() -> MediaUrl {
    MediaUrl {
        platform: Platform::Youtube,
        url: "https://www.youtube.com/watch?v=x".to_owned(),
    }
}

fn info(duration: Option<u64>, formats: Vec<FormatInfo>) -> YtdlpInfo {
    YtdlpInfo {
        title: Some("Test".to_owned()),
        duration_secs: duration,
        thumbnail: Some("https://img/x.jpg".to_owned()),
        webpage_url: Some("https://youtu.be/x".to_owned()),
        view_count: None,
        uploader: None,
        formats,
    }
}

#[test]
fn metadata_from_minimal_json() {
    let m: Metadata = metadata_from_info(&info(Some(240), vec![]), &media());
    assert_eq!(m.title, "Test");
    assert_eq!(m.duration_secs, Some(240));
    assert_eq!(m.video_options.len(), 5);
    assert_eq!(m.audio_options.len(), 4);
    // Duration-based fallback: 240 s × 320 kbps / 8 = 9.6 MB.
    let best = m
        .audio_options
        .iter()
        .find(|o| o.quality == AudioQuality::Best)
        .expect("best audio");
    assert_eq!(best.estimated_bytes, Some(9_600_000));
}

fn format(height: Option<u64>, size: Option<u64>, vcodec: &str, acodec: &str) -> FormatInfo {
    FormatInfo {
        filesize: size,
        filesize_approx: None,
        height,
        acodec: Some(acodec.to_owned()),
        vcodec: Some(vcodec.to_owned()),
    }
}

#[test]
fn metadata_estimates_from_formats() {
    let formats = vec![
        format(Some(360), Some(10), "avc1", "none"),
        format(Some(360), Some(15), "avc1", "none"),
        format(Some(720), Some(40), "avc1", "none"),
        format(Some(2160), Some(400), "vp9", "none"),
        format(None, Some(1_920), "none", "opus"),
        format(None, Some(960), "none", "mp4a"),
        FormatInfo {
            filesize: None,
            filesize_approx: Some(30),
            height: Some(480),
            acodec: None,
            vcodec: None,
        },
    ];
    let m = metadata_from_info(&info(Some(60), formats), &media());
    let v: Vec<Option<u64>> = m.video_options.iter().map(|o| o.estimated_bytes).collect();
    assert_eq!(v, vec![Some(15), Some(30), Some(40), Some(40), Some(400)]);
    let a: Vec<Option<u64>> = m.audio_options.iter().map(|o| o.estimated_bytes).collect();
    assert_eq!(a, vec![Some(1_280), Some(1_920), Some(3_200), Some(3_200)]);
    assert_eq!(m.webpage_url, "https://youtu.be/x");
}

#[test]
fn metadata_without_anything() {
    let bare = YtdlpInfo {
        title: None,
        duration_secs: None,
        thumbnail: None,
        webpage_url: None,
        view_count: None,
        uploader: None,
        formats: vec![],
    };
    let m = metadata_from_info(&bare, &media());
    assert_eq!(m.title, "Untitled");
    assert_eq!(m.webpage_url, "https://www.youtube.com/watch?v=x");
    assert!(m.video_options.iter().all(|o| o.estimated_bytes.is_none()));
    assert!(m.audio_options.iter().all(|o| o.estimated_bytes.is_none()));
    assert_eq!(m.duration_label(), "live/unknown");
    let m = metadata_from_info(&info(Some(10), vec![]), &media());
    // ~1.5 Mbps guess for Best when no format carries a size.
    assert_eq!(m.video_options[4].estimated_bytes, Some(1_875_000));
    assert_eq!(m.video_options[0].estimated_bytes, None);
}

#[test]
fn duration_labels() {
    let mut m = metadata_from_info(&info(Some(65), vec![]), &media());
    assert_eq!(m.duration_label(), "1:05");
    m.duration_secs = Some(3_600);
    assert_eq!(m.duration_label(), "60:00");
    m.duration_secs = Some(9);
    assert_eq!(m.duration_label(), "0:09");
}

#[test]
fn command_lines() {
    assert_eq!(
        video_download_args(VideoQuality::P720, "/tmp/f/s/video", "https://youtu.be/x"),
        vec![
            "-f",
            "bestvideo[height<=720]+bestaudio/best[height<=720]/best",
            "--merge-output-format",
            "mp4",
            "--no-playlist",
            "--no-warnings",
            "--no-colors",
            "--newline",
            "--progress-template",
            "download:%(progress._percent_str)s",
            "-o",
            "/tmp/f/s/video.%(ext)s",
            "https://youtu.be/x",
        ]
    );
    let a = audio_download_args("/tmp/f/s/source", "u");
    assert_eq!(a[1], "bestaudio/best");
    assert_eq!(a[9], "/tmp/f/s/source.%(ext)s");
    assert_eq!(a.len(), 11);
    assert_eq!(
        resolve_args("u"),
        vec!["--dump-single-json", "--no-playlist", "--no-warnings", "--no-colors", "--socket-timeout", "15", "u"]
    );
}

#[test]
fn size_limit() {
    assert!(check_size_limit(2_000_000_000).is_ok());
    assert!(matches!(check_size_limit(2_000_000_001), Err(Error::TooLarge)));
}

#[test]
fn args_contain_bitrate() {
    let args = mp3_args("in.m4a", "out.mp3", AudioQuality::K128);
    assert!(args.contains(&"128k".to_owned()));
    assert!(args.contains(&"libmp3lame".to_owned()));
}

#[test]
fn mp3_args_exact() {
    assert_eq!(
        mp3_args("a.webm", "b.mp3", AudioQuality::Best),
        vec!["-y", "-hide_banner", "-loglevel", "error", "-i", "a.webm", "-vn", "-c:a", "libmp3lame", "-b:a", "320k", "b.mp3"]
    );
}

#[test]
fn tag_info_default_is_empty() {
    let info = TagInfo::default();
    assert!(info.artist.is_none());
    assert!(info.cover_bytes.is_none());
}

#[test]
fn cover_choices() {
    assert_eq!(cover_mime_kind(&Some("image/png".to_owned())), CoverMime::Png);
    assert_eq!(cover_mime_kind(&Some("image/jpeg".to_owned())), CoverMime::Jpeg);
    assert_eq!(cover_mime_kind(&Some("image/webp".to_owned())), CoverMime::Jpeg);
    assert_eq!(cover_mime_kind(&None), CoverMime::Jpeg);
    assert!(!cover_acceptable(0));
    assert!(cover_acceptable(10_000_000));
    assert!(!cover_acceptable(10_000_001));
}

#[test]
fn estimate_range_check() {
    assert!(estimates_in_range(&info(Some(240), vec![])));
    assert!(estimates_in_range(&info(None, vec![])));
    // Duration fallback for audio: d × 320 × 1000 must fit u64.
    assert!(!estimates_in_range(&info(Some(u64::MAX / 320_000 + 1), vec![])));
    // A pure-audio size b needs b × 320 to fit.
    let huge_audio = vec![format(None, Some(u64::MAX / 320 + 1), "none", "opus")];
    assert!(!estimates_in_range(&info(None, huge_audio)));
    let ok_audio = vec![format(None, Some(u64::MAX / 320), "none", "opus")];
    assert!(estimates_in_range(&info(None, ok_audio)));
    // With a video size known, the 1.5 Mbps guess is not computed.
    let sized = vec![format(Some(720), Some(1), "avc1", "none")];
    assert!(estimates_in_range(&info(Some(u64::MAX / 1_500_000 + 1), sized)));
}

#[test]
fn normalisation_decides_platform_and_query() {
    let q = vec![
        ("v".to_owned(), "abc".to_owned()),
        ("si".to_owned(), "XYZ".to_owned()),
        ("utm_source".to_owned(), "x".to_owned()),
        ("t".to_owned(), "42s".to_owned()),
    ];
    let (kept, dropped) = split_tracking(&q);
    assert!(dropped);
    assert_eq!(
        kept,
        vec![("v".to_owned(), "abc".to_owned()), ("t".to_owned(), "42s".to_owned())]
    );
    match normalisation("https", "www.youtube.com", &q) {
        Some((Platform::Youtube, Some(k))) => assert_eq!(k, kept),
        other => panic!("unexpected {other:?}"),
    }
    let clean = vec![("v".to_owned(), "abc".to_owned())];
    assert!(matches!(
        normalisation("http", "vm.tiktok.com", &clean),
        Some((Platform::Tiktok, None))
    ));
    assert!(normalisation("ftp", "youtube.com", &clean).is_none());
    assert!(normalisation("https", "example.com", &clean).is_none());
    assert!(normalisation("HTTPS", "youtube.com", &clean).is_none());
}

#[test]
fn classification_reads_the_lowercase_text() {
    assert!(matches!(
        classify_lowercased("X", "error: login required"),
        Error::PrivateOrRestricted
    ));
    assert!(matches!(
        classify_lowercased("X", "error: no video formats found"),
        Error::UnsupportedUrl
    ));
    assert!(matches!(
        classify_lowercased("X", "file is larger than max-filesize"),
        Error::TooLarge
    ));
    match classify_lowercased("Boom", "boom") {
        Error::Download(s) => assert_eq!(s, "Boom"),
        other => panic!("expected Download, got {other:?}"),
    }
    let long = "é".repeat(400);
    match classify_ytdlp_error(&long) {
        Error::Download(s) => assert_eq!(s.chars().count(), 300),
        other => panic!("expected Download, got {other:?}"),
    }
}

#[test]
fn tag_plan_writes_known_fields() {
    let info = TagInfo {
        title: "Test Track".to_owned(),
        artist: Some("Test Artist".to_owned()),
        album: None,
        year: Some(2024),
        cover_bytes: Some(b"fake-image-bytes".to_vec()),
        cover_mime: Some("image/png".to_owned()),
    };
    let p = tag_plan(info, ExistingTag::Absent);
    assert_eq!(p.base, TagBase::Insert);
    assert_eq!(p.title, "Test Track");
    assert_eq!(p.artist.as_deref(), Some("Test Artist"));
    assert!(p.album.is_none());
    let (bytes, mime) = p.cover.expect("cover");
    assert_eq!(bytes, b"fake-image-bytes".to_vec());
    assert_eq!(mime, CoverMime::Png);

    let bare = tag_plan(TagInfo::default(), ExistingTag::Other);
    assert_eq!(bare.base, TagBase::Replace);
    assert!(bare.cover.is_none());
    assert_eq!(tag_plan(TagInfo::default(), ExistingTag::Id3v2).base, TagBase::Keep);
}

#[test]
fn output_files_are_found() {
    assert_eq!(video_output_extensions(), vec!["mp4", "mkv", "webm"]);
    let names: Vec<String> = ["video.part", "source.webm", "source.m4a"]
        .iter()
        .map(|s| (*s).to_owned())
        .collect();
    assert_eq!(first_with_prefix(&names, "source"), Some(1));
    assert_eq!(first_with_prefix(&names, "audio"), None);
    assert_eq!(first_with_prefix(&[].to_vec(), "source"), None);
}

#[test]
fn normalised_url_reparses_without_tracking() {
    let m = parse("https://YouTu.be/abc?si=XYZ&utm_source=share&t=1").expect("parses");
    let u = url::Url::parse(&m.url).expect("reparses");
    assert_eq!(u.host_str(), Some("youtu.be"));
    let pairs: Vec<(String, String)> = u
        .query_pairs()
        .map(|(k, v)| (k.into_owned(), v.into_owned()))
        .collect();
    assert_eq!(pairs, vec![("t".to_owned(), "1".to_owned())]);
    assert_eq!(parse(&m.url).expect("parses again").url, m.url);
}
