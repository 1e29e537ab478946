use fetchly::telegram::handlers::upload_error_from_lowercase;
use fetchly::error::Error;
use fetchly::i18n::Lang;
use fetchly::media::url::Platform;
use fetchly::media::ytdlp::{AudioOption, AudioQuality, Metadata, VideoOption, VideoQuality};
use fetchly::telegram::handlers::{
    admission, exceeds_standard_limit, extract_url, route_callback, route_message, scale_progress,
    thumbnail_acceptable, timed_out, timeout_minutes, upload_error_message, Admission,
    CallbackRoute, MessageRoute, SessionAction, UserSlots, BOT_DESCRIPTION, BOT_SHORT_DESCRIPTION,
};
use fetchly::telegram::keyboard::{
    audio_quality_keyboard, cancel_keyboard, escape_caption, format_bytes, language_keyboard,
    preview_keyboard, preview_text, progress_bar, video_quality_keyboard, Keyboard,
};
use fetchly::telegram::pipeline::{
    audio_duration, cached_video_caption, upload_video_caption, Decision, Effect, Event,
    MediaChoice, Pipeline, Request, Stage,
};
use fetchly::telegram::progress::{should_edit, ProgressThrottle};

const OVER_LIMIT_MSG: &str = "This file is over 50 MB, which exceeds the standard Bot API upload limit. Pick a lower quality, or set up a Local Bot API Server for files up to 2 GB.";

// ---------------------------------------------------------------------------
// Handlers
// ---------------------------------------------------------------------------

#[test]
fn extracts_first_url() {
    assert_eq!(
        extract_url("check this https://youtu.be/abc and https://x.com/1"),
        Some("https://youtu.be/abc".to_owned())
    );
    assert_eq!(
        extract_url("https://vm.tiktok.com/xyz/"),
        Some("https://vm.tiktok.com/xyz/".to_owned())
    );
}

#[test]
fn extracts_wrapped_and_prefixed_urls() {
    assert_eq!(
        extract_url("watch <https://youtu.be/abc>"),
        Some("https://youtu.be/abc".to_owned())
    );
    assert_eq!(
        extract_url("hey,https://x.com/a"),
        None,
        "URL glued to text is not a token"
    );
}

#[test]
fn no_url_yields_none() {
    assert_eq!(extract_url("just some words"), None);
    assert_eq!(extract_url(""), None);
    assert_eq!(extract_url("/start"), None);
}

#[test]
fn extracts_after_tabs_and_newlines() {
    assert_eq!(
        extract_url("look\n\thttp://x.com/a\tnext"),
        Some("http://x.com/a".to_owned())
    );
    assert_eq!(extract_url("<<>>"), None);
}

#[test]
fn upload_error_maps_413_to_limit_advice() {
    assert_eq!(
        upload_error_message("A Telegram's error: Request Entity Too Large"),
        OVER_LIMIT_MSG
    );
    assert_eq!(
        upload_error_message("Bad Request: chat not found"),
        "Something went wrong. Try again later."
    );
}

#[test]
fn upload_error_match_ignores_case() {
    assert_eq!(upload_error_message("TOO LARGE"), OVER_LIMIT_MSG);
    assert_eq!(upload_error_message("too   large"), "Something went wrong. Try again later.");
}

#[test]
fn handlers_profile_texts_fit_telegram_limits() {
    assert!(!BOT_DESCRIPTION.is_empty() && BOT_DESCRIPTION.len() <= 512);
    assert!(!BOT_SHORT_DESCRIPTION.is_empty() && BOT_SHORT_DESCRIPTION.len() <= 120);
}

#[test]
fn messages_route_commands_and_links() {
    assert!(matches!(route_message("/start"), MessageRoute::Start));
    assert!(matches!(route_message("/start@fetchly_bot"), MessageRoute::Start));
    assert!(matches!(route_message("/help me"), MessageRoute::Help));
    match route_message("see https://youtu.be/abc") {
        MessageRoute::Url(u) => assert_eq!(u, "https://youtu.be/abc"),
        other => panic!("expected Url, got {other:?}"),
    }
    assert!(matches!(route_message("hello"), MessageRoute::NoUrl));
}

#[test]
fn callbacks_route_to_actions() {
    assert!(matches!(route_callback("garbage"), CallbackRoute::Outdated));
    match route_callback("cancel:x:abcdefgh") {
        CallbackRoute::Cancel { session_id } => assert_eq!(session_id, "abcdefgh"),
        other => panic!("expected Cancel, got {other:?}"),
    }
    let action = |data: &str| match route_callback(data) {
        CallbackRoute::WithSession { session_id, action } => {
            assert_eq!(session_id, "abcdefgh");
            action
        }
        other => panic!("expected WithSession, got {other:?}"),
    };
    assert_eq!(action("v:pick:abcdefgh"), SessionAction::ShowVideoPicker);
    assert_eq!(action("a:pick:abcdefgh"), SessionAction::ShowAudioPicker);
    assert_eq!(action("v:720:abcdefgh"), SessionAction::StartVideo(VideoQuality::P720));
    assert_eq!(action("a:best:abcdefgh"), SessionAction::StartAudio(AudioQuality::Best));
    assert_eq!(action("v:999:abcdefgh"), SessionAction::UnknownQuality);
    assert_eq!(action("a:720:abcdefgh"), SessionAction::UnknownQuality);
}

#[test]
fn small_decisions() {
    assert!(!exceeds_standard_limit(50_000_000));
    assert!(exceeds_standard_limit(50_000_001));
    assert!(!thumbnail_acceptable(0));
    assert!(thumbnail_acceptable(4_999_999));
    assert!(!thumbnail_acceptable(5_000_000));
    assert_eq!(timeout_minutes(900), 15);
    assert_eq!(timeout_minutes(59), 1);
    assert_eq!(timeout_minutes(0), 1);
    match timed_out(900) {
        Error::TimedOut { minutes } => assert_eq!(minutes, 15),
        other => panic!("expected TimedOut, got {other:?}"),
    }
    assert_eq!(scale_progress(50, 80), 40);
    assert_eq!(scale_progress(100, 100), 100);
    assert_eq!(scale_progress(255, 255), 100);
}

#[test]
fn admission_follows_waiters_and_workers() {
    assert_eq!(admission(20, 20, 3), Admission::Busy);
    assert_eq!(admission(0, 20, 0), Admission::Queued);
    assert_eq!(admission(5, 20, 1), Admission::Immediate);
}

#[test]
fn user_slots_cap_counts_and_releases() {
    let mut slots = UserSlots::new();
    assert!(slots.acquire(7, 1));
    assert!(!slots.acquire(7, 1), "cap is 1");
    assert!(slots.acquire(8, 1), "other users unaffected");
    slots.release(7);
    assert!(slots.acquire(7, 1), "release frees the slot");
    slots.release(7);
    slots.release(8);
    assert!(slots.is_empty(), "no slot leaks");
}

#[test]
fn user_slots_count_and_extra_release() {
    let mut slots = UserSlots::new();
    assert_eq!(slots.count(1), 0);
    assert!(slots.acquire(1, 2));
    assert!(slots.acquire(1, 2));
    assert_eq!(slots.count(1), 2);
    assert!(!slots.acquire(1, 2));
    slots.release(1);
    assert_eq!(slots.count(1), 1);
    slots.release(1);
    slots.release(1);
    assert_eq!(slots.count(1), 0);
    assert!(slots.is_empty());
}

// ---------------------------------------------------------------------------
// Keyboards and texts
// ---------------------------------------------------------------------------

fn meta() -> Metadata {
    Metadata {
        title: "T".to_owned(),
        duration_secs: Some(60),
        thumbnail_url: None,
        platform: Platform::Youtube,
        webpage_url: "https://x".to_owned(),
        view_count: Some(1_500_000),
        uploader: Some("u".to_owned()),
        video_options: vec![VideoOption {
            quality: VideoQuality::P720,
            estimated_bytes: Some(42_000_000),
        }],
        audio_options: vec![AudioOption {
            quality: AudioQuality::K320,
            estimated_bytes: Some(7_000_000),
        }],
    }
}

#[test]
fn callbacks_fit_limit() {
    let sid = "abcdefgh";
    for lang in [Lang::En, Lang::Ru] {
        let boards: Vec<Keyboard> = vec![
            preview_keyboard(sid, lang),
            video_quality_keyboard(&meta(), sid, lang),
            audio_quality_keyboard(&meta(), sid, lang),
            cancel_keyboard(sid, lang),
            language_keyboard(),
        ];
        for markup in boards {
            for row in markup {
                for btn in row {
                    assert!(btn.data.len() <= 64, "{}", btn.data);
                }
            }
        }
    }
}

#[test]
fn quality_keyboard_labels_and_data() {
    let k = video_quality_keyboard(&meta(), "abcdefgh", Lang::En);
    assert_eq!(k.len(), 2);
    assert_eq!(k[0][0].text, "720p — ~42 MB");
    assert_eq!(k[0][0].data, "v:720:abcdefgh");
    assert_eq!(k[1][0].data, "cancel:x:abcdefgh");
    let a = audio_quality_keyboard(&meta(), "abcdefgh", Lang::En);
    assert_eq!(a[0][0].data, "a:320:abcdefgh");
    assert!(a[0][0].text.ends_with("~7 MB"), "{}", a[0][0].text);
    let p = preview_keyboard("abcdefgh", Lang::En);
    assert_eq!(p[0][0].data, "v:pick:abcdefgh");
    assert_eq!(p[0][1].data, "a:pick:abcdefgh");
    let l = language_keyboard();
    assert_eq!(l[0][0].data, "lang:en");
    assert_eq!(l[1][0].data, "lang:ru");
}

#[test]
fn bytes_format() {
    assert_eq!(format_bytes(42_000_000), "42 MB");
    assert_eq!(format_bytes(512), "512 B");
}

#[test]
fn bytes_format_units() {
    assert_eq!(format_bytes(3_150_000_000), "3.1 GB");
    assert_eq!(format_bytes(512_000), "512 KB");
    assert_eq!(format_bytes(999), "999 B");
    assert_eq!(format_bytes(1_000), "1 KB");
    assert_eq!(format_bytes(1_000_000_000), "1.0 GB");
}

#[test]
fn bar_renders() {
    assert_eq!(
        progress_bar("⬇️ Downloading", 80),
        "⬇️ Downloading ████████░░ 80%"
    );
}

#[test]
fn bar_edges() {
    assert_eq!(progress_bar("x", 0), "x ░░░░░░░░░░ 0%");
    assert_eq!(progress_bar("x", 100), "x ██████████ 100%");
    assert_eq!(progress_bar("x", 19), "x █░░░░░░░░░ 19%");
}

#[test]
fn preview_card_text() {
    let text = preview_text(&meta(), Lang::En);
    assert!(text.starts_with("T\n"), "{text}");
    assert!(text.contains("1:00"), "{text}");
    assert!(text.contains("YouTube"), "{text}");
    assert!(text.contains("1.5M views"), "{text}");

    let ru = preview_text(&meta(), Lang::Ru);
    assert!(ru.contains("1.5 млн просмотров"), "{ru}");
}

#[test]
fn preview_card_exact_line() {
    assert_eq!(
        preview_text(&meta(), Lang::En),
        "T\n1:00 · YouTube · 1.5M views · u"
    );
}

#[test]
fn preview_escapes_html() {
    let mut m = meta();
    m.title = "A<B>&\"C\"".to_owned();
    m.view_count = None;
    m.uploader = None;
    let text = preview_text(&m, Lang::En);
    assert!(text.contains("A&lt;B&gt;&amp;"), "{text}");
    assert!(!text.contains("views"), "{text}");
}

#[test]
fn caption_escape_is_exact() {
    assert_eq!(escape_caption("a&b<c>d\"e"), "a&amp;b&lt;c&gt;d\"e");
    assert_eq!(escape_caption(""), "");
}

#[test]
fn preview_live_label_localized() {
    let mut m = meta();
    m.duration_secs = None;
    m.view_count = None;
    m.uploader = None;
    assert!(preview_text(&m, Lang::En).contains("live/unknown"));
    assert!(preview_text(&m, Lang::Ru).contains("эфир/неизвестно"));
}

// ---------------------------------------------------------------------------
// Progress throttling
// ---------------------------------------------------------------------------

#[test]
fn first_edit_always_allowed() {
    assert!(should_edit(None, 10_000, true, false));
}

#[test]
fn unchanged_text_suppressed_unless_forced() {
    let now = 10_000;
    assert!(!should_edit(None, now, false, false));
    assert!(should_edit(None, now, false, true));
}

#[test]
fn throttle_window_respected() {
    let base: u64 = 10_000;
    let recent = Some(base - 1_000);
    let old = Some(base - 4_000);
    assert!(!should_edit(recent, base, true, false));
    assert!(should_edit(old, base, true, false));
    assert!(should_edit(recent, base, true, true));
}

#[test]
fn throttle_tracks_last_text() {
    let mut t = ProgressThrottle::new();
    assert_eq!(t.last_text(), "");
    assert!(t.wants_edit("10%", 0, false));
    t.record_edit("10%", 0);
    assert!(!t.wants_edit("10%", 5_000, false));
    assert!(!t.wants_edit("20%", 2_999, false));
    assert!(t.wants_edit("20%", 3_000, false));
    assert!(t.wants_edit("10%", 1, true));
    assert_eq!(t.last_text(), "10%");
}

// ---------------------------------------------------------------------------
// Pipeline
// ---------------------------------------------------------------------------

fn step(p: &mut Pipeline, ev: Event) -> Decision {
    p.step(ev)
}

fn is_reply(e: &Effect, text: &str) -> bool {
    matches!(e, Effect::Reply(t) if t == text)
}

fn is_edit(e: &Effect, text: &str) -> bool {
    matches!(e, Effect::EditProgress(t) if t == text)
}

#[test]
fn video_pipeline_happy_path() {
    let (mut p, first) = Pipeline::start(MediaChoice::Video(VideoQuality::P720), 2, true);
    assert!(matches!(first, Request::CheckRate));
    assert_eq!(p.cache_format(), "video");
    assert_eq!(p.quality_code(), "720");

    let d = step(&mut p, Event::RateChecked(Ok(19)));
    assert!(d.effects.is_empty());
    assert!(matches!(d.next, Some(Request::LookupCache)));

    let d = step(&mut p, Event::CacheLooked(None));
    assert!(matches!(d.next, Some(Request::TakeSlot)));

    let d = step(&mut p, Event::SlotTaken(true));
    assert!(matches!(d.effects.as_slice(), [Effect::RegisterNotify]));
    assert!(matches!(d.next, Some(Request::AcquirePermit)));

    let d = step(&mut p, Event::PermitGranted(true));
    assert!(matches!(d.effects.as_slice(), [Effect::RegisterDownload]));
    assert!(matches!(d.next, Some(Request::OpenProgress)));

    let d = step(&mut p, Event::ProgressOpened(true));
    assert!(matches!(d.next, Some(Request::Download)));
    assert_eq!(p.stage, Stage::Downloading);

    let d = step(&mut p, Event::Downloaded(Ok(10_000_000)));
    assert_eq!(d.effects.len(), 4);
    assert!(matches!(d.effects[0], Effect::UnregisterDownload));
    assert!(matches!(d.effects[1], Effect::UnregisterNotify));
    assert!(matches!(d.effects[2], Effect::ReleaseSlot));
    assert!(is_edit(&d.effects[3], "🔄 Uploading…"), "{:?}", d.effects[3]);
    assert!(matches!(d.next, Some(Request::Upload)));

    let d = step(&mut p, Event::Uploaded(Ok(Some("FILE123".to_owned()))));
    assert!(matches!(&d.effects[0], Effect::StoreFileId(f) if f == "FILE123"));
    assert!(matches!(d.effects[1], Effect::DeleteProgress));
    assert!(matches!(d.effects[2], Effect::Cleanup));
    assert!(d.next.is_none());
    assert_eq!(p.stage, Stage::Finished);
}

#[test]
fn cache_hit_skips_the_download() {
    let (mut p, _) = Pipeline::start(MediaChoice::Audio(AudioQuality::K192), 2, true);
    assert_eq!(p.cache_format(), "audio");
    assert_eq!(p.quality_code(), "192");
    step(&mut p, Event::RateChecked(Ok(5)));
    let d = step(&mut p, Event::CacheLooked(Some("F".to_owned())));
    assert!(matches!(&d.next, Some(Request::SendCached(f)) if f == "F"));
    let d = step(&mut p, Event::CachedSent(true));
    assert!(d.effects.is_empty());
    assert!(d.next.is_none());
}

#[test]
fn stale_cache_falls_back_to_download() {
    let (mut p, _) = Pipeline::start(MediaChoice::Video(VideoQuality::Best), 2, false);
    step(&mut p, Event::RateChecked(Ok(5)));
    step(&mut p, Event::CacheLooked(Some("F".to_owned())));
    let d = step(&mut p, Event::CachedSent(false));
    assert!(matches!(d.next, Some(Request::TakeSlot)));
}

#[test]
fn rate_limited_pipeline_replies_and_stops() {
    let (mut p, _) = Pipeline::start(MediaChoice::Video(VideoQuality::P360), 2, true);
    let d = step(
        &mut p,
        Event::RateChecked(Err(Error::RateLimited {
            retry_in_secs: 42,
            remaining: 0,
        })),
    );
    assert_eq!(d.effects.len(), 1);
    assert!(is_reply(&d.effects[0], "Too many requests. Try again in 42 seconds."), "{:?}", d.effects);
    assert!(d.next.is_none());
}

#[test]
fn slot_refusal_names_the_cap() {
    let (mut p, _) = Pipeline::start(MediaChoice::Video(VideoQuality::P360), 2, true);
    step(&mut p, Event::RateChecked(Ok(3)));
    step(&mut p, Event::CacheLooked(None));
    let d = step(&mut p, Event::SlotTaken(false));
    assert!(
        is_reply(
            &d.effects[0],
            "You already have 2 downloads running. Wait for one to finish, then try again."
        ),
        "{:?}",
        d.effects
    );
    assert!(d.next.is_none());
}

#[test]
fn busy_workers_release_the_slot() {
    let (mut p, _) = Pipeline::start(MediaChoice::Video(VideoQuality::P360), 2, true);
    step(&mut p, Event::RateChecked(Ok(3)));
    step(&mut p, Event::CacheLooked(None));
    step(&mut p, Event::SlotTaken(true));
    let d = step(&mut p, Event::PermitGranted(false));
    assert!(matches!(
        d.effects.as_slice(),
        [Effect::UnregisterNotify, Effect::ReleaseSlot]
    ));
    assert!(d.next.is_none());
}

#[test]
fn oversized_file_on_standard_api_is_refused() {
    let (mut p, _) = Pipeline::start(MediaChoice::Video(VideoQuality::P1080), 2, true);
    step(&mut p, Event::RateChecked(Ok(3)));
    step(&mut p, Event::CacheLooked(None));
    step(&mut p, Event::SlotTaken(true));
    step(&mut p, Event::PermitGranted(true));
    step(&mut p, Event::ProgressOpened(true));
    let d = step(&mut p, Event::Downloaded(Ok(60_000_000)));
    assert!(is_edit(&d.effects[3], OVER_LIMIT_MSG), "{:?}", d.effects);
    assert!(matches!(d.effects[4], Effect::Cleanup));
    assert!(d.next.is_none());
}

#[test]
fn oversized_file_with_local_server_is_uploaded() {
    let (mut p, _) = Pipeline::start(MediaChoice::Video(VideoQuality::P1080), 2, false);
    step(&mut p, Event::RateChecked(Ok(3)));
    step(&mut p, Event::CacheLooked(None));
    step(&mut p, Event::SlotTaken(true));
    step(&mut p, Event::PermitGranted(true));
    step(&mut p, Event::ProgressOpened(true));
    let d = step(&mut p, Event::Downloaded(Ok(60_000_000)));
    assert!(matches!(d.next, Some(Request::Upload)));
}

#[test]
fn audio_pipeline_converts_then_uploads() {
    let (mut p, _) = Pipeline::start(MediaChoice::Audio(AudioQuality::K320), 2, true);
    step(&mut p, Event::RateChecked(Ok(3)));
    step(&mut p, Event::CacheLooked(None));
    step(&mut p, Event::SlotTaken(true));
    step(&mut p, Event::PermitGranted(true));
    step(&mut p, Event::ProgressOpened(true));
    let d = step(&mut p, Event::Downloaded(Ok(5_000_000)));
    assert!(is_edit(&d.effects[0], "🔄 Converting…"), "{:?}", d.effects);
    assert!(matches!(d.next, Some(Request::Convert)));
    let d = step(&mut p, Event::Converted(Ok(4_000_000)));
    assert!(is_edit(&d.effects[3], "⬆️ Uploading…"), "{:?}", d.effects);
    let d = step(&mut p, Event::Uploaded(Ok(None)));
    assert!(matches!(
        d.effects.as_slice(),
        [Effect::DeleteProgress, Effect::Cleanup]
    ));
}

#[test]
fn failed_download_reports_and_cleans_up() {
    let (mut p, _) = Pipeline::start(MediaChoice::Video(VideoQuality::P480), 2, true);
    step(&mut p, Event::RateChecked(Ok(3)));
    step(&mut p, Event::CacheLooked(None));
    step(&mut p, Event::SlotTaken(true));
    step(&mut p, Event::PermitGranted(true));
    step(&mut p, Event::ProgressOpened(true));
    let d = step(&mut p, Event::Downloaded(Err(Error::TimedOut { minutes: 15 })));
    assert!(
        is_edit(
            &d.effects[3],
            "Download timed out after 15 minutes. Try again or pick a lower quality."
        ),
        "{:?}",
        d.effects
    );
    assert!(matches!(d.effects[4], Effect::Cleanup));
    assert!(d.next.is_none());
}

#[test]
fn failed_upload_maps_the_error() {
    let (mut p, _) = Pipeline::start(MediaChoice::Video(VideoQuality::P480), 2, true);
    step(&mut p, Event::RateChecked(Ok(3)));
    step(&mut p, Event::CacheLooked(None));
    step(&mut p, Event::SlotTaken(true));
    step(&mut p, Event::PermitGranted(true));
    step(&mut p, Event::ProgressOpened(true));
    step(&mut p, Event::Downloaded(Ok(1)));
    let d = step(&mut p, Event::Uploaded(Err("Request Entity Too Large".to_owned())));
    assert!(is_edit(&d.effects[0], OVER_LIMIT_MSG), "{:?}", d.effects);
    assert!(matches!(d.effects[1], Effect::Cleanup));
}

#[test]
fn progress_message_failure_releases_everything() {
    let (mut p, _) = Pipeline::start(MediaChoice::Video(VideoQuality::P480), 2, true);
    step(&mut p, Event::RateChecked(Ok(3)));
    step(&mut p, Event::CacheLooked(None));
    step(&mut p, Event::SlotTaken(true));
    step(&mut p, Event::PermitGranted(true));
    let d = step(&mut p, Event::ProgressOpened(false));
    assert!(matches!(
        d.effects.as_slice(),
        [Effect::UnregisterDownload, Effect::UnregisterNotify, Effect::ReleaseSlot]
    ));
}

#[test]
fn captions_and_durations() {
    assert_eq!(cached_video_caption("T", VideoQuality::P720), "T\n720p");
    assert_eq!(
        upload_video_caption("T", VideoQuality::Best, Platform::Tiktok),
        "T\nBest · TikTok"
    );
    assert_eq!(audio_duration(Some(61)), Some(61));
    assert_eq!(audio_duration(Some(u64::from(u32::MAX) + 1)), None);
    assert_eq!(audio_duration(None), None);
}

#[test]
fn pipeline_expects_only_the_awaited_outcome() {
    let (mut p, _) = Pipeline::start(MediaChoice::Video(VideoQuality::P360), 2, true);
    assert!(p.expects(&Event::RateChecked(Ok(1))));
    assert!(!p.expects(&Event::CacheLooked(None)));
    assert!(!p.expects(&Event::Uploaded(Ok(None))));
    step(&mut p, Event::RateChecked(Ok(1)));
    assert!(p.expects(&Event::CacheLooked(None)));
    assert!(!p.expects(&Event::RateChecked(Ok(1))));
}

#[test]
fn upload_error_from_lowercase_text() {
    assert_eq!(upload_error_from_lowercase("request entity too large"), OVER_LIMIT_MSG);
    assert_eq!(
        upload_error_from_lowercase("REQUEST ENTITY TOO LARGE"),
        "Something went wrong. Try again later."
    );
}

#[test]
fn two_field_cancel_routes_to_cancel() {
    match route_callback("cancel:abcdefgh") {
        CallbackRoute::Cancel { session_id } => assert_eq!(session_id, "abcdefgh"),
        other => panic!("expected Cancel, got {other:?}"),
    }
}
