use fetchly::i18n::{
    audio_button, best_label, bot_description, bot_short_description, busy, cancel_button, cancelled, cancelling, cmd_help_desc, cmd_language_desc, cmd_start_desc, cmd_usage_desc, converting, downloading_prefix, downloading_zero, error_download, error_generic, error_private, error_resolve, error_timed_out, error_too_large, error_too_many_concurrent, error_unsupported, flight_cancelled, flight_failed, flight_retry, flight_wait, help, language_prompt, language_set, live_unknown, nothing_to_cancel, outdated_button, over_limit, queued, rate_limited, reset_full, resolving, restart, send_link_hint, session_expired, unknown_quality, uploading, uploading_audio, usage_body, usage_no_sender, usage_unavailable, video_button, views, welcome, Lang, UsageView,
};


#[test]
fn telegram_code_prefix_match() {
    assert_eq!(Lang::from_telegram_code(None), Lang::En);
    assert_eq!(Lang::from_telegram_code(Some("en")), Lang::En);
    assert_eq!(Lang::from_telegram_code(Some("en-US")), Lang::En);
    assert_eq!(Lang::from_telegram_code(Some("ru")), Lang::Ru);
    assert_eq!(Lang::from_telegram_code(Some("ru-RU")), Lang::Ru);
    assert_eq!(Lang::from_telegram_code(Some("RU")), Lang::Ru);
    assert_eq!(Lang::from_telegram_code(Some("uk")), Lang::En);
}

#[test]
fn codes_roundtrip() {
    assert_eq!(Lang::from_code("en"), Some(Lang::En));
    assert_eq!(Lang::from_code("ru"), Some(Lang::Ru));
    assert_eq!(Lang::from_code("de"), None);
    assert_eq!(Lang::En.as_str(), "en");
    assert_eq!(Lang::Ru.as_str(), "ru");
}

#[test]
fn russian_view_plurals() {
    assert_eq!(views(Lang::Ru, 1), "1 просмотр");
    assert_eq!(views(Lang::Ru, 2), "2 просмотра");
    assert_eq!(views(Lang::Ru, 5), "5 просмотров");
    assert_eq!(views(Lang::Ru, 11), "11 просмотров");
    assert_eq!(views(Lang::Ru, 12), "12 просмотров");
    assert_eq!(views(Lang::Ru, 21), "21 просмотр");
    assert_eq!(views(Lang::Ru, 111), "111 просмотров");
    assert_eq!(views(Lang::Ru, 1_500_000), "1.5 млн просмотров");
}

#[test]
fn english_views_unchanged() {
    assert_eq!(views(Lang::En, 999), "999 views");
    assert_eq!(views(Lang::En, 1_000), "1.0K views");
    assert_eq!(views(Lang::En, 1_500_000), "1.5M views");
}

#[test]
fn both_langs_cover_every_key() {
    let cfgs = [(20u32, 2usize, "50 MB"), (5u32, 1usize, "2 GB")];
    for (rate, per_user, upload) in cfgs {
        for lang in [Lang::En, Lang::Ru] {
            let view = UsageView {
                used: 1,
                limit: rate,
                left: 19,
                reset: "x",
                slots: 0,
                max_slots: per_user,
                upload,
            };
            assert!(!welcome(lang).is_empty());
            assert!(!help(lang, rate, per_user, upload).is_empty());
            assert!(!usage_body(lang, &view).is_empty());
            assert!(!reset_full(lang).is_empty());
            assert!(!usage_unavailable(lang).is_empty());
            assert!(!usage_no_sender(lang).is_empty());
            assert!(!send_link_hint(lang).is_empty());
            assert!(!resolving(lang).is_empty());
            assert!(!outdated_button(lang).is_empty());
            assert!(!cancelling(lang).is_empty());
            assert!(!nothing_to_cancel(lang).is_empty());
            assert!(!cancelled(lang).is_empty());
            assert!(!session_expired(lang).is_empty());
            assert!(!unknown_quality(lang).is_empty());
            assert!(!queued(lang).is_empty());
            assert!(!busy(lang).is_empty());
            assert!(!restart(lang).is_empty());
            assert!(!flight_wait(lang).is_empty());
            assert!(!flight_retry(lang).is_empty());
            assert!(!flight_cancelled(lang).is_empty());
            assert!(!flight_failed(lang).is_empty());
            assert!(!downloading_zero(lang).is_empty());
            assert!(!downloading_prefix(lang).is_empty());
            assert!(!converting(lang).is_empty());
            assert!(!uploading(lang).is_empty());
            assert!(!uploading_audio(lang).is_empty());
            assert!(!over_limit(lang).is_empty());
            assert!(!rate_limited(lang, 42).is_empty());
            assert!(!video_button(lang).is_empty());
            assert!(!audio_button(lang).is_empty());
            assert!(!cancel_button(lang).is_empty());
            assert!(!best_label(lang).is_empty());
            assert!(!live_unknown(lang).is_empty());
            assert!(!language_set(lang).is_empty());
            assert!(!error_unsupported(lang).is_empty());
            assert!(!error_private(lang).is_empty());
            assert!(!error_too_large(lang).is_empty());
            assert!(!error_download(lang).is_empty());
            assert!(!error_resolve(lang).is_empty());
            assert!(!error_timed_out(lang, 15).is_empty());
            assert!(!error_too_many_concurrent(lang, 2).is_empty());
            assert!(!error_generic(lang).is_empty());
            assert!(!bot_description(lang).is_empty());
            assert!(!bot_short_description(lang).is_empty());
            assert!(!cmd_start_desc(lang).is_empty());
            assert!(!cmd_help_desc(lang).is_empty());
            assert!(!cmd_usage_desc(lang).is_empty());
            assert!(!cmd_language_desc(lang).is_empty());
        }
    }
    assert!(!language_prompt().is_empty());
}

#[test]
fn i18n_profile_texts_fit_telegram_limits() {
    // Telegram counts characters, not bytes — Cyrillic is 2 bytes in UTF-8.
    for lang in [Lang::En, Lang::Ru] {
        let desc = bot_description(lang);
        assert!(!desc.is_empty() && desc.chars().count() <= 512, "{desc}");
        let short = bot_short_description(lang);
        assert!(!short.is_empty() && short.chars().count() <= 120, "{short}");
        for cmd in [
            cmd_start_desc(lang),
            cmd_help_desc(lang),
            cmd_usage_desc(lang),
            cmd_language_desc(lang),
        ] {
            let n = cmd.chars().count();
            assert!((3..=256).contains(&n), "{cmd}");
        }
    }
}

#[test]
fn exact_texts() {
    assert_eq!(
        help(Lang::En, 20, 2, "50 MB"),
        "Send a link → tap 🎬 Video or 🎵 Audio → pick quality.\n\nCommands:\n/start — welcome\n/help — this guide\n/usage — your current usage\n/language — interface language\n\nLimits: 20 downloads/hour, 2 at a time, 50 MB max file size."
    );
    let view = UsageView {
        used: 3,
        limit: 20,
        left: 17,
        reset: "12 min",
        slots: 1,
        max_slots: 2,
        upload: "2 GB",
    };
    assert_eq!(
        usage_body(Lang::En, &view),
        "📊 Usage\n\nDownloads this hour: 3/20 used (17 left)\nReset: 12 min\nConcurrent downloads: 1/2\nMax file size: 2 GB"
    );
    assert_eq!(
        usage_body(Lang::Ru, &view),
        "📊 Использование\n\nЗагрузок за час: 3/20 (осталось 17)\nСброс: 12 min\nОдновременных загрузок: 1/2\nМакс. размер: 2 GB"
    );
    assert_eq!(rate_limited(Lang::En, 0), "Too many requests. Try again in 0 seconds.");
    assert_eq!(error_timed_out(Lang::Ru, 1), "Загрузка заняла больше 1 мин. Попробуй ещё раз или выбери качество пониже.");
    assert_eq!(error_too_many_concurrent(Lang::En, 10), "You already have 10 downloads running. Wait for one to finish, then try again.");
}

#[test]
fn views_boundaries() {
    assert_eq!(views(Lang::En, 0), "0 views");
    assert_eq!(views(Lang::En, 1_999), "1.9K views");
    assert_eq!(views(Lang::En, 999_999), "999.9K views");
    assert_eq!(views(Lang::En, 1_000_000), "1.0M views");
    assert_eq!(views(Lang::En, u64::MAX), "18446744073709.5M views");
    assert_eq!(views(Lang::Ru, 4), "4 просмотра");
    assert_eq!(views(Lang::Ru, 14), "14 просмотров");
    assert_eq!(views(Lang::Ru, 22), "22 просмотра");
    assert_eq!(views(Lang::Ru, 1_001), "1.0 тыс. просмотр");
    assert_eq!(views(Lang::Ru, 0), "0 просмотров");
}

#[test]
fn every_language_code_parses_back() {
    for lang in [Lang::En, Lang::Ru] {
        assert_eq!(Lang::from_code(lang.as_str()), Some(lang));
    }
    assert_eq!(Lang::from_code("EN"), None);
    assert_eq!(Lang::from_code(""), None);
}

#[test]
fn lowercase_code_guess() {
    assert_eq!(Lang::from_lowercase_code("ru"), Lang::Ru);
    assert_eq!(Lang::from_lowercase_code("ru-ru"), Lang::Ru);
    assert_eq!(Lang::from_lowercase_code("RU"), Lang::En);
    assert_eq!(Lang::from_lowercase_code(""), Lang::En);
    assert_eq!(Lang::from_telegram_code(Some("rU-by")), Lang::Ru);
}
