use fetchly::error::Error;
use fetchly::i18n::Lang;

#[test]
fn user_messages_are_safe_to_send() {
    // Raw tool/DB details must never leak into chat.
    let cases: Vec<(Error, &str, &str)> = vec![
        (
            Error::UnsupportedUrl,
            "Unsupported link. Send a YouTube, TikTok, Instagram, or X URL.",
            "Неподдерживаемая ссылка. Пришли URL YouTube, TikTok, Instagram или X.",
        ),
        (
            Error::PrivateOrRestricted,
            "This content is private or restricted.",
            "Этот контент приватный или недоступен.",
        ),
        (
            Error::TooLarge,
            "File exceeds 2 GB limit. Try lower quality.",
            "Файл больше лимита 2 ГБ. Попробуй качество пониже.",
        ),
        (
            Error::SessionExpired,
            "Session expired. Send the link again.",
            "Сессия истекла. Пришли ссылку ещё раз.",
        ),
        (Error::Cancelled, "Cancelled.", "Отменено."),
        (
            Error::TimedOut { minutes: 15 },
            "Download timed out after 15 minutes. Try again or pick a lower quality.",
            "Загрузка заняла больше 15 мин. Попробуй ещё раз или выбери качество пониже.",
        ),
        (
            Error::TooManyConcurrent { max: 2 },
            "You already have 2 downloads running. Wait for one to finish, then try again.",
            "У тебя уже 2 активных загрузки. Дождись завершения и попробуй ещё раз.",
        ),
        (
            Error::RateLimited {
                retry_in_secs: 42,
                remaining: 0,
            },
            "Too many requests. Try again in 42 seconds.",
            "Слишком много запросов. Попробуй через 42 с.",
        ),
        (
            Error::Download("yt-dlp: exit 1, SIGNAL 9".to_owned()),
            "Download failed. Try again later.",
            "Не получилось скачать. Попробуй позже.",
        ),
        (
            Error::Convert("ffmpeg: invalid data".to_owned()),
            "Download failed. Try again later.",
            "Не получилось скачать. Попробуй позже.",
        ),
        (
            Error::Resolve("socket timeout".to_owned()),
            "Could not fetch this link. Try again later.",
            "Не получилось открыть ссылку. Попробуй позже.",
        ),
        (
            Error::Telegram("Bad Request: file too big".to_owned()),
            "Something went wrong. Try again later.",
            "Что-то пошло не так. Попробуй позже.",
        ),
        (
            Error::Cache("sqlite: disk I/O error".to_owned()),
            "Something went wrong. Try again later.",
            "Что-то пошло не так. Попробуй позже.",
        ),
    ];
    for (err, want_en, want_ru) in cases {
        assert_eq!(err.user_message(Lang::En), want_en, "{err:?}");
        assert_eq!(err.user_message(Lang::Ru), want_ru, "{err:?}");
    }
}

#[test]
fn store_and_config_errors_are_generic() {
    for err in [
        Error::Config("bad".to_owned()),
        Error::Session("redis down".to_owned()),
        Error::Limiter("redis down".to_owned()),
        Error::Io("disk full".to_owned()),
    ] {
        assert_eq!(err.user_message(Lang::En), "Something went wrong. Try again later.");
    }
}

#[test]
fn details_do_not_change_the_message() {
    let a = Error::Download("first detail".to_owned()).user_message(Lang::Ru);
    let b = Error::Download(String::new()).user_message(Lang::Ru);
    assert_eq!(a, b);
}
