//! User-facing strings in English and Russian.
//!
//! Every chat message, button label, and callback answer goes through here.
//! Log lines and tool/DB details stay English and never reach [`Lang`].
//!
//! Russian copy avoids plural inflection where possible
//! (`Загрузок за час: X/Y` instead of inflected nouns). Numbers, units
//! (`MB`, `720p`, `320 kbps`), and duration ticks stay untranslated — the
//! surrounding labels carry the locale.
use vstd::prelude::*;

use crate::text::{
    chars_of, contains_sub, decimal, eq_str, lemma_contains_concat, lemma_decimal_ascii,
    lemma_prefix_concat, lowercase, lowercase_of, push_decimal, push_str, starts_with_str,
    string_of,
};

verus! {

/// Chat language. An explicit `/language` choice beats this; Telegram's
/// `language_code` is only the first-run guess.
#[derive(Debug, Clone, Copy, PartialEq, Eq, Structural)]
pub enum Lang {
    En,
    Ru,
}

impl Lang {
    /// The stored / callback code of this language.
    #[verifier::allow_in_spec]
    pub fn as_str(self) -> &'static str
        returns
            (match self {
                Lang::En => "en",
                Lang::Ru => "ru",
            }),
    {
        match self {
            Lang::En => "en",
            Lang::Ru => "ru",
        }
    }

    /// Parse a stored/callback code. Unknown codes are `None` (caller falls back).
    pub fn from_code(s: &str) -> (r: Option<Lang>)
        ensures
            r == lang_of_code(s@),
    {
        let v = chars_of(s);
        if eq_str(&v, "en") {
            Some(Lang::En)
        } else if eq_str(&v, "ru") {
            Some(Lang::Ru)
        } else {
            None
        }
    }

    /// First-run guess from Telegram's `language_code` (`ru`, `ru-RU`, `uk`, …).
    /// Prefix match on the lowercased code: anything starting with `ru` is
    /// Russian, the rest is English.
    pub fn from_telegram_code(code: Option<&str>) -> (r: Lang)
        ensures
            r == telegram_guess(code),
    {
        match code {
            Some(c) => {
                let low = lowercase(c);
                Lang::from_lowercase_code(low.as_str())
            },
            None => Lang::En,
        }
    }

    /// The guess for a `language_code` already in lowercase: Russian when it
    /// starts with `ru`, English otherwise.
    pub fn from_lowercase_code(lower: &str) -> (r: Lang)
        ensures
            r == lang_of_lowercase(lower@),
    {
        let lv = chars_of(lower);
        if starts_with_str(&lv, "ru") {
            Lang::Ru
        } else {
            Lang::En
        }
    }
}

/// The language a stored code names, if any.
pub open spec fn lang_of_code(s: Seq<char>) -> Option<Lang> {
    if s == "en"@ {
        Some(Lang::En)
    } else if s == "ru"@ {
        Some(Lang::Ru)
    } else {
        None
    }
}

/// The language guessed from a lowercase `language_code`.
pub open spec fn lang_of_lowercase(lower: Seq<char>) -> Lang {
    if "ru"@.is_prefix_of(lower) {
        Lang::Ru
    } else {
        Lang::En
    }
}

/// The language guessed from Telegram's optional `language_code`.
pub open spec fn telegram_guess(code: Option<&str>) -> Lang {
    match code {
        Some(c) => lang_of_lowercase(lowercase_of(c@)),
        None => Lang::En,
    }
}

/// Every language's code parses back to that language.
pub proof fn lemma_code_roundtrip(lang: Lang)
    ensures
        lang_of_code(lang.as_str()@) == Some(lang),
{
    reveal_strlit("en");
    reveal_strlit("ru");
    assert("en"@ != "ru"@) by {
        assert("en"@[0] != "ru"@[0]);
    }
    match lang {
        Lang::En => {},
        Lang::Ru => {},
    }
}

/// `/language` picker prompt (bilingual on purpose: the user has no lang yet).
#[verifier::allow_in_spec]
pub fn language_prompt() -> &'static str
    returns
        "Choose language / Выбери язык:",
{
    "Choose language / Выбери язык:"
}

/// Text of [`help`].
pub open spec fn help_text(lang: Lang, rate_limit: nat, max_per_user: nat, upload: Seq<char>) -> Seq<char> {
    match lang {
        Lang::En => "Send a link → tap 🎬 Video or 🎵 Audio → pick quality.\n\nCommands:\n/start — welcome\n/help — this guide\n/usage — your current usage\n/language — interface language\n\nLimits: "@
            + decimal(rate_limit) + " downloads/hour, "@ + decimal(max_per_user) + " at a time, "@
            + upload + " max file size."@,
        Lang::Ru => "Пришли ссылку → нажми 🎬 Видео или 🎵 Аудио → выбери качество.\n\nКоманды:\n/start — приветствие\n/help — эта справка\n/usage — твоё использование\n/language — язык интерфейса\n\nЛимиты: "@
            + decimal(rate_limit) + " загрузок/час, "@ + decimal(max_per_user) + " одновременно, макс. размер "@
            + upload + "."@,
    }
}

/// `/help` text with the configured limits.
pub fn help(lang: Lang, rate_limit: u32, max_per_user: usize, upload: &str) -> (r: String)
    ensures
        r@ == help_text(lang, rate_limit as nat, max_per_user as nat, upload@),
{
    let mut v: Vec<char> = Vec::new();
    match lang {
        Lang::En => {
            push_str(&mut v, "Send a link → tap 🎬 Video or 🎵 Audio → pick quality.\n\nCommands:\n/start — welcome\n/help — this guide\n/usage — your current usage\n/language — interface language\n\nLimits: ");
            push_decimal(&mut v, rate_limit as u64);
            push_str(&mut v, " downloads/hour, ");
            push_decimal(&mut v, max_per_user as u64);
            push_str(&mut v, " at a time, ");
            push_str(&mut v, upload);
            push_str(&mut v, " max file size.");
        },
        Lang::Ru => {
            push_str(&mut v, "Пришли ссылку → нажми 🎬 Видео или 🎵 Аудио → выбери качество.\n\nКоманды:\n/start — приветствие\n/help — эта справка\n/usage — твоё использование\n/language — язык интерфейса\n\nЛимиты: ");
            push_decimal(&mut v, rate_limit as u64);
            push_str(&mut v, " загрузок/час, ");
            push_decimal(&mut v, max_per_user as u64);
            push_str(&mut v, " одновременно, макс. размер ");
            push_str(&mut v, upload);
            push_str(&mut v, ".");
        },
    }
    string_of(&v)
}

/// The numbers shown by `/usage`.
pub struct UsageView<'a> {
    pub used: u32,
    pub limit: u32,
    pub left: u32,
    pub reset: &'a str,
    pub slots: usize,
    pub max_slots: usize,
    pub upload: &'a str,
}

/// The `/usage` layout: title, then the hourly count `{used}/{limit}`, what
/// is left, the reset text, the concurrent count `{slots}/{max_slots}` and the
/// upload limit, joined by the language's labels `s1`..`s5`.
pub open spec fn usage_layout(
    title: Seq<char>,
    s1: Seq<char>,
    s2: Seq<char>,
    s3: Seq<char>,
    s4: Seq<char>,
    s5: Seq<char>,
    v: &UsageView<'_>,
) -> Seq<char> {
    title + s1 + decimal(v.used as nat) + "/"@ + decimal(v.limit as nat) + s2 + decimal(v.left as nat)
        + s3 + v.reset@ + s4 + decimal(v.slots as nat) + "/"@ + decimal(v.max_slots as nat) + s5
        + v.upload@
}

/// Text of [`usage_body`].
pub open spec fn usage_body_text(lang: Lang, v: &UsageView<'_>) -> Seq<char> {
    match lang {
        Lang::En => usage_layout(
            usage_title(lang)@,
            "\n\nDownloads this hour: "@,
            " used ("@,
            " left)\nReset: "@,
            "\nConcurrent downloads: "@,
            "\nMax file size: "@,
            v,
        ),
        Lang::Ru => usage_layout(
            usage_title(lang)@,
            "\n\nЗагрузок за час: "@,
            " (осталось "@,
            ")\nСброс: "@,
            "\nОдновременных загрузок: "@,
            "\nМакс. размер: "@,
            v,
        ),
    }
}

/// The `/usage` layout starts with the title and shows each of its parts:
/// `{used}/{limit}`, the count left, the reset text, `{slots}/{max_slots}` and
/// the upload limit.
pub proof fn lemma_usage_layout_parts(
    title: Seq<char>,
    s1: Seq<char>,
    s2: Seq<char>,
    s3: Seq<char>,
    s4: Seq<char>,
    s5: Seq<char>,
    v: &UsageView<'_>,
)
    ensures
        ({
            let b = usage_layout(title, s1, s2, s3, s4, s5, v);
            &&& title.is_prefix_of(b)
            &&& contains_sub(b, decimal(v.used as nat) + "/"@ + decimal(v.limit as nat))
            &&& contains_sub(b, decimal(v.left as nat))
            &&& contains_sub(b, v.reset@)
            &&& contains_sub(b, decimal(v.slots as nat) + "/"@ + decimal(v.max_slots as nat))
            &&& contains_sub(b, v.upload@)
        }),
{
    let u = decimal(v.used as nat);
    let l = decimal(v.limit as nat);
    let lf = decimal(v.left as nat);
    let r = v.reset@;
    let sc = decimal(v.slots as nat);
    let ms = decimal(v.max_slots as nat);
    let up = v.upload@;
    let sl = "/"@;
    let p1 = title + s1;
    let p2 = p1 + u;
    let p3 = p2 + sl;
    let p4 = p3 + l;
    let p5 = p4 + s2;
    let p6 = p5 + lf;
    let p7 = p6 + s3;
    let p8 = p7 + r;
    let p9 = p8 + s4;
    let p10 = p9 + sc;
    let p11 = p10 + sl;
    let p12 = p11 + ms;
    let p13 = p12 + s5;
    let b = p13 + up;
    assert(b == usage_layout(title, s1, s2, s3, s4, s5, v));
    // The title opens the text.
    lemma_prefix_concat(title, title, s1);
    lemma_prefix_concat(title, p1, u);
    lemma_prefix_concat(title, p2, sl);
    lemma_prefix_concat(title, p3, l);
    lemma_prefix_concat(title, p4, s2);
    lemma_prefix_concat(title, p5, lf);
    lemma_prefix_concat(title, p6, s3);
    lemma_prefix_concat(title, p7, r);
    lemma_prefix_concat(title, p8, s4);
    lemma_prefix_concat(title, p9, sc);
    lemma_prefix_concat(title, p10, sl);
    lemma_prefix_concat(title, p11, ms);
    lemma_prefix_concat(title, p12, s5);
    lemma_prefix_concat(title, p13, up);
    // `{used}/{limit}`.
    let x1 = u + sl + l;
    assert(p4 =~= p1 + x1);
    lemma_contains_concat(p1, x1, x1);
    lemma_contains_concat(p4, s2, x1);
    lemma_contains_concat(p5, lf, x1);
    lemma_contains_concat(p6, s3, x1);
    lemma_contains_concat(p7, r, x1);
    lemma_contains_concat(p8, s4, x1);
    lemma_contains_concat(p9, sc, x1);
    lemma_contains_concat(p10, sl, x1);
    lemma_contains_concat(p11, ms, x1);
    lemma_contains_concat(p12, s5, x1);
    lemma_contains_concat(p13, up, x1);
    // The count left.
    lemma_contains_concat(p5, lf, lf);
    lemma_contains_concat(p6, s3, lf);
    lemma_contains_concat(p7, r, lf);
    lemma_contains_concat(p8, s4, lf);
    lemma_contains_concat(p9, sc, lf);
    lemma_contains_concat(p10, sl, lf);
    lemma_contains_concat(p11, ms, lf);
    lemma_contains_concat(p12, s5, lf);
    lemma_contains_concat(p13, up, lf);
    // The reset text.
    lemma_contains_concat(p7, r, r);
    lemma_contains_concat(p8, s4, r);
    lemma_contains_concat(p9, sc, r);
    lemma_contains_concat(p10, sl, r);
    lemma_contains_concat(p11, ms, r);
    lemma_contains_concat(p12, s5, r);
    lemma_contains_concat(p13, up, r);
    // `{slots}/{max_slots}`.
    let x2 = sc + sl + ms;
    assert(p12 =~= p9 + x2);
    lemma_contains_concat(p9, x2, x2);
    lemma_contains_concat(p12, s5, x2);
    lemma_contains_concat(p13, up, x2);
    // The upload limit.
    lemma_contains_concat(p13, up, up);
}

/// The `/usage` reply starts with the title and shows each of its parts, in
/// both languages; it is never empty.
pub proof fn lemma_usage_body_parts(lang: Lang, v: &UsageView<'_>)
    ensures
        ({
            let b = usage_body_text(lang, v);
            &&& usage_title(lang)@.is_prefix_of(b)
            &&& b.len() > 0
            &&& contains_sub(b, decimal(v.used as nat) + "/"@ + decimal(v.limit as nat))
            &&& contains_sub(b, decimal(v.left as nat))
            &&& contains_sub(b, v.reset@)
            &&& contains_sub(b, decimal(v.slots as nat) + "/"@ + decimal(v.max_slots as nat))
            &&& contains_sub(b, v.upload@)
        }),
{
    match lang {
        Lang::En => lemma_usage_layout_parts(
            usage_title(lang)@,
            "\n\nDownloads this hour: "@,
            " used ("@,
            " left)\nReset: "@,
            "\nConcurrent downloads: "@,
            "\nMax file size: "@,
            v,
        ),
        Lang::Ru => lemma_usage_layout_parts(
            usage_title(lang)@,
            "\n\nЗагрузок за час: "@,
            " (осталось "@,
            ")\nСброс: "@,
            "\nОдновременных загрузок: "@,
            "\nМакс. размер: "@,
            v,
        ),
    }
    lemma_decimal_ascii(v.used as nat);
    let b = usage_body_text(lang, v);
    let x = decimal(v.used as nat) + "/"@ + decimal(v.limit as nat);
    let i = choose|i: int| 0 <= i && i + x.len() <= b.len() && #[trigger] b.subrange(i, i + x.len()) == x;
    assert(x.len() > 0);
}

/// `/usage` reply body.
pub fn usage_body(lang: Lang, v: &UsageView<'_>) -> (r: String)
    ensures
        r@ == usage_body_text(lang, v),
{
    let mut out: Vec<char> = Vec::new();
    push_str(&mut out, usage_title(lang));
    match lang {
        Lang::En => {
            push_str(&mut out, "\n\nDownloads this hour: ");
            push_decimal(&mut out, v.used as u64);
            push_str(&mut out, "/");
            push_decimal(&mut out, v.limit as u64);
            push_str(&mut out, " used (");
            push_decimal(&mut out, v.left as u64);
            push_str(&mut out, " left)\nReset: ");
            push_str(&mut out, v.reset);
            push_str(&mut out, "\nConcurrent downloads: ");
            push_decimal(&mut out, v.slots as u64);
            push_str(&mut out, "/");
            push_decimal(&mut out, v.max_slots as u64);
            push_str(&mut out, "\nMax file size: ");
            push_str(&mut out, v.upload);
        },
        Lang::Ru => {
            push_str(&mut out, "\n\nЗагрузок за час: ");
            push_decimal(&mut out, v.used as u64);
            push_str(&mut out, "/");
            push_decimal(&mut out, v.limit as u64);
            push_str(&mut out, " (осталось ");
            push_decimal(&mut out, v.left as u64);
            push_str(&mut out, ")\nСброс: ");
            push_str(&mut out, v.reset);
            push_str(&mut out, "\nОдновременных загрузок: ");
            push_decimal(&mut out, v.slots as u64);
            push_str(&mut out, "/");
            push_decimal(&mut out, v.max_slots as u64);
            push_str(&mut out, "\nМакс. размер: ");
            push_str(&mut out, v.upload);
        },
    }
    string_of(&out)
}

/// Text of [`rate_limited`].
pub open spec fn rate_limited_text(lang: Lang, retry_in_secs: nat) -> Seq<char> {
    match lang {
        Lang::En => "Too many requests. Try again in "@ + decimal(retry_in_secs) + " seconds."@,
        Lang::Ru => "Слишком много запросов. Попробуй через "@ + decimal(retry_in_secs) + " с."@,
    }
}

/// Rate-limit notice with the seconds until the window resets.
pub fn rate_limited(lang: Lang, retry_in_secs: u64) -> (r: String)
    ensures
        r@ == rate_limited_text(lang, retry_in_secs as nat),
{
    let mut v: Vec<char> = Vec::new();
    match lang {
        Lang::En => {
            push_str(&mut v, "Too many requests. Try again in ");
            push_decimal(&mut v, retry_in_secs);
            push_str(&mut v, " seconds.");
        },
        Lang::Ru => {
            push_str(&mut v, "Слишком много запросов. Попробуй через ");
            push_decimal(&mut v, retry_in_secs);
            push_str(&mut v, " с.");
        },
    }
    string_of(&v)
}

/// Text of [`error_timed_out`].
pub open spec fn timed_out_text(lang: Lang, minutes: nat) -> Seq<char> {
    match lang {
        Lang::En => "Download timed out after "@ + decimal(minutes)
            + " minutes. Try again or pick a lower quality."@,
        Lang::Ru => "Загрузка заняла больше "@ + decimal(minutes)
            + " мин. Попробуй ещё раз или выбери качество пониже."@,
    }
}

/// Pipeline deadline notice.
pub fn error_timed_out(lang: Lang, minutes: u64) -> (r: String)
    ensures
        r@ == timed_out_text(lang, minutes as nat),
{
    let mut v: Vec<char> = Vec::new();
    match lang {
        Lang::En => {
            push_str(&mut v, "Download timed out after ");
            push_decimal(&mut v, minutes);
            push_str(&mut v, " minutes. Try again or pick a lower quality.");
        },
        Lang::Ru => {
            push_str(&mut v, "Загрузка заняла больше ");
            push_decimal(&mut v, minutes);
            push_str(&mut v, " мин. Попробуй ещё раз или выбери качество пониже.");
        },
    }
    string_of(&v)
}

/// Text of [`error_too_many_concurrent`].
pub open spec fn too_many_concurrent_text(lang: Lang, max: nat) -> Seq<char> {
    match lang {
        Lang::En => "You already have "@ + decimal(max)
            + " downloads running. Wait for one to finish, then try again."@,
        Lang::Ru => "У тебя уже "@ + decimal(max)
            + " активных загрузки. Дождись завершения и попробуй ещё раз."@,
    }
}

/// Per-user concurrency cap notice.
pub fn error_too_many_concurrent(lang: Lang, max: usize) -> (r: String)
    ensures
        r@ == too_many_concurrent_text(lang, max as nat),
{
    let mut v: Vec<char> = Vec::new();
    match lang {
        Lang::En => {
            push_str(&mut v, "You already have ");
            push_decimal(&mut v, max as u64);
            push_str(&mut v, " downloads running. Wait for one to finish, then try again.");
        },
        Lang::Ru => {
            push_str(&mut v, "У тебя уже ");
            push_decimal(&mut v, max as u64);
            push_str(&mut v, " активных загрузки. Дождись завершения и попробуй ещё раз.");
        },
    }
    string_of(&v)
}

/// Russian noun form for `n` views (1 просмотр, 2 просмотра, 5 просмотров).
pub open spec fn ru_views_word(n: nat) -> Seq<char> {
    if n % 10 == 1 && n % 100 != 11 {
        "просмотр"@
    } else if 2 <= n % 10 <= 4 && !(12 <= n % 100 <= 14) {
        "просмотра"@
    } else {
        "просмотров"@
    }
}

/// Text of [`views`].
pub open spec fn views_text(lang: Lang, n: nat) -> Seq<char> {
    match lang {
        Lang::En => if n >= 1_000_000 {
            decimal(n / 1_000_000) + "."@ + decimal((n % 1_000_000) / 100_000) + "M views"@
        } else if n >= 1_000 {
            decimal(n / 1_000) + "."@ + decimal((n % 1_000) / 100) + "K views"@
        } else {
            decimal(n) + " views"@
        },
        Lang::Ru => if n >= 1_000_000 {
            decimal(n / 1_000_000) + "."@ + decimal((n % 1_000_000) / 100_000) + " млн "@
                + ru_views_word(n)
        } else if n >= 1_000 {
            decimal(n / 1_000) + "."@ + decimal((n % 1_000) / 100) + " тыс. "@ + ru_views_word(n)
        } else {
            decimal(n) + " "@ + ru_views_word(n)
        },
    }
}

/// View-count suffix with Russian plural rules.
pub fn views(lang: Lang, n: u64) -> (r: String)
    ensures
        r@ == views_text(lang, n as nat),
{
    let mut v: Vec<char> = Vec::new();
    match lang {
        Lang::En => {
            if n >= 1_000_000 {
                push_decimal(&mut v, n / 1_000_000);
                push_str(&mut v, ".");
                push_decimal(&mut v, (n % 1_000_000) / 100_000);
                push_str(&mut v, "M views");
            } else if n >= 1_000 {
                push_decimal(&mut v, n / 1_000);
                push_str(&mut v, ".");
                push_decimal(&mut v, (n % 1_000) / 100);
                push_str(&mut v, "K views");
            } else {
                push_decimal(&mut v, n);
                push_str(&mut v, " views");
            }
        },
        Lang::Ru => {
            let word: &str = if n % 10 == 1 && n % 100 != 11 {
                "просмотр"
            } else if 2 <= n % 10 && n % 10 <= 4 && !(12 <= n % 100 && n % 100 <= 14) {
                "просмотра"
            } else {
                "просмотров"
            };
            if n >= 1_000_000 {
                push_decimal(&mut v, n / 1_000_000);
                push_str(&mut v, ".");
                push_decimal(&mut v, (n % 1_000_000) / 100_000);
                push_str(&mut v, " млн ");
                push_str(&mut v, word);
            } else if n >= 1_000 {
                push_decimal(&mut v, n / 1_000);
                push_str(&mut v, ".");
                push_decimal(&mut v, (n % 1_000) / 100);
                push_str(&mut v, " тыс. ");
                push_str(&mut v, word);
            } else {
                push_decimal(&mut v, n);
                push_str(&mut v, " ");
                push_str(&mut v, word);
            }
        },
    }
    string_of(&v)
}

#[verifier::allow_in_spec]
pub fn welcome(lang: Lang) -> &'static str
    returns
        (match lang {
            Lang::En => "Send me a YouTube, TikTok, Instagram, or X link and I'll fetch the video or audio for you.",
            Lang::Ru => "Пришли мне ссылку на YouTube, TikTok, Instagram или X — верну видео или аудио.",
        }),
{
    match lang {
        Lang::En => "Send me a YouTube, TikTok, Instagram, or X link and I'll fetch the video or audio for you.",
        Lang::Ru => "Пришли мне ссылку на YouTube, TikTok, Instagram или X — верну видео или аудио.",
    }
}

#[verifier::allow_in_spec]
pub fn usage_title(lang: Lang) -> &'static str
    returns
        (match lang {
            Lang::En => "📊 Usage",
            Lang::Ru => "📊 Использование",
        }),
{
    match lang {
        Lang::En => "📊 Usage",
        Lang::Ru => "📊 Использование",
    }
}

#[verifier::allow_in_spec]
pub fn reset_full(lang: Lang) -> &'static str
    returns
        (match lang {
            Lang::En => "full quota",
            Lang::Ru => "лимит полон",
        }),
{
    match lang {
        Lang::En => "full quota",
        Lang::Ru => "лимит полон",
    }
}

#[verifier::allow_in_spec]
pub fn usage_unavailable(lang: Lang) -> &'static str
    returns
        (match lang {
            Lang::En => "Could not load usage. Try again later.",
            Lang::Ru => "Не получилось загрузить использование. Попробуй позже.",
        }),
{
    match lang {
        Lang::En => "Could not load usage. Try again later.",
        Lang::Ru => "Не получилось загрузить использование. Попробуй позже.",
    }
}

#[verifier::allow_in_spec]
pub fn usage_no_sender(lang: Lang) -> &'static str
    returns
        (match lang {
            Lang::En => "Can't tell who sent that. Usage is available from your own account.",
            Lang::Ru => "Не вижу, кто это прислал. Использование доступно только со своего аккаунта.",
        }),
{
    match lang {
        Lang::En => "Can't tell who sent that. Usage is available from your own account.",
        Lang::Ru => "Не вижу, кто это прислал. Использование доступно только со своего аккаунта.",
    }
}

#[verifier::allow_in_spec]
pub fn send_link_hint(lang: Lang) -> &'static str
    returns
        (match lang {
            Lang::En => "Send a link and I'll fetch it. /help for details.",
            Lang::Ru => "Пришли ссылку, и я её скачаю. Подробности — /help.",
        }),
{
    match lang {
        Lang::En => "Send a link and I'll fetch it. /help for details.",
        Lang::Ru => "Пришли ссылку, и я её скачаю. Подробности — /help.",
    }
}

#[verifier::allow_in_spec]
pub fn resolving(lang: Lang) -> &'static str
    returns
        (match lang {
            Lang::En => "🔍 Resolving link…",
            Lang::Ru => "🔍 Открываю ссылку…",
        }),
{
    match lang {
        Lang::En => "🔍 Resolving link…",
        Lang::Ru => "🔍 Открываю ссылку…",
    }
}

#[verifier::allow_in_spec]
pub fn outdated_button(lang: Lang) -> &'static str
    returns
        (match lang {
            Lang::En => "Outdated button. Send the link again.",
            Lang::Ru => "Кнопка устарела. Пришли ссылку ещё раз.",
        }),
{
    match lang {
        Lang::En => "Outdated button. Send the link again.",
        Lang::Ru => "Кнопка устарела. Пришли ссылку ещё раз.",
    }
}

#[verifier::allow_in_spec]
pub fn cancelling(lang: Lang) -> &'static str
    returns
        (match lang {
            Lang::En => "Cancelling…",
            Lang::Ru => "Отменяю…",
        }),
{
    match lang {
        Lang::En => "Cancelling…",
        Lang::Ru => "Отменяю…",
    }
}

#[verifier::allow_in_spec]
pub fn nothing_to_cancel(lang: Lang) -> &'static str
    returns
        (match lang {
            Lang::En => "Nothing to cancel.",
            Lang::Ru => "Нечего отменять.",
        }),
{
    match lang {
        Lang::En => "Nothing to cancel.",
        Lang::Ru => "Нечего отменять.",
    }
}

#[verifier::allow_in_spec]
pub fn cancelled(lang: Lang) -> &'static str
    returns
        (match lang {
            Lang::En => "Cancelled.",
            Lang::Ru => "Отменено.",
        }),
{
    match lang {
        Lang::En => "Cancelled.",
        Lang::Ru => "Отменено.",
    }
}

#[verifier::allow_in_spec]
pub fn session_expired(lang: Lang) -> &'static str
    returns
        (match lang {
            Lang::En => "Session expired. Send the link again.",
            Lang::Ru => "Сессия истекла. Пришли ссылку ещё раз.",
        }),
{
    match lang {
        Lang::En => "Session expired. Send the link again.",
        Lang::Ru => "Сессия истекла. Пришли ссылку ещё раз.",
    }
}

#[verifier::allow_in_spec]
pub fn unknown_quality(lang: Lang) -> &'static str
    returns
        (match lang {
            Lang::En => "Unknown quality.",
            Lang::Ru => "Неизвестное качество.",
        }),
{
    match lang {
        Lang::En => "Unknown quality.",
        Lang::Ru => "Неизвестное качество.",
    }
}

#[verifier::allow_in_spec]
pub fn queued(lang: Lang) -> &'static str
    returns
        (match lang {
            Lang::En => "⏳ Queued… your download starts automatically.",
            Lang::Ru => "⏳ В очереди… загрузка начнётся автоматически.",
        }),
{
    match lang {
        Lang::En => "⏳ Queued… your download starts automatically.",
        Lang::Ru => "⏳ В очереди… загрузка начнётся автоматически.",
    }
}

#[verifier::allow_in_spec]
pub fn busy(lang: Lang) -> &'static str
    returns
        (match lang {
            Lang::En => "🔥 Fetchly is busy right now. Try again in a bit.",
            Lang::Ru => "🔥 Сейчас много загрузок. Попробуй чуть позже.",
        }),
{
    match lang {
        Lang::En => "🔥 Fetchly is busy right now. Try again in a bit.",
        Lang::Ru => "🔥 Сейчас много загрузок. Попробуй чуть позже.",
    }
}

#[verifier::allow_in_spec]
pub fn restart(lang: Lang) -> &'static str
    returns
        (match lang {
            Lang::En => "🔄 Fetchly is restarting. Your download was stopped — please resend your link in a minute.",
            Lang::Ru => "🔄 Fetchly перезапускается. Загрузка остановлена — пришли ссылку ещё раз через минуту.",
        }),
{
    match lang {
        Lang::En => "🔄 Fetchly is restarting. Your download was stopped — please resend your link in a minute.",
        Lang::Ru => "🔄 Fetchly перезапускается. Загрузка остановлена — пришли ссылку ещё раз через минуту.",
    }
}

#[verifier::allow_in_spec]
pub fn flight_wait(lang: Lang) -> &'static str
    returns
        (match lang {
            Lang::En => "⏳ Already downloading — I'll send it here when it's ready.",
            Lang::Ru => "⏳ Уже качаю — пришлю сюда, как будет готово.",
        }),
{
    match lang {
        Lang::En => "⏳ Already downloading — I'll send it here when it's ready.",
        Lang::Ru => "⏳ Уже качаю — пришлю сюда, как будет готово.",
    }
}

#[verifier::allow_in_spec]
pub fn flight_retry(lang: Lang) -> &'static str
    returns
        (match lang {
            Lang::En => "The download didn't start. Please tap the quality again.",
            Lang::Ru => "Загрузка не началась. Нажми на качество ещё раз.",
        }),
{
    match lang {
        Lang::En => "The download didn't start. Please tap the quality again.",
        Lang::Ru => "Загрузка не началась. Нажми на качество ещё раз.",
    }
}

#[verifier::allow_in_spec]
pub fn flight_cancelled(lang: Lang) -> &'static str
    returns
        (match lang {
            Lang::En => "The download was cancelled.",
            Lang::Ru => "Загрузка была отменена.",
        }),
{
    match lang {
        Lang::En => "The download was cancelled.",
        Lang::Ru => "Загрузка была отменена.",
    }
}

#[verifier::allow_in_spec]
pub fn flight_failed(lang: Lang) -> &'static str
    returns
        (match lang {
            Lang::En => "Something went wrong. Try again later.",
            Lang::Ru => "Что-то пошло не так. Попробуй позже.",
        }),
{
    match lang {
        Lang::En => "Something went wrong. Try again later.",
        Lang::Ru => "Что-то пошло не так. Попробуй позже.",
    }
}

#[verifier::allow_in_spec]
pub fn downloading_zero(lang: Lang) -> &'static str
    returns
        (match lang {
            Lang::En => "⬇️ Downloading ░░░░░░░░░░ 0%",
            Lang::Ru => "⬇️ Загрузка ░░░░░░░░░░ 0%",
        }),
{
    match lang {
        Lang::En => "⬇️ Downloading ░░░░░░░░░░ 0%",
        Lang::Ru => "⬇️ Загрузка ░░░░░░░░░░ 0%",
    }
}

#[verifier::allow_in_spec]
pub fn downloading_prefix(lang: Lang) -> &'static str
    returns
        (match lang {
            Lang::En => "⬇️ Downloading",
            Lang::Ru => "⬇️ Загрузка",
        }),
{
    match lang {
        Lang::En => "⬇️ Downloading",
        Lang::Ru => "⬇️ Загрузка",
    }
}

#[verifier::allow_in_spec]
pub fn converting(lang: Lang) -> &'static str
    returns
        (match lang {
            Lang::En => "🔄 Converting…",
            Lang::Ru => "🔄 Конвертация…",
        }),
{
    match lang {
        Lang::En => "🔄 Converting…",
        Lang::Ru => "🔄 Конвертация…",
    }
}

#[verifier::allow_in_spec]
pub fn uploading(lang: Lang) -> &'static str
    returns
        (match lang {
            Lang::En => "🔄 Uploading…",
            Lang::Ru => "🔄 Загрузка в Telegram…",
        }),
{
    match lang {
        Lang::En => "🔄 Uploading…",
        Lang::Ru => "🔄 Загрузка в Telegram…",
    }
}

#[verifier::allow_in_spec]
pub fn uploading_audio(lang: Lang) -> &'static str
    returns
        (match lang {
            Lang::En => "⬆️ Uploading…",
            Lang::Ru => "⬆️ Загрузка в Telegram…",
        }),
{
    match lang {
        Lang::En => "⬆️ Uploading…",
        Lang::Ru => "⬆️ Загрузка в Telegram…",
    }
}

/// File over the 50 MB standard-API cap without a Local Bot API Server.
#[verifier::allow_in_spec]
pub fn over_limit(lang: Lang) -> &'static str
    returns
        (match lang {
            Lang::En => "This file is over 50 MB, which exceeds the standard Bot API upload limit. Pick a lower quality, or set up a Local Bot API Server for files up to 2 GB.",
            Lang::Ru => "Файл больше 50 МБ — это лимит стандартного Bot API. Выбери качество пониже или подними Local Bot API Server для файлов до 2 ГБ.",
        }),
{
    match lang {
        Lang::En => "This file is over 50 MB, which exceeds the standard Bot API upload limit. Pick a lower quality, or set up a Local Bot API Server for files up to 2 GB.",
        Lang::Ru => "Файл больше 50 МБ — это лимит стандартного Bot API. Выбери качество пониже или подними Local Bot API Server для файлов до 2 ГБ.",
    }
}

#[verifier::allow_in_spec]
pub fn video_button(lang: Lang) -> &'static str
    returns
        (match lang {
            Lang::En => "🎬 Video",
            Lang::Ru => "🎬 Видео",
        }),
{
    match lang {
        Lang::En => "🎬 Video",
        Lang::Ru => "🎬 Видео",
    }
}

#[verifier::allow_in_spec]
pub fn audio_button(lang: Lang) -> &'static str
    returns
        (match lang {
            Lang::En => "🎵 Audio",
            Lang::Ru => "🎵 Аудио",
        }),
{
    match lang {
        Lang::En => "🎵 Audio",
        Lang::Ru => "🎵 Аудио",
    }
}

#[verifier::allow_in_spec]
pub fn cancel_button(lang: Lang) -> &'static str
    returns
        (match lang {
            Lang::En => "❌ Cancel",
            Lang::Ru => "❌ Отмена",
        }),
{
    match lang {
        Lang::En => "❌ Cancel",
        Lang::Ru => "❌ Отмена",
    }
}

#[verifier::allow_in_spec]
pub fn best_label(lang: Lang) -> &'static str
    returns
        (match lang {
            Lang::En => "Best",
            Lang::Ru => "Лучшее",
        }),
{
    match lang {
        Lang::En => "Best",
        Lang::Ru => "Лучшее",
    }
}

#[verifier::allow_in_spec]
pub fn live_unknown(lang: Lang) -> &'static str
    returns
        (match lang {
            Lang::En => "live/unknown",
            Lang::Ru => "эфир/неизвестно",
        }),
{
    match lang {
        Lang::En => "live/unknown",
        Lang::Ru => "эфир/неизвестно",
    }
}

/// `/language` confirmation, in the language just chosen.
#[verifier::allow_in_spec]
pub fn language_set(lang: Lang) -> &'static str
    returns
        (match lang {
            Lang::En => "Language: English. I'll reply in English from now on.",
            Lang::Ru => "Язык: русский. Дальше буду отвечать по-русски.",
        }),
{
    match lang {
        Lang::En => "Language: English. I'll reply in English from now on.",
        Lang::Ru => "Язык: русский. Дальше буду отвечать по-русски.",
    }
}

#[verifier::allow_in_spec]
pub fn error_unsupported(lang: Lang) -> &'static str
    returns
        (match lang {
            Lang::En => "Unsupported link. Send a YouTube, TikTok, Instagram, or X URL.",
            Lang::Ru => "Неподдерживаемая ссылка. Пришли URL YouTube, TikTok, Instagram или X.",
        }),
{
    match lang {
        Lang::En => "Unsupported link. Send a YouTube, TikTok, Instagram, or X URL.",
        Lang::Ru => "Неподдерживаемая ссылка. Пришли URL YouTube, TikTok, Instagram или X.",
    }
}

#[verifier::allow_in_spec]
pub fn error_private(lang: Lang) -> &'static str
    returns
        (match lang {
            Lang::En => "This content is private or restricted.",
            Lang::Ru => "Этот контент приватный или недоступен.",
        }),
{
    match lang {
        Lang::En => "This content is private or restricted.",
        Lang::Ru => "Этот контент приватный или недоступен.",
    }
}

#[verifier::allow_in_spec]
pub fn error_too_large(lang: Lang) -> &'static str
    returns
        (match lang {
            Lang::En => "File exceeds 2 GB limit. Try lower quality.",
            Lang::Ru => "Файл больше лимита 2 ГБ. Попробуй качество пониже.",
        }),
{
    match lang {
        Lang::En => "File exceeds 2 GB limit. Try lower quality.",
        Lang::Ru => "Файл больше лимита 2 ГБ. Попробуй качество пониже.",
    }
}

#[verifier::allow_in_spec]
pub fn error_download(lang: Lang) -> &'static str
    returns
        (match lang {
            Lang::En => "Download failed. Try again later.",
            Lang::Ru => "Не получилось скачать. Попробуй позже.",
        }),
{
    match lang {
        Lang::En => "Download failed. Try again later.",
        Lang::Ru => "Не получилось скачать. Попробуй позже.",
    }
}

#[verifier::allow_in_spec]
pub fn error_resolve(lang: Lang) -> &'static str
    returns
        (match lang {
            Lang::En => "Could not fetch this link. Try again later.",
            Lang::Ru => "Не получилось открыть ссылку. Попробуй позже.",
        }),
{
    match lang {
        Lang::En => "Could not fetch this link. Try again later.",
        Lang::Ru => "Не получилось открыть ссылку. Попробуй позже.",
    }
}

#[verifier::allow_in_spec]
pub fn error_generic(lang: Lang) -> &'static str
    returns
        (match lang {
            Lang::En => "Something went wrong. Try again later.",
            Lang::Ru => "Что-то пошло не так. Попробуй позже.",
        }),
{
    match lang {
        Lang::En => "Something went wrong. Try again later.",
        Lang::Ru => "Что-то пошло не так. Попробуй позже.",
    }
}

/// Bot profile description (`setMyDescription`, ≤512 chars).
#[verifier::allow_in_spec]
pub fn bot_description(lang: Lang) -> &'static str
    returns
        (match lang {
            Lang::En => "Send me a YouTube, TikTok, Instagram, or X link and I'll fetch the video or audio for you.",
            Lang::Ru => "Пришли мне ссылку на YouTube, TikTok, Instagram или X — верну видео или аудио.",
        }),
{
    match lang {
        Lang::En => "Send me a YouTube, TikTok, Instagram, or X link and I'll fetch the video or audio for you.",
        Lang::Ru => "Пришли мне ссылку на YouTube, TikTok, Instagram или X — верну видео или аудио.",
    }
}

/// Bot profile short description (`setMyShortDescription`, ≤120 chars).
#[verifier::allow_in_spec]
pub fn bot_short_description(lang: Lang) -> &'static str
    returns
        (match lang {
            Lang::En => "Send a link, get video or audio back. YouTube, TikTok, Instagram, X.",
            Lang::Ru => "Ссылка → видео или аудио. YouTube, TikTok, Instagram, X.",
        }),
{
    match lang {
        Lang::En => "Send a link, get video or audio back. YouTube, TikTok, Instagram, X.",
        Lang::Ru => "Ссылка → видео или аудио. YouTube, TikTok, Instagram, X.",
    }
}

/// Menu (`setMyCommands`) description for `/start` (3–256 chars).
#[verifier::allow_in_spec]
pub fn cmd_start_desc(lang: Lang) -> &'static str
    returns
        (match lang {
            Lang::En => "Start the bot and show welcome.",
            Lang::Ru => "Запустить бота и показать приветствие.",
        }),
{
    match lang {
        Lang::En => "Start the bot and show welcome.",
        Lang::Ru => "Запустить бота и показать приветствие.",
    }
}

/// Menu (`setMyCommands`) description for `/help` (3–256 chars).
#[verifier::allow_in_spec]
pub fn cmd_help_desc(lang: Lang) -> &'static str
    returns
        (match lang {
            Lang::En => "Show usage guide and limits.",
            Lang::Ru => "Показать справку и лимиты.",
        }),
{
    match lang {
        Lang::En => "Show usage guide and limits.",
        Lang::Ru => "Показать справку и лимиты.",
    }
}

/// Menu (`setMyCommands`) description for `/usage` (3–256 chars).
#[verifier::allow_in_spec]
pub fn cmd_usage_desc(lang: Lang) -> &'static str
    returns
        (match lang {
            Lang::En => "Show your current usage and limits.",
            Lang::Ru => "Показать использование и лимиты.",
        }),
{
    match lang {
        Lang::En => "Show your current usage and limits.",
        Lang::Ru => "Показать использование и лимиты.",
    }
}

/// Menu (`setMyCommands`) description for `/language` (3–256 chars).
#[verifier::allow_in_spec]
pub fn cmd_language_desc(lang: Lang) -> &'static str
    returns
        (match lang {
            Lang::En => "Change interface language.",
            Lang::Ru => "Сменить язык интерфейса.",
        }),
{
    match lang {
        Lang::En => "Change interface language.",
        Lang::Ru => "Сменить язык интерфейса.",
    }
}

} // verus!
