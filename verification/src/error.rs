//! The error type shared by the whole bot, and the chat text for each error.
use vstd::prelude::*;

use crate::i18n::{
    cancelled, error_download, error_generic, error_private, error_resolve, error_timed_out,
    error_too_large, error_too_many_concurrent, error_unsupported, rate_limited,
    rate_limited_text, session_expired, timed_out_text, too_many_concurrent_text, Lang,
};
use crate::text::chars_of;
use crate::text::string_of;

verus! {

/// Unified error type for the whole bot.
///
/// String payloads carry raw tool / store details for logs; they never reach
/// the chat (see [`Error::user_message`]).
#[derive(Debug, Clone)]
pub enum Error {
    Config(String),
    UnsupportedUrl,
    Resolve(String),
    PrivateOrRestricted,
    Download(String),
    Convert(String),
    TooLarge,
    Telegram(String),
    SessionExpired,
    RateLimited { retry_in_secs: u64, remaining: u32 },
    Cache(String),
    Session(String),
    Limiter(String),
    Cancelled,
    TimedOut { minutes: u64 },
    TooManyConcurrent { max: usize },
    Io(String),
}

/// The chat text for `e` in `lang`.
pub open spec fn user_message_text(e: Error, lang: Lang) -> Seq<char> {
    match e {
        Error::UnsupportedUrl => error_unsupported(lang)@,
        Error::PrivateOrRestricted => error_private(lang)@,
        Error::TooLarge => error_too_large(lang)@,
        Error::SessionExpired => session_expired(lang)@,
        Error::Cancelled => cancelled(lang)@,
        Error::TimedOut { minutes } => timed_out_text(lang, minutes as nat),
        Error::TooManyConcurrent { max } => too_many_concurrent_text(lang, max as nat),
        Error::RateLimited { retry_in_secs, .. } => rate_limited_text(lang, retry_in_secs as nat),
        Error::Download(_) | Error::Convert(_) => error_download(lang)@,
        Error::Resolve(_) => error_resolve(lang)@,
        _ => error_generic(lang)@,
    }
}

impl Error {
    /// User-facing message (safe to send to chat) in the user's language.
    pub fn user_message(&self, lang: Lang) -> (r: String)
        ensures
            r@ == user_message_text(*self, lang),
    {
        match self {
            Error::UnsupportedUrl => owned(error_unsupported(lang)),
            Error::PrivateOrRestricted => owned(error_private(lang)),
            Error::TooLarge => owned(error_too_large(lang)),
            Error::SessionExpired => owned(session_expired(lang)),
            Error::Cancelled => owned(cancelled(lang)),
            Error::TimedOut { minutes } => error_timed_out(lang, *minutes),
            Error::TooManyConcurrent { max } => error_too_many_concurrent(lang, *max),
            Error::RateLimited { retry_in_secs, remaining: _ } => rate_limited(lang, *retry_in_secs),
            Error::Download(_) | Error::Convert(_) => owned(error_download(lang)),
            Error::Resolve(_) => owned(error_resolve(lang)),
            _ => owned(error_generic(lang)),
        }
    }
}

/// An owned copy of `s`.
pub fn owned(s: &str) -> (r: String)
    ensures
        r@ == s@,
{
    let v = chars_of(s);
    string_of(&v)
}

/// Raw tool and store details never reach the chat: for every variant that
/// carries a detail string, the message is the same whatever the string holds.
pub proof fn lemma_user_message_hides_details(a: String, b: String, lang: Lang)
    ensures
        user_message_text(Error::Config(a), lang) == user_message_text(Error::Config(b), lang),
        user_message_text(Error::Resolve(a), lang) == user_message_text(Error::Resolve(b), lang),
        user_message_text(Error::Download(a), lang) == user_message_text(Error::Download(b), lang),
        user_message_text(Error::Convert(a), lang) == user_message_text(Error::Convert(b), lang),
        user_message_text(Error::Telegram(a), lang) == user_message_text(Error::Telegram(b), lang),
        user_message_text(Error::Cache(a), lang) == user_message_text(Error::Cache(b), lang),
        user_message_text(Error::Session(a), lang) == user_message_text(Error::Session(b), lang),
        user_message_text(Error::Limiter(a), lang) == user_message_text(Error::Limiter(b), lang),
        user_message_text(Error::Io(a), lang) == user_message_text(Error::Io(b), lang),
{
}

} // verus!
