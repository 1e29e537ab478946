//! Fetchly's bot logic: link recognition, yt-dlp / ffmpeg command lines and
//! output parsing, localized texts, keyboards, rate limiting, sessions and the
//! download pipeline as a state machine, each with its contract.
pub mod text;
pub mod i18n;
pub mod error;
pub mod config;
pub mod media;
pub mod session;
pub mod limiter;
pub mod prefs;
pub mod housekeeping;
pub mod telegram;
