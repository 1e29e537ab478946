//! Media extraction and processing: URL recognition, yt-dlp metadata and
//! arguments, ffmpeg arguments, MP3 tag choices.
pub mod ffmpeg;
pub mod tag;
pub mod url;
pub mod ytdlp;
