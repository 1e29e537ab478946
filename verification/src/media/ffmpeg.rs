//! ffmpeg command line for the MP3 conversion.
use vstd::prelude::*;

use crate::error::owned;
use crate::media::ytdlp::{strings_view, AudioQuality};

verus! {

/// ffmpeg arguments that convert `src` to an MP3 at `dst` with the bitrate of `q`.
pub open spec fn mp3_args_spec(src: Seq<char>, dst: Seq<char>, q: AudioQuality) -> Seq<Seq<char>> {
    seq![
        "-y"@,
        "-hide_banner"@,
        "-loglevel"@,
        "error"@,
        "-i"@,
        src,
        "-vn"@,
        "-c:a"@,
        "libmp3lame"@,
        "-b:a"@,
        q.mp3_bitrate()@,
        dst,
    ]
}

/// Build the ffmpeg arguments for
/// `ffmpeg -i <src> -vn -c:a libmp3lame -b:a <bitrate> <dst>`.
pub fn mp3_args(src: &str, dst: &str, quality: AudioQuality) -> (r: Vec<String>)
    ensures
        strings_view(r@) == mp3_args_spec(src@, dst@, quality),
{
    let mut r: Vec<String> = Vec::new();
    r.push(owned("-y"));
    r.push(owned("-hide_banner"));
    r.push(owned("-loglevel"));
    r.push(owned("error"));
    r.push(owned("-i"));
    r.push(owned(src));
    r.push(owned("-vn"));
    r.push(owned("-c:a"));
    r.push(owned("libmp3lame"));
    r.push(owned("-b:a"));
    r.push(owned(quality.mp3_bitrate()));
    r.push(owned(dst));
    proof {
        assert(strings_view(r@) =~= mp3_args_spec(src@, dst@, quality));
    }
    r
}

} // verus!
