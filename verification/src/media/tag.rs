//! What goes into the MP3 tags, and which cover images are kept.
use vstd::prelude::*;

use crate::error::owned;
use crate::text::{chars_of, contains_str, contains_sub};

verus! {

/// ID3 fields to write into a converted MP3.
#[derive(Debug, Clone)]
pub struct TagInfo {
    pub title: String,
    pub artist: Option<String>,
    pub album: Option<String>,
    pub year: Option<u32>,
    pub cover_bytes: Option<Vec<u8>>,
    pub cover_mime: Option<String>,
}

impl Default for TagInfo {
    fn default() -> (r: TagInfo)
        ensures
            r.title@ == Seq::<char>::empty(),
            r.artist is None,
            r.album is None,
            r.year is None,
            r.cover_bytes is None,
            r.cover_mime is None,
    {
        proof {
            reveal_strlit("");
        }
        TagInfo {
            title: owned(""),
            artist: None,
            album: None,
            year: None,
            cover_bytes: None,
            cover_mime: None,
        }
    }
}

/// Image format of the embedded cover.
#[derive(Debug, Clone, Copy, PartialEq, Eq, Structural)]
pub enum CoverMime {
    Png,
    Jpeg,
}

/// The cover format a `Content-Type` names: PNG when it mentions `png`,
/// otherwise JPEG.
pub open spec fn cover_mime_of(mime: Option<String>) -> CoverMime {
    match mime {
        Some(m) => if contains_sub(m@, "png"@) {
            CoverMime::Png
        } else {
            CoverMime::Jpeg
        },
        None => CoverMime::Jpeg,
    }
}

/// Picture MIME type for the cover, from the HTTP `Content-Type`.
pub fn cover_mime_kind(mime: &Option<String>) -> (r: CoverMime)
    ensures
        r == cover_mime_of(*mime),
{
    match mime {
        Some(m) => {
            let v = chars_of(m.as_str());
            if contains_str(&v, "png") {
                CoverMime::Png
            } else {
                CoverMime::Jpeg
            }
        },
        None => CoverMime::Jpeg,
    }
}

/// Largest cover image that is embedded (10 MB).
pub const MAX_COVER_BYTES: usize = 10_000_000;

/// A fetched cover is kept when it is non-empty and at most [`MAX_COVER_BYTES`].
pub fn cover_acceptable(len: usize) -> (r: bool)
    ensures
        r == (0 < len && len <= MAX_COVER_BYTES),
{
    len != 0 && len <= MAX_COVER_BYTES
}

/// The primary tag an MP3 already carries, by kind.
#[derive(Debug, Clone, Copy, PartialEq, Eq, Structural)]
pub enum ExistingTag {
    Absent,
    Id3v2,
    Other,
}

/// What happens to the file's primary tag before the fields are written.
#[derive(Debug, Clone, Copy, PartialEq, Eq, Structural)]
pub enum TagBase {
    /// No tag yet: insert an empty ID3v2 tag.
    Insert,
    /// A tag of another kind: replace it with an empty ID3v2 tag.
    Replace,
    /// Already ID3v2: write into it.
    Keep,
}

/// The writes that tag an MP3.
#[derive(Debug)]
pub struct TagPlan {
    pub base: TagBase,
    pub title: String,
    /// Written when present.
    pub artist: Option<String>,
    /// Written when present.
    pub album: Option<String>,
    /// Front cover to add, with its image format.
    pub cover: Option<(Vec<u8>, CoverMime)>,
}

/// The base step for an existing primary tag.
pub open spec fn base_for(existing: ExistingTag) -> TagBase {
    match existing {
        ExistingTag::Absent => TagBase::Insert,
        ExistingTag::Id3v2 => TagBase::Keep,
        ExistingTag::Other => TagBase::Replace,
    }
}

/// Plan the ID3v2 writes for `info` on a file whose primary tag is `existing`:
/// title always, artist and album when known, the cover as front cover in the
/// format its `Content-Type` names. The year is not written (a bare year is
/// not a full date).
pub fn tag_plan(info: TagInfo, existing: ExistingTag) -> (p: TagPlan)
    ensures
        p.base == base_for(existing),
        p.title == info.title,
        p.artist == info.artist,
        p.album == info.album,
        (match info.cover_bytes {
            Some(b) => p.cover == Some((b, cover_mime_of(info.cover_mime))),
            None => p.cover is None,
        }),
{
    let base = match existing {
        ExistingTag::Absent => TagBase::Insert,
        ExistingTag::Id3v2 => TagBase::Keep,
        ExistingTag::Other => TagBase::Replace,
    };
    let mime = cover_mime_kind(&info.cover_mime);
    let cover = match info.cover_bytes {
        Some(b) => Some((b, mime)),
        None => None,
    };
    TagPlan { base, title: info.title, artist: info.artist, album: info.album, cover }
}

} // verus!
