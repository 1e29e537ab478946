//! The download pipelines (video and audio) as a state machine.
//!
//! rate limit → file-id cache → per-user slot → worker permit → progress
//! message → yt-dlp (→ ffmpeg + tags for audio) → upload → cache the file id.
//!
//! The caller performs each [`Request`] and reports the outcome as an
//! [`Event`]; [`Pipeline::step`] answers with the side effects to perform, in
//! order, and the next request (or none when the pipeline is finished).
use vstd::prelude::*;

use crate::error::{owned, user_message_text, Error};
use crate::i18n::{converting, over_limit, too_many_concurrent_text, uploading, uploading_audio, Lang};
use crate::media::url::Platform;
use crate::media::ytdlp::{AudioQuality, VideoQuality};
use crate::telegram::handlers::{exceeds_standard_limit, upload_error_message, upload_error_text, STANDARD_UPLOAD_LIMIT};
use crate::text::{chars_of, push_str, string_of};

verus! {

/// What the user asked for.
#[derive(Debug, Clone, Copy, PartialEq, Eq, Structural)]
pub enum MediaChoice {
    Video(VideoQuality),
    Audio(AudioQuality),
}

/// Where a pipeline stands: the outcome it waits for.
#[derive(Debug, Clone, Copy, PartialEq, Eq, Structural)]
pub enum Stage {
    RateCheck,
    CacheLookup,
    CachedSend,
    SlotTake,
    PermitWait,
    ProgressOpen,
    Downloading,
    Converting,
    Uploading,
    Finished,
}

/// One pipeline run.
#[derive(Debug, Clone, Copy, PartialEq, Eq, Structural)]
pub struct Pipeline {
    pub choice: MediaChoice,
    pub stage: Stage,
    /// Per-user cap, reported when the user is at it.
    pub max_per_user: usize,
    /// No Local Bot API Server: files over 50 MB cannot be uploaded.
    pub standard_api: bool,
}

/// The outside operation to perform next.
#[derive(Debug, Clone)]
pub enum Request {
    /// Consume one unit of the user's rate limit.
    CheckRate,
    /// Look up the file id cached for (url, format, quality).
    LookupCache,
    /// Send the cached file id.
    SendCached(String),
    /// Take one of the user's in-flight slots.
    TakeSlot,
    /// Wait for a download worker (showing "Queued…" or "busy" as admission says).
    AcquirePermit,
    /// Send the progress message with its cancel button.
    OpenProgress,
    /// Run yt-dlp (video, or the audio source) against the deadline.
    Download,
    /// Convert to MP3 against the deadline, then tag it (best effort).
    Convert,
    /// Upload the finished file.
    Upload,
}

/// The outcome of a [`Request`].
#[derive(Debug)]
pub enum Event {
    /// Remaining quota, or the limiter's error.
    RateChecked(Result<u32, Error>),
    /// The cached file id, if the lookup found one (a failed lookup is a miss).
    CacheLooked(Option<String>),
    /// The cached file was sent.
    CachedSent(bool),
    /// A slot was granted.
    SlotTaken(bool),
    /// A worker permit was granted.
    PermitGranted(bool),
    /// The progress message was sent.
    ProgressOpened(bool),
    /// Size in bytes of the downloaded file, or the error.
    Downloaded(Result<u64, Error>),
    /// Size in bytes of the tagged MP3, or the error.
    Converted(Result<u64, Error>),
    /// The file id of the sent media (when Telegram reports one), or the raw error text.
    Uploaded(Result<Option<String>, String>),
}

/// A side effect, performed in order.
#[derive(Debug, Clone)]
pub enum Effect {
    /// Send a new message to the chat.
    Reply(String),
    /// Replace the progress message text.
    EditProgress(String),
    /// Delete the progress message.
    DeleteProgress,
    /// Register the chat for shutdown notices.
    RegisterNotify,
    /// Remove the shutdown-notice registration.
    UnregisterNotify,
    /// Register the cancel token of this download.
    RegisterDownload,
    /// Remove the cancel token registration.
    UnregisterDownload,
    /// Give back the user's slot.
    ReleaseSlot,
    /// Cache the uploaded file id for (url, format, quality).
    StoreFileId(String),
    /// Remove the download's temp directory.
    Cleanup,
}

/// What [`Pipeline::step`] answers.
#[derive(Debug, Clone)]
pub struct Decision {
    pub effects: Vec<Effect>,
    /// `None` once the pipeline is finished.
    pub next: Option<Request>,
}

// ---------------------------------------------------------------------------
// Model
// ---------------------------------------------------------------------------

/// Effects as plain values.
pub enum EffectV {
    Reply(Seq<char>),
    EditProgress(Seq<char>),
    DeleteProgress,
    RegisterNotify,
    UnregisterNotify,
    RegisterDownload,
    UnregisterDownload,
    ReleaseSlot,
    StoreFileId(Seq<char>),
    Cleanup,
}

/// Requests as plain values.
pub enum RequestV {
    CheckRate,
    LookupCache,
    SendCached(Seq<char>),
    TakeSlot,
    AcquirePermit,
    OpenProgress,
    Download,
    Convert,
    Upload,
}

/// The plain value of an effect.
pub open spec fn effect_view(e: Effect) -> EffectV {
    match e {
        Effect::Reply(s) => EffectV::Reply(s@),
        Effect::EditProgress(s) => EffectV::EditProgress(s@),
        Effect::DeleteProgress => EffectV::DeleteProgress,
        Effect::RegisterNotify => EffectV::RegisterNotify,
        Effect::UnregisterNotify => EffectV::UnregisterNotify,
        Effect::RegisterDownload => EffectV::RegisterDownload,
        Effect::UnregisterDownload => EffectV::UnregisterDownload,
        Effect::ReleaseSlot => EffectV::ReleaseSlot,
        Effect::StoreFileId(s) => EffectV::StoreFileId(s@),
        Effect::Cleanup => EffectV::Cleanup,
    }
}

/// The plain values of a list of effects.
pub open spec fn effects_view(es: Seq<Effect>) -> Seq<EffectV> {
    es.map_values(|e: Effect| effect_view(e))
}

/// The plain value of the next request.
pub open spec fn next_view(r: Option<Request>) -> Option<RequestV> {
    match r {
        None => None,
        Some(Request::CheckRate) => Some(RequestV::CheckRate),
        Some(Request::LookupCache) => Some(RequestV::LookupCache),
        Some(Request::SendCached(f)) => Some(RequestV::SendCached(f@)),
        Some(Request::TakeSlot) => Some(RequestV::TakeSlot),
        Some(Request::AcquirePermit) => Some(RequestV::AcquirePermit),
        Some(Request::OpenProgress) => Some(RequestV::OpenProgress),
        Some(Request::Download) => Some(RequestV::Download),
        Some(Request::Convert) => Some(RequestV::Convert),
        Some(Request::Upload) => Some(RequestV::Upload),
    }
}

/// The event is the outcome of what `stage` waits for.
pub open spec fn fits(stage: Stage, ev: Event) -> bool {
    match (stage, ev) {
        (Stage::RateCheck, Event::RateChecked(_)) => true,
        (Stage::CacheLookup, Event::CacheLooked(_)) => true,
        (Stage::CachedSend, Event::CachedSent(_)) => true,
        (Stage::SlotTake, Event::SlotTaken(_)) => true,
        (Stage::PermitWait, Event::PermitGranted(_)) => true,
        (Stage::ProgressOpen, Event::ProgressOpened(_)) => true,
        (Stage::Downloading, Event::Downloaded(_)) => true,
        (Stage::Converting, Event::Converted(_)) => true,
        (Stage::Uploading, Event::Uploaded(_)) => true,
        _ => false,
    }
}

/// The outcome of one step: new stage, effects, next request.
pub struct Outcome {
    pub stage: Stage,
    pub effects: Seq<EffectV>,
    pub next: Option<RequestV>,
}

/// Everything held from the permit onwards is given back, in this order.
pub open spec fn release_all() -> Seq<EffectV> {
    seq![EffectV::UnregisterDownload, EffectV::UnregisterNotify, EffectV::ReleaseSlot]
}

/// The text shown while uploading.
pub open spec fn uploading_text(choice: MediaChoice) -> Seq<char> {
    match choice {
        MediaChoice::Video(_) => uploading(Lang::En)@,
        MediaChoice::Audio(_) => uploading_audio(Lang::En)@,
    }
}

/// After the last processing stage: report the failure, refuse a file the
/// standard API cannot take, or go on to the upload.
pub open spec fn after_processing(p: Pipeline, r: Result<u64, Error>) -> Outcome {
    match r {
        Err(e) => Outcome {
            stage: Stage::Finished,
            effects: release_all() + seq![EffectV::EditProgress(user_message_text(e, Lang::En)), EffectV::Cleanup],
            next: None,
        },
        Ok(size) => if size > STANDARD_UPLOAD_LIMIT && p.standard_api {
            Outcome {
                stage: Stage::Finished,
                effects: release_all() + seq![EffectV::EditProgress(over_limit(Lang::En)@), EffectV::Cleanup],
                next: None,
            }
        } else {
            Outcome {
                stage: Stage::Uploading,
                effects: release_all() + seq![EffectV::EditProgress(uploading_text(p.choice))],
                next: Some(RequestV::Upload),
            }
        },
    }
}

/// The transition table of the pipeline.
pub open spec fn transition(p: Pipeline, ev: Event) -> Outcome {
    match ev {
        Event::RateChecked(Err(e)) => Outcome {
            stage: Stage::Finished,
            effects: seq![EffectV::Reply(user_message_text(e, Lang::En))],
            next: None,
        },
        Event::RateChecked(Ok(_)) => Outcome { stage: Stage::CacheLookup, effects: seq![], next: Some(RequestV::LookupCache) },
        Event::CacheLooked(Some(f)) => Outcome {
            stage: Stage::CachedSend,
            effects: seq![],
            next: Some(RequestV::SendCached(f@)),
        },
        Event::CacheLooked(None) => Outcome { stage: Stage::SlotTake, effects: seq![], next: Some(RequestV::TakeSlot) },
        Event::CachedSent(true) => Outcome { stage: Stage::Finished, effects: seq![], next: None },
        Event::CachedSent(false) => Outcome { stage: Stage::SlotTake, effects: seq![], next: Some(RequestV::TakeSlot) },
        Event::SlotTaken(false) => Outcome {
            stage: Stage::Finished,
            effects: seq![EffectV::Reply(too_many_concurrent_text(Lang::En, p.max_per_user as nat))],
            next: None,
        },
        Event::SlotTaken(true) => Outcome {
            stage: Stage::PermitWait,
            effects: seq![EffectV::RegisterNotify],
            next: Some(RequestV::AcquirePermit),
        },
        Event::PermitGranted(false) => Outcome {
            stage: Stage::Finished,
            effects: seq![EffectV::UnregisterNotify, EffectV::ReleaseSlot],
            next: None,
        },
        Event::PermitGranted(true) => Outcome {
            stage: Stage::ProgressOpen,
            effects: seq![EffectV::RegisterDownload],
            next: Some(RequestV::OpenProgress),
        },
        Event::ProgressOpened(false) => Outcome { stage: Stage::Finished, effects: release_all(), next: None },
        Event::ProgressOpened(true) => Outcome { stage: Stage::Downloading, effects: seq![], next: Some(RequestV::Download) },
        Event::Downloaded(r) => match p.choice {
            MediaChoice::Video(_) => after_processing(p, r),
            MediaChoice::Audio(_) => match r {
                Ok(_) => Outcome {
                    stage: Stage::Converting,
                    effects: seq![EffectV::EditProgress(converting(Lang::En)@)],
                    next: Some(RequestV::Convert),
                },
                Err(e) => after_processing(p, Err(e)),
            },
        },
        Event::Converted(r) => after_processing(p, r),
        Event::Uploaded(Ok(Some(f))) => Outcome {
            stage: Stage::Finished,
            effects: seq![EffectV::StoreFileId(f@), EffectV::DeleteProgress, EffectV::Cleanup],
            next: None,
        },
        Event::Uploaded(Ok(None)) => Outcome {
            stage: Stage::Finished,
            effects: seq![EffectV::DeleteProgress, EffectV::Cleanup],
            next: None,
        },
        Event::Uploaded(Err(raw)) => Outcome {
            stage: Stage::Finished,
            effects: seq![EffectV::EditProgress(upload_error_text(raw@)), EffectV::Cleanup],
            next: None,
        },
    }
}

// ---------------------------------------------------------------------------
// Execution
// ---------------------------------------------------------------------------

impl Pipeline {
    /// A new pipeline; its first request is [`Request::CheckRate`].
    pub fn start(choice: MediaChoice, max_per_user: usize, standard_api: bool) -> (r: (Pipeline, Request))
        ensures
            r.0 == (Pipeline { choice, stage: Stage::RateCheck, max_per_user, standard_api }),
            next_view(Some(r.1)) == Some(RequestV::CheckRate),
    {
        (Pipeline { choice, stage: Stage::RateCheck, max_per_user, standard_api }, Request::CheckRate)
    }

    /// The file-id cache format of the choice: `video` or `audio`.
    pub fn cache_format(&self) -> (r: &'static str)
        ensures
            r@ == (match self.choice {
                MediaChoice::Video(_) => "video"@,
                MediaChoice::Audio(_) => "audio"@,
            }),
    {
        match self.choice {
            MediaChoice::Video(_) => "video",
            MediaChoice::Audio(_) => "audio",
        }
    }

    /// The quality code of the choice (cache key part).
    pub fn quality_code(&self) -> (r: &'static str)
        ensures
            r@ == (match self.choice {
                MediaChoice::Video(q) => q.as_str()@,
                MediaChoice::Audio(q) => q.as_str()@,
            }),
    {
        match self.choice {
            MediaChoice::Video(q) => q.as_str(),
            MediaChoice::Audio(q) => q.as_str(),
        }
    }

    /// Whether `ev` is the outcome of the request the pipeline waits for
    /// (what [`Pipeline::step`] requires).
    pub fn expects(&self, ev: &Event) -> (r: bool)
        ensures
            r == fits(self.stage, *ev),
    {
        match (self.stage, ev) {
            (Stage::RateCheck, Event::RateChecked(_)) => true,
            (Stage::CacheLookup, Event::CacheLooked(_)) => true,
            (Stage::CachedSend, Event::CachedSent(_)) => true,
            (Stage::SlotTake, Event::SlotTaken(_)) => true,
            (Stage::PermitWait, Event::PermitGranted(_)) => true,
            (Stage::ProgressOpen, Event::ProgressOpened(_)) => true,
            (Stage::Downloading, Event::Downloaded(_)) => true,
            (Stage::Converting, Event::Converted(_)) => true,
            (Stage::Uploading, Event::Uploaded(_)) => true,
            _ => false,
        }
    }

    /// The failure / refusal / upload-start effects after the last
    /// processing stage.
    fn finish_processing(&mut self, r: Result<u64, Error>) -> (d: Decision)
        ensures
            final(self).stage == after_processing(*old(self), r).stage,
            final(self).choice == old(self).choice,
            final(self).max_per_user == old(self).max_per_user,
            final(self).standard_api == old(self).standard_api,
            effects_view(d.effects@) == after_processing(*old(self), r).effects,
            next_view(d.next) == after_processing(*old(self), r).next,
    {
        let mut effects: Vec<Effect> = Vec::new();
        effects.push(Effect::UnregisterDownload);
        effects.push(Effect::UnregisterNotify);
        effects.push(Effect::ReleaseSlot);
        let next = match r {
            Err(e) => {
                effects.push(Effect::EditProgress(e.user_message(Lang::En)));
                effects.push(Effect::Cleanup);
                self.stage = Stage::Finished;
                None
            },
            Ok(size) => {
                if exceeds_standard_limit(size) && self.standard_api {
                    effects.push(Effect::EditProgress(owned(over_limit(Lang::En))));
                    effects.push(Effect::Cleanup);
                    self.stage = Stage::Finished;
                    None
                } else {
                    let text = match self.choice {
                        MediaChoice::Video(_) => owned(uploading(Lang::En)),
                        MediaChoice::Audio(_) => owned(uploading_audio(Lang::En)),
                    };
                    effects.push(Effect::EditProgress(text));
                    self.stage = Stage::Uploading;
                    Some(Request::Upload)
                }
            },
        };
        proof {
            assert(effects_view(effects@) =~= after_processing(*old(self), r).effects);
        }
        Decision { effects, next }
    }

    /// Feed the outcome of the current request; get the effects to perform
    /// and the next request.
    pub fn step(&mut self, ev: Event) -> (d: Decision)
        requires
            fits(old(self).stage, ev),
        ensures
            final(self).stage == transition(*old(self), ev).stage,
            final(self).choice == old(self).choice,
            final(self).max_per_user == old(self).max_per_user,
            final(self).standard_api == old(self).standard_api,
            effects_view(d.effects@) == transition(*old(self), ev).effects,
            next_view(d.next) == transition(*old(self), ev).next,
    {
        let mut effects: Vec<Effect> = Vec::new();
        let next = match ev {
            Event::RateChecked(Err(e)) => {
                effects.push(Effect::Reply(e.user_message(Lang::En)));
                self.stage = Stage::Finished;
                None
            },
            Event::RateChecked(Ok(_)) => {
                self.stage = Stage::CacheLookup;
                Some(Request::LookupCache)
            },
            Event::CacheLooked(Some(f)) => {
                self.stage = Stage::CachedSend;
                Some(Request::SendCached(f))
            },
            Event::CacheLooked(None) => {
                self.stage = Stage::SlotTake;
                Some(Request::TakeSlot)
            },
            Event::CachedSent(sent) => {
                if sent {
                    self.stage = Stage::Finished;
                    None
                } else {
                    self.stage = Stage::SlotTake;
                    Some(Request::TakeSlot)
                }
            },
            Event::SlotTaken(granted) => {
                if granted {
                    effects.push(Effect::RegisterNotify);
                    self.stage = Stage::PermitWait;
                    Some(Request::AcquirePermit)
                } else {
                    let e = Error::TooManyConcurrent { max: self.max_per_user };
                    effects.push(Effect::Reply(e.user_message(Lang::En)));
                    self.stage = Stage::Finished;
                    None
                }
            },
            Event::PermitGranted(granted) => {
                if granted {
                    effects.push(Effect::RegisterDownload);
                    self.stage = Stage::ProgressOpen;
                    Some(Request::OpenProgress)
                } else {
                    effects.push(Effect::UnregisterNotify);
                    effects.push(Effect::ReleaseSlot);
                    self.stage = Stage::Finished;
                    None
                }
            },
            Event::ProgressOpened(opened) => {
                if opened {
                    self.stage = Stage::Downloading;
                    Some(Request::Download)
                } else {
                    effects.push(Effect::UnregisterDownload);
                    effects.push(Effect::UnregisterNotify);
                    effects.push(Effect::ReleaseSlot);
                    self.stage = Stage::Finished;
                    None
                }
            },
            Event::Downloaded(r) => {
                match self.choice {
                    MediaChoice::Video(_) => {
                        let d = self.finish_processing(r);
                        return d;
                    },
                    MediaChoice::Audio(_) => {
                        match r {
                            Ok(_) => {
                                effects.push(Effect::EditProgress(owned(converting(Lang::En))));
                                self.stage = Stage::Converting;
                                Some(Request::Convert)
                            },
                            Err(e) => {
                                let d = self.finish_processing(Err(e));
                                return d;
                            },
                        }
                    },
                }
            },
            Event::Converted(r) => {
                let d = self.finish_processing(r);
                return d;
            },
            Event::Uploaded(Ok(Some(f))) => {
                effects.push(Effect::StoreFileId(f));
                effects.push(Effect::DeleteProgress);
                effects.push(Effect::Cleanup);
                self.stage = Stage::Finished;
                None
            },
            Event::Uploaded(Ok(None)) => {
                effects.push(Effect::DeleteProgress);
                effects.push(Effect::Cleanup);
                self.stage = Stage::Finished;
                None
            },
            Event::Uploaded(Err(raw)) => {
                effects.push(Effect::EditProgress(upload_error_message(raw.as_str())));
                effects.push(Effect::Cleanup);
                self.stage = Stage::Finished;
                None
            },
        };
        proof {
            assert(effects_view(effects@) =~= transition(*old(self), ev).effects);
        }
        Decision { effects, next }
    }
}

// ---------------------------------------------------------------------------
// Captions
// ---------------------------------------------------------------------------

/// Caption of a video sent from the cache: `{title}\n{label}`.
pub fn cached_video_caption(title: &str, quality: VideoQuality) -> (r: String)
    ensures
        r@ == title@ + "\n"@ + quality.label(Lang::En)@,
{
    let mut v = chars_of(title);
    push_str(&mut v, "\n");
    push_str(&mut v, quality.label(Lang::En));
    string_of(&v)
}

/// Caption of an uploaded video: `{title}\n{label} · {platform}`.
pub fn upload_video_caption(title: &str, quality: VideoQuality, platform: Platform) -> (r: String)
    ensures
        r@ == title@ + "\n"@ + quality.label(Lang::En)@ + " · "@ + platform.as_str()@,
{
    let mut v = chars_of(title);
    push_str(&mut v, "\n");
    push_str(&mut v, quality.label(Lang::En));
    push_str(&mut v, " · ");
    push_str(&mut v, platform.as_str());
    string_of(&v)
}

/// Telegram audio duration: the duration when it fits `u32`.
pub fn audio_duration(duration_secs: Option<u64>) -> (r: Option<u32>)
    ensures
        r == (match duration_secs {
            Some(d) => if d <= u32::MAX {
                Some(d as u32)
            } else {
                None
            },
            None => None,
        }),
{
    match duration_secs {
        Some(d) => if d <= u32::MAX as u64 {
            Some(d as u32)
        } else {
            None
        },
        None => None,
    }
}

// ---------------------------------------------------------------------------
// Laws
// ---------------------------------------------------------------------------

/// The resources a pipeline holds: a per-user slot, a shutdown-notice
/// registration, a cancel-token registration, a temp directory.
pub struct Held {
    pub slot: bool,
    pub notify: bool,
    pub download: bool,
    pub work_dir: bool,
}

/// Nothing held.
pub open spec fn nothing_held() -> Held {
    Held { slot: false, notify: false, download: false, work_dir: false }
}

/// What a pipeline holds while it waits at `stage`.
pub open spec fn held_at(stage: Stage) -> Held {
    match stage {
        Stage::PermitWait => Held { slot: true, notify: true, download: false, work_dir: false },
        Stage::ProgressOpen => Held { slot: true, notify: true, download: true, work_dir: false },
        Stage::Downloading | Stage::Converting => Held { slot: true, notify: true, download: true, work_dir: true },
        Stage::Uploading => Held { slot: false, notify: false, download: false, work_dir: true },
        _ => nothing_held(),
    }
}

/// What the outcome of a request adds: a granted slot, or the temp
/// directory that the download request creates.
pub open spec fn gained(h: Held, ev: Event, next: Option<RequestV>) -> Held {
    Held {
        slot: h.slot || ev == Event::SlotTaken(true),
        notify: h.notify,
        download: h.download,
        work_dir: h.work_dir || next == Some(RequestV::Download),
    }
}

/// An effect acts on a resource in the right state: registers what is not
/// held, releases what is.
pub open spec fn effect_ok(h: Held, e: EffectV) -> bool {
    match e {
        EffectV::RegisterNotify => !h.notify,
        EffectV::UnregisterNotify => h.notify,
        EffectV::RegisterDownload => !h.download,
        EffectV::UnregisterDownload => h.download,
        EffectV::ReleaseSlot => h.slot,
        EffectV::Cleanup => h.work_dir,
        _ => true,
    }
}

/// What is held after an effect.
pub open spec fn apply_effect(h: Held, e: EffectV) -> Held {
    match e {
        EffectV::RegisterNotify => Held { notify: true, ..h },
        EffectV::UnregisterNotify => Held { notify: false, ..h },
        EffectV::RegisterDownload => Held { download: true, ..h },
        EffectV::UnregisterDownload => Held { download: false, ..h },
        EffectV::ReleaseSlot => Held { slot: false, ..h },
        EffectV::Cleanup => Held { work_dir: false, ..h },
        _ => h,
    }
}

/// Every effect of the list acts on a resource in the right state.
pub open spec fn effects_ok(h: Held, es: Seq<EffectV>) -> bool
    decreases es.len(),
{
    es.len() == 0 || (effect_ok(h, es[0]) && effects_ok(apply_effect(h, es[0]), es.drop_first()))
}

/// What is held after the effects.
pub open spec fn apply_effects(h: Held, es: Seq<EffectV>) -> Held
    decreases es.len(),
{
    if es.len() == 0 {
        h
    } else {
        apply_effects(apply_effect(h, es[0]), es.drop_first())
    }
}

/// Order of the stages: every step moves strictly forward.
pub open spec fn rank(stage: Stage) -> nat {
    match stage {
        Stage::RateCheck => 0,
        Stage::CacheLookup => 1,
        Stage::CachedSend => 2,
        Stage::SlotTake => 3,
        Stage::PermitWait => 4,
        Stage::ProgressOpen => 5,
        Stage::Downloading => 6,
        Stage::Converting => 7,
        Stage::Uploading => 8,
        Stage::Finished => 9,
    }
}

proof fn lemma_release_then(h: Held, rest: Seq<EffectV>)
    requires
        h.slot && h.notify && h.download,
    ensures
        effects_ok(h, release_all() + rest) == effects_ok(
            Held { slot: false, notify: false, download: false, work_dir: h.work_dir },
            rest,
        ),
        apply_effects(h, release_all() + rest) == apply_effects(
            Held { slot: false, notify: false, download: false, work_dir: h.work_dir },
            rest,
        ),
{
    let s = release_all() + rest;
    let s1 = s.drop_first();
    let s2 = s1.drop_first();
    let s3 = s2.drop_first();
    assert(s1 =~= seq![EffectV::UnregisterNotify, EffectV::ReleaseSlot] + rest);
    assert(s2 =~= seq![EffectV::ReleaseSlot] + rest);
    assert(s3 =~= rest);
    assert(s[0] == EffectV::UnregisterDownload);
    assert(s1[0] == EffectV::UnregisterNotify);
    assert(s2[0] == EffectV::ReleaseSlot);
    let h1 = apply_effect(h, s[0]);
    let h2 = apply_effect(h1, s1[0]);
    let h3 = apply_effect(h2, s2[0]);
    assert(h3 == Held { slot: false, notify: false, download: false, work_dir: h.work_dir });
    assert(effects_ok(h, s) == (effect_ok(h, s[0]) && effects_ok(h1, s1)));
    assert(effects_ok(h1, s1) == (effect_ok(h1, s1[0]) && effects_ok(h2, s2)));
    assert(effects_ok(h2, s2) == (effect_ok(h2, s2[0]) && effects_ok(h3, s3)));
    assert(apply_effects(h, s) == apply_effects(h1, s1));
    assert(apply_effects(h1, s1) == apply_effects(h2, s2));
    assert(apply_effects(h2, s2) == apply_effects(h3, s3));
}

/// Resource accounting of the pipelines: at every step, each effect
/// registers only what is not held and releases only what is, and what is
/// held afterwards is exactly what the next stage holds. In particular a
/// finished pipeline holds nothing: the user's slot, the notice and cancel
/// registrations and the temp directory are all given back on every exit.
/// Each step also moves strictly forward, so a run finishes after at most
/// nine steps, and it requests nothing more exactly when it is finished.
pub proof fn lemma_pipeline_accounting(p: Pipeline, ev: Event)
    requires
        fits(p.stage, ev),
    ensures
        ({
            let o = transition(p, ev);
            let h = gained(held_at(p.stage), ev, o.next);
            &&& effects_ok(h, o.effects)
            &&& apply_effects(h, o.effects) == held_at(o.stage)
            &&& rank(o.stage) > rank(p.stage)
            &&& (o.next is None <==> o.stage == Stage::Finished)
            &&& (o.stage == Stage::Finished ==> held_at(o.stage) == nothing_held())
        }),
{
    let o = transition(p, ev);
    let h = gained(held_at(p.stage), ev, o.next);
    reveal_with_fuel(effects_ok, 4);
    reveal_with_fuel(apply_effects, 4);
    match ev {
        Event::Downloaded(r) => {
            match (p.choice, r) {
                (MediaChoice::Audio(_), Ok(_)) => {},
                _ => {
                    lemma_release_then(h, o.effects.subrange(3, o.effects.len() as int));
                    assert(o.effects =~= release_all() + o.effects.subrange(3, o.effects.len() as int));
                },
            }
        },
        Event::Converted(_) => {
            lemma_release_then(h, o.effects.subrange(3, o.effects.len() as int));
            assert(o.effects =~= release_all() + o.effects.subrange(3, o.effects.len() as int));
        },
        Event::ProgressOpened(false) => {
            lemma_release_then(h, seq![]);
            assert(o.effects =~= release_all() + seq![]);
        },
        _ => {},
    }
}

/// The file-id cache spares a second download: a finished upload that
/// Telegram reports with a file id stores that id; a later run whose lookup
/// finds an id asks to send exactly that id, and once it is sent the run
/// finishes with nothing more to do (no slot, no permit, no download). A send
/// that fails (a stale id) falls back to the download path.
pub proof fn lemma_cache_spares_download(p: Pipeline, q: Pipeline, f: String)
    requires
        p.stage == Stage::Uploading,
        q.stage == Stage::CacheLookup,
    ensures
        transition(p, Event::Uploaded(Ok(Some(f)))).effects[0] == EffectV::StoreFileId(f@),
        transition(q, Event::CacheLooked(Some(f))).next == Some(RequestV::SendCached(f@)),
        transition(q, Event::CacheLooked(Some(f))).effects.len() == 0,
        ({
            let sent = Pipeline { stage: transition(q, Event::CacheLooked(Some(f))).stage, ..q };
            &&& transition(sent, Event::CachedSent(true)).stage == Stage::Finished
            &&& transition(sent, Event::CachedSent(true)).effects.len() == 0
            &&& transition(sent, Event::CachedSent(true)).next is None
            &&& transition(sent, Event::CachedSent(false)).next == Some(RequestV::TakeSlot)
        }),
{
}

/// On the standard Bot API a finished file over 50 MB is never uploaded, for
/// either media kind: when the video comes out of the download, or the MP3
/// out of the conversion, larger than 50 000 000 bytes, the step gives back
/// every resource, shows the over-limit text, removes the temp directory and
/// finishes without requesting anything. An audio download is always
/// converted first, whatever its size. Within the limit, or with a Local Bot
/// API Server, the file goes on to the upload.
pub proof fn lemma_oversized_files_not_uploaded(p: Pipeline, size: u64)
    ensures
        ({
            let ready = (p.stage == Stage::Downloading && p.choice is Video)
                || (p.stage == Stage::Converting && p.choice is Audio);
            let ev = if p.stage == Stage::Downloading {
                Event::Downloaded(Ok(size))
            } else {
                Event::Converted(Ok(size))
            };
            let o = transition(p, ev);
            &&& ready && p.standard_api && size > 50_000_000 ==> {
                &&& o.stage == Stage::Finished
                &&& o.next is None
                &&& o.effects == seq![
                    EffectV::UnregisterDownload,
                    EffectV::UnregisterNotify,
                    EffectV::ReleaseSlot,
                    EffectV::EditProgress(over_limit(Lang::En)@),
                    EffectV::Cleanup,
                ]
            }
            &&& ready && !(p.standard_api && size > 50_000_000) ==> {
                &&& o.stage == Stage::Uploading
                &&& o.next == Some(RequestV::Upload)
            }
        }),
        p.stage == Stage::Downloading && p.choice is Audio ==> {
            let o = transition(p, Event::Downloaded(Ok(size)));
            &&& o.stage == Stage::Converting
            &&& o.next == Some(RequestV::Convert)
        },
{
    assert(release_all() + seq![EffectV::EditProgress(over_limit(Lang::En)@), EffectV::Cleanup] =~= seq![
        EffectV::UnregisterDownload,
        EffectV::UnregisterNotify,
        EffectV::ReleaseSlot,
        EffectV::EditProgress(over_limit(Lang::En)@),
        EffectV::Cleanup,
    ]);
}

} // verus!
