//! Throttling of progress-message edits.
//!
//! Telegram allows about one message per second per chat; edits go out at
//! most once per 3 s, unchanged text is never re-sent, and a forced edit
//! (the final 100%) always goes through. Times are milliseconds on one
//! monotonic clock.
use vstd::prelude::*;

use crate::text::{chars_of, same_chars, string_of};

verus! {

/// Minimum time between two unforced edits, in milliseconds.
pub const EDIT_INTERVAL_MS: u64 = 3000;

/// Whether an edit may go out now.
pub open spec fn edit_allowed(last_edit: Option<u64>, now: u64, text_changed: bool, force: bool) -> bool {
    if force {
        true
    } else if !text_changed {
        false
    } else {
        match last_edit {
            None => true,
            Some(t) => now >= t && now - t >= EDIT_INTERVAL_MS,
        }
    }
}

/// Decide whether to edit: forced edits always, unchanged text never,
/// otherwise when no edit was made yet or the last one is at least
/// [`EDIT_INTERVAL_MS`] old (a last edit "in the future" counts as just now).
pub fn should_edit(last_edit: Option<u64>, now: u64, text_changed: bool, force: bool) -> (r: bool)
    ensures
        r == edit_allowed(last_edit, now, text_changed, force),
{
    if force {
        return true;
    }
    if !text_changed {
        return false;
    }
    match last_edit {
        None => true,
        Some(t) => {
            let elapsed: u64 = if now >= t {
                now - t
            } else {
                0
            };
            elapsed >= EDIT_INTERVAL_MS
        },
    }
}

/// What one progress message last showed, and when.
pub struct ProgressThrottle {
    last_edit: Option<u64>,
    last_text: Vec<char>,
}

impl ProgressThrottle {
    /// When the last edit went out, if any.
    pub closed spec fn last_edit_at(&self) -> Option<u64> {
        self.last_edit
    }

    /// The text of the last edit (empty before the first).
    pub closed spec fn last_text_of(&self) -> Seq<char> {
        self.last_text@
    }

    /// A fresh throttle: no edit yet, empty text.
    pub fn new() -> (r: ProgressThrottle)
        ensures
            r.last_edit_at() is None,
            r.last_text_of() == Seq::<char>::empty(),
    {
        ProgressThrottle { last_edit: None, last_text: Vec::new() }
    }

    /// Should `text` be sent now?
    pub fn wants_edit(&self, text: &str, now: u64, force: bool) -> (r: bool)
        ensures
            r == edit_allowed(self.last_edit_at(), now, text@ != self.last_text_of(), force),
    {
        let t = chars_of(text);
        let same = same_chars(&t, &self.last_text);
        should_edit(self.last_edit, now, !same, force)
    }

    /// Record that `text` was sent at `now`.
    pub fn record_edit(&mut self, text: &str, now: u64)
        ensures
            final(self).last_edit_at() == Some(now),
            final(self).last_text_of() == text@,
    {
        self.last_edit = Some(now);
        self.last_text = chars_of(text);
    }

    /// The text of the last edit, as a `String`.
    pub fn last_text(&self) -> (r: String)
        ensures
            r@ == self.last_text_of(),
    {
        string_of(&self.last_text)
    }
}

/// After an edit of `text` at `t`: the same text is never re-sent unless
/// forced, and no unforced edit goes out before [`EDIT_INTERVAL_MS`] has
/// passed; once it has, a changed text goes out.
pub proof fn lemma_edits_are_throttled(t: u64, text: Seq<char>, next: Seq<char>, now: u64)
    ensures
        !edit_allowed(Some(t), now, text != text, false),
        now < t + EDIT_INTERVAL_MS ==> !edit_allowed(Some(t), now, next != text, false),
        now >= t + EDIT_INTERVAL_MS && next != text ==> edit_allowed(Some(t), now, next != text, false),
        edit_allowed(Some(t), now, next != text, true),
{
}

} // verus!
