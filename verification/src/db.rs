//! Decisions around the persisted settings and playback history: the device
//! UUID kept across runs, and when a saved position is still worth resuming.
use vstd::prelude::*;
use crate::text::{chars_of, trim, trim_chars, trim_end, trim_start};
use crate::dlna_renderer::{is_uuid_text, new_uuid};

verus! {

/// The settings key under which the renderer's UUID is persisted.
pub const DEVICE_UUID_KEY: &'static str = "dlna_device_uuid";

/// How many history entries are kept and listed.
pub const HISTORY_LIMIT: i64 = 100;

/// A stored UUID is reused when its trimmed text is non-empty.
pub open spec fn reusable_uuid(stored: Option<Seq<char>>) -> bool {
    stored matches Some(u) && trim(u).len() > 0
}

/// The device UUID given what the settings hold: the stored one when usable,
/// otherwise a fresh random one that the caller must persist (`r.1`).
pub fn get_or_create_device_uuid(stored: Option<String>) -> (r: (String, bool))
    ensures
        match stored {
            Some(u) => reusable_uuid(Some(u@)) ==> r.0@ == u@ && !r.1,
            None => true,
        },
        !reusable_uuid(
            match stored {
                Some(u) => Some(u@),
                None => None,
            },
        ) ==> r.1 && is_uuid_text(r.0@),
{
    match stored {
        Some(u) => {
            let t = trim_chars(&chars_of(u.as_str()));
            if t.len() > 0 {
                return (u, false);
            }
        },
        None => {},
    }
    (new_uuid(), true)
}

/// The device UUID is fixed per install: a UUID created on one start (and
/// persisted) is non-blank, so every later start reuses it unchanged; a reused
/// one is likewise reused again.
pub proof fn law_device_uuid_stable(stored: Option<Seq<char>>, first: Seq<char>)
    requires
        (reusable_uuid(stored) && stored == Some(first)) || is_uuid_text(first),
    ensures
        reusable_uuid(Some(first)),
{
    if is_uuid_text(first) {
        assert(!crate::text::spec_is_whitespace(first[0]));
        assert(trim_start(first) == first);
        assert(first.last() == first[35]);
        assert(!crate::text::spec_is_whitespace(first.last()));
        assert(trim_end(first) == first);
    }
}

/// What reading a saved position leads to.
#[derive(Clone, Copy, PartialEq, Eq, Structural, Debug)]
pub enum ProgressDecision {
    /// Resume from the saved position.
    Resume,
    /// Start over and delete the record (it is completed, or was watched to
    /// 95% or more).
    ClearAndRestart,
}

/// The decision for a saved record: a completed one, or one watched to 95% of
/// a positive duration, is cleared and playback starts over; others resume.
pub open spec fn progress_decision_of(completed: bool, nearly_done: bool) -> ProgressDecision {
    if completed || nearly_done {
        ProgressDecision::ClearAndRestart
    } else {
        ProgressDecision::Resume
    }
}

/// Decides what to do with a saved record, given its completed flag and
/// whether its position reached 95% of a positive duration.
pub fn progress_decision(completed: bool, nearly_done: bool) -> (r: ProgressDecision)
    ensures
        r == progress_decision_of(completed, nearly_done),
{
    if completed || nearly_done {
        ProgressDecision::ClearAndRestart
    } else {
        ProgressDecision::Resume
    }
}

} // verus!
