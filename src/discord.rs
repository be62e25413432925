//! What Discord Rich Presence is told about a playback update. Talking to
//! the Discord client is the caller's part; this module decides whether to
//! talk and what to say.

use vstd::prelude::*;
use crate::playback::{PlayState, PlaybackState};
use crate::text::chars_of;
use crate::timecode::all_digits;

verus! {

/// Built-in Discord application ID; empty means no built-in presence.
pub const DEFAULT_CLIENT_ID: &'static str = "";

/// The activity to publish.
#[derive(Debug, Clone)]
pub struct Presence {
    /// The track title.
    pub details: String,
    /// The artist.
    pub state: String,
    /// Start and end of the track in Unix seconds, while it plays.
    pub timestamps: Option<(i64, i64)>,
}

/// An application ID that can be used: a non-empty run of ASCII digits
/// (which also rules out the `REPLACE_...` placeholder).
pub open spec fn usable_client_id(id: Seq<char>) -> bool {
    id.len() > 0 && all_digits(id)
}

/// Start and end of the playing track seen at `now`: it started now and
/// ends after its remaining time, where both fit in an `i64`.
pub open spec fn track_span(p: PlaybackState, now: u64) -> Option<(i64, i64)> {
    let end = now + p.duration - p.progress;
    if p.state == PlayState::Playing && p.duration > 0 && now <= i64::MAX && i64::MIN <= end
        <= i64::MAX {
        Some((now as i64, end as i64))
    } else {
        None
    }
}

/// Whether an update is published: presence enabled and not hidden, a
/// title or an artist to show, and a usable application ID.
pub open spec fn publishes(
    enabled: bool,
    hide_listening: bool,
    client_id: Seq<char>,
    p: PlaybackState,
) -> bool {
    enabled && !hide_listening && (p.title@.len() > 0 || p.artist@.len() > 0) && usable_client_id(
        client_id,
    )
}

fn is_usable_client_id(id: &str) -> (r: bool)
    ensures
        r == usable_client_id(id@),
{
    let cs = chars_of(id);
    if cs.len() == 0 {
        return false;
    }
    let mut i: usize = 0;
    while i < cs.len()
        invariant
            cs@ == id@,
            0 <= i <= cs.len(),
            forall|j: int| 0 <= j < i ==> crate::timecode::is_digit(#[trigger] cs@[j]),
        decreases cs.len() - i,
    {
        if !('0' <= cs[i] && cs[i] <= '9') {
            return false;
        }
        i = i + 1;
    }
    true
}

/// The presence to publish for `playback` at Unix time `now`, or `None`
/// when nothing is to be published: presence disabled or hidden, nothing
/// to show, or no usable application ID. Timestamps are given only while
/// the track plays and has a known duration.
pub fn presence_update(
    enabled: bool,
    hide_listening: bool,
    client_id: &str,
    playback: &PlaybackState,
    now: u64,
) -> (r: Option<Presence>)
    ensures
        r is Some == publishes(enabled, hide_listening, client_id@, *playback),
        r is Some ==> r->0.details@ == playback.title@ && r->0.state@ == playback.artist@
            && r->0.timestamps == track_span(*playback, now),
{
    if !enabled || hide_listening {
        return None;
    }
    if playback.title.as_str().is_empty() && playback.artist.as_str().is_empty() {
        return None;
    }
    if !is_usable_client_id(client_id) {
        return None;
    }
    let mut timestamps: Option<(i64, i64)> = None;
    if playback.state == PlayState::Playing && playback.duration > 0 && now <= i64::MAX as u64 {
        let start = now as i64;
        let end = start as i128 + playback.duration as i128 - playback.progress as i128;
        if i64::MIN as i128 <= end && end <= i64::MAX as i128 {
            timestamps = Some((start, end as i64));
        }
    }
    Some(
        Presence {
            details: playback.title.clone(),
            state: playback.artist.clone(),
            timestamps,
        },
    )
}

} // verus!
