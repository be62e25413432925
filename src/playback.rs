//! The playback state value and the single most-recent-wins cell that holds it.

use vstd::prelude::*;
use crate::text::chars_of;

verus! {

/// Whether the page's player is currently playing.
#[derive(Debug, Clone, Copy, PartialEq, Eq, Structural)]
pub enum PlayState {
    Playing,
    Paused,
}

/// `c` with ASCII capitals taken to lower case, as a code point.
pub open spec fn folded(c: char) -> u32 {
    if 'A' <= c && c <= 'Z' {
        (c as u32 + 32) as u32
    } else {
        c as u32
    }
}

pub open spec fn pause_word() -> Seq<char> {
    seq!['p', 'a', 'u', 's', 'e']
}

/// "pause", in any casing, starts at position `i` of `s`.
pub open spec fn pause_at(s: Seq<char>, i: int) -> bool {
    0 <= i && i + 5 <= s.len() && forall|j: int|
        0 <= j < 5 ==> folded(#[trigger] s[i + j]) == pause_word()[j] as u32
}

/// The label contains "pause" in any casing.
pub open spec fn mentions_pause(s: Seq<char>) -> bool {
    exists|i: int| pause_at(s, i)
}

fn fold_char(c: char) -> (r: u32)
    ensures
        r == folded(c),
{
    if 'A' <= c && c <= 'Z' {
        c as u32 + 32
    } else {
        c as u32
    }
}

fn pause_letter(j: usize) -> (c: char)
    requires
        j < 5,
    ensures
        c == pause_word()[j as int],
{
    if j == 0 {
        'p'
    } else if j == 1 {
        'a'
    } else if j == 2 {
        'u'
    } else if j == 3 {
        's'
    } else {
        'e'
    }
}

fn pause_at_index(cs: &Vec<char>, i: usize) -> (r: bool)
    requires
        i + 5 <= cs.len(),
    ensures
        r == pause_at(cs@, i as int),
{
    let mut j: usize = 0;
    while j < 5
        invariant
            i + 5 <= cs.len(),
            0 <= j <= 5,
            forall|k: int| 0 <= k < j ==> folded(#[trigger] cs@[i + k]) == pause_word()[k] as u32,
        decreases 5 - j,
    {
        if fold_char(cs[i + j]) != pause_letter(j) as u32 {
            assert(folded(cs@[i + j as int]) != pause_word()[j as int] as u32);
            return false;
        }
        j = j + 1;
    }
    true
}

impl PlayState {
    /// What a play/pause control's accessible label says: a label that
    /// offers to pause means the player is playing.
    pub open spec fn of_label(label: Seq<char>) -> PlayState {
        if mentions_pause(label) {
            PlayState::Playing
        } else {
            PlayState::Paused
        }
    }

    /// Playing when `label` contains "pause" in any casing ("Pause",
    /// "PAUSE"), paused otherwise.
    pub fn from_label(label: &str) -> (r: PlayState)
        ensures
            r == PlayState::of_label(label@),
    {
        let cs = chars_of(label);
        if cs.len() < 5 {
            assert(!mentions_pause(label@));
            return PlayState::Paused;
        }
        let mut i: usize = 0;
        while i <= cs.len() - 5
            invariant
                cs@ == label@,
                5 <= cs.len(),
                i <= cs.len() - 4,
                forall|k: int| 0 <= k < i ==> !pause_at(cs@, k),
            decreases cs.len() - i,
        {
            if pause_at_index(&cs, i) {
                return PlayState::Playing;
            }
            i = i + 1;
        }
        assert forall|k: int| !pause_at(cs@, k) by {
            if 0 <= k < i {
            }
        }
        PlayState::Paused
    }
}

/// Snapshot of what the hosted page is playing. Each update replaces the
/// whole value; `progress <= duration` is not enforced.
#[derive(Debug, Clone)]
pub struct PlaybackState {
    pub title: String,
    pub artist: String,
    pub album: String,
    pub state: PlayState,
    pub progress: u64,
    pub duration: u64,
}

impl PlaybackState {
    /// Empty title, artist and album, paused, at zero of zero seconds.
    pub open spec fn is_initial(&self) -> bool {
        &&& self.title@.len() == 0
        &&& self.artist@.len() == 0
        &&& self.album@.len() == 0
        &&& self.state == PlayState::Paused
        &&& self.progress == 0
        &&& self.duration == 0
    }

    /// A field-by-field copy.
    pub fn snapshot(&self) -> (r: PlaybackState)
        ensures
            r == *self,
    {
        PlaybackState {
            title: self.title.clone(),
            artist: self.artist.clone(),
            album: self.album.clone(),
            state: self.state,
            progress: self.progress,
            duration: self.duration,
        }
    }
}

impl Default for PlaybackState {
    fn default() -> (r: PlaybackState)
        ensures
            r.is_initial(),
    {
        PlaybackState {
            title: String::new(),
            artist: String::new(),
            album: String::new(),
            state: PlayState::Paused,
            progress: 0,
            duration: 0,
        }
    }
}

/// The fixed loopback port that the beacon listener binds and that the
/// scraper script targets.
pub const POLL_SERVER_PORT: u16 = 38475;

/// The cell's value after one beacon: a decoded state replaces it whole,
/// a payload that did not decode leaves it as it was.
pub open spec fn after_beacon(
    last: Option<PlaybackState>,
    decoded: Option<PlaybackState>,
) -> Option<PlaybackState> {
    match decoded {
        Some(s) => Some(s),
        None => last,
    }
}

/// The cell's value after beacons processed in arrival order.
pub open spec fn after_beacons(
    last: Option<PlaybackState>,
    arrivals: Seq<Option<PlaybackState>>,
) -> Option<PlaybackState>
    decreases arrivals.len(),
{
    if arrivals.len() == 0 {
        last
    } else {
        after_beacons(after_beacon(last, arrivals[0]), arrivals.skip(1))
    }
}

/// The last decoded state among `arrivals`, or `last` if none decoded.
pub open spec fn latest_decoded(
    last: Option<PlaybackState>,
    arrivals: Seq<Option<PlaybackState>>,
) -> Option<PlaybackState>
    decreases arrivals.len(),
{
    if arrivals.len() == 0 {
        last
    } else if arrivals.last() is Some {
        arrivals.last()
    } else {
        latest_decoded(last, arrivals.drop_last())
    }
}

/// The bridge's process-wide state: the port its listener is bound to (0
/// while unbound) and the single most-recent-wins playback slot, empty
/// until the first beacon. Its owner shares it behind one lock; readers
/// get copies.
pub struct PlaybackBridge {
    poll_port: u16,
    last: Option<PlaybackState>,
}

impl PlaybackBridge {
    pub closed spec fn port(&self) -> u16 {
        self.poll_port
    }

    pub closed spec fn latest(&self) -> Option<PlaybackState> {
        self.last
    }

    /// Unbound, with nothing received.
    pub fn new() -> (r: PlaybackBridge)
        ensures
            r.port() == 0,
            r.latest() is None,
    {
        PlaybackBridge { poll_port: 0, last: None }
    }

    /// Records the outcome of the one bind attempt: on success the fixed
    /// port is published; on failure the bridge stays disabled, unbound
    /// and empty as it was.
    pub fn record_bind(&mut self, bound: bool)
        ensures
            final(self).port() == (if bound {
                POLL_SERVER_PORT
            } else {
                old(self).port()
            }),
            final(self).latest() == old(self).latest(),
    {
        if bound {
            self.poll_port = POLL_SERVER_PORT;
        }
    }

    /// The port the listener is bound to, or 0 if it is not.
    pub fn get_poll_port(&self) -> (r: u16)
        ensures
            r == self.port(),
    {
        self.poll_port
    }

    /// Replaces the slot's contents with `state`.
    pub fn set_last_playback(&mut self, state: PlaybackState)
        ensures
            final(self).latest() == Some(state),
            final(self).port() == old(self).port(),
    {
        self.last = Some(state);
    }

    /// A copy of the slot's contents; `None` before the first update.
    pub fn get_last_playback(&self) -> (r: Option<PlaybackState>)
        ensures
            r == self.latest(),
    {
        match &self.last {
            Some(s) => Some(s.snapshot()),
            None => None,
        }
    }

    /// Applies one beacon whose payload has been read: a decoded state
    /// replaces the slot and is to be broadcast (`true`); `None`, a payload
    /// that did not decode, changes nothing.
    pub fn accept_beacon(&mut self, decoded: Option<PlaybackState>) -> (published: bool)
        ensures
            final(self).latest() == after_beacon(old(self).latest(), decoded),
            final(self).port() == old(self).port(),
            published == decoded is Some,
    {
        match decoded {
            Some(s) => {
                self.set_last_playback(s);
                true
            },
            None => false,
        }
    }
}

/// A beacon that decodes is read back whole by the next `get_last_playback`.
pub proof fn lemma_decoded_beacon_read_back(last: Option<PlaybackState>, s: PlaybackState)
    ensures
        after_beacon(last, Some(s)) == Some(s),
{
}

/// A beacon that does not decode leaves the slot as it was.
pub proof fn lemma_malformed_beacon_ignored(last: Option<PlaybackState>)
    ensures
        after_beacon(last, None) == last,
{
}

/// Most recent wins: after any run of beacons the slot holds the last one
/// that decoded (in arrival order), or its earlier value if none did.
pub proof fn lemma_most_recent_wins(
    last: Option<PlaybackState>,
    arrivals: Seq<Option<PlaybackState>>,
)
    ensures
        after_beacons(last, arrivals) == latest_decoded(last, arrivals),
    decreases arrivals.len(),
{
    if arrivals.len() > 0 {
        let rest = arrivals.skip(1);
        lemma_most_recent_wins(after_beacon(last, arrivals[0]), rest);
        lemma_latest_first(last, arrivals);
    }
}

/// Peeling the first arrival off the front does not change which one is
/// last to decode.
proof fn lemma_latest_first(last: Option<PlaybackState>, arrivals: Seq<Option<PlaybackState>>)
    requires
        arrivals.len() > 0,
    ensures
        latest_decoded(after_beacon(last, arrivals[0]), arrivals.skip(1)) == latest_decoded(
            last,
            arrivals,
        ),
    decreases arrivals.len(),
{
    let rest = arrivals.skip(1);
    if rest.len() == 0 {
        assert(arrivals.drop_last().len() == 0);
        assert(arrivals.last() == arrivals[0]);
    } else {
        assert(rest.last() == arrivals.last());
        assert(rest.drop_last() == arrivals.drop_last().skip(1));
        if arrivals.last() is None {
            lemma_latest_first(last, arrivals.drop_last());
        }
    }
}

} // verus!
