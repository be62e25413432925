//! The lyrics request as the settings UI sends it, and which lyrics
//! provider it goes to. The HTTP exchange itself is the caller's part.

use vstd::prelude::*;

verus! {

/// A lyrics lookup: provider name, track and (for lrclib) its length.
#[derive(Debug, Clone)]
pub struct FetchLyricsArgs {
    pub source: String,
    pub title: String,
    pub artist: String,
    /// Track length in seconds; 0 when not given.
    pub duration: u64,
}

/// The lyrics providers that a request can name.
#[derive(Debug, Clone, Copy, PartialEq, Eq, Structural)]
pub enum LyricsSource {
    Lrclib,
    LyricsOvh,
    Genius,
}

impl LyricsSource {
    pub open spec fn named(name: Seq<char>) -> Option<LyricsSource> {
        if name == "lrclib"@ {
            Some(LyricsSource::Lrclib)
        } else if name == "lyricsovh"@ {
            Some(LyricsSource::LyricsOvh)
        } else if name == "genius"@ {
            Some(LyricsSource::Genius)
        } else {
            None
        }
    }

    /// The provider called `name`; `None` for an unknown name, which
    /// yields no lyrics.
    pub fn from_name(name: &str) -> (r: Option<LyricsSource>)
        ensures
            r == LyricsSource::named(name@),
    {
        let n = String::from_str(name);
        if n == String::from_str("lrclib") {
            Some(LyricsSource::Lrclib)
        } else if n == String::from_str("lyricsovh") {
            Some(LyricsSource::LyricsOvh)
        } else if n == String::from_str("genius") {
            Some(LyricsSource::Genius)
        } else {
            None
        }
    }
}

/// The search text for the Genius provider: the title alone when the
/// artist is unknown, else artist and title separated by a space.
pub open spec fn genius_query_text(title: Seq<char>, artist: Seq<char>) -> Seq<char> {
    if artist.len() == 0 {
        title
    } else {
        artist + " "@ + title
    }
}

pub fn genius_query(title: &str, artist: &str) -> (r: String)
    ensures
        r@ == genius_query_text(title@, artist@),
{
    if artist.is_empty() {
        String::from_str(title)
    } else {
        let mut q = String::from_str(artist);
        q.append(" ");
        q.append(title);
        q
    }
}

} // verus!
