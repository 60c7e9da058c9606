//! What a track row of the track panels shows: whether it is the track
//! being resolved, the one playing or the one that played before, whether
//! its download button shows, and the texts of the artist view's album
//! headers.

use vstd::prelude::*;
use crate::feedback::quoted;
use crate::text::{decimal, u64_to_string};
use crate::transfer::DownloadPurpose;

verus! {

/// How a track row stands to playback.
#[derive(Clone, Copy, Debug, PartialEq, Eq, Structural)]
pub struct TrackRowHighlight {
    /// The track is the one being resolved to play.
    pub pending: bool,
    /// The track is the one playing.
    pub current_playing: bool,
    /// The track plays while another is being resolved.
    pub previous_playing: bool,
    /// The row is highlighted: it is the pending track, or with none
    /// pending the playing one.
    pub active: bool,
}

/// The highlight of a row by its track key, given the keys of the pending
/// track and of the playing one.
pub open spec fn highlight_of(pending_key: Option<Seq<char>>, current_key: Option<Seq<char>>, key: Seq<char>) -> TrackRowHighlight {
    let pending = pending_key == Some(key);
    let current_playing = current_key == Some(key);
    TrackRowHighlight {
        pending,
        current_playing,
        previous_playing: pending_key is Some && current_playing && !pending,
        active: match pending_key {
            Some(p) => p == key,
            None => current_key == Some(key),
        },
    }
}

/// Whether two optional texts are the same text.
fn same_key(a: Option<&str>, b: &str) -> (r: bool)
    ensures
        r == (match a { Some(x) => x@ == b@, None => false }),
{
    match a {
        Some(x) => crate::textorder::str_equal(x, b),
        None => false,
    }
}

/// The highlight of a track row.
pub fn track_row_highlight(pending_key: Option<&str>, current_key: Option<&str>, key: &str) -> (r: TrackRowHighlight)
    ensures
        r == highlight_of(
            match pending_key { Some(p) => Some(p@), None => None },
            match current_key { Some(c) => Some(c@), None => None },
            key@,
        ),
{
    let pending = same_key(pending_key, key);
    let current_playing = same_key(current_key, key);
    let active = match pending_key {
        Some(_) => pending,
        None => current_playing,
    };
    TrackRowHighlight {
        pending,
        current_playing,
        previous_playing: pending_key.is_some() && current_playing && !pending,
        active,
    }
}

/// Whether a row offers its download button: the track is not cached and
/// is not being fetched ahead of playback.
pub fn shows_download_action(is_cached: bool, active_download: Option<DownloadPurpose>) -> (r: bool)
    ensures
        r == (!is_cached && active_download != Some(DownloadPurpose::PlaybackPrefetch)),
{
    !is_cached && match active_download {
        Some(DownloadPurpose::PlaybackPrefetch) => false,
        _ => true,
    }
}

/// Whether the user's own download of the track is under way (the button
/// then cancels it).
pub fn explicit_download_active(active_download: Option<DownloadPurpose>) -> (r: bool)
    ensures
        r == (active_download == Some(DownloadPurpose::Explicit)),
{
    match active_download {
        Some(DownloadPurpose::Explicit) => true,
        _ => false,
    }
}

/// The second line of an album header in the artist view:
/// `Album  •  <n> track(s)  •  Open album`.
pub fn artist_album_header_line(track_count: u64) -> (r: String)
    ensures
        r@ == "Album  •  "@ + decimal(track_count as nat) + " track(s)  •  Open album"@,
{
    let mut r = String::from_str("Album  •  ");
    r.append(u64_to_string(track_count).as_str());
    r.append(" track(s)  •  Open album");
    r
}

/// The status line after an album header of the artist view was opened:
/// `Showing '<album>' from '<artist>'.`
pub fn showing_album_status(album: &str, artist: &str) -> (r: String)
    ensures
        r@ == "Showing "@ + quoted(album@) + " from "@ + quoted(artist@) + "."@,
{
    proof {
        reveal_strlit("Showing '");
        reveal_strlit("Showing ");
        reveal_strlit("'");
        reveal_strlit("' from '");
        reveal_strlit(" from ");
        reveal_strlit("'.");
        reveal_strlit(".");
    }
    let mut r = String::from_str("Showing '");
    r.append(album);
    r.append("' from '");
    r.append(artist);
    r.append("'.");
    assert(r@ =~= "Showing "@ + quoted(album@) + " from "@ + quoted(artist@) + "."@);
    r
}

} // verus!
