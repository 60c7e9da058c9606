//! Starting playback and downloads from a list: the request the player
//! records, and the status lines these actions leave.

use vstd::prelude::*;
use crate::controller::PlaybackError;
use crate::keys::{collection_entity_key, entity_key_view};
use crate::model::TrackList;
use crate::playback::{PendingPlayRequest, opt_list_view};
use crate::time::MediaTime;

verus! {

/// The request to play track `index` of a list, remembering what the
/// discover browser shows and whether that is the same collection; none
/// when the list has no such track.
pub fn play_request(
    playback_context: TrackList,
    index: usize,
    position: Option<MediaTime>,
    browser_track_list: Option<TrackList>,
    browser_collection_id: Option<String>,
) -> (r: Option<PendingPlayRequest>)
    ensures
        index >= playback_context.tracks@.len() ==> r is None,
        index < playback_context.tracks@.len() ==> (r matches Some(q) && q@.request_id == 0
            && q@.playback_context == playback_context@
            && q@.index == index
            && q@.position == position
            && q@.browser_track_list == opt_list_view(browser_track_list)
            && q@.browser_collection_id == crate::model::opt_str(browser_collection_id)
            && q@.browser_contains_track == (match browser_track_list {
                Some(b) => entity_key_view(b.collection.reference) == entity_key_view(playback_context.collection.reference),
                None => false,
            })),
{
    if index >= playback_context.tracks.len() {
        return None;
    }
    let browser_contains_track = match &browser_track_list {
        Some(b) => {
            let a = collection_entity_key(&b.collection.reference);
            let c = collection_entity_key(&playback_context.collection.reference);
            a == c
        },
        None => false,
    };
    Some(PendingPlayRequest {
        request_id: 0,
        playback_context,
        index,
        position,
        browser_track_list,
        browser_collection_id,
        browser_contains_track,
    })
}

/// The status line when playback of a track starts: a cached track starts
/// at once, another is resolved and cached first.
pub fn play_start_message(is_cached: bool) -> (r: &'static str)
    ensures
        r@ == if is_cached { "Starting playback."@ } else { "Resolving, caching, and starting playback"@ },
{
    if is_cached { "Starting playback." } else { "Resolving, caching, and starting playback" }
}

/// Whether a download of a track starts: not when it is cached or already
/// downloading.
pub fn should_start_download(is_cached: bool, is_downloading: bool) -> (r: bool)
    ensures
        r == (!is_cached && !is_downloading),
{
    !is_cached && !is_downloading
}

/// The status line when a track's download starts.
pub fn download_started_message(title: &str) -> (r: String)
    ensures
        r@ == "Downloading '"@ + title@ + "'."@,
{
    let mut r = String::from_str("Downloading '");
    r.append(title);
    r.append("'.");
    r
}

/// The status line when a track's download was cancelled.
pub fn download_cancelled_message(title: &str) -> (r: String)
    ensures
        r@ == "Cancelled download for '"@ + title@ + "'."@,
{
    let mut r = String::from_str("Cancelled download for '");
    r.append(title);
    r.append("'.");
    r
}

/// The status line and notification when the current track could not be
/// started again.
pub fn restart_failure_message(error: &PlaybackError) -> (r: String)
    ensures
        r@ == "Failed to restart playback: "@ + error.message_view(),
{
    let mut r = String::from_str("Failed to restart playback: ");
    let m = error.message();
    r.append(m.as_str());
    r
}

/// The status line when playback stops at the end of the list.
pub fn reached_end_message() -> (r: &'static str)
    ensures
        r@ == "Reached end of track list."@,
{
    "Reached end of track list."
}

} // verus!
