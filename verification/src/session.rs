//! The saved session: what is written on quit and what a restart makes of
//! it.

use vstd::prelude::*;
use crate::browse::{BrowseMode, first_index};
use crate::discover::DiscoverModule;
use crate::keys::{browser_key_view, collection_browser_key, collection_entity_key, entity_key_view};
use crate::model::{
    CollectionSummary, PlaybackStatus, RepeatMode, Track, TrackList, TrackListView, TrackSummary,
    opt_str, text_or_empty,
};
use crate::playback::{PlaybackModule, clone_opt_list, opt_list_view};
use crate::time::MediaTime;

verus! {

/// The session as it is saved.
pub struct SessionSnapshot {
    pub query: String,
    pub browse_mode: BrowseMode,
    pub search_results: Vec<CollectionSummary>,
    pub browser_collection_id: Option<String>,
    pub browser_track_list: Option<TrackList>,
    pub playback_context: Option<TrackList>,
    pub current_track_index: Option<usize>,
    pub playback_status: PlaybackStatus,
    pub repeat_mode: RepeatMode,
    pub shuffle_enabled: bool,
    pub shuffle_seed: u64,
    pub playback_position_seconds: u64,
    pub selected_local_album_id: Option<String>,
    pub selected_local_artist_id: Option<String>,
    pub selected_local_playlist_id: Option<String>,
}

/// Where the library keeps a track's downloaded audio and artwork.
pub struct CachedTrackPaths {
    pub audio_path: String,
    pub artwork_path: Option<String>,
}

/// The application state a restart begins with.
pub struct RestoredSessionState {
    pub query: String,
    pub query_cursor: usize,
    pub browse_mode: BrowseMode,
    pub search_results: Vec<CollectionSummary>,
    pub selected_collection_id: Option<String>,
    pub track_list: Option<TrackList>,
    pub playback_context: Option<TrackList>,
    pub current_track_index: Option<usize>,
    pub now_playing: Option<Track>,
    pub resume_position: MediaTime,
    pub playback_status: PlaybackStatus,
    pub repeat_mode: RepeatMode,
    pub shuffle_enabled: bool,
    pub shuffle_seed: u64,
    pub status_message: String,
    pub selected_local_album_id: Option<String>,
    pub selected_local_artist_id: Option<String>,
    pub selected_local_playlist_id: Option<String>,
}

/// The saved playing list, else the saved browser list.
pub open spec fn restored_context(snap: SessionSnapshot) -> Option<TrackListView> {
    match snap.playback_context {
        Some(l) => Some(l@),
        None => opt_list_view(snap.browser_track_list),
    }
}

/// The track of the restored playing list at the saved index.
pub open spec fn restored_track(snap: SessionSnapshot) -> Option<TrackSummary> {
    match (restored_context(snap), snap.current_track_index) {
        (Some(l), Some(i)) => if i < l.tracks.len() { Some(l.tracks[i as int]) } else { None },
        _ => None,
    }
}

/// A search result named by the saved browser selection, by either key.
pub open spec fn names_selection(sel: Seq<char>) -> spec_fn(CollectionSummary) -> bool {
    |c: CollectionSummary| browser_key_view(c.reference) == sel || entity_key_view(c.reference) == sel
}

/// The opened collection's key: the saved browser list's, else that of the
/// first search result the saved selection names, else the saved selection.
pub open spec fn restored_selection(snap: SessionSnapshot) -> Option<Seq<char>> {
    match snap.browser_track_list {
        Some(l) => Some(entity_key_view(l.collection.reference)),
        None => match snap.browser_collection_id {
            Some(sel) => match first_index(snap.search_results@, names_selection(sel@)) {
                Some(i) => Some(entity_key_view(snap.search_results@[i].reference)),
                None => Some(sel@),
            },
            None => None,
        },
    }
}

/// A track that was playing or buffering comes back paused.
pub open spec fn restored_status(saved: PlaybackStatus, has_track: bool) -> PlaybackStatus {
    if has_track && (saved == PlaybackStatus::Playing || saved == PlaybackStatus::Buffering) {
        PlaybackStatus::Paused
    } else {
        saved
    }
}

/// A restart never reports a track as playing or buffering: no audio runs
/// yet, so a track that was playing comes back paused, and any other saved
/// status comes back as it was.
pub proof fn lemma_restored_not_playing(saved: PlaybackStatus, has_track: bool)
    ensures
        has_track ==> restored_status(saved, has_track) != PlaybackStatus::Playing
            && restored_status(saved, has_track) != PlaybackStatus::Buffering,
        !(saved == PlaybackStatus::Playing || saved == PlaybackStatus::Buffering) ==> restored_status(saved, has_track) == saved,
{
}

/// The track restored as playing: the saved track, played from its
/// download where the library has one, else from its address.
pub open spec fn restored_now_playing(t: TrackSummary, cached: Option<CachedTrackPaths>, r: Track) -> bool {
    &&& r.provider == t.reference.provider
    &&& r.track_id == t.reference.id
    &&& r.title == t.title
    &&& r.artist@ == text_or_empty(t.artist)
    &&& r.album@ == text_or_empty(t.album)
    &&& r.source_path@ == match cached {
        Some(c) => c.audio_path@,
        None => text_or_empty(t.reference.canonical_url),
    }
    &&& r.artwork_path == match cached {
        Some(c) => c.artwork_path,
        None => None,
    }
    &&& r.duration_seconds == t.duration_seconds
    &&& r.audio_format == t.audio_format
    &&& r.bitrate_bps == t.bitrate_bps
}

/// The message shown when there is no saved session.
pub open spec fn fresh_session_message() -> Seq<char> {
    seq!['T', 'y', 'p', 'e', ' ', 'a', ' ', 'q', 'u', 'e', 'r', 'y', ' ', 'a', 'n', 'd', ' ', 'p', 'r', 'e', 's', 's', ' ', 'E', 'n', 't', 'e', 'r', '.']
}

/// The message shown after a saved session came back.
pub open spec fn restored_session_message() -> Seq<char> {
    seq!['R', 'e', 's', 't', 'o', 'r', 'e', 'd', ' ', 'p', 'r', 'e', 'v', 'i', 'o', 'u', 's', ' ', 's', 'e', 's', 's', 'i', 'o', 'n', '.']
}

/// The saved playing list, else the saved browser list.
pub fn restored_playback_context(snapshot: &SessionSnapshot) -> (r: Option<TrackList>)
    ensures
        opt_list_view(r) == restored_context(*snapshot),
{
    match &snapshot.playback_context {
        Some(l) => Some(l.clone()),
        None => clone_opt_list(&snapshot.browser_track_list),
    }
}

/// The track to restore as playing, if the saved index is inside the
/// restored list; the library is asked where it is cached.
pub fn session_track_to_restore(snapshot: &SessionSnapshot) -> (r: Option<TrackSummary>)
    ensures
        r == restored_track(*snapshot),
{
    let context = match &snapshot.playback_context {
        Some(l) => l,
        None => match &snapshot.browser_track_list {
            Some(l) => l,
            None => return None,
        },
    };
    match snapshot.current_track_index {
        Some(i) => if i < context.tracks.len() {
            Some(context.tracks[i].clone())
        } else {
            None
        },
        None => None,
    }
}

/// The key of the collection the restored browser opens.
pub fn restored_selected_collection_id(snapshot: &SessionSnapshot) -> (r: Option<String>)
    ensures
        opt_str(r) == restored_selection(*snapshot),
{
    if let Some(l) = &snapshot.browser_track_list {
        return Some(collection_entity_key(&l.collection.reference));
    }
    let selected = match &snapshot.browser_collection_id {
        Some(s) => s,
        None => return None,
    };
    let ghost pred = names_selection(selected@);
    let n = snapshot.search_results.len();
    for i in 0..n
        invariant
            n == snapshot.search_results@.len(),
            pred == names_selection(selected@),
            snapshot.browser_track_list is None,
            snapshot.browser_collection_id == Some(*selected),
            forall|j: int| 0 <= j < i ==> !pred(#[trigger] snapshot.search_results@[j]),
    {
        let c = &snapshot.search_results[i];
        let browser_key = collection_browser_key(&c.reference);
        let entity_key = collection_entity_key(&c.reference);
        if browser_key == *selected || entity_key == *selected {
            proof {
                assert(pred(snapshot.search_results@[i as int]));
                crate::browse::lemma_first_index_found(snapshot.search_results@, pred, i as int);
            }
            return Some(entity_key);
        }
    }
    proof { crate::browse::lemma_first_index_none(snapshot.search_results@, pred); }
    Some(selected.clone())
}

/// A track that was playing or buffering comes back paused; any other
/// status, or a status without a track, stays.
pub fn restored_playback_status(saved: PlaybackStatus, has_track: bool) -> (r: PlaybackStatus)
    ensures
        r == restored_status(saved, has_track),
{
    match (saved, has_track) {
        (PlaybackStatus::Playing, true) => PlaybackStatus::Paused,
        (PlaybackStatus::Buffering, true) => PlaybackStatus::Paused,
        (status, _) => status,
    }
}

fn restore_track(track: TrackSummary, cached: Option<CachedTrackPaths>) -> (r: Track)
    ensures
        restored_now_playing(track, cached, r),
{
    let ghost t = track;
    let ghost c = cached;
    match cached {
        Some(paths) => Track::from_track_summary_with_source(track, paths.audio_path, paths.artwork_path),
        None => {
            let source = match &track.reference.canonical_url {
                Some(u) => u.clone(),
                None => String::new(),
            };
            Track::from_track_summary_with_source(track, source, None)
        },
    }
}

/// The state a restart begins with. Without a saved session: an empty
/// discover browser and nothing playing. With one: the saved query (cursor
/// at its end), browser, playing list and track, settings and selections;
/// `cached` is where the library keeps the restored track's download, if
/// anywhere.
pub fn restored_session_state(snapshot: Option<SessionSnapshot>, cached: Option<CachedTrackPaths>) -> (r: RestoredSessionState)
    ensures
        match snapshot {
            None => {
                &&& r.query@ == Seq::<char>::empty()
                &&& r.query_cursor == 0
                &&& r.browse_mode == BrowseMode::Discover
                &&& r.search_results@ == Seq::<CollectionSummary>::empty()
                &&& r.selected_collection_id is None
                &&& r.track_list is None
                &&& r.playback_context is None
                &&& r.current_track_index is None
                &&& r.now_playing is None
                &&& r.resume_position@ == 0
                &&& r.playback_status == PlaybackStatus::Idle
                &&& r.repeat_mode == RepeatMode::Off
                &&& !r.shuffle_enabled
                &&& r.shuffle_seed == 0
                &&& r.status_message@ == fresh_session_message()
                &&& r.selected_local_album_id is None
                &&& r.selected_local_artist_id is None
                &&& r.selected_local_playlist_id is None
            },
            Some(s) => {
                &&& r.query == s.query
                &&& r.query_cursor == vstd::utf8::encode_utf8(s.query@).len() as usize
                &&& r.browse_mode == s.browse_mode
                &&& r.search_results@ == s.search_results@
                &&& opt_str(r.selected_collection_id) == restored_selection(s)
                &&& opt_list_view(r.track_list) == opt_list_view(s.browser_track_list)
                &&& opt_list_view(r.playback_context) == restored_context(s)
                &&& r.current_track_index == s.current_track_index
                &&& match restored_track(s) {
                    Some(t) => r.now_playing matches Some(np) && restored_now_playing(t, cached, np),
                    None => r.now_playing is None,
                }
                &&& r.resume_position@ == s.playback_position_seconds as nat * 1_000_000_000
                &&& r.playback_status == restored_status(s.playback_status, restored_track(s) is Some)
                &&& r.repeat_mode == s.repeat_mode
                &&& r.shuffle_enabled == s.shuffle_enabled
                &&& r.shuffle_seed == s.shuffle_seed
                &&& r.status_message@ == restored_session_message()
                &&& r.selected_local_album_id == s.selected_local_album_id
                &&& r.selected_local_artist_id == s.selected_local_artist_id
                &&& r.selected_local_playlist_id == s.selected_local_playlist_id
            },
        },
{
    let saved = match snapshot {
        Some(s) => s,
        None => {
            proof { reveal_strlit("Type a query and press Enter."); }
            return RestoredSessionState {
                query: String::new(),
                query_cursor: 0,
                browse_mode: BrowseMode::Discover,
                search_results: Vec::new(),
                selected_collection_id: None,
                track_list: None,
                playback_context: None,
                current_track_index: None,
                now_playing: None,
                resume_position: MediaTime::zero(),
                playback_status: PlaybackStatus::Idle,
                repeat_mode: RepeatMode::Off,
                shuffle_enabled: false,
                shuffle_seed: 0,
                status_message: String::from_str("Type a query and press Enter."),
                selected_local_album_id: None,
                selected_local_artist_id: None,
                selected_local_playlist_id: None,
            };
        },
    };
    let playback_context = restored_playback_context(&saved);
    let selected_collection_id = restored_selected_collection_id(&saved);
    let now_playing = match session_track_to_restore(&saved) {
        Some(track) => Some(restore_track(track, cached)),
        None => None,
    };
    let playback_status = restored_playback_status(saved.playback_status, now_playing.is_some());
    let resume_position = MediaTime::from_secs(saved.playback_position_seconds);
    let query_cursor = saved.query.as_str().len();
    proof { reveal_strlit("Restored previous session."); }
    RestoredSessionState {
        query_cursor,
        query: saved.query,
        browse_mode: saved.browse_mode,
        search_results: saved.search_results,
        selected_collection_id,
        track_list: saved.browser_track_list,
        playback_context,
        current_track_index: saved.current_track_index,
        now_playing,
        resume_position,
        playback_status,
        repeat_mode: saved.repeat_mode,
        shuffle_enabled: saved.shuffle_enabled,
        shuffle_seed: saved.shuffle_seed,
        status_message: String::from_str("Restored previous session."),
        selected_local_album_id: saved.selected_local_album_id,
        selected_local_artist_id: saved.selected_local_artist_id,
        selected_local_playlist_id: saved.selected_local_playlist_id,
    }
}

/// The session to save, with the playback position the worker reported
/// (`None` when it reported none, or failed): the saved resume position
/// stands in for it.
pub fn session_snapshot_at<D>(
    query: &str,
    browse_mode: BrowseMode,
    discover: &DiscoverModule,
    playback: &PlaybackModule<D>,
    reported_position: Option<MediaTime>,
    selected_local_album_id: Option<String>,
    selected_local_artist_id: Option<String>,
    selected_local_playlist_id: Option<String>,
) -> (r: SessionSnapshot)
    ensures
        r.query@ == query@,
        r.browse_mode == browse_mode,
        r.search_results@ == discover@.search_results,
        opt_str(r.browser_collection_id) == discover@.selected_collection_id,
        opt_list_view(r.browser_track_list) == discover@.track_list,
        opt_list_view(r.playback_context) == playback@.playback_context,
        r.current_track_index == playback@.current_track_index,
        r.playback_status == playback@.playback_status,
        r.repeat_mode == playback@.repeat_mode,
        r.shuffle_enabled == playback@.shuffle_enabled,
        r.shuffle_seed == playback@.shuffle_seed,
        r.playback_position_seconds == match reported_position {
            Some(p) => p.spec_secs(),
            None => playback@.resume_position.spec_secs(),
        },
        r.selected_local_album_id == selected_local_album_id,
        r.selected_local_artist_id == selected_local_artist_id,
        r.selected_local_playlist_id == selected_local_playlist_id,
{
    let position = match reported_position {
        Some(p) => p,
        None => playback.resume_position(),
    };
    SessionSnapshot {
        query: String::from_str(query),
        browse_mode,
        search_results: discover.search_results(),
        browser_collection_id: discover.selected_collection_id(),
        browser_track_list: discover.track_list(),
        playback_context: playback.playback_context(),
        current_track_index: playback.current_track_index(),
        playback_status: playback.playback_status(),
        repeat_mode: playback.repeat_mode(),
        shuffle_enabled: playback.shuffle_enabled(),
        shuffle_seed: playback.shuffle_seed(),
        playback_position_seconds: position.as_secs(),
        selected_local_album_id,
        selected_local_artist_id,
        selected_local_playlist_id,
    }
}

/// The session to save: the playback position is asked of the worker,
/// the saved resume position standing in when it reports none or fails.
pub fn session_snapshot<D>(
    query: &str,
    browse_mode: BrowseMode,
    discover: &DiscoverModule,
    playback: &mut PlaybackModule<D>,
    selected_local_album_id: Option<String>,
    selected_local_artist_id: Option<String>,
    selected_local_playlist_id: Option<String>,
) -> (r: SessionSnapshot)
    ensures
        final(playback)@ == old(playback)@,
        (final(playback).sent() == old(playback).sent().push(crate::controller::WorkerRequest::Position)
            && exists|reply: Option<Result<Option<MediaTime>, crate::controller::PlaybackError>>|
                r.playback_position_seconds == match #[trigger] crate::controller::reply_outcome(true, reply) {
                    Ok(Some(p)) => p.spec_secs(),
                    _ => old(playback)@.resume_position.spec_secs(),
                })
        || (final(playback).sent() == old(playback).sent()
            && r.playback_position_seconds == old(playback)@.resume_position.spec_secs()),
        r.query@ == query@,
        r.browse_mode == browse_mode,
        r.search_results@ == discover@.search_results,
        opt_str(r.browser_collection_id) == discover@.selected_collection_id,
        opt_list_view(r.browser_track_list) == discover@.track_list,
        opt_list_view(r.playback_context) == old(playback)@.playback_context,
        r.current_track_index == old(playback)@.current_track_index,
        r.playback_status == old(playback)@.playback_status,
        r.repeat_mode == old(playback)@.repeat_mode,
        r.shuffle_enabled == old(playback)@.shuffle_enabled,
        r.shuffle_seed == old(playback)@.shuffle_seed,
        r.selected_local_album_id == selected_local_album_id,
        r.selected_local_artist_id == selected_local_artist_id,
        r.selected_local_playlist_id == selected_local_playlist_id,
{
    let reported = match playback.position() {
        Ok(Some(p)) => Some(p),
        _ => None,
    };
    session_snapshot_at(
        query,
        browse_mode,
        discover,
        playback,
        reported,
        selected_local_album_id,
        selected_local_artist_id,
        selected_local_playlist_id,
    )
}

} // verus!
