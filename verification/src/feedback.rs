//! What the player tells the user, and what it reloads, after the transfer
//! worker reports, a search ends or a collection loads.

use vstd::prelude::*;
use crate::browse::{
    ReadyPlayback, refreshable_collection, refreshable_collection_for_track_list, should_record_recently_played,
    track_for_recently_played, recently_played_id,
};
use crate::discover::{DiscoverModule, DiscoverView, ProviderEntry, enabled_in, source_label};
use crate::model::{CollectionSummary, PlaybackStatus, ProviderId, Track, TrackList, TrackListView, TrackSummary};
use crate::controller::PlaybackError;
use crate::notifications::NotificationLevel;
use crate::playback::{PendingPlayRequest, PendingPlayRequestView, PlaybackModule, PlaybackModuleView};
use crate::search::{trimmed, trim_chars};
use crate::text::{chars_of, decimal, string_from_chars, u64_to_string};
use crate::transfer::{DownloadPurpose, TransferEvent};

verus! {

/// What to reload after a download finished.
#[derive(Debug, PartialEq, Eq)]
pub enum LibraryReload {
    Nothing,
    Album { provider: ProviderId, collection_id: String },
    Everything,
}

/// The answer to a transfer report: a status line, a notification, what to
/// reload, and whether the external download history must be saved.
pub struct TransferFeedback {
    pub status: Option<String>,
    pub notification: Option<(String, NotificationLevel)>,
    pub reload: LibraryReload,
    pub persist_downloads: bool,
}

/// `'<title>'`
pub open spec fn quoted(title: Seq<char>) -> Seq<char> {
    "'"@ + title + "'"@
}

/// The status line and notification of a transfer report, for the reports
/// other than playback ones.
pub open spec fn transfer_message<P>(event: TransferEvent<P>, was_cancelled: bool) -> Option<(Seq<char>, Option<NotificationLevel>)> {
    match event {
        TransferEvent::DownloadCompleted { title, purpose, .. } =>
            if purpose == DownloadPurpose::Explicit {
                Some(("Saved "@ + quoted(title@) + " for offline playback."@, Some(NotificationLevel::Success)))
            } else {
                None
            },
        TransferEvent::DownloadFailed { title, purpose, error, .. } =>
            if was_cancelled || purpose == DownloadPurpose::PlaybackPrefetch {
                None
            } else {
                Some(("Download failed for "@ + quoted(title@) + ": "@ + error@, Some(NotificationLevel::Error)))
            },
        TransferEvent::ExternalDownloadQueued { title, .. } =>
            Some(("Queued "@ + quoted(title@) + " for download."@, None)),
        TransferEvent::ExternalDownloadStarted { title, .. } =>
            Some(("Downloading "@ + quoted(title@) + " to Downloads."@, None)),
        TransferEvent::ExternalDownloadCompleted { title, destination, .. } =>
            Some(("Downloaded "@ + quoted(title@) + " to "@ + destination@ + "."@, Some(NotificationLevel::Success))),
        TransferEvent::ExternalDownloadFailed { title, error, .. } =>
            Some(("Open Media download failed for "@ + quoted(title@) + ": "@ + error@, Some(NotificationLevel::Error))),
        _ => None,
    }
}

/// An external download report; its history must be saved afterwards.
pub open spec fn is_external_report<P>(event: TransferEvent<P>) -> bool {
    event is ExternalDownloadQueued || event is ExternalDownloadStarted || event is ExternalDownloadCompleted
        || event is ExternalDownloadCancelled || event is ExternalDownloadFailed
}

fn quote(title: &String) -> (r: String)
    ensures
        r@ == quoted(title@),
{
    let mut s = String::from_str("'");
    s.append(title.as_str());
    s.append("'");
    s
}

/// The answer to a transfer report other than a playback one.
/// `was_cancelled` tells whether the user cancelled the failed download.
/// A finished download reloads its album (everything when it names none);
/// saved and failed downloads are announced, except failures of cancelled
/// downloads and of playback prefetches.
pub fn transfer_feedback<P>(event: &TransferEvent<P>, was_cancelled: bool) -> (r: TransferFeedback)
    ensures
        match transfer_message(*event, was_cancelled) {
            Some((text, level)) => r.status matches Some(s) && s@ == text
                && match level {
                    Some(l) => r.notification matches Some((m, k)) && m@ == text && k == l,
                    None => r.notification is None,
                },
            None => r.status is None && r.notification is None,
        },
        r.reload == match *event {
            TransferEvent::DownloadCompleted { provider, collection_id, .. } => match collection_id {
                Some(c) => LibraryReload::Album { provider, collection_id: c },
                None => LibraryReload::Everything,
            },
            _ => LibraryReload::Nothing,
        },
        r.persist_downloads == is_external_report(*event),
{
    let mut status: Option<String> = None;
    let mut notification: Option<(String, NotificationLevel)> = None;
    let mut reload = LibraryReload::Nothing;
    let mut persist = false;
    match event {
        TransferEvent::DownloadCompleted { title, provider, collection_id, purpose, .. } => {
            reload = match collection_id {
                Some(c) => LibraryReload::Album { provider: provider.clone(), collection_id: c.clone() },
                None => LibraryReload::Everything,
            };
            if *purpose == DownloadPurpose::Explicit {
                let mut m = String::from_str("Saved ");
                m.append(quote(title).as_str());
                m.append(" for offline playback.");
                status = Some(m.clone());
                notification = Some((m, NotificationLevel::Success));
            }
        },
        TransferEvent::DownloadFailed { title, purpose, error, .. } => {
            if !was_cancelled && *purpose != DownloadPurpose::PlaybackPrefetch {
                let mut m = String::from_str("Download failed for ");
                m.append(quote(title).as_str());
                m.append(": ");
                m.append(error.as_str());
                status = Some(m.clone());
                notification = Some((m, NotificationLevel::Error));
            }
        },
        TransferEvent::ExternalDownloadQueued { title, .. } => {
            let mut m = String::from_str("Queued ");
            m.append(quote(title).as_str());
            m.append(" for download.");
            status = Some(m);
            persist = true;
        },
        TransferEvent::ExternalDownloadStarted { title, .. } => {
            let mut m = String::from_str("Downloading ");
            m.append(quote(title).as_str());
            m.append(" to Downloads.");
            status = Some(m);
            persist = true;
        },
        TransferEvent::ExternalDownloadCompleted { title, destination, .. } => {
            let mut m = String::from_str("Downloaded ");
            m.append(quote(title).as_str());
            m.append(" to ");
            m.append(destination.as_str());
            m.append(".");
            status = Some(m.clone());
            notification = Some((m, NotificationLevel::Success));
            persist = true;
        },
        TransferEvent::ExternalDownloadCancelled { .. } => {
            persist = true;
        },
        TransferEvent::ExternalDownloadFailed { title, error, .. } => {
            let mut m = String::from_str("Open Media download failed for ");
            m.append(quote(title).as_str());
            m.append(": ");
            m.append(error.as_str());
            status = Some(m.clone());
            notification = Some((m, NotificationLevel::Error));
            persist = true;
        },
        _ => {},
    }
    TransferFeedback { status, notification, reload, persist_downloads: persist }
}

/// What to do once the resolved playback of the pending request started:
/// what to reload, the track to record as recently played (if any) and the
/// status line.
pub struct ReadyPlaybackPlan {
    pub refreshable_collection: Option<(ProviderId, String)>,
    pub recently_played: Option<TrackSummary>,
    pub status: String,
}

/// The plan for a playback that started: the collection to refresh for the
/// played track, the track to record as recently played (with the local
/// artwork when there is one) unless the list is the recently played
/// playlist itself, and "Playing '<title>'.".
pub open spec fn is_ready_plan(request: PendingPlayRequestView, current: Track, r: ReadyPlaybackPlan) -> bool {
        ({
            let list = request.playback_context;
            let track = if request.index < list.tracks.len() { Some(list.tracks[request.index as int]) } else { None };
            &&& match (r.refreshable_collection, refreshable_collection(list, track)) {
                (Some((p, id)), Some((q, jd))) => p == q && id@ == jd,
                (None, None) => true,
                _ => false,
            }
            &&& (r.recently_played is Some <==> (track is Some && !(list.collection.reference.provider is Local
                && list.collection.reference.id@ == recently_played_id())))
            &&& (r.recently_played matches Some(rp) ==> track matches Some(lt) && rp == match current.artwork_path {
                Some(p) => TrackSummary { artwork_url: Some(p), ..lt },
                None => lt,
            })
            &&& r.status@ == "Playing "@ + quoted(current.title@) + "."@
        })
}

/// The plan for a playback that started: the collection to refresh for the
/// played track, the track to record as recently played unless the list is
/// the recently played playlist itself, and "Playing '<title>'.".
pub fn ready_playback_plan<D>(request: &PendingPlayRequest, playback: &ReadyPlayback<D>) -> (r: ReadyPlaybackPlan)
    ensures
        is_ready_plan(request@, playback.current, r),
{
    let tracks = &request.playback_context.tracks;
    let track = if request.index < tracks.len() { Some(&tracks[request.index]) } else { None };
    let refreshable = refreshable_collection_for_track_list(&request.playback_context, track);
    let recently_played = if should_record_recently_played(&request.playback_context) {
        match track {
            Some(t) => Some(track_for_recently_played(t.clone(), playback.current.artwork_path.as_ref())),
            None => None,
        }
    } else {
        None
    };
    let mut status = String::from_str("Playing ");
    status.append(quote(&playback.current.title).as_str());
    status.append(".");
    ReadyPlaybackPlan { refreshable_collection: refreshable, recently_played, status }
}

/// How the answer to a play request ended.
pub enum PlaybackReadyOutcome {
    /// The answer is to an older request: nothing changed.
    Stale,
    /// Playback started: the plan to carry out, and the request (for the
    /// browser's view of the playing list).
    Started { plan: ReadyPlaybackPlan, request: PendingPlayRequest },
    /// The worker could not start it: the status line and error
    /// notification.
    Failed { message: String },
}

/// The resolved playback of a play request arrived. An answer to another
/// request than the pending one changes nothing. Otherwise the request is
/// taken and loading ends; the worker is asked to play the track's media
/// metadata from the resolved source at the request's position. When it
/// starts, the playing list, index and track are set and the plan comes
/// back; when it does not, the playback is marked failed and "Failed to
/// start playback: <error>" comes back.
pub fn handle_playback_ready<D>(
    state: &mut PlaybackModule<D>,
    request_id: u64,
    playback: ReadyPlayback<D>,
) -> (r: PlaybackReadyOutcome)
    ensures
        !(old(state)@.pending_play_request matches Some(p) && p.request_id == request_id) ==> {
            &&& r is Stale
            &&& final(state)@ == old(state)@
            &&& final(state).sent() == old(state).sent()
        },
        (old(state)@.pending_play_request matches Some(p) && p.request_id == request_id) ==> {
            let p = old(state)@.pending_play_request->0;
            &&& exists|m: crate::controller::MediaSessionTrack| {
                &&& crate::playback::media_session_fields(m, playback.current)
                &&& (final(state).sent() == old(state).sent() || final(state).sent() == old(state).sent().push(
                    crate::controller::WorkerRequest::Play { track: m, source: playback.source, position: p.position }))
            }
            &&& match r {
                PlaybackReadyOutcome::Started { plan, request } => {
                    &&& final(state).sent().len() == old(state).sent().len() + 1
                    &&& request@ == p
                    &&& is_ready_plan(p, playback.current, plan)
                    &&& final(state)@ == (PlaybackModuleView {
                        pending_play_request: None,
                        play_loading: false,
                        playback_status_before_loading: None,
                        playback_context: Some(p.playback_context),
                        current_track_index: Some(p.index),
                        now_playing: Some(playback.current),
                        resume_position: final(state)@.resume_position,
                        playback_status: PlaybackStatus::Playing,
                        ..old(state)@
                    })
                    &&& final(state)@.resume_position@ == 0
                },
                PlaybackReadyOutcome::Failed { message } => {
                    &&& (final(state).sent() == old(state).sent() ==>
                        message@ == "Failed to start playback: "@ + PlaybackError::WorkerUnavailable.message_view())
                    &&& (exists|e: PlaybackError| message@ == "Failed to start playback: "@ + e.message_view())
                    &&& final(state)@ == (PlaybackModuleView {
                        pending_play_request: None,
                        play_loading: false,
                        playback_status: match old(state)@.playback_status_before_loading {
                            Some(s) => s,
                            None => PlaybackStatus::Idle,
                        },
                        playback_status_before_loading: None,
                        ..old(state)@
                    })
                },
                PlaybackReadyOutcome::Stale => false,
            }
        },
{
    let request = match state.take_pending_request_if_matches(request_id) {
        Some(request) => request,
        None => return PlaybackReadyOutcome::Stale,
    };
    state.set_play_loading(false);
    let plan = ready_playback_plan(&request, &playback);
    let media_track = crate::playback::media_session_track(&playback.current);
    let ghost mg = media_track;
    let ghost pv = playback;
    let ghost before = state.sent();
    let ReadyPlayback { current, source, .. } = playback;
    let result = state.play_source_at(media_track, source, request.position);
    proof {
        assert(crate::playback::media_session_fields(mg, pv.current));
        assert(state.sent() == before || state.sent() == before.push(
            crate::controller::WorkerRequest::Play { track: mg, source: pv.source, position: request@.position }));
    }
    match result {
        Ok(()) => {
            let context = request.playback_context.clone();
            state.apply_ready_playback(context, request.index, current);
            PlaybackReadyOutcome::Started { plan, request }
        },
        Err(error) => {
            let ghost eg = error;
            state.mark_playback_failed();
            let mut message = String::from_str("Failed to start playback: ");
            message.append(error.message().as_str());
            proof { assert(message@ == "Failed to start playback: "@ + eg.message_view()); }
            PlaybackReadyOutcome::Failed { message }
        },
    }
}

/// A resolution failed: when it answers the pending request, the request is
/// dropped, loading ends and the failure is announced; a stale answer
/// changes nothing.
pub fn handle_playback_resolution_failed<D>(
    state: &mut PlaybackModule<D>,
    request_id: u64,
    title: &String,
    error: &String,
) -> (r: Option<String>)
    ensures
        (old(state)@.pending_play_request matches Some(p) && p.request_id == request_id) ==> {
            &&& r matches Some(m) && m@ == "Failed to resolve "@ + quoted(title@) + ": "@ + error@
            &&& final(state)@ == (PlaybackModuleView {
                pending_play_request: None,
                play_loading: false,
                playback_status: match old(state)@.playback_status_before_loading {
                    Some(s) => s,
                    None => crate::model::PlaybackStatus::Idle,
                },
                playback_status_before_loading: None,
                ..old(state)@
            })
        },
        !(old(state)@.pending_play_request matches Some(p) && p.request_id == request_id) ==>
            r is None && final(state)@ == old(state)@,
{
    match state.take_pending_request_if_matches(request_id) {
        Some(_) => {
            state.mark_playback_failed();
            let mut m = String::from_str("Failed to resolve ");
            m.append(quote(title).as_str());
            m.append(": ");
            m.append(error.as_str());
            Some(m)
        },
        None => None,
    }
}

/// How a search request was answered before it was sent.
pub enum SearchStart {
    EmptyQuery,
    NoProviders,
    Started { nonce: u64, query: String, providers: Vec<usize>, status: String },
}

/// The message of a search that could not start.
pub open spec fn search_refusal(start: SearchStart) -> Option<Seq<char>> {
    match start {
        SearchStart::EmptyQuery => Some("Search query is empty."@),
        SearchStart::NoProviders => Some("No search providers are enabled."@),
        SearchStart::Started { .. } => None,
    }
}

/// The status line of a search that could not start, shown also as a
/// notification of the error level; none for one that started.
pub fn search_refusal_message(start: &SearchStart) -> (r: Option<(&'static str, NotificationLevel)>)
    ensures
        match (r, search_refusal(*start)) {
            (Some((m, level)), Some(t)) => m@ == t && level == NotificationLevel::Error,
            (None, None) => true,
            _ => false,
        },
{
    match start {
        SearchStart::EmptyQuery => Some(("Search query is empty.", NotificationLevel::Error)),
        SearchStart::NoProviders => Some(("No search providers are enabled.", NotificationLevel::Error)),
        SearchStart::Started { .. } => None,
    }
}

/// Starts a search for the trimmed query in the enabled providers: none
/// for an empty query or when no provider is enabled (the browser is left
/// alone); otherwise the browser starts a search and the positions of the
/// providers to ask come back with the status line.
pub fn begin_discover_search(discover: &mut DiscoverModule, query_text: &str, providers: &[ProviderEntry]) -> (r: SearchStart)
    requires
        trimmed(query_text@).len() > 0 && enabled_in(providers@, old(discover)@.enabled).len() > 0
            ==> old(discover)@.search_nonce < u64::MAX,
    ensures
        ({
            let q = trimmed(query_text@);
            let f = enabled_in(providers@, old(discover)@.enabled);
            if q.len() == 0 {
                r is EmptyQuery && final(discover)@ == old(discover)@
            } else if f.len() == 0 {
                r is NoProviders && final(discover)@ == old(discover)@
            } else {
                &&& r matches SearchStart::Started { nonce, query, providers: picked, status }
                &&& nonce == old(discover)@.search_nonce + 1
                &&& query@ == q
                &&& picked@.len() == f.len()
                &&& crate::discover::active_positions(providers@, old(discover)@.enabled, picked@)
                &&& status@ == "Searching "@ + source_label(providers@, old(discover)@.enabled) + " for "@ + quoted(q)
                &&& final(discover)@ == (DiscoverView {
                    search_nonce: nonce,
                    search_loading: true,
                    track_list_loading: false,
                    search_results: Seq::empty(),
                    selected_collection_id: None,
                    track_list: None,
                    ..old(discover)@
                })
            }
        }),
{
    let chars = chars_of(query_text);
    let trimmed_chars = trim_chars(chars.as_slice());
    if trimmed_chars.len() == 0 {
        return SearchStart::EmptyQuery;
    }
    let query = string_from_chars(trimmed_chars.as_slice());
    let picked = discover.active_providers(providers);
    proof {
        let f = enabled_in(providers@, discover@.enabled);
        let (ids, order) = choose|ids: Seq<ProviderId>, order: Seq<usize>|
            crate::discover::arranged(ids, f, order)
            && crate::discover::sorted_by_name(ids)
            && picked@.len() == ids.len()
            && forall|i: int| 0 <= i < picked@.len() ==> crate::discover::first_provider_with(providers@, #[trigger] ids[i]) == Some(picked@[i] as int);
        assert(picked@.len() == f.len());
    }
    if picked.len() == 0 {
        return SearchStart::NoProviders;
    }
    let label = discover.active_source_label(providers);
    let nonce = discover.begin_search();
    let mut status = String::from_str("Searching ");
    status.append(label.as_str());
    status.append(" for ");
    status.append(quote(&query).as_str());
    SearchStart::Started { nonce, query, providers: picked, status }
}

/// How a search ended, as the browser tells it.
pub enum SearchOutcome {
    Stale,
    Found { status: String },
    Failed { message: String },
}

/// Ends the search with the number: the results are shown and counted, or
/// the failure is announced; an answer to an older search changes nothing.
pub fn finish_discover_search(
    discover: &mut DiscoverModule,
    nonce: u64,
    outcome: Result<(String, Vec<CollectionSummary>), String>,
) -> (r: SearchOutcome)
    ensures
        old(discover)@.search_nonce != nonce ==> r is Stale && final(discover)@ == old(discover)@,
        old(discover)@.search_nonce == nonce ==> match outcome {
            Ok((query, results)) => {
                &&& final(discover)@ == (DiscoverView { search_loading: false, search_results: results@, ..old(discover)@ })
                &&& r matches SearchOutcome::Found { status }
                &&& status@ == if results@.len() == 0 {
                    "No albums or playlists found for "@ + quoted(query@) + "."@
                } else {
                    "Found "@ + decimal(results@.len()) + " result(s) for "@ + quoted(query@) + "."@
                }
            },
            Err(error) => {
                &&& final(discover)@ == (DiscoverView { search_loading: false, ..old(discover)@ })
                &&& r matches SearchOutcome::Failed { message }
                &&& message@ == "Search failed: "@ + error@
            },
        },
{
    if !discover.search_nonce_matches(nonce) {
        return SearchOutcome::Stale;
    }
    match outcome {
        Ok((query, results)) => {
            let count = results.len();
            discover.finish_search(results);
            let status = if count == 0 {
                let mut m = String::from_str("No albums or playlists found for ");
                m.append(quote(&query).as_str());
                m.append(".");
                m
            } else {
                let mut m = String::from_str("Found ");
                m.append(u64_to_string(count as u64).as_str());
                m.append(" result(s) for ");
                m.append(quote(&query).as_str());
                m.append(".");
                m
            };
            SearchOutcome::Found { status }
        },
        Err(error) => {
            discover.fail_search();
            let mut m = String::from_str("Search failed: ");
            m.append(error.as_str());
            SearchOutcome::Failed { message: m }
        },
    }
}

/// "Loaded <n> tracks from <title>."
pub open spec fn loaded_message(list: TrackListView) -> Seq<char> {
    "Loaded "@ + decimal(list.tracks.len()) + " tracks from "@ + list.collection.title@ + "."@
}

/// How a collection load ended, as the browser tells it.
pub enum CollectionLoadOutcome {
    Stale,
    Loaded { status: String },
    Failed { status: String },
}

/// Ends the collection load with the number: the collection (its tracks
/// given their cached qualities by the caller) is shown, or the failure is
/// told; an answer to an older load changes nothing.
pub fn finish_collection_load(
    discover: &mut DiscoverModule,
    nonce: u64,
    outcome: Result<TrackList, String>,
) -> (r: CollectionLoadOutcome)
    ensures
        old(discover)@.track_list_nonce != nonce ==> r is Stale && final(discover)@ == old(discover)@,
        old(discover)@.track_list_nonce == nonce ==> match outcome {
            Ok(list) => {
                &&& final(discover)@ == (DiscoverView { track_list_loading: false, track_list: Some(list@), ..old(discover)@ })
                &&& r matches CollectionLoadOutcome::Loaded { status }
                &&& status@ == loaded_message(list@)
            },
            Err(error) => {
                &&& final(discover)@ == (DiscoverView { track_list_loading: false, ..old(discover)@ })
                &&& r matches CollectionLoadOutcome::Failed { status }
                &&& status@ == "Failed to load track list: "@ + error@
            },
        },
{
    if !discover.track_list_nonce_matches(nonce) {
        return CollectionLoadOutcome::Stale;
    }
    match outcome {
        Ok(list) => {
            let status = loaded_status(&list);
            discover.finish_track_list_load(list);
            CollectionLoadOutcome::Loaded { status }
        },
        Err(error) => {
            discover.fail_track_list_load();
            let mut m = String::from_str("Failed to load track list: ");
            m.append(error.as_str());
            CollectionLoadOutcome::Failed { status: m }
        },
    }
}

/// "Loaded <n> tracks from <title>."
pub fn loaded_status(list: &TrackList) -> (r: String)
    ensures
        r@ == loaded_message(list@),
{
    let mut m = String::from_str("Loaded ");
    m.append(u64_to_string(list.tracks.len() as u64).as_str());
    m.append(" tracks from ");
    m.append(list.collection.title.as_str());
    m.append(".");
    m
}

/// How opening a collection started.
pub enum CollectionLoadStart {
    Skipped,
    ProviderMissing { nonce: u64, status: String },
    FromCache { nonce: u64, status: String },
    Fetch { nonce: u64, status: String },
}

/// Opens a collection in the browser. A collection already opened and
/// loading is left alone. Otherwise it is opened under the next load
/// number; without its provider the browser says so; a stored track list
/// (`cached`, its tracks given their cached qualities by the caller) is
/// shown at once; else the list is to be fetched.
pub fn load_collection(
    discover: &mut DiscoverModule,
    collection_key: String,
    provider: &ProviderId,
    provider_available: bool,
    cached: Option<TrackList>,
) -> (r: CollectionLoadStart)
    requires
        !(old(discover)@.selected_collection_id == Some(collection_key@) && old(discover)@.track_list_loading)
            ==> old(discover)@.track_list_nonce < u64::MAX,
    ensures
        ({
            let o = old(discover)@;
            let opened = DiscoverView {
                track_list_nonce: (o.track_list_nonce + 1) as u64,
                selected_collection_id: Some(collection_key@),
                ..o
            };
            if o.selected_collection_id == Some(collection_key@) && o.track_list_loading {
                r is Skipped && final(discover)@ == o
            } else if !provider_available {
                &&& r matches CollectionLoadStart::ProviderMissing { nonce, status }
                &&& nonce == o.track_list_nonce + 1
                &&& status@ == "Provider "@ + quoted(provider.name()) + " is not available."@
                &&& final(discover)@ == opened
            } else {
                match cached {
                    Some(list) => {
                        &&& r matches CollectionLoadStart::FromCache { nonce, status }
                        &&& nonce == o.track_list_nonce + 1
                        &&& status@ == loaded_message(list@)
                        &&& final(discover)@ == (DiscoverView { track_list_loading: false, track_list: Some(list@), ..opened })
                    },
                    None => {
                        &&& r matches CollectionLoadStart::Fetch { nonce, status }
                        &&& nonce == o.track_list_nonce + 1
                        &&& status@ == "Loading track list"@
                        &&& final(discover)@ == (DiscoverView { track_list_loading: true, ..opened })
                    },
                }
            }
        }),
{
    if discover.should_skip_collection_load(collection_key.as_str()) {
        return CollectionLoadStart::Skipped;
    }
    let nonce = discover.begin_collection_load(collection_key);
    if !provider_available {
        let mut m = String::from_str("Provider ");
        let name = String::from_str(provider.as_str());
        m.append(quote(&name).as_str());
        m.append(" is not available.");
        return CollectionLoadStart::ProviderMissing { nonce, status: m };
    }
    match cached {
        Some(list) => {
            let status = loaded_status(&list);
            discover.finish_track_list_load(list);
            CollectionLoadStart::FromCache { nonce, status }
        },
        None => {
            discover.begin_track_list_fetch();
            CollectionLoadStart::Fetch { nonce, status: String::from_str("Loading track list") }
        },
    }
}


} // verus!
