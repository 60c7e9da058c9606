//! The playback state of the application: what plays, from which track list,
//! how the worker's observations move that state, and how removing a track
//! from the playing list keeps the current track in place.

use vstd::prelude::*;
use crate::controller::{
    MediaSessionTrack, PlaybackController, PlaybackError, PlaybackRuntimeStatus, PlaybackSource, WorkerRequest,
    PlaybackState, reply_outcome,
};
use crate::model::{PlaybackStatus, ProviderId, RepeatMode, Track, TrackList, TrackListView, TrackSummary};
use crate::time::MediaTime;

verus! {

/// The text of a `file://` URL for a filesystem path, when the `url` crate
/// can express the path as one.
pub uninterp spec fn file_url_of(path: Seq<char>) -> Option<Seq<char>>;

/// `url::Url::from_file_path` followed by conversion of the URL to text.
/// The result is the named function of the path.
#[verifier::external_body]
fn local_file_url(path: &str) -> (r: Option<String>)
    ensures
        match (r, file_url_of(path@)) {
            (Some(s), Some(u)) => s@ == u,
            (None, None) => true,
            _ => false,
        },
{
    url::Url::from_file_path(std::path::Path::new(path)).ok().map(String::from)
}

/// The media-session metadata of a track: its title, album and artist, its
/// artwork as the `file://` URL of its path, and its length.
pub open spec fn media_session_fields(r: MediaSessionTrack, track: Track) -> bool {
    &&& r.title@ == track.title@
    &&& r.album matches Some(a) && a@ == track.album@
    &&& r.artist matches Some(a) && a@ == track.artist@
    &&& r.duration_seconds == track.duration_seconds
    &&& match track.artwork_path {
        Some(p) => match (r.artwork_url, file_url_of(p@)) {
            (Some(s), Some(u)) => s@ == u,
            (None, None) => true,
            _ => false,
        },
        None => r.artwork_url is None,
    }
}

/// The media-session metadata of a track: its title, album and artist, its
/// artwork as a `file://` URL, and its length.
pub fn media_session_track(track: &Track) -> (r: MediaSessionTrack)
    ensures
        media_session_fields(r, *track),
{
    let artwork_url = match &track.artwork_path {
        Some(p) => local_file_url(p.as_str()),
        None => None,
    };
    MediaSessionTrack {
        title: track.title.clone(),
        album: Some(track.album.clone()),
        artist: Some(track.artist.clone()),
        artwork_url,
        duration_seconds: track.duration_seconds,
    }
}

/// Whether a track list removed a track from the playing context.
#[derive(Clone, Copy, Debug, PartialEq, Eq, Structural)]
pub enum PlaybackContextTrackRemoval {
    Unchanged,
    ContextUpdated,
    CurrentTrackRemoved,
}

/// What the user or the media session asks of playback.
#[derive(Clone, Copy, Debug, PartialEq, Eq, Structural)]
pub enum PlaybackIntent {
    Pause,
    Play,
    Toggle,
    Stop,
    Next,
    Previous,
    SeekBackward(MediaTime),
    SeekForward(MediaTime),
    SeekTo(MediaTime),
}

/// A direction of a seek request from the media session.
#[derive(Clone, Copy, Debug, PartialEq, Eq, Structural)]
pub enum SeekDirection {
    Forward,
    Backward,
}

/// The requests the operating system's media session delivers.
#[derive(Clone, Copy, Debug, PartialEq, Eq, Structural)]
pub enum MediaControlEvent {
    Play,
    Pause,
    Toggle,
    Next,
    Previous,
    Stop,
    Seek(SeekDirection),
    SeekBy(SeekDirection, MediaTime),
    SetPosition(MediaTime),
    SetVolume,
    OpenUri,
    Raise,
    Quit,
}

/// The step of a plain media-session seek: ten seconds.
pub open spec fn media_control_seek_step() -> nat {
    10_000_000_000
}

/// The intent a media-session event asks for; volume, URI, raise and quit
/// requests ask for none.
pub open spec fn intent_of_event(event: MediaControlEvent) -> Option<PlaybackIntent> {
    match event {
        MediaControlEvent::Pause => Some(PlaybackIntent::Pause),
        MediaControlEvent::Play => Some(PlaybackIntent::Play),
        MediaControlEvent::Toggle => Some(PlaybackIntent::Toggle),
        MediaControlEvent::Stop => Some(PlaybackIntent::Stop),
        MediaControlEvent::Next => Some(PlaybackIntent::Next),
        MediaControlEvent::Previous => Some(PlaybackIntent::Previous),
        MediaControlEvent::SeekBy(SeekDirection::Forward, amount) => Some(PlaybackIntent::SeekForward(amount)),
        MediaControlEvent::SeekBy(SeekDirection::Backward, amount) => Some(PlaybackIntent::SeekBackward(amount)),
        MediaControlEvent::SetPosition(position) => Some(PlaybackIntent::SeekTo(position)),
        _ => None,
    }
}

/// The intent a media-session event asks for.
pub fn media_control_intent(event: MediaControlEvent) -> (r: Option<PlaybackIntent>)
    ensures
        event matches MediaControlEvent::Seek(d) ==> (r matches Some(i) && match (d, i) {
            (SeekDirection::Forward, PlaybackIntent::SeekForward(t)) => t@ == media_control_seek_step(),
            (SeekDirection::Backward, PlaybackIntent::SeekBackward(t)) => t@ == media_control_seek_step(),
            _ => false,
        }),
        !(event is Seek) ==> r == intent_of_event(event),
{
    match event {
        MediaControlEvent::Pause => Some(PlaybackIntent::Pause),
        MediaControlEvent::Play => Some(PlaybackIntent::Play),
        MediaControlEvent::Toggle => Some(PlaybackIntent::Toggle),
        MediaControlEvent::Stop => Some(PlaybackIntent::Stop),
        MediaControlEvent::Next => Some(PlaybackIntent::Next),
        MediaControlEvent::Previous => Some(PlaybackIntent::Previous),
        MediaControlEvent::Seek(SeekDirection::Forward) => Some(PlaybackIntent::SeekForward(MediaTime::from_secs(10))),
        MediaControlEvent::Seek(SeekDirection::Backward) => Some(PlaybackIntent::SeekBackward(MediaTime::from_secs(10))),
        MediaControlEvent::SeekBy(SeekDirection::Forward, amount) => Some(PlaybackIntent::SeekForward(amount)),
        MediaControlEvent::SeekBy(SeekDirection::Backward, amount) => Some(PlaybackIntent::SeekBackward(amount)),
        MediaControlEvent::SetPosition(position) => Some(PlaybackIntent::SeekTo(position)),
        MediaControlEvent::SetVolume | MediaControlEvent::OpenUri | MediaControlEvent::Raise
        | MediaControlEvent::Quit => None,
    }
}

/// What the periodic refresh asks the application to do.
#[derive(Clone, Copy, Debug, PartialEq, Eq, Structural)]
pub enum PlaybackRuntimeEvent {
    UiRefreshRequested,
    TrackFinished,
    PlaybackFailed,
}

/// What one observation of the worker changed.
#[derive(Clone, Copy, Debug, PartialEq, Eq, Structural)]
pub enum RuntimeTickOutcome {
    NoChange,
    UiRefreshRequested,
    PositionUpdated(MediaTime),
    TrackFinished,
    PlaybackFailed,
}

/// A request to start playing a track list at an index, awaiting its source.
pub struct PendingPlayRequest {
    pub request_id: u64,
    pub playback_context: TrackList,
    pub index: usize,
    pub position: Option<MediaTime>,
    pub browser_track_list: Option<TrackList>,
    pub browser_collection_id: Option<String>,
    pub browser_contains_track: bool,
}

/// The view of an optional track list.
pub open spec fn opt_list_view(o: Option<TrackList>) -> Option<TrackListView> {
    match o {
        Some(l) => Some(l@),
        None => None,
    }
}

/// A pending request as a value.
pub struct PendingPlayRequestView {
    pub request_id: u64,
    pub playback_context: TrackListView,
    pub index: usize,
    pub position: Option<MediaTime>,
    pub browser_track_list: Option<TrackListView>,
    pub browser_collection_id: Option<Seq<char>>,
    pub browser_contains_track: bool,
}

impl View for PendingPlayRequest {
    type V = PendingPlayRequestView;

    open spec fn view(&self) -> PendingPlayRequestView {
        PendingPlayRequestView {
            request_id: self.request_id,
            playback_context: self.playback_context@,
            index: self.index,
            position: self.position,
            browser_track_list: opt_list_view(self.browser_track_list),
            browser_collection_id: crate::model::opt_str(self.browser_collection_id),
            browser_contains_track: self.browser_contains_track,
        }
    }
}

/// The view of an optional pending request.
pub open spec fn opt_request_view(o: Option<PendingPlayRequest>) -> Option<PendingPlayRequestView> {
    match o {
        Some(r) => Some(r@),
        None => None,
    }
}

/// The playback state, as a value.
pub struct PlaybackModuleView {
    pub playback_context: Option<TrackListView>,
    pub current_track_index: Option<usize>,
    pub now_playing: Option<Track>,
    pub resume_position: MediaTime,
    pub playback_status: PlaybackStatus,
    pub repeat_mode: RepeatMode,
    pub shuffle_enabled: bool,
    pub shuffle_seed: u64,
    pub play_loading: bool,
    pub playback_status_before_loading: Option<PlaybackStatus>,
    pub play_nonce: u64,
    pub pending_play_request: Option<PendingPlayRequestView>,
}

/// The playback state of the application, with its handle to the worker.
#[verifier::reject_recursive_types(D)]
pub struct PlaybackModule<D> {
    controller: PlaybackController<D>,
    playback_context: Option<TrackList>,
    current_track_index: Option<usize>,
    now_playing: Option<Track>,
    resume_position: MediaTime,
    playback_status: PlaybackStatus,
    repeat_mode: RepeatMode,
    shuffle_enabled: bool,
    shuffle_seed: u64,
    play_loading: bool,
    playback_status_before_loading: Option<PlaybackStatus>,
    play_nonce: u64,
    pending_play_request: Option<PendingPlayRequest>,
}

impl<D> View for PlaybackModule<D> {
    type V = PlaybackModuleView;

    closed spec fn view(&self) -> PlaybackModuleView {
        PlaybackModuleView {
            playback_context: opt_list_view(self.playback_context),
            current_track_index: self.current_track_index,
            now_playing: self.now_playing,
            resume_position: self.resume_position,
            playback_status: self.playback_status,
            repeat_mode: self.repeat_mode,
            shuffle_enabled: self.shuffle_enabled,
            shuffle_seed: self.shuffle_seed,
            play_loading: self.play_loading,
            playback_status_before_loading: self.playback_status_before_loading,
            play_nonce: self.play_nonce,
            pending_play_request: opt_request_view(self.pending_play_request),
        }
    }
}

impl<D> PlaybackModule<D> {
    /// The requests handed to the playback worker through this state,
    /// oldest first.
    pub closed spec fn sent(&self) -> Seq<WorkerRequest<D>> {
        self.controller@
    }
}

/// Taking the pending request with an identifier: the request and the
/// state without it when it has that identifier; else nothing, the state
/// unchanged.
pub open spec fn take_outcome(m: PlaybackModuleView, request_id: u64) -> (Option<PendingPlayRequestView>, PlaybackModuleView) {
    if m.pending_play_request matches Some(p) && p.request_id == request_id {
        (m.pending_play_request, PlaybackModuleView { pending_play_request: None, ..m })
    } else {
        (None, m)
    }
}

/// Only the latest request is answered, and only once: after a request was
/// begun with identifier `n` (one more than the identifier before, so above
/// every earlier one), taking any other identifier gives nothing and changes
/// nothing, taking `n` gives the request with identifier `n`, and taking `n`
/// again gives nothing.
pub proof fn lemma_latest_request_taken_once(
    before: PlaybackModuleView,
    begun: PlaybackModuleView,
    request: PendingPlayRequestView,
    n: u64,
    k: u64,
)
    requires
        n == before.play_nonce + 1,
        begun.pending_play_request == Some(PendingPlayRequestView { request_id: n, ..request }),
    ensures
        n > before.play_nonce,
        k != n ==> take_outcome(begun, k) == (None::<PendingPlayRequestView>, begun),
        take_outcome(begun, n).0 == Some(PendingPlayRequestView { request_id: n, ..request }),
        take_outcome(take_outcome(begun, n).1, n).0 is None,
{
}

/// Copies an optional track list.
pub fn clone_opt_list(o: &Option<TrackList>) -> (r: Option<TrackList>)
    ensures
        opt_list_view(r) == opt_list_view(*o),
{
    match o {
        Some(l) => Some(l.clone()),
        None => None,
    }
}

/// The media-session state of a playback status: buffering counts as paused.
pub open spec fn session_state_of(status: PlaybackStatus) -> PlaybackState {
    match status {
        PlaybackStatus::Playing => PlaybackState::Playing,
        PlaybackStatus::Paused | PlaybackStatus::Buffering => PlaybackState::Paused,
        PlaybackStatus::Idle => PlaybackState::Idle,
    }
}

/// The media-session state of a playback status.
pub fn session_state_for(status: PlaybackStatus) -> (r: PlaybackState)
    ensures
        r == session_state_of(status),
{
    match status {
        PlaybackStatus::Playing => PlaybackState::Playing,
        PlaybackStatus::Paused | PlaybackStatus::Buffering => PlaybackState::Paused,
        PlaybackStatus::Idle => PlaybackState::Idle,
    }
}

/// The position to show: the worker's position when it reports one,
/// otherwise the remembered resume position.
pub fn position_or_resume(reply: Result<Option<MediaTime>, PlaybackError>, resume_position: MediaTime) -> (r: MediaTime)
    ensures
        r == (match reply {
            Ok(Some(p)) => p,
            _ => resume_position,
        }),
{
    match reply {
        Ok(Some(p)) => p,
        _ => resume_position,
    }
}

/// Whether a summary is the given track of the given provider.
pub open spec fn is_track(t: TrackSummary, provider: ProviderId, id: Seq<char>) -> bool {
    t.reference.provider.same(provider) && t.reference.id@ == id
}

/// The tracks that are not the given track, in order.
pub open spec fn without_track(s: Seq<TrackSummary>, provider: ProviderId, id: Seq<char>) -> Seq<TrackSummary>
    decreases s.len(),
{
    if s.len() == 0 {
        s
    } else {
        let rest = without_track(s.drop_last(), provider, id);
        if is_track(s.last(), provider, id) { rest } else { rest.push(s.last()) }
    }
}

/// How many entries are the given track.
pub open spec fn count_track(s: Seq<TrackSummary>, provider: ProviderId, id: Seq<char>) -> nat
    decreases s.len(),
{
    if s.len() == 0 {
        0
    } else {
        count_track(s.drop_last(), provider, id) + if is_track(s.last(), provider, id) { 1nat } else { 0nat }
    }
}

/// Removing a track leaves as many entries as were not that track.
pub proof fn lemma_without_track_len(s: Seq<TrackSummary>, provider: ProviderId, id: Seq<char>)
    ensures
        without_track(s, provider, id).len() + count_track(s, provider, id) == s.len(),
        forall|j: int| 0 <= j < without_track(s, provider, id).len()
            ==> !is_track(#[trigger] without_track(s, provider, id)[j], provider, id),
    decreases s.len(),
{
    if s.len() > 0 {
        lemma_without_track_len(s.drop_last(), provider, id);
    }
}

/// An entry that is not the removed track moves forward by the number of
/// removed entries before it.
pub proof fn lemma_without_track_index(s: Seq<TrackSummary>, provider: ProviderId, id: Seq<char>, c: int)
    requires
        0 <= c < s.len(),
        !is_track(s[c], provider, id),
    ensures
        count_track(s.take(c), provider, id) <= c,
        without_track(s, provider, id)[c - count_track(s.take(c), provider, id)] == s[c],
        c - count_track(s.take(c), provider, id) < without_track(s, provider, id).len(),
    decreases s.len(),
{
    lemma_without_track_len(s, provider, id);
    lemma_without_track_len(s.take(c), provider, id);
    let rest = s.drop_last();
    if c == s.len() - 1 {
        assert(s.take(c) =~= rest);
    } else {
        assert(s.take(c) =~= rest.take(c));
        lemma_without_track_index(rest, provider, id, c);
        lemma_without_track_len(rest, provider, id);
    }
}

/// Removing a track from a list and counting it.
pub fn remove_track_entries(tracks: &Vec<TrackSummary>, provider: &ProviderId, track_id: &str) -> (r: Vec<TrackSummary>)
    ensures
        r@ == without_track(tracks@, *provider, track_id@),
{
    let mut kept: Vec<TrackSummary> = Vec::new();
    let n = tracks.len();
    let id = track_id.to_owned();
    for i in 0..n
        invariant
            n == tracks@.len(),
            id@ == track_id@,
            kept@ == without_track(tracks@.take(i as int), *provider, track_id@),
    {
        assert(tracks@.take(i + 1).drop_last() =~= tracks@.take(i as int));
        assert(tracks@.take(i + 1).last() == tracks@[i as int]);
        let t = &tracks[i];
        let matches = t.reference.provider.same_as(provider) && t.reference.id == id;
        if !matches {
            kept.push(t.clone());
        }
    }
    assert(tracks@.take(n as int) =~= tracks@);
    kept
}

/// The number of entries before index `c` that are the given track.
pub fn count_track_before(tracks: &Vec<TrackSummary>, provider: &ProviderId, track_id: &str, c: usize) -> (r: usize)
    ensures
        r == count_track(tracks@.take(if c <= tracks@.len() { c as int } else { tracks@.len() as int }), *provider, track_id@),
{
    let limit = if c <= tracks.len() { c } else { tracks.len() };
    let mut count: usize = 0;
    let id = track_id.to_owned();
    for i in 0..limit
        invariant
            limit <= tracks@.len(),
            id@ == track_id@,
            count == count_track(tracks@.take(i as int), *provider, track_id@),
            count <= i,
    {
        assert(tracks@.take(i + 1).drop_last() =~= tracks@.take(i as int));
        assert(tracks@.take(i + 1).last() == tracks@[i as int]);
        let t = &tracks[i];
        if t.reference.provider.same_as(provider) && t.reference.id == id {
            count += 1;
        }
    }
    count
}

impl<D> PlaybackModule<D> {
    /// A playback state restored from a saved session.
    pub fn new(
        controller: PlaybackController<D>,
        playback_context: Option<TrackList>,
        current_track_index: Option<usize>,
        now_playing: Option<Track>,
        resume_position: MediaTime,
        playback_status: PlaybackStatus,
        repeat_mode: RepeatMode,
        shuffle_enabled: bool,
        shuffle_seed: u64,
    ) -> (r: Self)
        ensures
            r@.playback_context == opt_list_view(playback_context),
            r@.current_track_index == current_track_index,
            r@.now_playing == now_playing,
            r@.resume_position == resume_position,
            r@.playback_status == playback_status,
            r@.repeat_mode == repeat_mode,
            r@.shuffle_enabled == shuffle_enabled,
            r@.shuffle_seed == shuffle_seed,
            !r@.play_loading,
            r@.playback_status_before_loading is None,
            r@.play_nonce == 0,
            r@.pending_play_request is None,
            r.sent() == controller@,
    {
        PlaybackModule {
            controller,
            playback_context,
            current_track_index,
            now_playing,
            resume_position,
            playback_status,
            repeat_mode,
            shuffle_enabled,
            shuffle_seed,
            play_loading: false,
            playback_status_before_loading: None,
            play_nonce: 0,
            pending_play_request: None,
        }
    }

    /// Plays a track on the worker.
    pub fn play_source_at(&mut self, track: MediaSessionTrack, source: PlaybackSource<D>, position: Option<MediaTime>) -> (r: Result<(), PlaybackError>)
        ensures
            final(self)@ == old(self)@,
            (final(self).sent() == old(self).sent().push(WorkerRequest::Play { track, source, position })
                && exists|reply: Option<Result<(), PlaybackError>>| r == reply_outcome(true, reply))
            || (final(self).sent() == old(self).sent() && r == Err::<(), PlaybackError>(PlaybackError::WorkerUnavailable)),
    {
        self.controller.play_source_at(track, source, position)
    }

    /// Pauses the worker.
    pub fn pause(&mut self) -> (r: Result<(), PlaybackError>)
        ensures
            final(self)@ == old(self)@,
            (final(self).sent() == old(self).sent().push(WorkerRequest::Pause)
                && exists|reply: Option<Result<(), PlaybackError>>| r == reply_outcome(true, reply))
            || (final(self).sent() == old(self).sent() && r == Err::<(), PlaybackError>(PlaybackError::WorkerUnavailable)),
    {
        self.controller.pause()
    }

    /// Resumes the worker.
    pub fn resume(&mut self) -> (r: Result<(), PlaybackError>)
        ensures
            final(self)@ == old(self)@,
            (final(self).sent() == old(self).sent().push(WorkerRequest::Resume)
                && exists|reply: Option<Result<(), PlaybackError>>| r == reply_outcome(true, reply))
            || (final(self).sent() == old(self).sent() && r == Err::<(), PlaybackError>(PlaybackError::WorkerUnavailable)),
    {
        self.controller.resume()
    }

    /// Stops the worker.
    pub fn stop(&mut self) -> (r: Result<(), PlaybackError>)
        ensures
            final(self)@ == old(self)@,
            (final(self).sent() == old(self).sent().push(WorkerRequest::Stop)
                && exists|reply: Option<Result<(), PlaybackError>>| r == reply_outcome(true, reply))
            || (final(self).sent() == old(self).sent() && r == Err::<(), PlaybackError>(PlaybackError::WorkerUnavailable)),
    {
        self.controller.stop()
    }

    /// The worker's position.
    pub fn position(&mut self) -> (r: Result<Option<MediaTime>, PlaybackError>)
        ensures
            final(self)@ == old(self)@,
            (final(self).sent() == old(self).sent().push(WorkerRequest::Position)
                && exists|reply: Option<Result<Option<MediaTime>, PlaybackError>>| r == reply_outcome(true, reply))
            || (final(self).sent() == old(self).sent() && r == Err::<Option<MediaTime>, PlaybackError>(PlaybackError::WorkerUnavailable)),
    {
        self.controller.position()
    }

    /// The position to show: the worker's, or the remembered resume position.
    pub fn current_playback_position(&mut self) -> (r: MediaTime)
        ensures
            final(self)@ == old(self)@,
            (final(self).sent() == old(self).sent().push(WorkerRequest::Position)
                && exists|reply: Option<Result<Option<MediaTime>, PlaybackError>>| r == (match #[trigger] reply_outcome(true, reply) {
                    Ok(Some(p)) => p,
                    _ => old(self)@.resume_position,
                }))
            || (final(self).sent() == old(self).sent() && r == old(self)@.resume_position),
    {
        let reply = self.position();
        position_or_resume(reply, self.resume_position)
    }

    /// The length of the playing track, when known.
    pub fn current_track_duration(&self) -> (r: Option<MediaTime>)
        ensures
            match self@.now_playing {
                Some(t) => match t.duration_seconds {
                    Some(s) => r matches Some(d) && d@ == s as nat * 1_000_000_000,
                    None => r is None,
                },
                None => r is None,
            },
    {
        match &self.now_playing {
            Some(t) => match t.duration_seconds {
                Some(s) => Some(MediaTime::from_secs(s as u64)),
                None => None,
            },
            None => None,
        }
    }

    /// The worker's observation of the current playback.
    pub fn runtime_status(&mut self) -> (r: Result<PlaybackRuntimeStatus, PlaybackError>)
        ensures
            final(self)@ == old(self)@,
            (final(self).sent() == old(self).sent().push(WorkerRequest::RuntimeStatus)
                && exists|reply: Option<Result<PlaybackRuntimeStatus, PlaybackError>>| r == reply_outcome(true, reply))
            || (final(self).sent() == old(self).sent() && r == Err::<PlaybackRuntimeStatus, PlaybackError>(PlaybackError::WorkerUnavailable)),
    {
        self.controller.runtime_status()
    }

    /// Seeks the worker.
    pub fn seek_to(&mut self, position: MediaTime) -> (r: Result<(), PlaybackError>)
        ensures
            final(self)@ == old(self)@,
            (final(self).sent() == old(self).sent().push(WorkerRequest::SeekTo { position })
                && exists|reply: Option<Result<(), PlaybackError>>| r == reply_outcome(true, reply))
            || (final(self).sent() == old(self).sent() && r == Err::<(), PlaybackError>(PlaybackError::WorkerUnavailable)),
    {
        self.controller.seek_to(position)
    }

    /// Restarts the current track on the worker.
    pub fn restart_current(&mut self) -> (r: Result<(), PlaybackError>)
        ensures
            final(self)@ == old(self)@,
            (final(self).sent() == old(self).sent().push(WorkerRequest::RestartCurrent)
                && exists|reply: Option<Result<(), PlaybackError>>| r == reply_outcome(true, reply))
            || (final(self).sent() == old(self).sent() && r == Err::<(), PlaybackError>(PlaybackError::WorkerUnavailable)),
    {
        self.controller.restart_current()
    }

    /// Publishes a session to the media controls.
    pub fn publish_session(&mut self, track: MediaSessionTrack, playback: PlaybackState, position: Option<MediaTime>, prime: bool) -> (r: Result<(), PlaybackError>)
        ensures
            final(self)@ == old(self)@,
            (final(self).sent() == old(self).sent().push(WorkerRequest::PublishSession { track, playback, position, prime })
                && exists|reply: Option<Result<(), PlaybackError>>| r == reply_outcome(true, reply))
            || (final(self).sent() == old(self).sent() && r == Err::<(), PlaybackError>(PlaybackError::WorkerUnavailable)),
    {
        self.controller.publish_session(track, playback, position, prime)
    }

    /// Publishes a position to the media controls.
    pub fn update_media_position(&mut self, playback: PlaybackState, position: MediaTime) -> (r: Result<(), PlaybackError>)
        ensures
            final(self)@ == old(self)@,
            (final(self).sent() == old(self).sent().push(WorkerRequest::UpdateMediaPosition { playback, position })
                && exists|reply: Option<Result<(), PlaybackError>>| r == reply_outcome(true, reply))
            || (final(self).sent() == old(self).sent() && r == Err::<(), PlaybackError>(PlaybackError::WorkerUnavailable)),
    {
        self.controller.update_media_position(playback, position)
    }

    /// Publishes the restored now-playing track, in the media-session state
    /// of the playback status, at the current position, priming the session.
    /// Nothing happens (and `Ok` comes back) when nothing is playing;
    /// otherwise the result is the worker's: unavailable, disconnected, or
    /// its reply.
    pub fn publish_restored_media_session(&mut self) -> (r: Result<(), PlaybackError>)
        ensures
            final(self)@ == old(self)@,
            old(self)@.now_playing is None ==> r is Ok && final(self).sent() == old(self).sent(),
            old(self)@.now_playing matches Some(t) ==> exists|asked: Seq<WorkerRequest<D>>, position: MediaTime, m: MediaSessionTrack| {
                &&& (asked == old(self).sent() || asked == old(self).sent().push(WorkerRequest::Position))
                &&& (asked == old(self).sent() ==> position == old(self)@.resume_position)
                &&& media_session_fields(m, t)
                &&& ((final(self).sent() == asked.push(WorkerRequest::PublishSession {
                        track: m,
                        playback: session_state_of(old(self)@.playback_status),
                        position: Some(position),
                        prime: true,
                    }) && exists|reply: Option<Result<(), PlaybackError>>| r == reply_outcome(true, reply))
                    || (final(self).sent() == asked && r == Err::<(), PlaybackError>(PlaybackError::WorkerUnavailable)))
            },
    {
        match &self.now_playing {
            None => Ok(()),
            Some(track) => {
                let m = media_session_track(track);
                let ghost mg = m;
                let playback = session_state_for(self.playback_status);
                let position = self.current_playback_position();
                let ghost asked = self.sent();
                let r = self.publish_session(m, playback, Some(position), true);
                proof {
                    assert(media_session_fields(mg, old(self)@.now_playing->0));
                    assert(asked == old(self).sent() || asked == old(self).sent().push(WorkerRequest::Position));
                    assert(asked == old(self).sent() ==> position == old(self)@.resume_position);
                    assert(playback == session_state_of(old(self)@.playback_status));
                    assert({
                        &&& (asked == old(self).sent() || asked == old(self).sent().push(WorkerRequest::Position))
                        &&& (asked == old(self).sent() ==> position == old(self)@.resume_position)
                        &&& media_session_fields(mg, old(self)@.now_playing->0)
                        &&& ((self.sent() == asked.push(WorkerRequest::PublishSession {
                                track: mg,
                                playback: session_state_of(old(self)@.playback_status),
                                position: Some(position),
                                prime: true,
                            }) && exists|reply: Option<Result<(), PlaybackError>>| r == reply_outcome(true, reply))
                            || (self.sent() == asked && r == Err::<(), PlaybackError>(PlaybackError::WorkerUnavailable)))
                    });
                }
                r
            },
        }
    }

    pub fn playback_context(&self) -> (r: Option<TrackList>)
        ensures
            opt_list_view(r) == self@.playback_context,
    {
        clone_opt_list(&self.playback_context)
    }

    /// The key of the track being resolved to play, when there is one.
    pub fn pending_track_key(&self) -> (r: Option<String>)
        ensures
            match self@.pending_play_request {
                Some(p) => if p.index < p.playback_context.tracks.len() {
                    r matches Some(k) && k@ == crate::keys::track_key_view(
                        p.playback_context.tracks[p.index as int].reference.provider,
                        p.playback_context.tracks[p.index as int].reference.id@)
                } else {
                    r is None
                },
                None => r is None,
            },
    {
        match &self.pending_play_request {
            Some(p) => {
                if p.index < p.playback_context.tracks.len() {
                    Some(crate::keys::track_cache_key(&p.playback_context.tracks[p.index]))
                } else {
                    None
                }
            },
            None => None,
        }
    }

    /// The key of the playing track, when there is one.
    pub fn current_track_key(&self) -> (r: Option<String>)
        ensures
            match (self@.playback_context, self@.current_track_index) {
                (Some(l), Some(i)) => if i < l.tracks.len() {
                    r matches Some(k) && k@ == crate::keys::track_key_view(
                        l.tracks[i as int].reference.provider, l.tracks[i as int].reference.id@)
                } else {
                    r is None
                },
                _ => r is None,
            },
    {
        match (&self.playback_context, self.current_track_index) {
            (Some(l), Some(i)) => {
                if i < l.tracks.len() {
                    Some(crate::keys::track_cache_key(&l.tracks[i]))
                } else {
                    None
                }
            },
            _ => None,
        }
    }

    pub fn current_track_index(&self) -> (r: Option<usize>)
        ensures
            r == self@.current_track_index,
    {
        self.current_track_index
    }

    pub fn now_playing(&self) -> (r: Option<Track>)
        ensures
            r == self@.now_playing,
    {
        match &self.now_playing {
            Some(t) => Some(t.clone()),
            None => None,
        }
    }

    pub fn resume_position(&self) -> (r: MediaTime)
        ensures
            r == self@.resume_position,
    {
        self.resume_position
    }

    pub fn playback_status(&self) -> (r: PlaybackStatus)
        ensures
            r == self@.playback_status,
    {
        self.playback_status
    }

    pub fn repeat_mode(&self) -> (r: RepeatMode)
        ensures
            r == self@.repeat_mode,
    {
        self.repeat_mode
    }

    pub fn shuffle_enabled(&self) -> (r: bool)
        ensures
            r == self@.shuffle_enabled,
    {
        self.shuffle_enabled
    }

    pub fn shuffle_seed(&self) -> (r: u64)
        ensures
            r == self@.shuffle_seed,
    {
        self.shuffle_seed
    }

    pub fn play_loading(&self) -> (r: bool)
        ensures
            r == self@.play_loading,
    {
        self.play_loading
    }

    /// The worker is polled only while a track plays or buffers and no
    /// playback is being resolved.
    pub fn should_poll_runtime(&self) -> (r: bool)
        ensures
            r == (!self@.play_loading && self@.pending_play_request is None
                && (self@.playback_status == PlaybackStatus::Playing || self@.playback_status == PlaybackStatus::Buffering)
                && self@.now_playing is Some),
    {
        if self.play_loading || self.pending_play_request.is_some() {
            return false;
        }
        (match self.playback_status {
            PlaybackStatus::Playing | PlaybackStatus::Buffering => true,
            _ => false,
        }) && self.now_playing.is_some()
    }

    /// Moves to the next repeat mode and returns it.
    pub fn cycle_repeat_mode(&mut self) -> (r: RepeatMode)
        ensures
            r == old(self)@.repeat_mode.next(),
            final(self)@ == (PlaybackModuleView { repeat_mode: r, ..old(self)@ }),
    {
        let repeat_mode = self.repeat_mode.cycle();
        self.repeat_mode = repeat_mode;
        repeat_mode
    }

    pub fn set_shuffle_enabled(&mut self, enabled: bool, seed: u64)
        ensures
            final(self)@ == (PlaybackModuleView { shuffle_enabled: enabled, shuffle_seed: seed, ..old(self)@ }),
    {
        self.shuffle_enabled = enabled;
        self.shuffle_seed = seed;
    }

    pub fn set_resume_position(&mut self, position: MediaTime)
        ensures
            final(self)@ == (PlaybackModuleView { resume_position: position, ..old(self)@ }),
    {
        self.resume_position = position;
    }

    pub fn set_playback_status(&mut self, status: PlaybackStatus)
        ensures
            final(self)@ == (PlaybackModuleView { playback_status: status, ..old(self)@ }),
    {
        self.playback_status = status;
    }

    pub fn set_play_loading(&mut self, loading: bool)
        ensures
            final(self).sent() == old(self).sent(),
            final(self)@ == (PlaybackModuleView { play_loading: loading, ..old(self)@ }),
    {
        self.play_loading = loading;
    }

    /// Enters the loading state: remembers the status to fall back to (once,
    /// and only when a track was playing), sets the resume position, and
    /// shows the player as buffering.
    pub fn begin_playback_resolution(&mut self, resume_position: MediaTime)
        ensures
            final(self)@ == (PlaybackModuleView {
                playback_status_before_loading:
                    if old(self)@.playback_status_before_loading is None && old(self)@.now_playing is Some {
                        Some(old(self)@.playback_status)
                    } else {
                        old(self)@.playback_status_before_loading
                    },
                resume_position: resume_position,
                play_loading: true,
                playback_status: PlaybackStatus::Buffering,
                ..old(self)@
            }),
    {
        if self.playback_status_before_loading.is_none() && self.now_playing.is_some() {
            self.playback_status_before_loading = Some(self.playback_status);
        }
        self.resume_position = resume_position;
        self.play_loading = true;
        self.playback_status = PlaybackStatus::Buffering;
    }

    /// Records a play request under a fresh identifier and enters loading;
    /// returns the identifier.
    pub fn begin_play_request(&mut self, request: PendingPlayRequest, resume_position: MediaTime) -> (r: u64)
        requires
            old(self)@.play_nonce < u64::MAX,
        ensures
            r == old(self)@.play_nonce + 1,
            final(self)@.play_nonce == r,
            final(self)@.pending_play_request == Some(PendingPlayRequestView { request_id: r, ..request@ }),
            final(self)@.resume_position == resume_position,
            final(self)@.play_loading,
            final(self)@.playback_status == PlaybackStatus::Buffering,
            final(self)@.playback_status_before_loading ==
                if old(self)@.playback_status_before_loading is None && old(self)@.now_playing is Some {
                    Some(old(self)@.playback_status)
                } else {
                    old(self)@.playback_status_before_loading
                },
            final(self)@.playback_context == old(self)@.playback_context,
            final(self)@.current_track_index == old(self)@.current_track_index,
            final(self)@.now_playing == old(self)@.now_playing,
            final(self)@.repeat_mode == old(self)@.repeat_mode,
            final(self)@.shuffle_enabled == old(self)@.shuffle_enabled,
            final(self)@.shuffle_seed == old(self)@.shuffle_seed,
    {
        self.play_nonce = self.play_nonce + 1;
        let mut request = request;
        request.request_id = self.play_nonce;
        self.pending_play_request = Some(request);
        self.begin_playback_resolution(resume_position);
        self.play_nonce
    }

    /// Hands out the pending request when its identifier matches, leaving
    /// none pending; otherwise changes nothing.
    pub fn take_pending_request_if_matches(&mut self, request_id: u64) -> (r: Option<PendingPlayRequest>)
        ensures
            final(self).sent() == old(self).sent(),
            (opt_request_view(r), final(self)@) == take_outcome(old(self)@, request_id),
            (old(self)@.pending_play_request matches Some(p) && p.request_id == request_id) ==> (
                opt_request_view(r) == old(self)@.pending_play_request
                && final(self)@ == (PlaybackModuleView { pending_play_request: None, ..old(self)@ })),
            !(old(self)@.pending_play_request matches Some(p) && p.request_id == request_id) ==> (
                r is None && final(self)@ == old(self)@),
    {
        let matches = match &self.pending_play_request {
            Some(request) => request.request_id == request_id,
            None => false,
        };
        if matches {
            self.pending_play_request.take()
        } else {
            None
        }
    }

    /// Playback of `now_playing` at `current_track_index` of `playback_context`
    /// has started.
    pub fn apply_ready_playback(&mut self, playback_context: TrackList, current_track_index: usize, now_playing: Track)
        ensures
            final(self).sent() == old(self).sent(),
            final(self)@ == (PlaybackModuleView {
                play_loading: false,
                playback_status_before_loading: None,
                playback_context: Some(playback_context@),
                current_track_index: Some(current_track_index),
                now_playing: Some(now_playing),
                resume_position: final(self)@.resume_position,
                playback_status: PlaybackStatus::Playing,
                ..old(self)@
            }),
            final(self)@.resume_position@ == 0,
    {
        self.play_loading = false;
        self.playback_status_before_loading = None;
        self.playback_context = Some(playback_context);
        self.current_track_index = Some(current_track_index);
        self.now_playing = Some(now_playing);
        self.resume_position = MediaTime::zero();
        self.playback_status = PlaybackStatus::Playing;
    }

    /// The current track has restarted from its beginning.
    pub fn restart_current_playback(&mut self)
        ensures
            final(self)@ == (PlaybackModuleView {
                play_loading: false,
                playback_status_before_loading: None,
                pending_play_request: None,
                resume_position: final(self)@.resume_position,
                playback_status: PlaybackStatus::Playing,
                ..old(self)@
            }),
            final(self)@.resume_position@ == 0,
    {
        self.play_loading = false;
        self.playback_status_before_loading = None;
        self.pending_play_request = None;
        self.resume_position = MediaTime::zero();
        self.playback_status = PlaybackStatus::Playing;
    }

    /// Loading failed: leaves loading and returns to the status remembered
    /// before it (idle when none was).
    pub fn mark_playback_failed(&mut self)
        ensures
            final(self).sent() == old(self).sent(),
            final(self)@ == (PlaybackModuleView {
                play_loading: false,
                playback_status: match old(self)@.playback_status_before_loading {
                    Some(s) => s,
                    None => PlaybackStatus::Idle,
                },
                playback_status_before_loading: None,
                ..old(self)@
            }),
    {
        self.play_loading = false;
        self.playback_status = match self.playback_status_before_loading.take() {
            Some(s) => s,
            None => PlaybackStatus::Idle,
        };
    }

    pub fn replace_playback_context(&mut self, playback_context: TrackList)
        ensures
            final(self)@ == (PlaybackModuleView { playback_context: Some(playback_context@), ..old(self)@ }),
    {
        self.playback_context = Some(playback_context);
    }

    /// Applies one observation of the worker: a finished track ends it, a
    /// position while playing updates it, buffering shows as buffering, a
    /// failure is reported; the resume position follows the reported one.
    pub fn handle_runtime_status(&mut self, status: PlaybackRuntimeStatus) -> (r: RuntimeTickOutcome)
        ensures
            final(self).sent() == old(self).sent(),
            final(self)@ == (PlaybackModuleView {
                resume_position: final(self)@.resume_position,
                playback_status: final(self)@.playback_status,
                ..old(self)@
            }),
            r == runtime_outcome(old(self)@, status),
            final(self)@.resume_position == runtime_resume_position(old(self)@, status),
            final(self)@.playback_status == runtime_playback_status(old(self)@, status),
    {
        let position = status.position;
        if !status.buffering && status.finished && !status.failed {
            self.resume_position = match position { Some(p) => p, None => MediaTime::zero() };
            return RuntimeTickOutcome::TrackFinished;
        }
        if !status.buffering && !status.finished && !status.failed {
            return match position {
                Some(p) => {
                    self.resume_position = p;
                    self.playback_status = PlaybackStatus::Playing;
                    RuntimeTickOutcome::PositionUpdated(p)
                },
                None => RuntimeTickOutcome::NoChange,
            };
        }
        if status.buffering {
            self.resume_position = match position { Some(p) => p, None => self.resume_position };
            if self.playback_status != PlaybackStatus::Buffering {
                self.playback_status = PlaybackStatus::Buffering;
                return RuntimeTickOutcome::UiRefreshRequested;
            }
            return RuntimeTickOutcome::NoChange;
        }
        // Not buffering and failed.
        if !status.finished {
            self.resume_position = match position { Some(p) => p, None => self.resume_position };
            return RuntimeTickOutcome::PlaybackFailed;
        }
        match position {
            None => RuntimeTickOutcome::PlaybackFailed,
            Some(p) => {
                self.resume_position = p;
                RuntimeTickOutcome::PlaybackFailed
            },
        }
    }

    /// Polls the worker when it should be polled, applies the observation,
    /// and lists what the application must do: advance after a finished
    /// track, handle a failure, or refresh the interface (always with active
    /// downloads, or after a position or buffering change).
    pub fn handle_refresh_tick(&mut self, has_active_downloads: bool) -> (r: Vec<PlaybackRuntimeEvent>)
        ensures
            !old(self)@.should_poll() ==> final(self)@ == old(self)@
                && r@ == tick_events_spec(RuntimeTickOutcome::NoChange, has_active_downloads),
            !old(self)@.should_poll() ==> final(self).sent() == old(self).sent(),
            old(self)@.should_poll() ==> (final(self)@ == old(self)@
                && r@ == tick_events_spec(RuntimeTickOutcome::NoChange, has_active_downloads))
                || exists|st: PlaybackRuntimeStatus| final(self)@ == (PlaybackModuleView {
                    resume_position: runtime_resume_position(old(self)@, st),
                    playback_status: runtime_playback_status(old(self)@, st),
                    ..old(self)@
                }) && r@ == tick_events_spec(#[trigger] runtime_outcome(old(self)@, st), has_active_downloads),
            old(self)@.should_poll() ==> final(self).sent() == old(self).sent()
                || final(self).sent().subrange(0, old(self).sent().len() as int + 1)
                    == old(self).sent().push(WorkerRequest::RuntimeStatus),
            has_active_downloads ==> r@.len() > 0 && r@.last() == PlaybackRuntimeEvent::UiRefreshRequested,
    {
        let mut events: Vec<PlaybackRuntimeEvent> = Vec::new();
        let mut should_notify = has_active_downloads;
        let ghost before = self.sent();
        let ghost start = self@;
        let ghost mut got: Option<PlaybackRuntimeStatus> = None;
        if self.should_poll_runtime() {
            match self.runtime_status() {
                Ok(status) => {
                    proof { got = Some(status); }
                    let ghost polled = self.sent();
                    match self.handle_runtime_status(status) {
                        RuntimeTickOutcome::NoChange => {},
                        RuntimeTickOutcome::PositionUpdated(position) => {
                            let ghost mid = self.sent();
                            let _ = self.update_media_position(PlaybackState::Playing, position);
                            proof {
                                if self.sent() != mid {
                                    assert(self.sent().subrange(0, before.len() as int + 1) =~= mid);
                                }
                            }
                            should_notify = true;
                        },
                        RuntimeTickOutcome::TrackFinished => {
                            events.push(PlaybackRuntimeEvent::TrackFinished);
                        },
                        RuntimeTickOutcome::UiRefreshRequested => {
                            should_notify = true;
                        },
                        RuntimeTickOutcome::PlaybackFailed => {
                            events.push(PlaybackRuntimeEvent::PlaybackFailed);
                        },
                    }
                    proof {
                        if self.sent() == polled {
                            assert(polled.subrange(0, before.len() as int + 1) =~= polled);
                        }
                    }
                },
                Err(_) => {},
            }
        }
        if should_notify {
            events.push(PlaybackRuntimeEvent::UiRefreshRequested);
        }
        proof {
            if let Some(st) = got {
                assert(events@ =~= tick_events_spec(runtime_outcome(start, st), has_active_downloads));
            } else {
                assert(events@ =~= tick_events_spec(RuntimeTickOutcome::NoChange, has_active_downloads));
            }
        }
        events
    }

    /// Removes every entry of a track from the playing list. When the
    /// current track itself goes, or the list empties, playback resets to
    /// idle; otherwise the current index moves back past the removed
    /// entries before it.
    pub fn remove_track(&mut self, provider: &ProviderId, track_id: &str) -> (r: PlaybackContextTrackRemoval)
        ensures
            removal_spec(old(self)@, final(self)@, r, *provider, track_id@),
    {
        let context = match &self.playback_context {
            Some(c) => c,
            None => return PlaybackContextTrackRemoval::Unchanged,
        };
        let current_track_index = self.current_track_index;
        let removed_before = match current_track_index {
            Some(c) => count_track_before(&context.tracks, provider, track_id, c),
            None => 0,
        };
        let id = track_id.to_owned();
        let current_track_removed = match current_track_index {
            Some(c) => if c < context.tracks.len() {
                let t = &context.tracks[c];
                t.reference.provider.same_as(provider) && t.reference.id == id
            } else {
                false
            },
            None => false,
        };
        let original_len = context.tracks.len();
        let kept = remove_track_entries(&context.tracks, provider, track_id);
        proof { lemma_without_track_len(context.tracks@, *provider, track_id@); }
        if kept.len() == original_len {
            return PlaybackContextTrackRemoval::Unchanged;
        }
        let mut collection = context.collection.clone();
        collection.track_count = Some(kept.len());
        let new_context = TrackList { collection, tracks: kept };
        if current_track_removed || new_context.tracks.len() == 0 {
            self.play_loading = false;
            self.playback_context = Some(new_context);
            self.current_track_index = None;
            self.now_playing = None;
            self.resume_position = MediaTime::zero();
            self.playback_status = PlaybackStatus::Idle;
            return PlaybackContextTrackRemoval::CurrentTrackRemoved;
        }
        self.playback_context = Some(new_context);
        self.current_track_index = match current_track_index {
            Some(c) => Some(if c >= removed_before { c - removed_before } else { 0 }),
            None => None,
        };
        PlaybackContextTrackRemoval::ContextUpdated
    }
}

impl PlaybackModuleView {
    pub open spec fn should_poll(self) -> bool {
        !self.play_loading && self.pending_play_request is None
            && (self.playback_status == PlaybackStatus::Playing || self.playback_status == PlaybackStatus::Buffering)
            && self.now_playing is Some
    }
}

/// The events of one refresh: a finished or failed track, then a refresh
/// of the interface when downloads are active or the position or buffering
/// changed.
pub open spec fn tick_events_spec(outcome: RuntimeTickOutcome, has_active_downloads: bool) -> Seq<PlaybackRuntimeEvent> {
    let base = match outcome {
        RuntimeTickOutcome::TrackFinished => seq![PlaybackRuntimeEvent::TrackFinished],
        RuntimeTickOutcome::PlaybackFailed => seq![PlaybackRuntimeEvent::PlaybackFailed],
        _ => Seq::empty(),
    };
    if has_active_downloads || outcome is PositionUpdated || outcome is UiRefreshRequested {
        base.push(PlaybackRuntimeEvent::UiRefreshRequested)
    } else {
        base
    }
}

/// The outcome of one worker observation.
pub open spec fn runtime_outcome(s: PlaybackModuleView, st: PlaybackRuntimeStatus) -> RuntimeTickOutcome {
    if !st.buffering && st.finished && !st.failed {
        RuntimeTickOutcome::TrackFinished
    } else if !st.buffering && !st.finished && !st.failed {
        match st.position {
            Some(p) => RuntimeTickOutcome::PositionUpdated(p),
            None => RuntimeTickOutcome::NoChange,
        }
    } else if st.buffering {
        if s.playback_status != PlaybackStatus::Buffering {
            RuntimeTickOutcome::UiRefreshRequested
        } else {
            RuntimeTickOutcome::NoChange
        }
    } else {
        RuntimeTickOutcome::PlaybackFailed
    }
}

/// The resume position after one worker observation: the reported position
/// when there is one (zero for a finished track without one), else as before.
pub open spec fn runtime_resume_position(s: PlaybackModuleView, st: PlaybackRuntimeStatus) -> MediaTime {
    match st.position {
        Some(p) => p,
        None => if !st.buffering && st.finished && !st.failed {
            MediaTime::spec_zero()
        } else {
            s.resume_position
        },
    }
}

/// The playback status after one worker observation.
pub open spec fn runtime_playback_status(s: PlaybackModuleView, st: PlaybackRuntimeStatus) -> PlaybackStatus {
    if !st.buffering && !st.finished && !st.failed && st.position is Some {
        PlaybackStatus::Playing
    } else if st.buffering {
        PlaybackStatus::Buffering
    } else {
        s.playback_status
    }
}

/// What removing a track from the playing list does.
pub open spec fn removal_spec(
    old: PlaybackModuleView,
    new: PlaybackModuleView,
    r: PlaybackContextTrackRemoval,
    provider: ProviderId,
    id: Seq<char>,
) -> bool {
    match old.playback_context {
        None => r == PlaybackContextTrackRemoval::Unchanged && new == old,
        Some(ctx) => {
            let kept = without_track(ctx.tracks, provider, id);
            if kept.len() == ctx.tracks.len() {
                r == PlaybackContextTrackRemoval::Unchanged && new == old
            } else {
                let new_ctx = TrackListView {
                    collection: crate::model::CollectionSummary {
                        track_count: Some(kept.len() as usize),
                        ..ctx.collection
                    },
                    tracks: kept,
                };
                let current_removed = old.current_track_index matches Some(c)
                    && c < ctx.tracks.len() && is_track(ctx.tracks[c as int], provider, id);
                if current_removed || kept.len() == 0 {
                    &&& r == PlaybackContextTrackRemoval::CurrentTrackRemoved
                    &&& new == (PlaybackModuleView {
                        play_loading: false,
                        playback_context: Some(new_ctx),
                        current_track_index: None,
                        now_playing: None,
                        resume_position: new.resume_position,
                        playback_status: PlaybackStatus::Idle,
                        ..old
                    })
                    &&& new.resume_position@ == 0
                } else {
                    &&& r == PlaybackContextTrackRemoval::ContextUpdated
                    &&& new == (PlaybackModuleView {
                        playback_context: Some(new_ctx),
                        current_track_index: match old.current_track_index {
                            Some(c) => {
                                let before = count_track(ctx.tracks.take(if c <= ctx.tracks.len() { c as int } else { ctx.tracks.len() as int }), provider, id);
                                Some(if c >= before { (c - before) as usize } else { 0usize })
                            },
                            None => None,
                        },
                        ..old
                    })
                }
            }
        },
    }
}

/// Removing a track keeps the current track current: when the list is
/// updated, the entry at the new current index is the entry that was
/// current before, and the removed track appears nowhere in the list.
pub proof fn lemma_removal_keeps_current_track(
    old: PlaybackModuleView,
    new: PlaybackModuleView,
    r: PlaybackContextTrackRemoval,
    provider: ProviderId,
    id: Seq<char>,
)
    requires
        removal_spec(old, new, r, provider, id),
        r == PlaybackContextTrackRemoval::ContextUpdated,
        old.current_track_index matches Some(c) && c < old.playback_context.unwrap().tracks.len(),
    ensures
        new.current_track_index matches Some(nc)
            && nc < new.playback_context.unwrap().tracks.len()
            && new.playback_context.unwrap().tracks[nc as int]
                == old.playback_context.unwrap().tracks[old.current_track_index.unwrap() as int],
        forall|j: int| 0 <= j < new.playback_context.unwrap().tracks.len()
            ==> !is_track(#[trigger] new.playback_context.unwrap().tracks[j], provider, id),
        new.playback_context.unwrap().collection.track_count == Some(new.playback_context.unwrap().tracks.len() as usize),
{
    let ctx = old.playback_context.unwrap();
    let c = old.current_track_index.unwrap();
    lemma_without_track_index(ctx.tracks, provider, id, c as int);
    lemma_without_track_len(ctx.tracks, provider, id);
}

} // verus!
