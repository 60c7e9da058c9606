//! The client side of the playback worker: each request is a command sent
//! over a channel together with a reply channel, and the worker's reply is
//! handed back to the caller.

use vstd::prelude::*;
use std::sync::mpsc::{Receiver, Sender};
use crate::time::MediaTime;

verus! {

#[verifier::external_type_specification]
#[verifier::external_body]
#[verifier::reject_recursive_types(T)]
pub struct ExSender<T>(Sender<T>);

#[verifier::external_type_specification]
#[verifier::external_body]
#[verifier::reject_recursive_types(T)]
pub struct ExReceiver<T>(Receiver<T>);

/// `std::sync::mpsc::channel`: a fresh connected sender and receiver.
/// Nothing is stated of the pair.
#[verifier::external_body]
fn new_channel<T>() -> (Sender<T>, Receiver<T>) {
    std::sync::mpsc::channel()
}

/// `Receiver::recv`: the next value, or none once every sender is gone. The
/// outcome depends on the other side, so nothing is stated of it.
#[verifier::external_body]
fn channel_recv<T>(rx: &Receiver<T>) -> Option<T> {
    rx.recv().ok()
}

/// What the player is doing, as published to the media session.
#[derive(Clone, Copy, Debug, PartialEq, Eq, Structural)]
pub enum PlaybackState {
    Idle,
    Paused,
    Playing,
}

/// What the worker observes of the current playback.
#[derive(Clone, Copy, Debug, PartialEq, Eq, Structural)]
pub struct PlaybackRuntimeStatus {
    pub position: Option<MediaTime>,
    pub buffering: bool,
    pub finished: bool,
    pub failed: bool,
}

/// The track metadata published to the operating system's media session.
#[derive(Debug, PartialEq, Eq)]
pub struct MediaSessionTrack {
    pub title: String,
    pub album: Option<String>,
    pub artist: Option<String>,
    pub artwork_url: Option<String>,
    pub duration_seconds: Option<u32>,
}

/// Where the audio comes from: a finished local file, or a file that is
/// still being downloaded (with the handle `D` of its download).
#[derive(Debug)]
pub enum PlaybackSource<D> {
    LocalFile(String),
    GrowingFile { path: String, final_path: String, download: D },
}

/// Why a request to the worker did not succeed.
#[derive(Debug, PartialEq, Eq)]
pub enum PlaybackError {
    /// The worker no longer accepts commands.
    WorkerUnavailable,
    /// The worker dropped the request without answering.
    WorkerDisconnected,
    /// The worker answered with a failure.
    Failed(String),
}

/// A request to the playback worker, with the channel for its reply.
#[verifier::reject_recursive_types(D)]
pub enum PlaybackCommand<D> {
    Play {
        track: MediaSessionTrack,
        source: PlaybackSource<D>,
        position: Option<MediaTime>,
        done: Sender<Result<(), PlaybackError>>,
    },
    Pause { done: Sender<Result<(), PlaybackError>> },
    Resume { done: Sender<Result<(), PlaybackError>> },
    Stop { done: Sender<Result<(), PlaybackError>> },
    Position { done: Sender<Result<Option<MediaTime>, PlaybackError>> },
    RuntimeStatus { done: Sender<Result<PlaybackRuntimeStatus, PlaybackError>> },
    Warm { done: Sender<Result<(), PlaybackError>> },
    SeekTo { position: MediaTime, done: Sender<Result<(), PlaybackError>> },
    RestartCurrent { done: Sender<Result<(), PlaybackError>> },
    PublishSession {
        track: MediaSessionTrack,
        playback: PlaybackState,
        position: Option<MediaTime>,
        prime: bool,
        done: Sender<Result<(), PlaybackError>>,
    },
    UpdateMediaPosition {
        playback: PlaybackState,
        position: MediaTime,
        done: Sender<Result<(), PlaybackError>>,
    },
}

/// The caller's result of a request: `WorkerUnavailable` when the command
/// could not be sent, `WorkerDisconnected` when no reply came, otherwise
/// the worker's reply.
pub open spec fn reply_outcome<T>(sent: bool, reply: Option<Result<T, PlaybackError>>) -> Result<T, PlaybackError> {
    if !sent {
        Err(PlaybackError::WorkerUnavailable)
    } else {
        match reply {
            None => Err(PlaybackError::WorkerDisconnected),
            Some(r) => r,
        }
    }
}

/// Every request to the worker fails the same two ways: with "worker
/// unavailable" when the command could not be handed over (the worker is
/// gone), with "worker disconnected" when it was but no reply came; a reply
/// that came is the result as it is.
pub proof fn lemma_request_failures<T>(reply: Option<Result<T, PlaybackError>>)
    ensures
        reply_outcome::<T>(false, reply) == Err::<T, PlaybackError>(PlaybackError::WorkerUnavailable),
        reply_outcome::<T>(true, None) == Err::<T, PlaybackError>(PlaybackError::WorkerDisconnected),
        reply matches Some(x) ==> reply_outcome::<T>(true, reply) == x,
{
}

/// Turns the outcome of sending a command and waiting for its reply into
/// the caller's result.
pub fn worker_reply<T>(sent: bool, reply: Option<Result<T, PlaybackError>>) -> (r: Result<T, PlaybackError>)
    ensures
        r == reply_outcome(sent, reply),
{
    if !sent {
        return Err(PlaybackError::WorkerUnavailable);
    }
    match reply {
        None => Err(PlaybackError::WorkerDisconnected),
        Some(r) => r,
    }
}

/// What a command asks of the worker, without its reply channel.
#[verifier::reject_recursive_types(D)]
pub ghost enum WorkerRequest<D> {
    Play { track: MediaSessionTrack, source: PlaybackSource<D>, position: Option<MediaTime> },
    Pause,
    Resume,
    Stop,
    Position,
    RuntimeStatus,
    Warm,
    SeekTo { position: MediaTime },
    RestartCurrent,
    PublishSession { track: MediaSessionTrack, playback: PlaybackState, position: Option<MediaTime>, prime: bool },
    UpdateMediaPosition { playback: PlaybackState, position: MediaTime },
}

/// The request a command carries.
pub open spec fn request_of<D>(command: PlaybackCommand<D>) -> WorkerRequest<D> {
    match command {
        PlaybackCommand::Play { track, source, position, .. } => WorkerRequest::Play { track, source, position },
        PlaybackCommand::Pause { .. } => WorkerRequest::Pause,
        PlaybackCommand::Resume { .. } => WorkerRequest::Resume,
        PlaybackCommand::Stop { .. } => WorkerRequest::Stop,
        PlaybackCommand::Position { .. } => WorkerRequest::Position,
        PlaybackCommand::RuntimeStatus { .. } => WorkerRequest::RuntimeStatus,
        PlaybackCommand::Warm { .. } => WorkerRequest::Warm,
        PlaybackCommand::SeekTo { position, .. } => WorkerRequest::SeekTo { position },
        PlaybackCommand::RestartCurrent { .. } => WorkerRequest::RestartCurrent,
        PlaybackCommand::PublishSession { track, playback, position, prime, .. } =>
            WorkerRequest::PublishSession { track, playback, position, prime },
        PlaybackCommand::UpdateMediaPosition { playback, position, .. } =>
            WorkerRequest::UpdateMediaPosition { playback, position },
    }
}

/// A handle to the playback worker. Its view is the sequence of requests
/// the worker's channel accepted through it, oldest first; a command the
/// channel refused (the worker is gone) is not in it.
#[verifier::reject_recursive_types(D)]
pub struct PlaybackController<D> {
    tx: Sender<PlaybackCommand<D>>,
    sent: Ghost<Seq<WorkerRequest<D>>>,
}

impl<D> View for PlaybackController<D> {
    type V = Seq<WorkerRequest<D>>;

    closed spec fn view(&self) -> Seq<WorkerRequest<D>> {
        self.sent@
    }
}

/// `Sender::clone`: another sender to the same receiver. Nothing is stated
/// of it.
#[verifier::external_body]
fn clone_sender<T>(tx: &Sender<T>) -> Sender<T> {
    tx.clone()
}

impl<D> Clone for PlaybackController<D> {
    /// Another handle to the same worker, with no requests of its own yet.
    fn clone(&self) -> (r: Self)
        ensures
            r@ == Seq::<WorkerRequest<D>>::empty(),
    {
        PlaybackController { tx: clone_sender(&self.tx), sent: Ghost(Seq::empty()) }
    }
}

impl Clone for PlaybackError {
    fn clone(&self) -> (r: Self)
        ensures
            r == *self,
    {
        match self {
            PlaybackError::WorkerUnavailable => PlaybackError::WorkerUnavailable,
            PlaybackError::WorkerDisconnected => PlaybackError::WorkerDisconnected,
            PlaybackError::Failed(s) => PlaybackError::Failed(s.clone()),
        }
    }
}

impl<D> PlaybackController<D> {
    /// A controller that sends its commands to the given worker channel.
    pub fn from_sender(tx: Sender<PlaybackCommand<D>>) -> (r: Self)
        ensures
            r@ == Seq::<WorkerRequest<D>>::empty(),
    {
        PlaybackController { tx, sent: Ghost(Seq::empty()) }
    }

    /// `Sender::send` on the worker's channel: whether the command was handed
    /// to the worker. A command handed over is recorded in the controller's
    /// view; a refused one is not, and the view stays as it was.
    #[verifier::external_body]
    fn send_recorded(&mut self, command: PlaybackCommand<D>) -> (ok: bool)
        ensures
            ok ==> final(self)@ == old(self)@.push(request_of(command)),
            !ok ==> final(self)@ == old(self)@,
    {
        self.tx.send(command).is_ok()
    }

    /// Hands a command to the worker and waits for the reply on `done_rx`.
    /// When the worker takes the command, it is recorded and the result is
    /// the reply, or "worker disconnected" when none came; when the worker
    /// is gone, nothing is recorded and the result is "worker unavailable".
    fn request<T>(&mut self, command: PlaybackCommand<D>, done_rx: Receiver<Result<T, PlaybackError>>) -> (r: Result<T, PlaybackError>)
        ensures
            (final(self)@ == old(self)@.push(request_of(command))
                && exists|reply: Option<Result<T, PlaybackError>>| r == reply_outcome(true, reply))
            || (final(self)@ == old(self)@ && r == Err::<T, PlaybackError>(PlaybackError::WorkerUnavailable)),
    {
        let ghost req = request_of(command);
        let sent = self.send_recorded(command);
        let reply = if sent { channel_recv(&done_rx) } else { None };
        let r = worker_reply(sent, reply);
        proof {
            if !sent {
                assert(final(self)@.len() == old(self)@.len());
            }
        }
        r
    }

    /// Plays `track` from `source`, from `position` or the start.
    pub fn play_source_at(&mut self, track: MediaSessionTrack, source: PlaybackSource<D>, position: Option<MediaTime>) -> (r: Result<(), PlaybackError>)
        ensures
            (final(self)@ == old(self)@.push(WorkerRequest::Play { track, source, position })
                && exists|reply: Option<Result<(), PlaybackError>>| r == reply_outcome(true, reply))
            || (final(self)@ == old(self)@ && r == Err::<(), PlaybackError>(PlaybackError::WorkerUnavailable)),
    {
        let (done, done_rx) = new_channel();
        self.request(PlaybackCommand::Play { track, source, position, done }, done_rx)
    }

    /// Pauses playback.
    pub fn pause(&mut self) -> (r: Result<(), PlaybackError>)
        ensures
            (final(self)@ == old(self)@.push(WorkerRequest::Pause)
                && exists|reply: Option<Result<(), PlaybackError>>| r == reply_outcome(true, reply))
            || (final(self)@ == old(self)@ && r == Err::<(), PlaybackError>(PlaybackError::WorkerUnavailable)),
    {
        let (done, done_rx) = new_channel();
        self.request(PlaybackCommand::Pause { done }, done_rx)
    }

    /// Resumes playback.
    pub fn resume(&mut self) -> (r: Result<(), PlaybackError>)
        ensures
            (final(self)@ == old(self)@.push(WorkerRequest::Resume)
                && exists|reply: Option<Result<(), PlaybackError>>| r == reply_outcome(true, reply))
            || (final(self)@ == old(self)@ && r == Err::<(), PlaybackError>(PlaybackError::WorkerUnavailable)),
    {
        let (done, done_rx) = new_channel();
        self.request(PlaybackCommand::Resume { done }, done_rx)
    }

    /// Stops playback.
    pub fn stop(&mut self) -> (r: Result<(), PlaybackError>)
        ensures
            (final(self)@ == old(self)@.push(WorkerRequest::Stop)
                && exists|reply: Option<Result<(), PlaybackError>>| r == reply_outcome(true, reply))
            || (final(self)@ == old(self)@ && r == Err::<(), PlaybackError>(PlaybackError::WorkerUnavailable)),
    {
        let (done, done_rx) = new_channel();
        self.request(PlaybackCommand::Stop { done }, done_rx)
    }

    /// The current position, when something plays.
    pub fn position(&mut self) -> (r: Result<Option<MediaTime>, PlaybackError>)
        ensures
            (final(self)@ == old(self)@.push(WorkerRequest::Position)
                && exists|reply: Option<Result<Option<MediaTime>, PlaybackError>>| r == reply_outcome(true, reply))
            || (final(self)@ == old(self)@ && r == Err::<Option<MediaTime>, PlaybackError>(PlaybackError::WorkerUnavailable)),
    {
        let (done, done_rx) = new_channel();
        self.request(PlaybackCommand::Position { done }, done_rx)
    }

    /// What the worker observes of the current playback.
    pub fn runtime_status(&mut self) -> (r: Result<PlaybackRuntimeStatus, PlaybackError>)
        ensures
            (final(self)@ == old(self)@.push(WorkerRequest::RuntimeStatus)
                && exists|reply: Option<Result<PlaybackRuntimeStatus, PlaybackError>>| r == reply_outcome(true, reply))
            || (final(self)@ == old(self)@ && r == Err::<PlaybackRuntimeStatus, PlaybackError>(PlaybackError::WorkerUnavailable)),
    {
        let (done, done_rx) = new_channel();
        self.request(PlaybackCommand::RuntimeStatus { done }, done_rx)
    }

    /// Opens the audio output ahead of the first playback.
    pub fn warm(&mut self) -> (r: Result<(), PlaybackError>)
        ensures
            (final(self)@ == old(self)@.push(WorkerRequest::Warm)
                && exists|reply: Option<Result<(), PlaybackError>>| r == reply_outcome(true, reply))
            || (final(self)@ == old(self)@ && r == Err::<(), PlaybackError>(PlaybackError::WorkerUnavailable)),
    {
        let (done, done_rx) = new_channel();
        self.request(PlaybackCommand::Warm { done }, done_rx)
    }

    /// Moves playback to `position`.
    pub fn seek_to(&mut self, position: MediaTime) -> (r: Result<(), PlaybackError>)
        ensures
            (final(self)@ == old(self)@.push(WorkerRequest::SeekTo { position })
                && exists|reply: Option<Result<(), PlaybackError>>| r == reply_outcome(true, reply))
            || (final(self)@ == old(self)@ && r == Err::<(), PlaybackError>(PlaybackError::WorkerUnavailable)),
    {
        let (done, done_rx) = new_channel();
        self.request(PlaybackCommand::SeekTo { position, done }, done_rx)
    }

    /// Plays the current track again from its start.
    pub fn restart_current(&mut self) -> (r: Result<(), PlaybackError>)
        ensures
            (final(self)@ == old(self)@.push(WorkerRequest::RestartCurrent)
                && exists|reply: Option<Result<(), PlaybackError>>| r == reply_outcome(true, reply))
            || (final(self)@ == old(self)@ && r == Err::<(), PlaybackError>(PlaybackError::WorkerUnavailable)),
    {
        let (done, done_rx) = new_channel();
        self.request(PlaybackCommand::RestartCurrent { done }, done_rx)
    }

    /// Publishes a track and playback state to the media session.
    pub fn publish_session(&mut self, track: MediaSessionTrack, playback: PlaybackState, position: Option<MediaTime>, prime: bool) -> (r: Result<(), PlaybackError>)
        ensures
            (final(self)@ == old(self)@.push(WorkerRequest::PublishSession { track, playback, position, prime })
                && exists|reply: Option<Result<(), PlaybackError>>| r == reply_outcome(true, reply))
            || (final(self)@ == old(self)@ && r == Err::<(), PlaybackError>(PlaybackError::WorkerUnavailable)),
    {
        let (done, done_rx) = new_channel();
        self.request(PlaybackCommand::PublishSession { track, playback, position, prime, done }, done_rx)
    }

    /// Publishes the playback state and position to the media session.
    pub fn update_media_position(&mut self, playback: PlaybackState, position: MediaTime) -> (r: Result<(), PlaybackError>)
        ensures
            (final(self)@ == old(self)@.push(WorkerRequest::UpdateMediaPosition { playback, position })
                && exists|reply: Option<Result<(), PlaybackError>>| r == reply_outcome(true, reply))
            || (final(self)@ == old(self)@ && r == Err::<(), PlaybackError>(PlaybackError::WorkerUnavailable)),
    {
        let (done, done_rx) = new_channel();
        self.request(PlaybackCommand::UpdateMediaPosition { playback, position, done }, done_rx)
    }
}

} // verus!
