//! The playback worker's decisions about its audio output: when a request
//! must first reopen the output, and what becomes of the current playback
//! once a fresh player has been built for it.

use vstd::prelude::*;
use crate::controller::PlaybackState;

verus! {

/// A request that may touch the audio output.
#[derive(Clone, Copy, Debug, PartialEq, Eq, Structural)]
pub enum OutputRequest {
    Play,
    Pause,
    Resume,
    Stop,
    Seek,
    Restart,
    Warm,
}

/// Whether a request must reopen the output before it runs, because the
/// system's output route changed since the output was opened: always for a
/// new track; for resuming, seeking or restarting only when something is
/// loaded. (A stale output can stay silent without reporting an error.)
pub fn forces_output_rebuild(request: OutputRequest, route_changed_since_rebuild: bool, has_current: bool) -> (r: bool)
    ensures
        r == match request {
            OutputRequest::Play => route_changed_since_rebuild,
            OutputRequest::Resume | OutputRequest::Seek | OutputRequest::Restart => route_changed_since_rebuild && has_current,
            _ => false,
        },
{
    match request {
        OutputRequest::Play => route_changed_since_rebuild,
        OutputRequest::Resume | OutputRequest::Seek | OutputRequest::Restart => route_changed_since_rebuild && has_current,
        _ => false,
    }
}

/// What to do with a freshly built player for the current playback.
#[derive(Clone, Copy, Debug, PartialEq, Eq, Structural)]
pub enum ReopenStep {
    /// It was playing: let it play.
    KeepPlaying,
    /// It was paused: pause the new player and the clock.
    PauseAgain,
    /// Nothing was playing: stop it and forget the current playback.
    StopAndForget,
}

/// What to do with a freshly built player, by what the playback was doing.
pub fn reopen_step(state: PlaybackState) -> (r: ReopenStep)
    ensures
        r == match state {
            PlaybackState::Playing => ReopenStep::KeepPlaying,
            PlaybackState::Paused => ReopenStep::PauseAgain,
            PlaybackState::Idle => ReopenStep::StopAndForget,
        },
{
    match state {
        PlaybackState::Playing => ReopenStep::KeepPlaying,
        PlaybackState::Paused => ReopenStep::PauseAgain,
        PlaybackState::Idle => ReopenStep::StopAndForget,
    }
}

/// The kinds of errors an output stream reports.
#[derive(Clone, Copy, Debug, PartialEq, Eq, Structural)]
pub enum StreamErrorKind {
    DeviceNotAvailable,
    StreamInvalidated,
    Other,
}

/// Whether a stream error means the output must be reopened.
pub fn stream_error_invalidates(kind: StreamErrorKind) -> (r: bool)
    ensures
        r <==> (kind == StreamErrorKind::DeviceNotAvailable || kind == StreamErrorKind::StreamInvalidated),
{
    match kind {
        StreamErrorKind::DeviceNotAvailable | StreamErrorKind::StreamInvalidated => true,
        StreamErrorKind::Other => false,
    }
}

} // verus!
