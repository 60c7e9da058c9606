//! The transport controls' decisions: what play, pause and toggle do, where
//! a seek lands, and the status lines they leave.

use vstd::prelude::*;
use crate::controller::PlaybackError;
use crate::model::PlaybackStatus;
use crate::time::{MediaTime, max_nanos};

verus! {

impl PlaybackError {
    pub open spec fn message_view(self) -> Seq<char> {
        match self {
            PlaybackError::WorkerUnavailable => "Playback worker is unavailable"@,
            PlaybackError::WorkerDisconnected => "Playback worker disconnected before responding"@,
            PlaybackError::Failed(m) => m@,
        }
    }

    /// The error as the status line shows it.
    pub fn message(&self) -> (r: String)
        ensures
            r@ == self.message_view(),
    {
        match self {
            PlaybackError::WorkerUnavailable => String::from_str("Playback worker is unavailable"),
            PlaybackError::WorkerDisconnected => String::from_str("Playback worker disconnected before responding"),
            PlaybackError::Failed(m) => m.clone(),
        }
    }
}

/// What the play/pause control does.
#[derive(Clone, Copy, Debug, PartialEq, Eq, Structural)]
pub enum TransportAction {
    Ignore,
    Pause,
    Play,
}

/// What the play/pause control does: nothing while a track is being
/// prepared; pause while playing or buffering; play otherwise.
pub fn toggle_playback_action(play_loading: bool, status: PlaybackStatus) -> (r: TransportAction)
    ensures
        play_loading ==> r == TransportAction::Ignore,
        !play_loading && (status == PlaybackStatus::Playing || status == PlaybackStatus::Buffering) ==> r == TransportAction::Pause,
        !play_loading && (status == PlaybackStatus::Paused || status == PlaybackStatus::Idle) ==> r == TransportAction::Play,
{
    if play_loading {
        return TransportAction::Ignore;
    }
    match status {
        PlaybackStatus::Playing | PlaybackStatus::Buffering => TransportAction::Pause,
        PlaybackStatus::Paused | PlaybackStatus::Idle => TransportAction::Play,
    }
}

/// Whether Play starts the current track again rather than resuming the
/// player: when idle, or when paused with no live playback but a current
/// track. `live_position` is the player's position, `None` when it has none
/// or could not say.
pub fn should_restart_current_track_on_play(
    status: PlaybackStatus,
    live_position: Option<MediaTime>,
    current_index: Option<usize>,
) -> (r: bool)
    ensures
        r == (status == PlaybackStatus::Idle
            || (status == PlaybackStatus::Paused && live_position is None && current_index is Some)),
{
    match status {
        PlaybackStatus::Idle => true,
        PlaybackStatus::Paused => live_position.is_none() && current_index.is_some(),
        _ => false,
    }
}

/// The track and position a restart plays: the current track, from the
/// saved position unless that is zero.
pub fn resume_request(current_index: Option<usize>, resume_position: MediaTime) -> (r: Option<(usize, Option<MediaTime>)>)
    ensures
        match current_index {
            Some(i) => r == Some((i, if resume_position@ == 0 { None::<MediaTime> } else { Some(resume_position) })),
            None => r is None,
        },
{
    match current_index {
        Some(i) => Some((i, if resume_position.is_zero() { None } else { Some(resume_position) })),
        None => None,
    }
}

/// Where seeking back lands: `delta` before the position, not before the
/// start.
pub fn seek_backward_target(position: MediaTime, delta: MediaTime) -> (r: MediaTime)
    ensures
        r@ == if position@ >= delta@ { position@ - delta@ } else { 0 },
{
    position.saturating_sub(delta)
}

/// Where seeking forward lands: `delta` after the position.
pub fn seek_forward_target(position: MediaTime, delta: MediaTime) -> (r: MediaTime)
    requires
        position@ + delta@ <= max_nanos(),
    ensures
        r@ == position@ + delta@,
{
    position.saturating_add(delta)
}

/// Where a seek to `target` lands in a track of the given length: no later
/// than its end; nowhere when the length is unknown.
pub fn seek_within_track(target: MediaTime, duration: Option<MediaTime>) -> (r: Option<MediaTime>)
    ensures
        match duration {
            Some(d) => r matches Some(t) && t@ == if target@ <= d@ { target@ } else { d@ },
            None => r is None,
        },
{
    match duration {
        Some(d) => Some(if d.at_least(&target) { target } else { d }),
        None => None,
    }
}

/// Shuffle after a toggle: on with a fresh seed, or off keeping the seed;
/// and the status line.
pub fn shuffle_toggled(enabled: bool, current_seed: u64, fresh_seed: u64) -> (r: (bool, u64, &'static str))
    ensures
        r.0 == !enabled,
        r.1 == if !enabled { fresh_seed } else { current_seed },
        r.2@ == if !enabled { "Shuffle On"@ } else { "Shuffle Off"@ },
{
    if enabled { (false, current_seed, "Shuffle Off") } else { (true, fresh_seed, "Shuffle On") }
}

/// The status line after a transport request failed: what failed and why.
pub fn transport_failure_message(action: &str, error: &PlaybackError) -> (r: String)
    ensures
        r@ == action@ + " failed: "@ + error.message_view(),
{
    let mut r = String::from_str(action);
    r.append(" failed: ");
    let m = error.message();
    r.append(m.as_str());
    r
}

} // verus!
