//! The playback worker's decisions: where playback is, whether the track has
//! ended, is waiting for data or has failed, and where to read a file that
//! is still being downloaded.

use vstd::prelude::*;
use crate::controller::PlaybackRuntimeStatus;
use crate::time::MediaTime;

verus! {

/// How close to its end a track counts as finished: 250 ms.
pub open spec fn track_end_tolerance() -> nat {
    250_000_000
}

/// Whether a position is within the tolerance of the end of a track of the
/// given length in seconds.
pub open spec fn at_track_end_spec(position: nat, duration_seconds: Option<u32>) -> bool {
    match duration_seconds {
        Some(s) => crate::time::saturated_sum(position, track_end_tolerance()) >= s as nat * 1_000_000_000,
        None => false,
    }
}

/// Whether playback at `position` has reached the end of a track of the
/// given length (within the tolerance); never when the length is unknown.
pub fn at_track_end(position: MediaTime, duration_seconds: Option<u32>) -> (r: bool)
    ensures
        r == at_track_end_spec(position@, duration_seconds),
{
    match duration_seconds {
        Some(s) => position.saturating_add(MediaTime::from_millis(250)).at_least(&MediaTime::from_secs(s as u64)),
        None => false,
    }
}

/// The later of the player's and the clock's positions, whichever are known.
pub open spec fn combined_position(player: Option<MediaTime>, clock: Option<MediaTime>) -> Option<nat> {
    match (player, clock) {
        (Some(p), Some(c)) => Some(if p@ >= c@ { p@ } else { c@ }),
        (Some(p), None) => Some(p@),
        (None, Some(c)) => Some(c@),
        (None, None) => None,
    }
}

/// The playback position: the later of the player's and the clock's.
pub fn playback_position(player: Option<MediaTime>, clock: Option<MediaTime>) -> (r: Option<MediaTime>)
    ensures
        match (r, combined_position(player, clock)) {
            (Some(t), Some(e)) => t@ == e,
            (None, None) => true,
            _ => false,
        },
{
    match (player, clock) {
        (Some(p), Some(c)) => Some(p.max_of(c)),
        (Some(p), None) => Some(p),
        (None, Some(c)) => Some(c),
        (None, None) => None,
    }
}

/// What the worker sees of an active player.
#[derive(Clone, Copy, Debug, PartialEq, Eq, Structural)]
pub struct PlayerObservation {
    /// The player has no more queued audio.
    pub empty: bool,
    /// The player's own position.
    pub position: MediaTime,
}

/// What the worker sees when asked for the runtime status.
#[derive(Clone, Copy, Debug, PartialEq, Eq, Structural)]
pub struct WorkerObservation {
    /// An audio output has been opened.
    pub backend_ready: bool,
    /// The player, when one is active.
    pub player: Option<PlayerObservation>,
    /// The playback clock's position.
    pub clock_position: Option<MediaTime>,
    /// The current file is still downloading and its download is retrying.
    pub progressive_retrying: bool,
    /// The current file's download has failed.
    pub progressive_failed: bool,
    /// The length of the current track in seconds, when known.
    pub duration_seconds: Option<u32>,
}

/// The runtime status the worker reports for an observation.
pub open spec fn status_of(o: WorkerObservation) -> PlaybackRuntimeStatus {
    if !o.backend_ready {
        PlaybackRuntimeStatus { position: None, buffering: false, finished: false, failed: false }
    } else {
        match o.player {
            None => PlaybackRuntimeStatus { position: o.clock_position, buffering: false, finished: false, failed: false },
            Some(pl) => {
                let buffering = pl.empty && o.progressive_retrying;
                let failed = pl.empty && o.progressive_failed;
                let position = combined_position(Some(pl.position), o.clock_position).unwrap();
                let at_end = at_track_end_spec(position, o.duration_seconds);
                PlaybackRuntimeStatus {
                    position: Some(if pl.position@ >= position { pl.position } else { o.clock_position.unwrap() }),
                    buffering,
                    finished: (pl.empty || at_end) && !buffering && !failed,
                    failed,
                }
            },
        }
    }
}

/// The runtime status for an observation: without output nothing is known;
/// without a player only the clock's position; otherwise the position, and
/// whether the track is buffering (drained while its download retries),
/// failed (drained after its download failed) or finished (drained or at its
/// end, and neither of the others).
pub fn runtime_status_from(o: WorkerObservation) -> (r: PlaybackRuntimeStatus)
    ensures
        r.buffering == status_of(o).buffering,
        r.finished == status_of(o).finished,
        r.failed == status_of(o).failed,
        match (r.position, status_of(o).position) {
            (Some(a), Some(b)) => a@ == b@,
            (None, None) => true,
            _ => false,
        },
{
    if !o.backend_ready {
        return PlaybackRuntimeStatus { position: None, buffering: false, finished: false, failed: false };
    }
    match o.player {
        None => PlaybackRuntimeStatus { position: o.clock_position, buffering: false, finished: false, failed: false },
        Some(pl) => {
            let buffering = pl.empty && o.progressive_retrying;
            let failed = pl.empty && o.progressive_failed;
            let position = match playback_position(Some(pl.position), o.clock_position) {
                Some(p) => p,
                None => pl.position,
            };
            let at_end = at_track_end(position, o.duration_seconds);
            PlaybackRuntimeStatus {
                position: Some(position),
                buffering,
                finished: (pl.empty || at_end) && !buffering && !failed,
                failed,
            }
        },
    }
}

/// A reported status never calls a track finished while it is buffering or
/// has failed.
pub proof fn lemma_finished_excludes_buffering_and_failure(o: WorkerObservation)
    ensures
        status_of(o).finished ==> !status_of(o).buffering && !status_of(o).failed,
{
}

/// What the worker knows of the current track's source: a finished local
/// file, or a file still downloading, with whether its download retries
/// or failed; each with the track's length when known.
#[derive(Clone, Copy, Debug, PartialEq, Eq, Structural)]
pub enum SourceObservation {
    LocalFile { duration_seconds: Option<u32> },
    GrowingFile { retrying: bool, failed: bool, duration_seconds: Option<u32> },
}

/// The observation of a worker: only a growing file retries or fails.
pub open spec fn observation_of(
    backend_ready: bool,
    player: Option<PlayerObservation>,
    clock_position: Option<MediaTime>,
    current: Option<SourceObservation>,
) -> WorkerObservation {
    WorkerObservation {
        backend_ready,
        player,
        clock_position,
        progressive_retrying: current matches Some(SourceObservation::GrowingFile { retrying, .. }) && retrying,
        progressive_failed: current matches Some(SourceObservation::GrowingFile { failed, .. }) && failed,
        duration_seconds: match current {
            Some(SourceObservation::LocalFile { duration_seconds }) => duration_seconds,
            Some(SourceObservation::GrowingFile { duration_seconds, .. }) => duration_seconds,
            None => None,
        },
    }
}

/// Assembles the worker's observation from its output, player, clock and
/// current source.
pub fn worker_observation(
    backend_ready: bool,
    player: Option<PlayerObservation>,
    clock_position: Option<MediaTime>,
    current: Option<SourceObservation>,
) -> (r: WorkerObservation)
    ensures
        r == observation_of(backend_ready, player, clock_position, current),
{
    let (retrying, failed, duration_seconds) = match current {
        Some(SourceObservation::LocalFile { duration_seconds }) => (false, false, duration_seconds),
        Some(SourceObservation::GrowingFile { retrying, failed, duration_seconds }) => (retrying, failed, duration_seconds),
        None => (false, false, None),
    };
    WorkerObservation {
        backend_ready,
        player,
        clock_position,
        progressive_retrying: retrying,
        progressive_failed: failed,
        duration_seconds,
    }
}

/// Buffering and failure come only from a file still downloading whose
/// player ran dry; a track is never finished while either holds; and a
/// worker with no player and a stopped clock (fresh, only warmed, or
/// stopped) reports nothing at all.
pub proof fn lemma_runtime_status_sources(
    backend_ready: bool,
    player: Option<PlayerObservation>,
    clock_position: Option<MediaTime>,
    current: Option<SourceObservation>,
)
    ensures
        ({
            let st = status_of(observation_of(backend_ready, player, clock_position, current));
            &&& (st.buffering || st.failed) ==> (current matches Some(SourceObservation::GrowingFile { .. })
                && player matches Some(p) && p.empty)
            &&& st.finished ==> !st.buffering && !st.failed
            &&& (player is None && clock_position is None) ==> st == (PlaybackRuntimeStatus {
                position: None,
                buffering: false,
                finished: false,
                failed: false,
            })
        }),
{
}

/// When the file being played was a temporary download file that has since
/// been renamed to its final path, the reader falls back to the final file.
pub open spec fn falls_back_to_final(same_path: bool, path_is_file: bool, final_is_file: bool) -> bool {
    !same_path && !path_is_file && final_is_file
}

/// Whether to open the final file after the temporary one failed to open.
pub fn should_open_final_path(path: &str, final_path: &str, path_is_file: bool, final_is_file: bool) -> (r: bool)
    ensures
        r == falls_back_to_final(path@ == final_path@, path_is_file, final_is_file),
{
    let same = path.to_owned() == final_path.to_owned();
    !same && !path_is_file && final_is_file
}


/// The position a status reports while a player runs: the later of the
/// player's and the clock's.
pub open spec fn reported_position(pl: PlayerObservation, clock: Option<MediaTime>) -> nat {
    match clock {
        Some(c) => if c@ > pl.position@ { c@ } else { pl.position@ },
        None => pl.position@,
    }
}

/// A track within 250 ms of its known end is finished, drained or not,
/// unless it buffers or failed; a track that has not drained and is more
/// than 250 ms from its end (or of unknown length) is not finished.
pub proof fn lemma_finished_near_end(o: WorkerObservation, pl: PlayerObservation, d: u32)
    requires
        o.backend_ready,
        o.player == Some(pl),
        o.duration_seconds == Some(d),
    ensures
        !status_of(o).buffering && !status_of(o).failed
            && reported_position(pl, o.clock_position) + 250_000_000 >= d as nat * 1_000_000_000
            ==> status_of(o).finished,
        !pl.empty && reported_position(pl, o.clock_position) + 250_000_000 < d as nat * 1_000_000_000
            ==> !status_of(o).finished,
{
}

/// Without a known length, only a drained player (neither buffering nor
/// failed) makes a track finished.
pub proof fn lemma_finished_unknown_length(o: WorkerObservation, pl: PlayerObservation)
    requires
        o.backend_ready,
        o.player == Some(pl),
        o.duration_seconds is None,
    ensures
        status_of(o).finished == (pl.empty && !status_of(o).buffering && !status_of(o).failed),
{
}


/// A running player buffers exactly when it drained while its download
/// retries, and has failed exactly when it drained after its download
/// failed.
pub proof fn lemma_buffering_and_failure(o: WorkerObservation, pl: PlayerObservation)
    requires
        o.backend_ready,
        o.player == Some(pl),
    ensures
        status_of(o).buffering == (pl.empty && o.progressive_retrying),
        status_of(o).failed == (pl.empty && o.progressive_failed),
        status_of(o).position == Some(if reported_position(pl, o.clock_position) == pl.position@ {
            pl.position
        } else {
            o.clock_position->0
        }),
{
}

} // verus!
