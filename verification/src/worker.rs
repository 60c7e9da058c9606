//! The playback worker's own state: the player it drives, the clock, the
//! state of the current track, and whether the audio output must be
//! reopened. Each request changes it as below; the worker performs what
//! the change hands back (stopping, pausing or resuming the player,
//! publishing the media-session state).

use vstd::prelude::*;
use crate::clock::{PlaybackClock, sat_sub};
use crate::controller::PlaybackState;
use crate::output::{OutputRequest, forces_output_rebuild};
use crate::time::{MediaTime, max_nanos};

verus! {

/// The worker's playback state; `P` is its player.
#[verifier::reject_recursive_types(P)]
pub struct WorkerTransport<P> {
    /// The player of the current track, when one was built.
    pub player: Option<P>,
    /// The clock of the current track.
    pub clock: PlaybackClock,
    /// The media-session state of the current track, when there is one.
    pub playback: Option<PlaybackState>,
    /// The audio output must be reopened before the next request.
    pub needs_rebuild: bool,
    /// The system's default output changed since the output was opened.
    pub route_changed_since_rebuild: bool,
}

impl<P> WorkerTransport<P> {
    /// No output opened, nothing playing.
    pub fn new() -> (r: Self)
        ensures
            r.player is None,
            r.clock.started_at is None,
            r.clock.paused_at is None,
            r.playback is None,
            !r.needs_rebuild,
            !r.route_changed_since_rebuild,
    {
        WorkerTransport {
            player: None,
            clock: PlaybackClock::new(),
            playback: None,
            needs_rebuild: false,
            route_changed_since_rebuild: false,
        }
    }

    /// Notes a request before it runs: when the route changed under a
    /// request that must then reopen the output, the output is marked for
    /// rebuilding. Nothing else changes.
    pub fn note_request(&mut self, request: OutputRequest)
        ensures
            final(self).needs_rebuild == (old(self).needs_rebuild || forces_output_rebuild_spec(
                request, old(self).route_changed_since_rebuild, old(self).playback is Some)),
            final(self).player == old(self).player,
            final(self).clock == old(self).clock,
            final(self).playback == old(self).playback,
            final(self).route_changed_since_rebuild == old(self).route_changed_since_rebuild,
    {
        let has_current = self.playback.is_some();
        if forces_output_rebuild(request, self.route_changed_since_rebuild, has_current) {
            self.needs_rebuild = true;
        }
    }

    /// A new track plays from `position` at `now` on `player`: the previous
    /// player (if any) comes back to be stopped, the clock starts, the output
    /// counts as fresh and the track is playing.
    pub fn start(&mut self, player: P, position: MediaTime, now: MediaTime) -> (r: Option<P>)
        ensures
            r == old(self).player,
            final(self).player == Some(player),
            final(self).clock.base_position == position,
            final(self).clock.started_at == Some(now),
            final(self).clock.paused_at is None,
            final(self).clock.paused_duration@ == 0,
            final(self).playback == Some(PlaybackState::Playing),
            !final(self).needs_rebuild,
            final(self).route_changed_since_rebuild == old(self).route_changed_since_rebuild,
    {
        let previous = self.player.take();
        self.player = Some(player);
        self.clock.start(position, now);
        self.needs_rebuild = false;
        self.playback = Some(PlaybackState::Playing);
        previous
    }

    /// Pauses at `now`: with a player, the clock pauses and the current track
    /// (if any) is paused, and `true` comes back so that the player is paused
    /// and the paused state published; without one nothing changes.
    pub fn pause(&mut self, now: MediaTime) -> (r: bool)
        ensures
            r == old(self).player is Some,
            r ==> {
                &&& (old(self).clock.started_at is Some && old(self).clock.paused_at is None ==>
                    final(self).clock == (PlaybackClock { paused_at: Some(now), ..old(self).clock }))
                &&& (!(old(self).clock.started_at is Some && old(self).clock.paused_at is None) ==>
                    final(self).clock == old(self).clock)
                &&& final(self).playback == (if old(self).playback is Some { Some(PlaybackState::Paused) } else { None })
            },
            !r ==> final(self).clock == old(self).clock && final(self).playback == old(self).playback,
            final(self).player == old(self).player,
            final(self).needs_rebuild == old(self).needs_rebuild,
            final(self).route_changed_since_rebuild == old(self).route_changed_since_rebuild,
    {
        if self.player.is_none() {
            return false;
        }
        self.clock.pause(now);
        if self.playback.is_some() {
            self.playback = Some(PlaybackState::Paused);
        }
        true
    }

    /// Resumes at `now`: with a player, the clock resumes (the time since
    /// the pause joins the paused time) and the current track (if any)
    /// plays, and `true` comes back so that the player is resumed and the
    /// playing state published; without one nothing changes.
    pub fn resume(&mut self, now: MediaTime) -> (r: bool)
        requires
            old(self).player is Some ==> (old(self).clock.paused_at matches Some(p)
                ==> old(self).clock.paused_duration@ + sat_sub(now@, p@) <= max_nanos()),
        ensures
            r == old(self).player is Some,
            r ==> {
                &&& (old(self).clock.paused_at matches Some(p) ==> final(self).clock == (PlaybackClock {
                    paused_at: None,
                    paused_duration: final(self).clock.paused_duration,
                    ..old(self).clock
                }) && final(self).clock.paused_duration@ == old(self).clock.paused_duration@ + sat_sub(now@, p@))
                &&& (old(self).clock.paused_at is None ==> final(self).clock == old(self).clock)
                &&& final(self).playback == (if old(self).playback is Some { Some(PlaybackState::Playing) } else { None })
            },
            !r ==> final(self).clock == old(self).clock && final(self).playback == old(self).playback,
            final(self).player == old(self).player,
            final(self).needs_rebuild == old(self).needs_rebuild,
            final(self).route_changed_since_rebuild == old(self).route_changed_since_rebuild,
    {
        if self.player.is_none() {
            return false;
        }
        self.clock.resume(now);
        if self.playback.is_some() {
            self.playback = Some(PlaybackState::Playing);
        }
        true
    }

    /// Stops: the player (if any) comes back to be stopped, the clock stops,
    /// there is no current track, and the output needs no rebuild nor counts
    /// a route change any more.
    pub fn stop(&mut self) -> (r: Option<P>)
        ensures
            r == old(self).player,
            final(self).player is None,
            final(self).clock.started_at is None,
            final(self).clock.paused_at is None,
            final(self).clock.base_position@ == 0,
            final(self).clock.paused_duration@ == 0,
            final(self).playback is None,
            !final(self).needs_rebuild,
            !final(self).route_changed_since_rebuild,
    {
        let player = self.player.take();
        self.clock.stop();
        self.playback = None;
        self.needs_rebuild = false;
        self.route_changed_since_rebuild = false;
        player
    }

    /// The current track plays again from its start: it counts as playing.
    pub fn mark_restarting(&mut self)
        ensures
            final(self).playback == (if old(self).playback is Some { Some(PlaybackState::Playing) } else { None }),
            final(self).player == old(self).player,
            final(self).clock == old(self).clock,
            final(self).needs_rebuild == old(self).needs_rebuild,
            final(self).route_changed_since_rebuild == old(self).route_changed_since_rebuild,
    {
        if self.playback.is_some() {
            self.playback = Some(PlaybackState::Playing);
        }
    }
}

/// The playback states the media session is given, in order, when a track
/// is published: first "playing" when the session is primed (so that the
/// operating system shows its controls), then the state itself.
pub fn session_publish_states(playback: PlaybackState, prime: bool) -> (r: Vec<PlaybackState>)
    ensures
        r@ == if prime { seq![PlaybackState::Playing, playback] } else { seq![playback] },
{
    let mut r: Vec<PlaybackState> = Vec::new();
    if prime {
        r.push(PlaybackState::Playing);
    }
    r.push(playback);
    proof {
        if prime {
            assert(r@ =~= seq![PlaybackState::Playing, playback]);
        } else {
            assert(r@ =~= seq![playback]);
        }
    }
    r
}

/// Whether a request must reopen the output first (see
/// `forces_output_rebuild`).
pub open spec fn forces_output_rebuild_spec(request: OutputRequest, route_changed: bool, has_current: bool) -> bool {
    match request {
        OutputRequest::Play => route_changed,
        OutputRequest::Resume | OutputRequest::Seek | OutputRequest::Restart => route_changed && has_current,
        _ => false,
    }
}

/// A worker that stopped reports nothing playing: a stopped transport has
/// no player and a clock that shows no position.
pub proof fn lemma_stopped_reports_nothing<P>(t: WorkerTransport<P>, now: nat)
    requires
        t.player is None,
        t.clock.started_at is None,
    ensures
        t.clock.elapsed_at(now) is None,
{
}

} // verus!
