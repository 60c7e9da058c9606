//! The playback clock: the position of the current track, computed from the
//! instant playback started, the time spent paused, and the current instant.
//! Instants are media times measured from a fixed origin and passed in.

use vstd::prelude::*;
use crate::time::{MediaTime, max_nanos};

verus! {

/// The clock's state.
#[derive(Clone, Copy, Debug, PartialEq, Eq)]
pub struct PlaybackClock {
    pub base_position: MediaTime,
    pub started_at: Option<MediaTime>,
    pub paused_at: Option<MediaTime>,
    pub paused_duration: MediaTime,
}

pub open spec fn sat_sub(a: nat, b: nat) -> nat {
    if a >= b { (a - b) as nat } else { 0 }
}

impl PlaybackClock {
    /// The position shown at instant `now`, when the clock runs.
    pub open spec fn elapsed_at(self, now: nat) -> Option<nat> {
        match self.started_at {
            None => None,
            Some(started) => {
                let end = match self.paused_at { Some(p) => p@, None => now };
                Some(self.base_position@ + sat_sub(sat_sub(end, started@), self.paused_duration@))
            },
        }
    }

    /// The clock can report at `now` without exceeding the representable range.
    pub open spec fn can_report_at(self, now: nat) -> bool {
        self.elapsed_at(now) matches Some(e) ==> e <= max_nanos()
    }

    /// A stopped clock.
    pub fn new() -> (r: PlaybackClock)
        ensures
            r.started_at is None,
            r.paused_at is None,
            r.base_position@ == 0,
            r.paused_duration@ == 0,
    {
        PlaybackClock {
            base_position: MediaTime::zero(),
            started_at: None,
            paused_at: None,
            paused_duration: MediaTime::zero(),
        }
    }

    /// Starts counting from `position` at instant `now`.
    pub fn start(&mut self, position: MediaTime, now: MediaTime)
        ensures
            final(self).base_position == position,
            final(self).started_at == Some(now),
            final(self).paused_at is None,
            final(self).paused_duration@ == 0,
    {
        self.base_position = position;
        self.started_at = Some(now);
        self.paused_at = None;
        self.paused_duration = MediaTime::zero();
    }

    /// Pauses at `now`; a stopped or already paused clock is unchanged.
    pub fn pause(&mut self, now: MediaTime)
        ensures
            (old(self).started_at is Some && old(self).paused_at is None)
                ==> *final(self) == (PlaybackClock { paused_at: Some(now), ..*old(self) }),
            !(old(self).started_at is Some && old(self).paused_at is None) ==> *final(self) == *old(self),
    {
        if self.started_at.is_some() && self.paused_at.is_none() {
            self.paused_at = Some(now);
        }
    }

    /// Resumes at `now`, adding the time since the pause to the paused time.
    pub fn resume(&mut self, now: MediaTime)
        requires
            old(self).paused_at matches Some(p)
                ==> old(self).paused_duration@ + sat_sub(now@, p@) <= max_nanos(),
        ensures
            old(self).paused_at matches Some(p) ==> *final(self) == (PlaybackClock {
                paused_at: None,
                paused_duration: final(self).paused_duration,
                ..*old(self)
            }) && final(self).paused_duration@ == old(self).paused_duration@ + sat_sub(now@, p@),
            old(self).paused_at is None ==> *final(self) == *old(self),
    {
        if let Some(paused_at) = self.paused_at {
            let since = now.saturating_sub(paused_at);
            self.paused_duration = self.paused_duration.saturating_add(since);
            self.paused_at = None;
        }
    }

    /// Stops the clock.
    pub fn stop(&mut self)
        ensures
            final(self).started_at is None,
            final(self).paused_at is None,
            final(self).base_position@ == 0,
            final(self).paused_duration@ == 0,
    {
        self.base_position = MediaTime::zero();
        self.started_at = None;
        self.paused_at = None;
        self.paused_duration = MediaTime::zero();
    }

    /// Whether resuming at `now` keeps the paused time within the
    /// representable range.
    pub fn can_resume_at(&self, now: MediaTime) -> (r: bool)
        ensures
            r == (self.paused_at matches Some(p) ==> self.paused_duration@ + sat_sub(now@, p@) <= max_nanos()),
    {
        match self.paused_at {
            None => true,
            Some(p) => {
                let since: u128 = if now.as_nanos() >= p.as_nanos() { now.as_nanos() - p.as_nanos() } else { 0 };
                let total: u128 = self.paused_duration.as_nanos() + since;
                total <= 18_446_744_073_709_551_615u128 * 1_000_000_000 + 999_999_999
            },
        }
    }

    /// The position at instant `now` when the clock runs and the position
    /// is within the representable range; none otherwise.
    pub fn checked_elapsed(&self, now: MediaTime) -> (r: Option<MediaTime>)
        ensures
            match r {
                Some(t) => self.elapsed_at(now@) == Some(t@),
                None => self.elapsed_at(now@) is None || !self.can_report_at(now@),
            },
    {
        match self.started_at {
            None => None,
            Some(started) => {
                let end = match self.paused_at { Some(p) => p, None => now };
                let e = end.as_nanos();
                let st = started.as_nanos();
                let d = self.paused_duration.as_nanos();
                let a: u128 = if e >= st { e - st } else { 0 };
                let running: u128 = if a >= d { a - d } else { 0 };
                let total: u128 = self.base_position.as_nanos() + running;
                if total > 18_446_744_073_709_551_615u128 * 1_000_000_000 + 999_999_999 {
                    None
                } else {
                    self.elapsed(now)
                }
            },
        }
    }

    /// The position at instant `now`: the start position plus the running
    /// time since the start, less the time spent paused; none when stopped.
    pub fn elapsed(&self, now: MediaTime) -> (r: Option<MediaTime>)
        requires
            self.can_report_at(now@),
        ensures
            match (r, self.elapsed_at(now@)) {
                (Some(t), Some(e)) => t@ == e,
                (None, None) => true,
                _ => false,
            },
    {
        match self.started_at {
            None => None,
            Some(started_at) => {
                let end = match self.paused_at {
                    Some(p) => p,
                    None => now,
                };
                let running = end.saturating_sub(started_at).saturating_sub(self.paused_duration);
                Some(self.base_position.saturating_add(running))
            },
        }
    }
}

/// A clock started at `now` from `position` reports `position` at once.
pub proof fn lemma_start_reports_position(c: PlaybackClock, position: MediaTime, now: MediaTime)
    requires
        c.base_position == position,
        c.started_at == Some(now),
        c.paused_at is None,
        c.paused_duration@ == 0,
    ensures
        c.elapsed_at(now@) == Some(position@),
{
}

/// Pausing freezes the clock: once paused at `t`, it reports the same
/// position at every later instant as it did at `t`.
pub proof fn lemma_pause_freezes(c: PlaybackClock, t: MediaTime, later: nat)
    requires
        c.started_at is Some,
        c.paused_at is None,
    ensures
        (PlaybackClock { paused_at: Some(t), ..c }).elapsed_at(later) == c.elapsed_at(t@),
{
}

/// Paused time does not count: a clock paused at `t1` and resumed at `t2`
/// reports at `now` what it reported at `t1` plus the time since `t2`.
pub proof fn lemma_pause_resume_skips_pause(c: PlaybackClock, t1: nat, t2: nat, now: nat, resumed_pause: nat)
    requires
        c.started_at matches Some(s) && s@ <= t1 && c.paused_duration@ <= t1 - s@,
        c.paused_at is None,
        t1 <= t2 <= now,
        resumed_pause == c.paused_duration@ + (t2 - t1),
    ensures
        ({
            let resumed = PlaybackClock { paused_at: None, ..c };
            let s = c.started_at.unwrap()@;
            c.base_position@ + sat_sub(sat_sub(now, s), resumed_pause)
                == c.elapsed_at(t1).unwrap() + (now - t2)
        }),
{
}


/// A run of the clock: started from position `b` at instant `s`, paused at
/// `p0` (later pauses change nothing), resumed at `r`. While paused it shows
/// `b` plus the time from `s` to `p0`; from the resumption on, `b` plus the
/// time since `s` less the paused span from `p0` to `r`; once stopped it
/// shows nothing. `started`, `paused`, `paused_again`, `resumed` and
/// `stopped` are the clock after each call, as the calls' contracts give it.
pub proof fn lemma_clock_run(
    started: PlaybackClock,
    paused: PlaybackClock,
    paused_again: PlaybackClock,
    resumed: PlaybackClock,
    stopped: PlaybackClock,
    b: nat,
    s: nat,
    p0: nat,
    r: nat,
)
    requires
        started.base_position@ == b,
        started.started_at matches Some(t) && t@ == s,
        started.paused_at is None,
        started.paused_duration@ == 0,
        paused.paused_at matches Some(t) && t@ == p0,
        paused == (PlaybackClock { paused_at: paused.paused_at, ..started }),
        paused_again == paused,
        resumed == (PlaybackClock { paused_at: None, paused_duration: resumed.paused_duration, ..paused_again }),
        resumed.paused_duration@ == paused_again.paused_duration@ + sat_sub(r, p0),
        stopped.started_at is None,
        s <= p0 <= r,
    ensures
        forall|t: nat| p0 <= t ==> #[trigger] paused_again.elapsed_at(t) == Some((b + (p0 - s)) as nat),
        forall|t: nat| r <= t ==> #[trigger] resumed.elapsed_at(t) == Some((b + (t - s) - (r - p0)) as nat),
        forall|t: nat| #[trigger] stopped.elapsed_at(t) is None,
{
}

} // verus!
