//! Moving through a track list: the play order (in list order, or shuffled
//! by a stable per-track key) and what to play after a track finishes or
//! when the user asks for the next or previous track.

use vstd::prelude::*;
use crate::model::{RepeatMode, TrackList, TrackListView};
use crate::time::MediaTime;
use std::hash::{Hash, Hasher};

verus! {

/// The shuffle key of a track: a hash of the shuffle seed, the track's index
/// and its identifier.
pub uninterp spec fn shuffle_key_of(seed: u64, index: usize, track_id: Seq<char>) -> u64;

/// Hashes the seed, the index and the track identifier, in that order, with
/// the standard library's `DefaultHasher` (whose `new` uses fixed keys) and
/// returns `finish()`. The result is the named function of the arguments.
#[verifier::external_body]
pub(crate) fn stable_shuffle_key(seed: u64, index: usize, track_id: &str) -> (r: u64)
    ensures
        r == shuffle_key_of(seed, index, track_id@),
{
    let mut hasher = std::collections::hash_map::DefaultHasher::new();
    seed.hash(&mut hasher);
    index.hash(&mut hasher);
    track_id.hash(&mut hasher);
    hasher.finish()
}

/// `(key[a], a)` comes strictly before `(key[b], b)`.
pub open spec fn key_before(keys: Seq<u64>, a: usize, b: usize) -> bool {
    keys[a as int] < keys[b as int] || (keys[a as int] == keys[b as int] && a < b)
}

/// `order` lists each index below `n` exactly once.
pub open spec fn is_permutation_of_range(order: Seq<usize>, n: nat) -> bool {
    &&& order.len() == n
    &&& forall|i: int| 0 <= i < order.len() ==> #[trigger] order[i] < n
    &&& forall|i: int, j: int| 0 <= i < j < order.len() ==> order[i] != order[j]
}

/// `order` is sorted by key, ties broken by index.
pub open spec fn sorted_by_key(order: Seq<usize>, keys: Seq<u64>) -> bool {
    forall|i: int, j: int| 0 <= i < j < order.len() ==> key_before(keys, #[trigger] order[i], #[trigger] order[j])
}

/// The shuffle keys of a list's tracks under a seed.
pub open spec fn shuffle_keys(tracks: TrackListView, seed: u64) -> Seq<u64> {
    Seq::new(tracks.tracks.len(), |i: int| shuffle_key_of(seed, i as usize, tracks.tracks[i].reference.id@))
}

/// The play order: without shuffle the list order; with shuffle the indices
/// sorted by their shuffle key (ties keep list order).
pub open spec fn is_play_order(order: Seq<usize>, list: TrackListView, shuffle: bool, seed: u64) -> bool {
    if !shuffle {
        order == Seq::new(list.tracks.len(), |i: int| i as usize)
    } else {
        is_permutation_of_range(order, list.tracks.len()) && sorted_by_key(order, shuffle_keys(list, seed))
    }
}

/// Sorts the indices below `keys.len()` by key, ties by index.
pub fn sort_indices_by_key(keys: &Vec<u64>) -> (r: Vec<usize>)
    ensures
        is_permutation_of_range(r@, keys@.len()),
        sorted_by_key(r@, keys@),
{
    let n = keys.len();
    let mut order: Vec<usize> = Vec::new();
    for i in 0..n
        invariant
            n == keys@.len(),
            order@.len() == i,
            forall|a: int| 0 <= a < order@.len() ==> #[trigger] order@[a] < i,
            forall|a: int, b: int| 0 <= a < b < order@.len() ==> order@[a] != order@[b],
            sorted_by_key(order@, keys@),
    {
        let k = keys[i];
        let mut pos: usize = 0;
        while pos < order.len() && keys[order[pos]] <= k
            invariant
                n == keys@.len(),
                i < n,
                k == keys@[i as int],
                pos <= order@.len(),
                forall|a: int| 0 <= a < order@.len() ==> #[trigger] order@[a] < i,
                forall|a: int| 0 <= a < pos ==> keys@[#[trigger] order@[a] as int] <= k,
            decreases order@.len() - pos,
        {
            pos += 1;
        }
        proof {
            // Everything before `pos` precedes `i`; everything from `pos` on follows it.
            assert forall|a: int| 0 <= a < pos implies key_before(keys@, #[trigger] order@[a], i) by {
                assert(order@[a] < i);
            }
            assert forall|a: int| pos <= a < order@.len() implies key_before(keys@, i, #[trigger] order@[a]) by {
                if pos < a {
                    assert(key_before(keys@, order@[pos as int], order@[a]));
                }
                assert(keys@[order@[pos as int] as int] > k);
            }
        }
        let ghost prev = order@;
        order.insert(pos, i);
        proof {
            assert(order@ =~= prev.take(pos as int).push(i).add(prev.skip(pos as int)));
            assert forall|a: int, b: int| 0 <= a < b < order@.len() implies key_before(keys@, #[trigger] order@[a], #[trigger] order@[b]) by {
                if a < pos && b < pos {
                    assert(order@[a] == prev[a] && order@[b] == prev[b]);
                } else if a < pos && b == pos {
                    assert(order@[a] == prev[a]);
                } else if a < pos && b > pos {
                    assert(order@[a] == prev[a] && order@[b] == prev[b - 1]);
                } else if a == pos {
                    assert(order@[b] == prev[b - 1]);
                } else {
                    assert(order@[a] == prev[a - 1] && order@[b] == prev[b - 1]);
                }
            }
            assert forall|a: int, b: int| 0 <= a < b < order@.len() implies order@[a] != order@[b] by {
                assert(key_before(keys@, order@[a], order@[b]));
            }
            assert forall|a: int| 0 <= a < order@.len() implies #[trigger] order@[a] < i + 1 by {
                if a < pos { assert(order@[a] == prev[a]); }
                else if a > pos { assert(order@[a] == prev[a - 1]); }
            }
        }
    }
    order
}

/// The order in which a list is played.
pub fn playback_order(track_list: &TrackList, shuffle_enabled: bool, shuffle_seed: u64) -> (r: Vec<usize>)
    ensures
        is_play_order(r@, track_list@, shuffle_enabled, shuffle_seed),
        is_permutation_of_range(r@, track_list@.tracks.len()),
{
    let n = track_list.tracks.len();
    if !shuffle_enabled {
        let mut order: Vec<usize> = Vec::new();
        for i in 0..n
            invariant
                n == track_list.tracks@.len(),
                order@ == Seq::new(i as nat, |j: int| j as usize),
        {
            order.push(i);
            assert(order@ =~= Seq::new((i + 1) as nat, |j: int| j as usize));
        }
        return order;
    }
    let mut keys: Vec<u64> = Vec::new();
    for i in 0..n
        invariant
            n == track_list.tracks@.len(),
            keys@ == shuffle_keys(track_list@, shuffle_seed).take(i as int),
    {
        let key = stable_shuffle_key(shuffle_seed, i, track_list.tracks[i].reference.id.as_str());
        keys.push(key);
        assert(keys@ =~= shuffle_keys(track_list@, shuffle_seed).take(i + 1));
    }
    assert(keys@ =~= shuffle_keys(track_list@, shuffle_seed));
    sort_indices_by_key(&keys)
}

/// Why playback moves on.
#[derive(Clone, Copy, Debug, PartialEq, Eq, Structural)]
pub enum PlaybackAdvanceReason {
    AutomaticFinish,
    ManualNext,
    ManualPrevious,
}

/// What to do next.
pub enum PlaybackAdvanceAction {
    Noop,
    RestartCurrent,
    StartIndex { track_list: TrackList, index: usize },
    /// Stop at the end of the list.
    Stop,
}

/// An action as a value.
pub enum PlaybackAdvanceActionView {
    Noop,
    RestartCurrent,
    StartIndex { track_list: TrackListView, index: usize },
    Stop,
}

impl View for PlaybackAdvanceAction {
    type V = PlaybackAdvanceActionView;

    open spec fn view(&self) -> PlaybackAdvanceActionView {
        match self {
            PlaybackAdvanceAction::Noop => PlaybackAdvanceActionView::Noop,
            PlaybackAdvanceAction::RestartCurrent => PlaybackAdvanceActionView::RestartCurrent,
            PlaybackAdvanceAction::StartIndex { track_list, index } =>
                PlaybackAdvanceActionView::StartIndex { track_list: track_list@, index: *index },
            PlaybackAdvanceAction::Stop => PlaybackAdvanceActionView::Stop,
        }
    }
}

/// Going back restarts the current track once this much of it has played.
pub open spec fn previous_restart_threshold() -> nat {
    5_000_000_000
}

/// The first position of `index` in `order`.
pub open spec fn first_position(order: Seq<usize>, index: usize) -> Option<int>
    decreases order.len(),
{
    if order.len() == 0 {
        None
    } else {
        match first_position(order.drop_last(), index) {
            Some(p) => Some(p),
            None => if order.last() == index { Some(order.len() - 1) } else { None },
        }
    }
}

/// What to do for a reason, given the playing list, the current index, the
/// repeat mode, the time played, and the play order.
pub open spec fn advance_action(
    reason: PlaybackAdvanceReason,
    context: Option<TrackListView>,
    current: Option<usize>,
    repeat_mode: RepeatMode,
    elapsed: nat,
    order: Seq<usize>,
) -> PlaybackAdvanceActionView {
    let end_of_list = match reason {
        PlaybackAdvanceReason::AutomaticFinish => PlaybackAdvanceActionView::Stop,
        _ => PlaybackAdvanceActionView::Noop,
    };
    match context {
        None => end_of_list,
        Some(list) => match current {
            None => PlaybackAdvanceActionView::Noop,
            Some(c) => if list.tracks.len() == 0 {
                end_of_list
            } else {
                match first_position(order, c) {
                    None => PlaybackAdvanceActionView::Noop,
                    Some(p) => match reason {
                        PlaybackAdvanceReason::AutomaticFinish => if repeat_mode == RepeatMode::One {
                            PlaybackAdvanceActionView::RestartCurrent
                        } else if p + 1 < order.len() {
                            PlaybackAdvanceActionView::StartIndex { track_list: list, index: order[p + 1] }
                        } else if repeat_mode == RepeatMode::All {
                            PlaybackAdvanceActionView::StartIndex { track_list: list, index: order[0] }
                        } else {
                            PlaybackAdvanceActionView::Stop
                        },
                        PlaybackAdvanceReason::ManualNext => if p + 1 < order.len() {
                            PlaybackAdvanceActionView::StartIndex { track_list: list, index: order[p + 1] }
                        } else if repeat_mode == RepeatMode::All {
                            PlaybackAdvanceActionView::StartIndex { track_list: list, index: order[0] }
                        } else {
                            PlaybackAdvanceActionView::Noop
                        },
                        PlaybackAdvanceReason::ManualPrevious => if elapsed >= previous_restart_threshold() {
                            PlaybackAdvanceActionView::RestartCurrent
                        } else if p > 0 {
                            PlaybackAdvanceActionView::StartIndex { track_list: list, index: order[p - 1] }
                        } else if repeat_mode == RepeatMode::All {
                            PlaybackAdvanceActionView::StartIndex { track_list: list, index: order[order.len() - 1] }
                        } else {
                            PlaybackAdvanceActionView::RestartCurrent
                        },
                    },
                }
            },
        },
    }
}

/// The first position of `index` in `order`.
pub fn position_in_order(order: &[usize], index: usize) -> (r: Option<usize>)
    ensures
        match (r, first_position(order@, index)) {
            (Some(a), Some(b)) => a == b,
            (None, None) => true,
            _ => false,
        },
        r matches Some(p) ==> p < order@.len() && order@[p as int] == index,
{
    let n = order.len();
    let mut i: usize = 0;
    while i < n
        invariant
            n == order@.len(),
            i <= n,
            first_position(order@.take(i as int), index) is None,
        decreases n - i,
    {
        assert(order@.take(i + 1).drop_last() =~= order@.take(i as int));
        if order[i] == index {
            proof { lemma_first_position_prefix(order@, index, i as int); }
            return Some(i);
        }
        i += 1;
    }
    assert(order@.take(n as int) =~= order@);
    None
}

proof fn lemma_first_position_prefix(order: Seq<usize>, index: usize, i: int)
    requires
        0 <= i < order.len(),
        first_position(order.take(i), index) is None,
        order[i] == index,
    ensures
        first_position(order, index) == Some(i),
    decreases order.len(),
{
    assert(order.take(i + 1).drop_last() =~= order.take(i));
    assert(first_position(order.take(i + 1), index) == Some(i));
    if i + 1 < order.len() {
        lemma_first_position_extends(order, index, i + 1);
    } else {
        assert(order.take(i + 1) =~= order);
    }
}

proof fn lemma_first_position_extends(order: Seq<usize>, index: usize, k: int)
    requires
        0 < k <= order.len(),
        first_position(order.take(k), index) is Some,
    ensures
        first_position(order, index) == first_position(order.take(k), index),
    decreases order.len() - k,
{
    if k < order.len() {
        assert(order.take(k + 1).drop_last() =~= order.take(k));
        lemma_first_position_extends(order, index, k + 1);
    } else {
        assert(order.take(k) =~= order);
    }
}

/// Decides what to play after a finished track or a next/previous request.
pub fn playback_advance_action(
    reason: PlaybackAdvanceReason,
    context: Option<TrackList>,
    current_index: Option<usize>,
    repeat_mode: RepeatMode,
    elapsed: MediaTime,
    order: &[usize],
) -> (r: PlaybackAdvanceAction)
    ensures
        r@ == advance_action(reason, crate::playback::opt_list_view(context), current_index, repeat_mode, elapsed@, order@),
{
    let end_of_list = match reason {
        PlaybackAdvanceReason::AutomaticFinish => PlaybackAdvanceAction::Stop,
        _ => PlaybackAdvanceAction::Noop,
    };
    let list = match context {
        None => return end_of_list,
        Some(list) => list,
    };
    let c = match current_index {
        None => return PlaybackAdvanceAction::Noop,
        Some(c) => c,
    };
    if list.tracks.len() == 0 {
        return end_of_list;
    }
    let found = position_in_order(order, c);
    let p = match found {
        None => return PlaybackAdvanceAction::Noop,
        Some(p) => p,
    };
    let n: usize = order.len();
    assert(p < n);
    let all = repeat_mode == RepeatMode::All;
    match reason {
        PlaybackAdvanceReason::AutomaticFinish => {
            if repeat_mode == RepeatMode::One {
                PlaybackAdvanceAction::RestartCurrent
            } else if p + 1 < n {
                PlaybackAdvanceAction::StartIndex { track_list: list, index: order[p + 1] }
            } else if all {
                PlaybackAdvanceAction::StartIndex { track_list: list, index: order[0] }
            } else {
                PlaybackAdvanceAction::Stop
            }
        },
        PlaybackAdvanceReason::ManualNext => {
            if p + 1 < n {
                PlaybackAdvanceAction::StartIndex { track_list: list, index: order[p + 1] }
            } else if all {
                PlaybackAdvanceAction::StartIndex { track_list: list, index: order[0] }
            } else {
                PlaybackAdvanceAction::Noop
            }
        },
        PlaybackAdvanceReason::ManualPrevious => {
            if elapsed.at_least(&MediaTime::from_secs(5)) {
                PlaybackAdvanceAction::RestartCurrent
            } else if p > 0 {
                PlaybackAdvanceAction::StartIndex { track_list: list, index: order[p - 1] }
            } else if all {
                PlaybackAdvanceAction::StartIndex { track_list: list, index: order[n - 1] }
            } else {
                PlaybackAdvanceAction::RestartCurrent
            }
        },
    }
}

/// Next and previous are inverse steps through the play order: from any
/// track not at either end, stepping forward and then back (quickly, before
/// the restart threshold) returns to it.
pub proof fn lemma_next_then_previous_returns(
    list: TrackListView,
    order: Seq<usize>,
    repeat_mode: RepeatMode,
    c: usize,
    elapsed: nat,
)
    requires
        is_permutation_of_range(order, list.tracks.len()),
        first_position(order, c) matches Some(p) && p + 1 < order.len(),
        elapsed < previous_restart_threshold(),
    ensures
        advance_action(PlaybackAdvanceReason::ManualNext, Some(list), Some(c), repeat_mode, elapsed, order)
            matches PlaybackAdvanceActionView::StartIndex { index: n, .. }
            && advance_action(PlaybackAdvanceReason::ManualPrevious, Some(list), Some(n), repeat_mode, elapsed, order)
                == (PlaybackAdvanceActionView::StartIndex { track_list: list, index: c }),
{
    let p = first_position(order, c).unwrap();
    lemma_first_position_valid(order, c);
    let n = order[p + 1];
    lemma_position_of_distinct(order, list.tracks.len(), p + 1);
}

proof fn lemma_first_position_valid(order: Seq<usize>, index: usize)
    ensures
        first_position(order, index) matches Some(p) ==> 0 <= p < order.len() && order[p] == index,
    decreases order.len(),
{
    if order.len() > 0 {
        lemma_first_position_valid(order.drop_last(), index);
    }
}

proof fn lemma_position_of_distinct(order: Seq<usize>, n: nat, k: int)
    requires
        is_permutation_of_range(order, n),
        0 <= k < order.len(),
    ensures
        first_position(order, order[k]) == Some(k),
{
    let prefix = order.take(k);
    assert forall|i: int| 0 <= i < prefix.len() implies prefix[i] != order[k] by {
        assert(prefix[i] == order[i]);
    }
    lemma_first_position_absent(prefix, order[k]);
    lemma_first_position_prefix(order, order[k], k);
}

proof fn lemma_first_position_absent(s: Seq<usize>, index: usize)
    requires
        forall|i: int| 0 <= i < s.len() ==> s[i] != index,
    ensures
        first_position(s, index) is None,
    decreases s.len(),
{
    if s.len() > 0 {
        lemma_first_position_absent(s.drop_last(), index);
    }
}


/// A track found in the play order is found at some first position.
proof fn lemma_first_position_found(order: Seq<usize>, c: usize, i: int)
    requires
        0 <= i < order.len(),
        order[i] == c,
    ensures
        first_position(order, c) is Some,
    decreases order.len(),
{
    if i < order.len() - 1 {
        assert(order.drop_last()[i] == c);
        lemma_first_position_found(order.drop_last(), c, i);
    }
}

/// Repeat-one replays a finished track: when the playing track is in the
/// play order and finishes on its own, the action is to restart it,
/// wherever it stands in the order and however long it played.
pub proof fn lemma_repeat_one_replays_finished_track(
    list: TrackListView,
    current: usize,
    elapsed: nat,
    order: Seq<usize>,
    i: int,
)
    requires
        list.tracks.len() > 0,
        0 <= i < order.len(),
        order[i] == current,
    ensures
        advance_action(PlaybackAdvanceReason::AutomaticFinish, Some(list), Some(current), RepeatMode::One, elapsed, order)
            == PlaybackAdvanceActionView::RestartCurrent,
{
    lemma_first_position_found(order, current, i);
}


/// The first occurrence of a track in the play order is its position.
proof fn lemma_first_position_at(order: Seq<usize>, c: usize, i: int)
    requires
        0 <= i < order.len(),
        order[i] == c,
        forall|j: int| 0 <= j < i ==> order[j] != c,
    ensures
        first_position(order, c) == Some(i),
    decreases order.len(),
{
    if i < order.len() - 1 {
        let rest = order.drop_last();
        assert(rest[i] == c);
        assert forall|j: int| 0 <= j < i implies rest[j] != c by {
            assert(rest[j] == order[j]);
        }
        lemma_first_position_at(rest, c, i);
    } else {
        lemma_first_position_absent(order.drop_last(), c);
    }
}

/// Moving on from the track at position `i` of the play order (its first
/// occurrence): to the next track in the order when there is one; after
/// the last, back to the first with repeat-all, else a finished track stops
/// playback and "next" does nothing. Repeat-one only changes what follows
/// a track that finished on its own.
pub proof fn lemma_advance_follows_order(
    list: TrackListView,
    elapsed: nat,
    order: Seq<usize>,
    i: int,
    repeat_mode: RepeatMode,
)
    requires
        list.tracks.len() > 0,
        0 <= i < order.len(),
        forall|j: int| 0 <= j < i ==> order[j] != order[i],
    ensures
        ({
            let c = order[i];
            let finish = advance_action(PlaybackAdvanceReason::AutomaticFinish, Some(list), Some(c), repeat_mode, elapsed, order);
            let next = advance_action(PlaybackAdvanceReason::ManualNext, Some(list), Some(c), repeat_mode, elapsed, order);
            &&& i + 1 < order.len() ==> next == PlaybackAdvanceActionView::StartIndex { track_list: list, index: order[i + 1] }
            &&& (i + 1 < order.len() && repeat_mode != RepeatMode::One) ==>
                finish == PlaybackAdvanceActionView::StartIndex { track_list: list, index: order[i + 1] }
            &&& (i + 1 == order.len() && repeat_mode == RepeatMode::All) ==>
                next == PlaybackAdvanceActionView::StartIndex { track_list: list, index: order[0] }
                && finish == PlaybackAdvanceActionView::StartIndex { track_list: list, index: order[0] }
            &&& (i + 1 == order.len() && repeat_mode == RepeatMode::Off) ==>
                next == PlaybackAdvanceActionView::Noop && finish == PlaybackAdvanceActionView::Stop
            &&& (i + 1 == order.len() && repeat_mode == RepeatMode::One) ==> next == PlaybackAdvanceActionView::Noop
        }),
{
    lemma_first_position_at(order, order[i], i);
}

/// Going back: after five seconds of play the current track restarts;
/// before that, the previous track in the order plays, and at the first
/// one the last plays with repeat-all, else the track restarts.
pub proof fn lemma_previous_goes_back(
    list: TrackListView,
    elapsed: nat,
    order: Seq<usize>,
    i: int,
    repeat_mode: RepeatMode,
)
    requires
        list.tracks.len() > 0,
        0 <= i < order.len(),
        forall|j: int| 0 <= j < i ==> order[j] != order[i],
    ensures
        ({
            let prev = advance_action(PlaybackAdvanceReason::ManualPrevious, Some(list), Some(order[i]), repeat_mode, elapsed, order);
            &&& elapsed >= 5_000_000_000 ==> prev == PlaybackAdvanceActionView::RestartCurrent
            &&& (elapsed < 5_000_000_000 && i > 0) ==> prev == PlaybackAdvanceActionView::StartIndex { track_list: list, index: order[i - 1] }
            &&& (elapsed < 5_000_000_000 && i == 0 && repeat_mode == RepeatMode::All) ==>
                prev == PlaybackAdvanceActionView::StartIndex { track_list: list, index: order[order.len() - 1] }
            &&& (elapsed < 5_000_000_000 && i == 0 && repeat_mode != RepeatMode::All) ==> prev == PlaybackAdvanceActionView::RestartCurrent
        }),
{
    lemma_first_position_at(order, order[i], i);
}

} // verus!
