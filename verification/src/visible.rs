//! Which track list the browser shows, and whether the playback queue needs
//! a panel of its own beside it.

use vstd::prelude::*;
use crate::browse::{BrowseMode, selected_list_index};
use crate::catalog::{LibraryModule, lists_in, selection_in};
use crate::discover::DiscoverModule;
use crate::keys::{track_cache_key, track_key_view};
use crate::model::{TrackList, TrackListView, TrackSummary};
use crate::playback::opt_list_view;

verus! {

/// The list the browser shows: the discover browser's list, or, in a
/// library mode, the list kept for that mode (a list that was open before
/// a deletion) else the selected one.
pub open spec fn visible_list(
    mode: BrowseMode,
    discover_list: Option<TrackListView>,
    library: crate::catalog::LibraryView,
    kept: Option<(BrowseMode, TrackListView)>,
) -> Option<TrackListView> {
    if mode == BrowseMode::Discover {
        discover_list
    } else {
        let selected = match selected_list_index(mode, lists_in(library, mode), selection_in(library, mode)) {
            Some(i) => Some(lists_in(library, mode)[i]),
            None => None,
        };
        match kept {
            Some((m, l)) => if m == mode { Some(l) } else { selected },
            None => selected,
        }
    }
}

/// The track list the browser shows in a mode.
pub fn current_visible_track_list(
    mode: BrowseMode,
    discover: &DiscoverModule,
    library: &LibraryModule,
    kept: Option<&(BrowseMode, TrackList)>,
) -> (r: Option<TrackList>)
    ensures
        opt_list_view(r) == visible_list(
            mode,
            discover@.track_list,
            library@,
            match kept { Some(k) => Some((k.0, k.1@)), None => None },
        ),
{
    if mode == BrowseMode::Discover {
        return discover.track_list();
    }
    if let Some(k) = kept {
        if k.0 == mode {
            return Some(k.1.clone());
        }
    }
    library.current_local_track_list_owned(mode)
}

/// Whether a list holds a track with the given key.
pub open spec fn holds_track_key(tracks: Seq<TrackSummary>, key: Seq<char>) -> bool {
    exists|j: int| 0 <= j < tracks.len() && track_key_view((#[trigger] tracks[j]).reference.provider, tracks[j].reference.id@) == key
}

/// The playback queue gets its own panel when there is one and the track
/// playing is not in the list the browser shows (or no track of it is
/// current, or the browser shows no list).
pub open spec fn shows_playback_panel(
    context: Option<TrackListView>,
    current_index: Option<usize>,
    visible: Option<TrackListView>,
) -> bool {
    match context {
        None => false,
        Some(ctx) => match current_index {
            Some(i) => if i < ctx.tracks.len() {
                match visible {
                    Some(v) => !holds_track_key(
                        v.tracks,
                        track_key_view(ctx.tracks[i as int].reference.provider, ctx.tracks[i as int].reference.id@),
                    ),
                    None => true,
                }
            } else {
                true
            },
            None => true,
        },
    }
}

/// Whether the playback queue gets its own panel.
pub fn should_show_playback_context_panel(
    context: Option<&TrackList>,
    current_index: Option<usize>,
    visible: Option<&TrackList>,
) -> (r: bool)
    ensures
        r == shows_playback_panel(
            match context { Some(c) => Some(c@), None => None },
            current_index,
            match visible { Some(v) => Some(v@), None => None },
        ),
{
    let ctx = match context {
        None => return false,
        Some(c) => c,
    };
    let i = match current_index {
        Some(i) => i,
        None => return true,
    };
    if i >= ctx.tracks.len() {
        return true;
    }
    let key = track_cache_key(&ctx.tracks[i]);
    let v = match visible {
        None => return true,
        Some(v) => v,
    };
    let n = v.tracks.len();
    for j in 0..n
        invariant
            n == v.tracks@.len(),
            context == Some(ctx),
            current_index == Some(i),
            visible == Some(v),
            i < ctx.tracks@.len(),
            key@ == track_key_view(ctx.tracks@[i as int].reference.provider, ctx.tracks@[i as int].reference.id@),
            forall|m: int| 0 <= m < j ==> track_key_view((#[trigger] v.tracks@[m]).reference.provider, v.tracks@[m].reference.id@) != key@,
    {
        let other = track_cache_key(&v.tracks[j]);
        if other == key {
            proof {
                let t = v.tracks@[j as int];
                assert(track_key_view(t.reference.provider, t.reference.id@) == key@);
                assert(holds_track_key(v.tracks@, key@));
            }
            return false;
        }
    }
    true
}

} // verus!
