//! Browsing the local library and the playing list: which collection is
//! selected, which provider collection a track belongs to, and what to
//! refresh after playback changed the cache.

use vstd::prelude::*;
use crate::controller::PlaybackSource;
use crate::keys::{collection_entity_key, entity_key_view};
use crate::model::{
    CollectionKind, CollectionRef, ProviderId, Track, TrackList, TrackListView, TrackSummary,
    opt_str,
};
use crate::playback::is_track;
use crate::text::chars_of;

verus! {

/// The first index whose element satisfies `p`.
pub open spec fn first_index<A>(s: Seq<A>, p: spec_fn(A) -> bool) -> Option<int>
    decreases s.len(),
{
    if s.len() == 0 {
        None
    } else {
        match first_index(s.drop_last(), p) {
            Some(i) => Some(i),
            None => if p(s.last()) { Some(s.len() - 1) } else { None },
        }
    }
}

/// When no earlier element satisfies `p` and element `i` does, `i` is first.
pub proof fn lemma_first_index_found<A>(s: Seq<A>, p: spec_fn(A) -> bool, i: int)
    requires
        0 <= i < s.len(),
        forall|j: int| 0 <= j < i ==> !p(#[trigger] s[j]),
        p(s[i]),
    ensures
        first_index(s, p) == Some(i),
    decreases s.len(),
{
    if i < s.len() - 1 {
        let rest = s.drop_last();
        assert forall|j: int| 0 <= j < i implies !p(#[trigger] rest[j]) by {
            assert(rest[j] == s[j]);
        }
        assert(rest[i] == s[i]);
        lemma_first_index_found(rest, p, i);
    } else {
        lemma_first_index_none(s.drop_last(), p);
    }
}

/// When no element satisfies `p`, there is no first one.
pub proof fn lemma_first_index_none<A>(s: Seq<A>, p: spec_fn(A) -> bool)
    requires
        forall|j: int| 0 <= j < s.len() ==> !p(#[trigger] s[j]),
    ensures
        first_index(s, p) is None,
    decreases s.len(),
{
    if s.len() > 0 {
        let rest = s.drop_last();
        assert forall|j: int| 0 <= j < rest.len() implies !p(#[trigger] rest[j]) by {
            assert(rest[j] == s[j]);
        }
        lemma_first_index_none(rest, p);
        assert(s.last() == s[s.len() - 1]);
    }
}

/// The first index found satisfies `p` and no earlier one does; when there
/// is none, no element satisfies `p`.
pub proof fn lemma_first_index_valid<A>(s: Seq<A>, p: spec_fn(A) -> bool)
    ensures
        match first_index(s, p) {
            Some(i) => 0 <= i < s.len() && p(s[i]) && forall|j: int| 0 <= j < i ==> !p(#[trigger] s[j]),
            None => forall|j: int| 0 <= j < s.len() ==> !p(#[trigger] s[j]),
        },
    decreases s.len(),
{
    if s.len() > 0 {
        let rest = s.drop_last();
        lemma_first_index_valid(rest, p);
        if let Some(i) = first_index(rest, p) {
            assert(s[i] == rest[i]);
            assert forall|j: int| 0 <= j < i implies !p(#[trigger] s[j]) by {
                assert(s[j] == rest[j]);
            }
        } else {
            assert forall|j: int| 0 <= j < s.len() - 1 implies !p(#[trigger] s[j]) by {
                assert(s[j] == rest[j]);
            }
            assert(s.last() == s[s.len() - 1]);
        }
    }
}

/// The browser's modes.
#[derive(Clone, Copy, Debug, PartialEq, Eq, Structural)]
pub enum BrowseMode {
    Discover,
    Albums,
    Artists,
    Playlists,
}

/// The key under which a local collection is selected: the collection's id
/// for artists, its entity key otherwise.
pub open spec fn selection_key_view(mode: BrowseMode, c: CollectionRef) -> Seq<char> {
    match mode {
        BrowseMode::Artists => c.id@,
        _ => entity_key_view(c),
    }
}

/// The key under which a local collection is selected.
pub fn local_collection_selection_key(mode: BrowseMode, collection: &CollectionRef) -> (r: String)
    ensures
        r@ == selection_key_view(mode, *collection),
{
    match mode {
        BrowseMode::Artists => collection.id.clone(),
        _ => collection_entity_key(collection),
    }
}

/// A selection names a list by its id or by its selection key.
pub open spec fn names_list(mode: BrowseMode, sel: Seq<char>) -> spec_fn(TrackListView) -> bool {
    |l: TrackListView| l.collection.reference.id@ == sel || selection_key_view(mode, l.collection.reference) == sel
}

fn list_is_named(mode: BrowseMode, list: &TrackList, selected: &String) -> (r: bool)
    ensures
        r == names_list(mode, selected@)(list@),
{
    list.collection.reference.id == *selected || local_collection_selection_key(mode, &list.collection.reference) == *selected
}

/// The first list a selection names.
pub fn find_named_list(mode: BrowseMode, lists: &[TrackList], selected: &String) -> (r: Option<usize>)
    ensures
        match (r, first_index(lists@.map_values(|l: TrackList| l@), names_list(mode, selected@))) {
            (Some(a), Some(b)) => a == b,
            (None, None) => true,
            _ => false,
        },
        r matches Some(i) ==> i < lists@.len(),
{
    let ghost lv = lists@.map_values(|l: TrackList| l@);
    let n = lists.len();
    for i in 0..n
        invariant
            n == lists@.len(),
            lv == lists@.map_values(|l: TrackList| l@),
            forall|j: int| 0 <= j < i ==> !names_list(mode, selected@)(#[trigger] lv[j]),
    {
        if list_is_named(mode, &lists[i], selected) {
            proof { lemma_first_index_found(lv, names_list(mode, selected@), i as int); }
            return Some(i);
        }
    }
    proof { lemma_first_index_none(lv, names_list(mode, selected@)); }
    None
}

/// The selection to keep: the key of the first list the previous selection
/// names, else the key of the first list, else none.
pub open spec fn picked_selection(mode: BrowseMode, selected: Option<Seq<char>>, lists: Seq<TrackListView>) -> Option<Seq<char>> {
    let fallback = if lists.len() > 0 {
        Some(selection_key_view(mode, lists[0].collection.reference))
    } else {
        None
    };
    match selected {
        Some(s) => match first_index(lists, names_list(mode, s)) {
            Some(i) => Some(selection_key_view(mode, lists[i].collection.reference)),
            None => fallback,
        },
        None => fallback,
    }
}

/// Keeps a selection that still names a list (as that list's key), else
/// selects the first list.
pub fn pick_existing_or_first(mode: BrowseMode, selected: Option<String>, lists: &[TrackList]) -> (r: Option<String>)
    ensures
        opt_str(r) == picked_selection(mode, opt_str(selected), lists@.map_values(|l: TrackList| l@)),
{
    let ghost lv = lists@.map_values(|l: TrackList| l@);
    if let Some(s) = &selected {
        if let Some(i) = find_named_list(mode, lists, s) {
            return Some(local_collection_selection_key(mode, &lists[i].collection.reference));
        }
    }
    if lists.len() > 0 {
        Some(local_collection_selection_key(mode, &lists[0].collection.reference))
    } else {
        None
    }
}

/// The list a selection shows: the first it names, else the first list.
pub open spec fn selected_list_index(mode: BrowseMode, lists: Seq<TrackListView>, selected: Option<Seq<char>>) -> Option<int> {
    let found = match selected {
        Some(s) => first_index(lists, names_list(mode, s)),
        None => None,
    };
    match found {
        Some(i) => Some(i),
        None => if lists.len() > 0 { Some(0) } else { None },
    }
}

/// The list a selection shows: the first list it names, else the first list.
pub fn selected_local_track_list<'a>(mode: BrowseMode, lists: &'a [TrackList], selected_id: Option<&str>) -> (r: Option<&'a TrackList>)
    ensures
        match (r, selected_list_index(mode, lists@.map_values(|l: TrackList| l@), match selected_id { Some(s) => Some(s@), None => None })) {
            (Some(l), Some(i)) => l@ == lists@[i]@,
            (None, None) => true,
            _ => false,
        },
{
    if let Some(s) = selected_id {
        let owned = s.to_owned();
        if let Some(i) = find_named_list(mode, lists, &owned) {
            return Some(&lists[i]);
        }
    }
    if lists.len() > 0 {
        Some(&lists[0])
    } else {
        None
    }
}

/// The provider album a local album was cached from: the first track's
/// provider (else the album's) and the first track's collection id (else the
/// album's id); none when that provider is the local library.
pub open spec fn provider_album_of(list: TrackListView) -> Option<(ProviderId, Seq<char>)> {
    let provider = if list.tracks.len() > 0 { list.tracks[0].reference.provider } else { list.collection.reference.provider };
    if provider is Local {
        None
    } else {
        let id = if list.tracks.len() > 0 && list.tracks[0].collection_id is Some {
            list.tracks[0].collection_id.unwrap()@
        } else {
            list.collection.reference.id@
        };
        Some((provider, id))
    }
}

/// The provider album reference of a local album (without a canonical URL).
pub fn provider_collection_ref_for_local_album(track_list: &TrackList) -> (r: Option<CollectionRef>)
    ensures
        match (r, provider_album_of(track_list@)) {
            (Some(c), Some((p, id))) => c.provider == p && c.id@ == id && c.kind == CollectionKind::Album && c.canonical_url is None,
            (None, None) => true,
            _ => false,
        },
{
    let provider = if track_list.tracks.len() > 0 {
        track_list.tracks[0].reference.provider.clone()
    } else {
        track_list.collection.reference.provider.clone()
    };
    if provider.is_local_provider() {
        return None;
    }
    let collection_id = if track_list.tracks.len() > 0 && track_list.tracks[0].collection_id.is_some() {
        match &track_list.tracks[0].collection_id {
            Some(c) => c.clone(),
            None => track_list.collection.reference.id.clone(),
        }
    } else {
        track_list.collection.reference.id.clone()
    };
    Some(CollectionRef { provider, id: collection_id, kind: CollectionKind::Album, canonical_url: None })
}

/// Whether a list holds the given track.
pub open spec fn list_has_track(list: TrackListView, provider: ProviderId, id: Seq<char>) -> bool {
    exists|i: int| 0 <= i < list.tracks.len() && is_track(#[trigger] list.tracks[i], provider, id)
}

/// Whether a list holds the given track.
pub fn track_list_contains_track(track_list: &TrackList, provider: &ProviderId, track_id: &str) -> (r: bool)
    ensures
        r == list_has_track(track_list@, *provider, track_id@),
{
    let id = track_id.to_owned();
    let n = track_list.tracks.len();
    for i in 0..n
        invariant
            n == track_list.tracks@.len(),
            id@ == track_id@,
            forall|j: int| 0 <= j < i ==> !is_track(#[trigger] track_list.tracks@[j], *provider, track_id@),
    {
        let t = &track_list.tracks[i];
        if t.reference.provider.same_as(provider) && t.reference.id == id {
            assert(is_track(track_list@.tracks[i as int], *provider, track_id@));
            return true;
        }
    }
    false
}

/// After deleting a track from the library, the list on screen is kept
/// (outside Discover) when it held the track and the refreshed list either
/// is another collection or no longer shows the track.
pub open spec fn preserves_visible_list(
    mode: BrowseMode,
    previous: Option<TrackListView>,
    current: Option<TrackListView>,
    provider: ProviderId,
    id: Seq<char>,
) -> bool {
    match previous {
        None => false,
        Some(prev) => {
            &&& mode != BrowseMode::Discover
            &&& list_has_track(prev, provider, id)
            &&& match current {
                None => true,
                Some(cur) => cur.collection.reference.id@ != prev.collection.reference.id@
                    || !list_has_track(cur, provider, id),
            }
        },
    }
}

/// Whether to keep showing the previous list after deleting a track.
pub fn should_preserve_visible_track_list_after_delete(
    browse_mode: BrowseMode,
    previous_track_list: Option<&TrackList>,
    current_track_list: Option<&TrackList>,
    provider: ProviderId,
    track_id: &str,
) -> (r: bool)
    ensures
        r == preserves_visible_list(
            browse_mode,
            match previous_track_list { Some(l) => Some(l@), None => None },
            match current_track_list { Some(l) => Some(l@), None => None },
            provider,
            track_id@,
        ),
{
    if browse_mode == BrowseMode::Discover {
        return false;
    }
    let previous = match previous_track_list {
        Some(l) => l,
        None => return false,
    };
    if !track_list_contains_track(previous, &provider, track_id) {
        return false;
    }
    match current_track_list {
        None => true,
        Some(current) => {
            current.collection.reference.id != previous.collection.reference.id
                || !track_list_contains_track(current, &provider, track_id)
        },
    }
}

/// Whether text begins with a prefix.
pub fn text_starts_with(s: &str, prefix: &str) -> (r: bool)
    ensures
        r == (prefix@.len() <= s@.len() && s@.take(prefix@.len() as int) == prefix@),
{
    let a = chars_of(s);
    let b = chars_of(prefix);
    if b.len() > a.len() {
        return false;
    }
    let n = b.len();
    for i in 0..n
        invariant
            n == b@.len(),
            n <= a@.len(),
            a@ == s@,
            b@ == prefix@,
            forall|j: int| 0 <= j < i ==> a@[j] == b@[j],
    {
        if a[i] != b[i] {
            assert(s@.take(n as int)[i as int] != prefix@[i as int]);
            return false;
        }
    }
    assert(s@.take(n as int) =~= prefix@);
    true
}

/// An artist list of the local library (`local-artist:` album of the local provider).
pub open spec fn is_local_artist_list(list: TrackListView) -> bool {
    &&& list.collection.reference.provider is Local
    &&& list.collection.reference.kind == CollectionKind::Album
    &&& crate::artists::artist_id_prefix().len() <= list.collection.reference.id@.len()
    &&& list.collection.reference.id@.take(crate::artists::artist_id_prefix().len() as int) == crate::artists::artist_id_prefix()
}

/// Whether a list is one of the library's artist lists.
pub fn is_local_artist_track_list(track_list: &TrackList) -> (r: bool)
    ensures
        r == is_local_artist_list(track_list@),
{
    let prefix = "local-artist:";
    proof {
        reveal_strlit("local-artist:");
        assert(prefix@ =~= crate::artists::artist_id_prefix());
    }
    track_list.collection.reference.provider.is_local_provider()
        && track_list.collection.reference.kind == CollectionKind::Album
        && text_starts_with(track_list.collection.reference.id.as_str(), prefix)
}

/// The identifier of the recently played playlist.
pub open spec fn recently_played_id() -> Seq<char> {
    seq!['r', 'e', 'c', 'e', 'n', 't', 'l', 'y', '-', 'p', 'l', 'a', 'y', 'e', 'd']
}

/// The identifier of the liked tracks playlist.
pub open spec fn liked_tracks_id() -> Seq<char> {
    seq!['l', 'i', 'k', 'e', 'd', '-', 't', 'r', 'a', 'c', 'k', 's']
}

/// The identifier of the recently played playlist.
pub fn recently_played_playlist_id() -> (r: &'static str)
    ensures
        r@ == recently_played_id(),
{
    proof { reveal_strlit("recently-played"); }
    "recently-played"
}

/// The identifier of the liked tracks playlist.
pub fn liked_playlist_id() -> (r: &'static str)
    ensures
        r@ == liked_tracks_id(),
{
    proof { reveal_strlit("liked-tracks"); }
    "liked-tracks"
}

/// Playing from any list but the local recently played playlist records the
/// track as recently played.
pub fn should_record_recently_played(playback_context: &TrackList) -> (r: bool)
    ensures
        r == !(playback_context.collection.reference.provider is Local
            && playback_context.collection.reference.id@ == recently_played_id()),
{
    let id = String::from_str(recently_played_playlist_id());
    !(playback_context.collection.reference.provider.is_local_provider()
        && playback_context.collection.reference.id == id)
}

/// The album text of a track: its collection title, else its album.
pub open spec fn album_text(t: TrackSummary) -> Option<Seq<char>> {
    match opt_str(t.collection_title) {
        Some(a) => Some(a),
        None => opt_str(t.album),
    }
}

/// The artist text of a track: its collection artist, else its artist.
pub open spec fn artist_text(t: TrackSummary) -> Option<Seq<char>> {
    match opt_str(t.collection_subtitle) {
        Some(a) => Some(a),
        None => opt_str(t.artist),
    }
}

/// A candidate of the same provider, album and artist as the track, that
/// knows its collection id.
pub open spec fn same_album_candidate(track: TrackSummary) -> spec_fn(TrackSummary) -> bool {
    |c: TrackSummary| c.collection_id is Some && c.reference.provider.same(track.reference.provider)
        && album_text(c) == album_text(track) && artist_text(c) == artist_text(track)
}

/// The collection of the first track of the list that shares the track's
/// provider, album and artist and knows its collection id; none when the
/// track names no album.
pub open spec fn matching_collection(list: TrackListView, track: TrackSummary) -> Option<(ProviderId, Seq<char>)> {
    if album_text(track) is None {
        None
    } else {
        match first_index(list.tracks, same_album_candidate(track)) {
            Some(i) => Some((list.tracks[i].reference.provider, list.tracks[i].collection_id.unwrap()@)),
            None => None,
        }
    }
}

fn opt_text_eq(a: &Option<String>, b: &Option<String>) -> (r: bool)
    ensures
        r == (opt_str(*a) == opt_str(*b)),
{
    match (a, b) {
        (Some(x), Some(y)) => *x == *y,
        (None, None) => true,
        _ => false,
    }
}

fn album_text_of(t: &TrackSummary) -> (r: Option<String>)
    ensures
        opt_str(r) == album_text(*t),
{
    match &t.collection_title {
        Some(a) => Some(a.clone()),
        None => crate::model::clone_opt_string(&t.album),
    }
}

fn artist_text_of(t: &TrackSummary) -> (r: Option<String>)
    ensures
        opt_str(r) == artist_text(*t),
{
    match &t.collection_subtitle {
        Some(a) => Some(a.clone()),
        None => crate::model::clone_opt_string(&t.artist),
    }
}

/// The provider collection of the track's album, found through another
/// track of the list.
pub fn matching_collection_for_track(track_list: &TrackList, track: &TrackSummary) -> (r: Option<(ProviderId, String)>)
    ensures
        match (r, matching_collection(track_list@, *track)) {
            (Some((p, id)), Some((q, jd))) => p == q && id@ == jd,
            (None, None) => true,
            _ => false,
        },
{
    let track_album = album_text_of(track);
    if track_album.is_none() {
        return None;
    }
    let track_artist = artist_text_of(track);
    let ghost pred = same_album_candidate(*track);
    let n = track_list.tracks.len();
    for i in 0..n
        invariant
            n == track_list.tracks@.len(),
            pred == same_album_candidate(*track),
            opt_str(track_album) == album_text(*track),
            track_album is Some,
            opt_str(track_artist) == artist_text(*track),
            forall|j: int| 0 <= j < i ==> !pred(#[trigger] track_list.tracks@[j]),
    {
        let candidate = &track_list.tracks[i];
        if let Some(cid) = &candidate.collection_id {
            let cand_album = album_text_of(candidate);
            let cand_artist = artist_text_of(candidate);
            if candidate.reference.provider.same_as(&track.reference.provider)
                && opt_text_eq(&cand_album, &track_album)
                && opt_text_eq(&cand_artist, &track_artist) {
                proof {
                    assert(pred(track_list.tracks@[i as int]));
                    lemma_first_index_found(track_list.tracks@, pred, i as int);
                }
                return Some((candidate.reference.provider.clone(), cid.clone()));
            }
        }
    }
    proof { lemma_first_index_none(track_list.tracks@, pred); }
    None
}

/// The provider collection to refresh for a track of a list: the track's
/// own collection, else one found through the list, else (for an album
/// list) the list's provider album, except for library artist lists.
pub open spec fn refreshable_collection(list: TrackListView, track: Option<TrackSummary>) -> Option<(ProviderId, Seq<char>)> {
    let from_track = match track {
        Some(t) => match t.collection_id {
            Some(c) => Some((t.reference.provider, c@)),
            None => matching_collection(list, t),
        },
        None => None,
    };
    match from_track {
        Some(x) => Some(x),
        None => if list.collection.reference.kind != CollectionKind::Album {
            None
        } else if list.collection.reference.provider is Local {
            if is_local_artist_list(list) { None } else { provider_album_of(list) }
        } else {
            Some((list.collection.reference.provider, list.collection.reference.id@))
        },
    }
}

/// The provider collection to refresh for a track of a list.
pub fn refreshable_collection_for_track_list(track_list: &TrackList, track: Option<&TrackSummary>) -> (r: Option<(ProviderId, String)>)
    ensures
        match (r, refreshable_collection(track_list@, match track { Some(t) => Some(*t), None => None })) {
            (Some((p, id)), Some((q, jd))) => p == q && id@ == jd,
            (None, None) => true,
            _ => false,
        },
{
    if let Some(t) = track {
        if let Some(cid) = &t.collection_id {
            return Some((t.reference.provider.clone(), cid.clone()));
        }
        if let Some(found) = matching_collection_for_track(track_list, t) {
            return Some(found);
        }
    }
    if track_list.collection.reference.kind != CollectionKind::Album {
        return None;
    }
    if track_list.collection.reference.provider.is_local_provider() {
        if is_local_artist_track_list(track_list) {
            return None;
        }
        return match provider_collection_ref_for_local_album(track_list) {
            Some(c) => Some((c.provider, c.id)),
            None => None,
        };
    }
    Some((track_list.collection.reference.provider.clone(), track_list.collection.reference.id.clone()))
}

/// A playback whose source is ready.
pub struct ReadyPlayback<D> {
    pub current: Track,
    pub source: PlaybackSource<D>,
    pub fully_cached: bool,
    pub cache_changed: bool,
}

/// What to reload after playback started.
#[derive(Debug, PartialEq, Eq)]
pub enum PlaybackRefreshTarget {
    Nothing,
    PlaylistsOnly,
    Album { provider: ProviderId, collection_id: String },
    FullLibrary,
}

/// Reload the refreshable album when playback changed the cache (the whole
/// library when there is none), only the playlists when just they changed,
/// nothing otherwise.
pub fn playback_refresh_target<D>(
    playback: &ReadyPlayback<D>,
    refreshable_collection: Option<(ProviderId, String)>,
    playlists_changed: bool,
) -> (r: PlaybackRefreshTarget)
    ensures
        playback.cache_changed ==> match refreshable_collection {
            Some((p, id)) => r == (PlaybackRefreshTarget::Album { provider: p, collection_id: id }),
            None => r == PlaybackRefreshTarget::FullLibrary,
        },
        !playback.cache_changed && playlists_changed ==> r == PlaybackRefreshTarget::PlaylistsOnly,
        !playback.cache_changed && !playlists_changed ==> r == PlaybackRefreshTarget::Nothing,
{
    if playback.cache_changed {
        match refreshable_collection {
            Some((provider, collection_id)) => PlaybackRefreshTarget::Album { provider, collection_id },
            None => PlaybackRefreshTarget::FullLibrary,
        }
    } else if playlists_changed {
        PlaybackRefreshTarget::PlaylistsOnly
    } else {
        PlaybackRefreshTarget::Nothing
    }
}

/// The track recorded as recently played: its artwork becomes the local
/// artwork file when there is one.
pub fn track_for_recently_played(track: TrackSummary, artwork_path: Option<&String>) -> (r: TrackSummary)
    ensures
        r == (match artwork_path {
            Some(p) => TrackSummary { artwork_url: Some(*p), ..track },
            None => track,
        }),
{
    let mut track = track;
    if let Some(p) = artwork_path {
        track.artwork_url = Some(p.clone());
    }
    track
}

} // verus!
