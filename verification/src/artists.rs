//! Building the local library views: the albums that hold cached tracks, and
//! the artist lists that group the tracks of those albums by artist.

use vstd::prelude::*;
use crate::keys::{track_cache_key, track_key_view};
use crate::model::{
    CollectionKind, CollectionRef, CollectionSummary, ProviderId, TrackList, TrackListView,
    TrackSummary, clone_opt_string, opt_str,
};
use crate::text::{chars_of, decimal, u64_to_string};
use crate::textorder::{
    is_index_permutation, lemma_text_lt_asymmetric, lemma_text_lt_irreflexive,
    lemma_text_lt_total, lemma_text_lt_transitive, lowercase_of, sort_indices_by_text,
    sorted_by_text_key, text_equal, text_less, text_lt, to_lowercase,
};

verus! {

/// The subtitle that marks a system playlist masquerading as an album.
pub open spec fn system_playlist_subtitle() -> Seq<char> {
    seq!['S', 'y', 's', 't', 'e', 'm', ' ', 'p', 'l', 'a', 'y', 'l', 'i', 's', 't']
}

/// Whether any track of the list is among the cached track keys.
pub open spec fn has_cached_track(list: TrackListView, cached: Seq<Seq<char>>) -> bool {
    exists|i: int| 0 <= i < list.tracks.len()
        && cached.contains(#[trigger] track_key_view(list.tracks[i].reference.provider, list.tracks[i].reference.id@))
}

/// An album of the local library: an album (not a playlist, not a system
/// playlist) with at least one cached track.
pub open spec fn is_cached_album(list: TrackListView, cached: Seq<Seq<char>>) -> bool {
    &&& list.collection.reference.kind == CollectionKind::Album
    &&& opt_str(list.collection.subtitle) != Some(system_playlist_subtitle())
    &&& has_cached_track(list, cached)
}

/// The lists that pass a filter, in order.
pub open spec fn cached_albums(lists: Seq<TrackListView>, cached: Seq<Seq<char>>) -> Seq<TrackListView>
    decreases lists.len(),
{
    if lists.len() == 0 {
        seq![]
    } else {
        let rest = cached_albums(lists.drop_last(), cached);
        if is_cached_album(lists.last(), cached) { rest.push(lists.last()) } else { rest }
    }
}

/// Whether a text is among the given texts.
pub fn contains_text(texts: &[String], s: &String) -> (r: bool)
    ensures
        r == texts@.map_values(|t: String| t@).contains(s@),
{
    let ghost tv = texts@.map_values(|t: String| t@);
    let n = texts.len();
    for i in 0..n
        invariant
            n == texts@.len(),
            tv == texts@.map_values(|t: String| t@),
            forall|j: int| 0 <= j < i ==> tv[j] != s@,
    {
        if texts[i] == *s {
            assert(tv[i as int] == s@);
            return true;
        }
    }
    false
}

fn list_has_cached_track(list: &TrackList, cached: &[String]) -> (r: bool)
    ensures
        r == has_cached_track(list@, cached@.map_values(|t: String| t@)),
{
    let n = list.tracks.len();
    for i in 0..n
        invariant
            n == list.tracks@.len(),
            forall|j: int| 0 <= j < i ==> !cached@.map_values(|t: String| t@).contains(
                #[trigger] track_key_view(list.tracks@[j].reference.provider, list.tracks@[j].reference.id@)),
    {
        let key = track_cache_key(&list.tracks[i]);
        if contains_text(cached, &key) {
            return true;
        }
    }
    false
}

fn is_system_playlist_subtitle(subtitle: &Option<String>) -> (r: bool)
    ensures
        r == (opt_str(*subtitle) == Some(system_playlist_subtitle())),
{
    match subtitle {
        Some(s) => {
            proof { reveal_strlit("System playlist"); }
            let marker = String::from_str("System playlist");
            assert(marker@ =~= system_playlist_subtitle());
            *s == marker
        },
        None => false,
    }
}

/// Whether a list is an album of the local library.
pub fn is_local_library_album(list: &TrackList, cached_track_ids: &[String]) -> (r: bool)
    ensures
        r == is_cached_album(list@, cached_track_ids@.map_values(|t: String| t@)),
{
    list.collection.reference.kind == CollectionKind::Album
        && !is_system_playlist_subtitle(&list.collection.subtitle)
        && list_has_cached_track(list, cached_track_ids)
}

/// Keeps the albums of the local library: albums (neither playlists nor
/// system playlists) that hold at least one cached track, in order and with
/// all their tracks.
pub fn filtered_cached_album_track_lists(track_lists: Vec<TrackList>, cached_track_ids: &[String]) -> (r: Vec<TrackList>)
    ensures
        r@.map_values(|l: TrackList| l@) == cached_albums(
            track_lists@.map_values(|l: TrackList| l@),
            cached_track_ids@.map_values(|t: String| t@),
        ),
{
    let ghost cached = cached_track_ids@.map_values(|t: String| t@);
    let ghost lv = track_lists@.map_values(|l: TrackList| l@);
    let mut kept: Vec<TrackList> = Vec::new();
    let n = track_lists.len();
    for i in 0..n
        invariant
            n == track_lists@.len(),
            cached == cached_track_ids@.map_values(|t: String| t@),
            lv == track_lists@.map_values(|l: TrackList| l@),
            kept@.map_values(|l: TrackList| l@) == cached_albums(lv.take(i as int), cached),
    {
        assert(lv.take(i + 1).drop_last() =~= lv.take(i as int));
        assert(lv.take(i + 1).last() == track_lists@[i as int]@);
        let ghost before = kept@;
        if is_local_library_album(&track_lists[i], cached_track_ids) {
            kept.push(track_lists[i].clone());
            assert(kept@.map_values(|l: TrackList| l@) =~= before.map_values(|l: TrackList| l@).push(track_lists@[i as int]@));
        }
    }
    assert(lv.take(n as int) =~= lv);
    kept
}


/// The artist name used when a track names none.
pub open spec fn unknown_artist() -> Seq<char> {
    seq!['U', 'n', 'k', 'n', 'o', 'w', 'n', ' ', 'a', 'r', 't', 'i', 's', 't']
}

/// The prefix of an artist list's identifier.
pub open spec fn artist_id_prefix() -> Seq<char> {
    seq!['l', 'o', 'c', 'a', 'l', '-', 'a', 'r', 't', 'i', 's', 't', ':']
}

/// The artist a track is filed under: the track's collection artist, else
/// its own artist, else the album's subtitle, else `Unknown artist`.
pub open spec fn artist_of(t: TrackSummary, album_subtitle: Option<Seq<char>>) -> Seq<char> {
    match opt_str(t.collection_subtitle) {
        Some(a) => a,
        None => match opt_str(t.artist) {
            Some(a) => a,
            None => match album_subtitle {
                Some(a) => a,
                None => unknown_artist(),
            },
        },
    }
}

/// A track as it enters the grouping, with what the grouping reads of it.
pub struct ArtistEntry {
    pub track: TrackSummary,
    pub artist: Seq<char>,
    pub album_id: Seq<char>,
    pub artwork: Option<Seq<char>>,
}

/// The entry of a track of an album: its artwork is the album's, else the
/// track's.
pub open spec fn entry_of(album: TrackListView, t: TrackSummary) -> ArtistEntry {
    ArtistEntry {
        track: t,
        artist: artist_of(t, opt_str(album.collection.subtitle)),
        album_id: album.collection.reference.id@,
        artwork: match opt_str(album.collection.artwork_url) {
            Some(u) => Some(u),
            None => opt_str(t.artwork_url),
        },
    }
}

/// The entries of an album's tracks, in order.
pub open spec fn album_entries(album: TrackListView) -> Seq<ArtistEntry> {
    album.tracks.map_values(|t: TrackSummary| entry_of(album, t))
}

/// The entries of all albums' tracks, album by album.
pub open spec fn all_entries(albums: Seq<TrackListView>) -> Seq<ArtistEntry>
    decreases albums.len(),
{
    if albums.len() == 0 {
        seq![]
    } else {
        all_entries(albums.drop_last()) + album_entries(albums.last())
    }
}

/// The entries filed under an artist, in order.
pub open spec fn members(entries: Seq<ArtistEntry>, artist: Seq<char>) -> Seq<ArtistEntry>
    decreases entries.len(),
{
    if entries.len() == 0 {
        seq![]
    } else {
        let rest = members(entries.drop_last(), artist);
        if entries.last().artist == artist { rest.push(entries.last()) } else { rest }
    }
}

/// The distinct texts, in order of first appearance.
pub open spec fn dedup(s: Seq<Seq<char>>) -> Seq<Seq<char>>
    decreases s.len(),
{
    if s.len() == 0 {
        seq![]
    } else {
        let rest = dedup(s.drop_last());
        if s.drop_last().contains(s.last()) { rest } else { rest.push(s.last()) }
    }
}

/// The first present value.
pub open spec fn first_some(s: Seq<Option<Seq<char>>>) -> Option<Seq<char>>
    decreases s.len(),
{
    if s.len() == 0 {
        None
    } else {
        match first_some(s.drop_last()) {
            Some(v) => Some(v),
            None => s.last(),
        }
    }
}

/// `No albums`, `1 album`, or `<n> albums`.
pub open spec fn album_count_text(n: nat) -> Seq<char> {
    if n == 0 {
        seq!['N', 'o', ' ', 'a', 'l', 'b', 'u', 'm', 's']
    } else if n == 1 {
        seq!['1', ' ', 'a', 'l', 'b', 'u', 'm']
    } else {
        decimal(n) + seq![' ', 'a', 'l', 'b', 'u', 'm', 's']
    }
}

/// The artist list built for one artist of the entries.
pub open spec fn is_artist_list(g: TrackListView, entries: Seq<ArtistEntry>) -> bool {
    let a = g.collection.title@;
    let m = members(entries, a);
    &&& m.len() > 0
    &&& g.tracks == m.map_values(|e: ArtistEntry| e.track)
    &&& g.collection.reference.provider == ProviderId::Local
    &&& g.collection.reference.id@ == artist_id_prefix() + a
    &&& g.collection.reference.kind == CollectionKind::Album
    &&& g.collection.reference.canonical_url is None
    &&& opt_str(g.collection.subtitle) == Some(album_count_text(dedup(m.map_values(|e: ArtistEntry| e.album_id)).len()))
    &&& opt_str(g.collection.artwork_url) == first_some(m.map_values(|e: ArtistEntry| e.artwork))
    &&& g.collection.track_count == Some(m.len() as usize)
}

/// Some list is titled with the artist.
pub open spec fn has_list_for(out: Seq<TrackListView>, artist: Seq<char>) -> bool {
    exists|i: int| 0 <= i < out.len() && #[trigger] out[i].collection.title@ == artist
}

/// One list per artist of the entries, in artist order.
pub open spec fn is_artist_grouping(entries: Seq<ArtistEntry>, out: Seq<TrackListView>) -> bool {
    &&& forall|i: int, j: int| 0 <= i < j < out.len() ==> text_lt(#[trigger] out[i].collection.title@, #[trigger] out[j].collection.title@)
    &&& forall|q: int| 0 <= q < entries.len() ==> has_list_for(out, #[trigger] entries[q].artist)
    &&& forall|i: int| 0 <= i < out.len() ==> is_artist_list(#[trigger] out[i], entries)
}

/// The sort keys of albums: their lower-cased titles.
pub open spec fn album_title_keys(albums: Seq<TrackListView>) -> Seq<Seq<char>> {
    albums.map_values(|a: TrackListView| lowercase_of(a.collection.title@))
}

/// The artist lists of a set of albums: the albums are taken in order of
/// lower-cased title (a stable sort), their tracks filed by artist, and one
/// list made per artist, in artist order.
pub open spec fn is_local_artist_lists(albums: Seq<TrackListView>, out: Seq<TrackListView>) -> bool {
    exists|order: Seq<usize>|
        is_index_permutation(order, albums.len())
        && sorted_by_text_key(order, album_title_keys(albums))
        && is_artist_grouping(all_entries(order.map_values(|k: usize| albums[k as int])), out)
}

struct EntryExec {
    track: TrackSummary,
    artist: String,
    artist_chars: Vec<char>,
    album_id: String,
    artwork: Option<String>,
}

spec fn entry_view(e: EntryExec) -> ArtistEntry {
    ArtistEntry { track: e.track, artist: e.artist@, album_id: e.album_id@, artwork: opt_str(e.artwork) }
}

spec fn entry_ok(e: EntryExec) -> bool {
    e.artist_chars@ == e.artist@
}

fn artist_for(track: &TrackSummary, album_subtitle: &Option<String>) -> (r: String)
    ensures
        r@ == artist_of(*track, opt_str(*album_subtitle)),
{
    match &track.collection_subtitle {
        Some(a) => a.clone(),
        None => match &track.artist {
            Some(a) => a.clone(),
            None => match album_subtitle {
                Some(a) => a.clone(),
                None => {
                    proof { reveal_strlit("Unknown artist"); }
                    let s = String::from_str("Unknown artist");
                    assert(s@ =~= unknown_artist());
                    s
                },
            },
        },
    }
}

fn entries_of_album(album: &TrackList, out: &mut Vec<EntryExec>)
    ensures
        final(out)@.map_values(|e: EntryExec| entry_view(e)) == old(out)@.map_values(|e: EntryExec| entry_view(e)) + album_entries(album@),
        forall|i: int| 0 <= i < old(out)@.len() ==> entry_ok(#[trigger] old(out)@[i]) ==> true,
        (forall|i: int| 0 <= i < old(out)@.len() ==> entry_ok(#[trigger] old(out)@[i]))
            ==> forall|i: int| 0 <= i < final(out)@.len() ==> entry_ok(#[trigger] final(out)@[i]),
{
    let ghost start = out@.map_values(|e: EntryExec| entry_view(e));
    let ghost start_ok = forall|i: int| 0 <= i < out@.len() ==> entry_ok(#[trigger] out@[i]);
    let ghost start_len = out@.len();
    let n = album.tracks.len();
    for j in 0..n
        invariant
            n == album.tracks@.len(),
            out@.len() == start_len + j,
            out@.map_values(|e: EntryExec| entry_view(e)) == start + album_entries(album@).take(j as int),
            start_ok ==> forall|i: int| 0 <= i < out@.len() ==> entry_ok(#[trigger] out@[i]),
    {
        let track = &album.tracks[j];
        let artist = artist_for(track, &album.collection.subtitle);
        let artist_chars = chars_of(artist.as_str());
        let artwork = match &album.collection.artwork_url {
            Some(u) => Some(u.clone()),
            None => clone_opt_string(&track.artwork_url),
        };
        let e = EntryExec {
            track: track.clone(),
            artist,
            artist_chars,
            album_id: album.collection.reference.id.clone(),
            artwork,
        };
        let ghost before = out@;
        out.push(e);
        proof {
            assert(entry_view(e) == entry_of(album@, album.tracks@[j as int]));
            assert(out@.map_values(|e: EntryExec| entry_view(e)) =~= before.map_values(|e: EntryExec| entry_view(e)).push(entry_view(e)));
            assert(album_entries(album@).take(j + 1) =~= album_entries(album@).take(j as int).push(entry_of(album@, album.tracks@[j as int])));
        }
    }
    assert(album_entries(album@).take(n as int) =~= album_entries(album@));
}

struct ArtistGroup {
    artist: String,
    artist_chars: Vec<char>,
    artwork_url: Option<String>,
    album_ids: Vec<String>,
    tracks: Vec<TrackSummary>,
}

/// The state of a group against the entries seen so far.
spec fn group_ok(g: ArtistGroup, seen: Seq<ArtistEntry>) -> bool {
    let m = members(seen, g.artist@);
    &&& g.artist_chars@ == g.artist@
    &&& m.len() > 0
    &&& g.tracks@ == m.map_values(|e: ArtistEntry| e.track)
    &&& g.album_ids@.map_values(|t: String| t@) == dedup(m.map_values(|e: ArtistEntry| e.album_id))
    &&& opt_str(g.artwork_url) == first_some(m.map_values(|e: ArtistEntry| e.artwork))
}

spec fn has_group_for(gs: Seq<ArtistGroup>, artist: Seq<char>) -> bool {
    exists|i: int| 0 <= i < gs.len() && #[trigger] gs[i].artist@ == artist
}

spec fn groups_ok(gs: Seq<ArtistGroup>, seen: Seq<ArtistEntry>) -> bool {
    &&& forall|i: int, j: int| 0 <= i < j < gs.len() ==> text_lt(#[trigger] gs[i].artist@, #[trigger] gs[j].artist@)
    &&& forall|q: int| 0 <= q < seen.len() ==> has_group_for(gs, #[trigger] seen[q].artist)
    &&& forall|i: int| 0 <= i < gs.len() ==> group_ok(#[trigger] gs[i], seen)
}

proof fn lemma_members_push(seen: Seq<ArtistEntry>, e: ArtistEntry, a: Seq<char>)
    ensures
        members(seen.push(e), a) == if e.artist == a { members(seen, a).push(e) } else { members(seen, a) },
{
    assert(seen.push(e).drop_last() =~= seen);
}

proof fn lemma_members_absent(seen: Seq<ArtistEntry>, a: Seq<char>)
    requires
        forall|q: int| 0 <= q < seen.len() ==> #[trigger] seen[q].artist != a,
    ensures
        members(seen, a).len() == 0,
    decreases seen.len(),
{
    if seen.len() > 0 {
        let rest = seen.drop_last();
        assert forall|q: int| 0 <= q < rest.len() implies #[trigger] rest[q].artist != a by {
            assert(rest[q] == seen[q]);
        }
        lemma_members_absent(rest, a);
        assert(seen.last() == seen[seen.len() - 1]);
    }
}

proof fn lemma_push_contains(t: Seq<Seq<char>>, y: Seq<char>, x: Seq<char>)
    ensures
        t.push(y).contains(x) <==> (t.contains(x) || y == x),
{
    if t.push(y).contains(x) {
        let i = choose|i: int| 0 <= i < t.push(y).len() && t.push(y)[i] == x;
        if i < t.len() {
            assert(t[i] == x);
        }
    }
    if t.contains(x) {
        let i = choose|i: int| 0 <= i < t.len() && t[i] == x;
        assert(t.push(y)[i] == x);
    }
    if y == x {
        assert(t.push(y)[t.len() as int] == x);
    }
}

proof fn lemma_dedup_contains(s: Seq<Seq<char>>, x: Seq<char>)
    ensures
        dedup(s).contains(x) <==> s.contains(x),
    decreases s.len(),
{
    if s.len() > 0 {
        let rest = s.drop_last();
        lemma_dedup_contains(rest, x);
        assert(s =~= rest.push(s.last()));
        lemma_push_contains(rest, s.last(), x);
        lemma_push_contains(dedup(rest), s.last(), x);
    }
}

fn find_group(groups: &Vec<ArtistGroup>, artist_chars: &Vec<char>) -> (pos: usize)
    ensures
        pos <= groups@.len(),
        forall|i: int| 0 <= i < pos ==> text_lt(#[trigger] groups@[i].artist_chars@, artist_chars@),
        pos < groups@.len() ==> !text_lt(groups@[pos as int].artist_chars@, artist_chars@),
{
    let mut pos: usize = 0;
    while pos < groups.len() && text_less(groups[pos].artist_chars.as_slice(), artist_chars.as_slice())
        invariant
            pos <= groups@.len(),
            forall|i: int| 0 <= i < pos ==> text_lt(#[trigger] groups@[i].artist_chars@, artist_chars@),
        decreases groups@.len() - pos,
    {
        pos += 1;
    }
    pos
}

fn add_entry(groups: &mut Vec<ArtistGroup>, e: EntryExec, Ghost(seen): Ghost<Seq<ArtistEntry>>)
    requires
        groups_ok(old(groups)@, seen),
        entry_ok(e),
    ensures
        groups_ok(final(groups)@, seen.push(entry_view(e))),
{
    let ghost ev = entry_view(e);
    let ghost seen2 = seen.push(ev);
    let pos = find_group(groups, &e.artist_chars);
    let matches = pos < groups.len() && text_equal(groups[pos].artist_chars.as_slice(), e.artist_chars.as_slice());
    if matches {
        let ghost prev = groups@;
        let ghost a = prev[pos as int].artist@;
        proof {
            lemma_members_push(seen, ev, a);
            let m = members(seen, a);
            assert(m.push(ev).map_values(|x: ArtistEntry| x.album_id) =~= m.map_values(|x: ArtistEntry| x.album_id).push(ev.album_id));
            assert(m.push(ev).map_values(|x: ArtistEntry| x.track) =~= m.map_values(|x: ArtistEntry| x.track).push(ev.track));
            assert(m.push(ev).map_values(|x: ArtistEntry| x.artwork) =~= m.map_values(|x: ArtistEntry| x.artwork).push(ev.artwork));
            assert(m.map_values(|x: ArtistEntry| x.album_id).push(ev.album_id).drop_last() =~= m.map_values(|x: ArtistEntry| x.album_id));
            assert(m.map_values(|x: ArtistEntry| x.artwork).push(ev.artwork).drop_last() =~= m.map_values(|x: ArtistEntry| x.artwork));
            lemma_dedup_contains(m.map_values(|x: ArtistEntry| x.album_id), ev.album_id);
        }
        let mut group = groups.remove(pos);
        let known = contains_text(group.album_ids.as_slice(), &e.album_id);
        if !known {
            group.album_ids.push(e.album_id);
        }
        if group.artwork_url.is_none() {
            group.artwork_url = e.artwork;
        }
        group.tracks.push(e.track);
        proof {
            let m = members(seen, a);
            assert(group.album_ids@.map_values(|t: String| t@) =~= dedup(members(seen2, a).map_values(|x: ArtistEntry| x.album_id)));
            assert(group.tracks@ =~= members(seen2, a).map_values(|x: ArtistEntry| x.track));
            assert(group_ok(group, seen2));
        }
        groups.insert(pos, group);
        proof {
            assert(groups@ =~= prev.update(pos as int, group));
            assert forall|i: int| 0 <= i < groups@.len() implies group_ok(#[trigger] groups@[i], seen2) by {
                if i != pos {
                    assert(groups@[i] == prev[i]);
                    assert(group_ok(prev[i], seen));
                    lemma_members_push(seen, ev, prev[i].artist@);
                    if prev[i].artist@ == ev.artist {
                        if i < pos {
                            lemma_text_lt_irreflexive(a);
                            assert(text_lt(prev[i].artist@, prev[pos as int].artist@));
                        } else {
                            assert(text_lt(prev[pos as int].artist@, prev[i].artist@));
                            lemma_text_lt_irreflexive(a);
                        }
                    }
                }
            }
            assert forall|q: int| 0 <= q < seen2.len() implies has_group_for(groups@, #[trigger] seen2[q].artist) by {
                if q < seen.len() {
                    assert(seen2[q] == seen[q]);
                    assert(has_group_for(prev, seen[q].artist));
                    let i = choose|i: int| 0 <= i < prev.len() && #[trigger] prev[i].artist@ == seen[q].artist;
                    assert(groups@[i].artist@ == prev[i].artist@);
                } else {
                    assert(groups@[pos as int].artist@ == seen2[q].artist);
                }
            }
            assert forall|i: int, j: int| 0 <= i < j < groups@.len() implies text_lt(#[trigger] groups@[i].artist@, #[trigger] groups@[j].artist@) by {
                assert(groups@[i].artist@ == prev[i].artist@);
                assert(groups@[j].artist@ == prev[j].artist@);
            }
        }
    } else {
        let ghost prev = groups@;
        proof {
            assert forall|q: int| 0 <= q < seen.len() implies #[trigger] seen[q].artist != ev.artist by {
                assert(has_group_for(prev, seen[q].artist));
                let i = choose|i: int| 0 <= i < prev.len() && #[trigger] prev[i].artist@ == seen[q].artist;
                if seen[q].artist == ev.artist {
                    if i < pos {
                        lemma_text_lt_irreflexive(ev.artist);
                    } else if i == pos {
                    } else {
                        lemma_text_lt_total(prev[pos as int].artist@, ev.artist);
                        assert(text_lt(prev[pos as int].artist@, prev[i].artist@));
                        if text_lt(ev.artist, prev[pos as int].artist@) {
                            lemma_text_lt_asymmetric(ev.artist, prev[pos as int].artist@);
                        }
                    }
                }
            }
            lemma_members_absent(seen, ev.artist);
            lemma_members_push(seen, ev, ev.artist);
            assert(members(seen, ev.artist) =~= seq![]);
        }
        let mut album_ids: Vec<String> = Vec::new();
        album_ids.push(e.album_id);
        let mut tracks: Vec<TrackSummary> = Vec::new();
        tracks.push(e.track);
        let group = ArtistGroup {
            artist: e.artist,
            artist_chars: e.artist_chars,
            artwork_url: e.artwork,
            album_ids,
            tracks,
        };
        proof {
            let m = members(seen2, ev.artist);
            assert(dedup(Seq::<Seq<char>>::empty()) == Seq::<Seq<char>>::empty());
            assert(first_some(Seq::<Option<Seq<char>>>::empty()) is None);
            assert(m =~= seq![ev]);
            assert(seq![ev].drop_last() =~= Seq::<ArtistEntry>::empty());
            assert(m.map_values(|x: ArtistEntry| x.album_id) =~= seq![ev.album_id]);
            assert(seq![ev.album_id].drop_last() =~= Seq::<Seq<char>>::empty());
            assert(dedup(seq![ev.album_id]) =~= seq![ev.album_id]);
            assert(m.map_values(|x: ArtistEntry| x.artwork) =~= seq![ev.artwork]);
            assert(seq![ev.artwork].drop_last() =~= Seq::<Option<Seq<char>>>::empty());
            assert(group.album_ids@.map_values(|t: String| t@) =~= seq![ev.album_id]);
            assert(group.tracks@ =~= m.map_values(|x: ArtistEntry| x.track));
            assert(group_ok(group, seen2));
        }
        groups.insert(pos, group);
        proof {
            assert(groups@ =~= prev.take(pos as int).push(group).add(prev.skip(pos as int)));
            // Every older group stays right and in place relative to the others.
            assert forall|i: int| 0 <= i < groups@.len() && i != pos implies
                (#[trigger] groups@[i]).artist@ != ev.artist by {
                let k = if i < pos { i } else { i - 1 };
                assert(groups@[i] == prev[k]);
                if prev[k].artist@ == ev.artist {
                    if k < pos {
                        lemma_text_lt_irreflexive(ev.artist);
                    } else {
                        if pos < prev.len() {
                            lemma_text_lt_total(prev[pos as int].artist@, ev.artist);
                            if k > pos {
                                assert(text_lt(prev[pos as int].artist@, prev[k].artist@));
                                if text_lt(ev.artist, prev[pos as int].artist@) {
                                    lemma_text_lt_asymmetric(ev.artist, prev[pos as int].artist@);
                                }
                            }
                        }
                    }
                }
            }
            assert forall|i: int| 0 <= i < groups@.len() implies group_ok(#[trigger] groups@[i], seen2) by {
                if i != pos {
                    let k = if i < pos { i } else { i - 1 };
                    assert(groups@[i] == prev[k]);
                    assert(group_ok(prev[k], seen));
                    lemma_members_push(seen, ev, prev[k].artist@);
                }
            }
            assert forall|a: int, b: int| 0 <= a < b < groups@.len() implies text_lt(#[trigger] groups@[a].artist@, #[trigger] groups@[b].artist@) by {
                if pos < prev.len() {
                    lemma_text_lt_total(prev[pos as int].artist@, ev.artist);
                }
                if a < pos && b < pos {
                    assert(groups@[a] == prev[a] && groups@[b] == prev[b]);
                } else if a < pos && b == pos {
                    assert(groups@[a] == prev[a]);
                } else if a < pos && b > pos {
                    assert(groups@[a] == prev[a] && groups@[b] == prev[b - 1]);
                    assert(text_lt(prev[a].artist@, ev.artist));
                    assert(text_lt(ev.artist, prev[pos as int].artist@));
                    lemma_text_lt_transitive(prev[a].artist@, ev.artist, prev[pos as int].artist@);
                    if b - 1 > pos {
                        lemma_text_lt_transitive(prev[a].artist@, prev[pos as int].artist@, prev[b - 1].artist@);
                    }
                } else if a == pos {
                    assert(groups@[b] == prev[b - 1]);
                    assert(text_lt(ev.artist, prev[pos as int].artist@));
                    if b - 1 > pos {
                        lemma_text_lt_transitive(ev.artist, prev[pos as int].artist@, prev[b - 1].artist@);
                    }
                } else {
                    assert(groups@[a] == prev[a - 1] && groups@[b] == prev[b - 1]);
                }
            }
            assert forall|q: int| 0 <= q < seen2.len() implies has_group_for(groups@, #[trigger] seen2[q].artist) by {
                if q < seen.len() {
                    assert(seen2[q] == seen[q]);
                    assert(has_group_for(prev, seen[q].artist));
                    let k = choose|k: int| 0 <= k < prev.len() && #[trigger] prev[k].artist@ == seen[q].artist;
                    let i = if k < pos { k } else { k + 1 };
                    assert(groups@[i] == prev[k]);
                } else {
                    assert(groups@[pos as int].artist@ == seen2[q].artist);
                }
            }
        }
    }
}

fn clone_entry(e: &EntryExec) -> (r: EntryExec)
    ensures
        entry_view(r) == entry_view(*e),
        entry_ok(*e) ==> entry_ok(r),
{
    EntryExec {
        track: e.track.clone(),
        artist: e.artist.clone(),
        artist_chars: chars_of(e.artist.as_str()),
        album_id: e.album_id.clone(),
        artwork: clone_opt_string(&e.artwork),
    }
}

fn album_count_label(n: usize) -> (r: String)
    ensures
        r@ == album_count_text(n as nat),
{
    if n == 0 {
        proof { reveal_strlit("No albums"); }
        let s = String::from_str("No albums");
        assert(s@ =~= album_count_text(0));
        s
    } else if n == 1 {
        proof { reveal_strlit("1 album"); }
        let s = String::from_str("1 album");
        assert(s@ =~= album_count_text(1));
        s
    } else {
        let mut s = u64_to_string(n as u64);
        proof { reveal_strlit(" albums"); }
        s.append(" albums");
        assert(s@ =~= album_count_text(n as nat));
        s
    }
}

fn group_to_list(group: ArtistGroup, Ghost(entries): Ghost<Seq<ArtistEntry>>) -> (r: TrackList)
    requires
        group_ok(group, entries),
    ensures
        is_artist_list(r@, entries),
        r.collection.title@ == group.artist@,
{
    let mut id = String::from_str("local-artist:");
    proof { reveal_strlit("local-artist:"); }
    id.append(group.artist.as_str());
    assert(id@ =~= artist_id_prefix() + group.artist@);
    let subtitle = album_count_label(group.album_ids.len());
    let count = group.tracks.len();
    let ghost m = members(entries, group.artist@);
    assert(group.album_ids@.len() == group.album_ids@.map_values(|t: String| t@).len());
    assert(m.len() == m.map_values(|e: ArtistEntry| e.track).len());
    let reference = CollectionRef { provider: ProviderId::Local, id, kind: CollectionKind::Album, canonical_url: None };
    TrackList {
        collection: CollectionSummary {
            reference,
            title: group.artist,
            subtitle: Some(subtitle),
            artwork_url: group.artwork_url,
            track_count: Some(count),
        },
        tracks: group.tracks,
    }
}

/// Groups the tracks of the library's albums by artist: the albums are
/// taken in order of lower-cased title, each track is filed under its
/// collection artist, else its artist, else its album's subtitle, else
/// `Unknown artist`, and one list is made per artist, in artist order. A
/// list is `local-artist:<artist>` of the local provider, titled with the
/// artist, subtitled with its number of albums, with the first artwork found
/// among its entries and all its tracks in order.
pub fn build_local_artist_lists(albums: &[TrackList]) -> (r: Vec<TrackList>)
    ensures
        is_local_artist_lists(albums@.map_values(|l: TrackList| l@), r@.map_values(|l: TrackList| l@)),
{
    let ghost av = albums@.map_values(|l: TrackList| l@);
    let n = albums.len();
    let mut keys: Vec<Vec<char>> = Vec::new();
    for i in 0..n
        invariant
            n == albums@.len(),
            av == albums@.map_values(|l: TrackList| l@),
            keys@.map_values(|k: Vec<char>| k@) == album_title_keys(av).take(i as int),
    {
        let lower = to_lowercase(albums[i].collection.title.as_str());
        let ghost before = keys@;
        let key = chars_of(lower.as_str());
        keys.push(key);
        proof {
            assert(av[i as int] == albums@[i as int]@);
            assert(album_title_keys(av)[i as int] == lowercase_of(albums@[i as int].collection.title@));
            assert(keys@.map_values(|k: Vec<char>| k@) =~= before.map_values(|k: Vec<char>| k@).push(key@));
            assert(album_title_keys(av).take(i + 1) =~= album_title_keys(av).take(i as int).push(album_title_keys(av)[i as int]));
        }
    }
    assert(keys@.map_values(|k: Vec<char>| k@) =~= album_title_keys(av));
    let order = sort_indices_by_text(&keys);
    let ghost sorted = order@.map_values(|k: usize| av[k as int]);
    let mut entries: Vec<EntryExec> = Vec::new();
    for k in 0..n
        invariant
            n == albums@.len(),
            av == albums@.map_values(|l: TrackList| l@),
            is_index_permutation(order@, n as nat),
            sorted == order@.map_values(|k: usize| av[k as int]),
            entries@.map_values(|e: EntryExec| entry_view(e)) == all_entries(sorted.take(k as int)),
            forall|i: int| 0 <= i < entries@.len() ==> entry_ok(#[trigger] entries@[i]),
    {
        let idx = order[k];
        assert(idx < n);
        entries_of_album(&albums[idx], &mut entries);
        assert(sorted.take(k + 1).drop_last() =~= sorted.take(k as int));
        assert(sorted.take(k + 1).last() == albums@[idx as int]@);
    }
    assert(sorted.take(n as int) =~= sorted);
    let ghost all = all_entries(sorted);
    let mut groups: Vec<ArtistGroup> = Vec::new();
    let m = entries.len();
    for k in 0..m
        invariant
            m == entries@.len(),
            entries@.map_values(|e: EntryExec| entry_view(e)) == all,
            forall|i: int| 0 <= i < entries@.len() ==> entry_ok(#[trigger] entries@[i]),
            groups_ok(groups@, all.take(k as int)),
    {
        let e = clone_entry(&entries[k]);
        assert(entry_ok(entries@[k as int]));
        add_entry(&mut groups, e, Ghost(all.take(k as int)));
        assert(all.take(k as int).push(entry_view(e)) =~= all.take(k + 1));
    }
    assert(all.take(m as int) =~= all);
    let mut out: Vec<TrackList> = Vec::new();
    let ghost gs = groups@;
    let mut rest = groups;
    assert(gs.skip(0) =~= gs);
    while rest.len() > 0
        invariant
            groups_ok(gs, all),
            out@.len() <= gs.len(),
            rest@ == gs.skip(out@.len() as int),
            forall|i: int| 0 <= i < out@.len() ==> is_artist_list(#[trigger] out@[i]@, all),
            forall|i: int| 0 <= i < out@.len() ==> #[trigger] out@[i].collection.title@ == gs[i].artist@,
        decreases rest@.len(),
    {
        let ghost d = out@.len();
        let group = rest.remove(0);
        assert(group == gs[d as int]);
        assert(group_ok(gs[d as int], all));
        let list = group_to_list(group, Ghost(all));
        out.push(list);
        assert(rest@ =~= gs.skip(d as int + 1));
    }
    let ghost ov = out@.map_values(|l: TrackList| l@);
    assert(out@.len() == gs.len());
    assert forall|i: int, j: int| 0 <= i < j < ov.len() implies text_lt(#[trigger] ov[i].collection.title@, #[trigger] ov[j].collection.title@) by {
        assert(ov[i].collection.title@ == gs[i].artist@);
        assert(ov[j].collection.title@ == gs[j].artist@);
    }
    assert forall|q: int| 0 <= q < all.len() implies has_list_for(ov, #[trigger] all[q].artist) by {
        assert(has_group_for(gs, all[q].artist));
        let i = choose|i: int| 0 <= i < gs.len() && #[trigger] gs[i].artist@ == all[q].artist;
        assert(ov[i].collection.title@ == gs[i].artist@);
    }
    assert forall|i: int| 0 <= i < ov.len() implies is_artist_list(#[trigger] ov[i], all) by {
        assert(ov[i] == out@[i]@);
    }
    assert(forall|i: int, j: int| 0 <= i < j < ov.len() ==> text_lt(#[trigger] ov[i].collection.title@, #[trigger] ov[j].collection.title@));
    assert(forall|i: int| 0 <= i < ov.len() ==> is_artist_list(#[trigger] ov[i], all));
    assert(is_artist_grouping(all, ov));
    out
}

} // verus!
