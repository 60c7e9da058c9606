//! The local library as the browser shows it: albums with cached tracks,
//! the artists built from them, playlists, the selection in each view, and
//! the known quality of cached tracks and albums.

use vstd::prelude::*;
use crate::artists::{build_local_artist_lists, cached_albums, filtered_cached_album_track_lists, is_local_artist_lists};
use crate::browse::{
    BrowseMode, liked_playlist_id, first_index, find_named_list, liked_tracks_id, local_collection_selection_key, names_list,
    pick_existing_or_first, picked_selection, selected_list_index, selected_local_track_list, selection_key_view,
};
use crate::keyed::{TextMap, distinct_keys, entries_map};
use crate::keys::{browser_key_view, collection_browser_key, provider_scoped_key, track_cache_key, track_key_view};
use crate::model::{
    CollectionKind, CollectionRef, ProviderId, TrackList, TrackListView, TrackSummary, lists_view, opt_str,
    text_or_empty,
};
use crate::quality::{
    AudioQuality, AudioQualityGrade, CollectionQualitySummary, audio_quality_from_track, summarize_audio_quality_grades,
    summary_of_grades, track_grade, track_in_range, track_quality_grade,
};
use crate::textorder::{lowercase_of, to_lowercase, is_index_permutation};
use crate::search::{ExecKey, SearchKey, exec_key_view, stable_sort_keys, stably_sorted};
use crate::text::chars_of;
use crate::model::clone_opt_format;
use crate::playback::opt_list_view;

verus! {

/// A cached track of the library and the provider of its album.
pub struct CachedLibraryTrack {
    pub track: TrackSummary,
    pub collection_provider: ProviderId,
}

/// The quality a track carries, when it carries a format or a bitrate.
pub open spec fn quality_of(t: TrackSummary) -> Option<AudioQuality> {
    if t.audio_format is None && t.bitrate_bps is None {
        None
    } else {
        Some(AudioQuality { audio_format: t.audio_format, bitrate_bps: t.bitrate_bps })
    }
}

/// The known quality of each cached track, by track key; later tracks win.
pub open spec fn qualities_map(tracks: Seq<CachedLibraryTrack>) -> Map<Seq<char>, AudioQuality>
    decreases tracks.len(),
{
    if tracks.len() == 0 {
        Map::empty()
    } else {
        let rest = qualities_map(tracks.drop_last());
        let t = tracks.last().track;
        match quality_of(t) {
            Some(q) => rest.insert(track_key_view(t.reference.provider, t.reference.id@), q),
            None => rest,
        }
    }
}

/// The key of the album a cached track belongs to, when it names one.
pub open spec fn album_key_of(c: CachedLibraryTrack) -> Option<Seq<char>> {
    match c.track.collection_id {
        Some(id) => Some(track_key_view(c.collection_provider, id@)),
        None => None,
    }
}

/// The grades of the cached tracks of the album with the key, in order.
pub open spec fn album_grades(tracks: Seq<CachedLibraryTrack>, key: Seq<char>) -> Seq<AudioQualityGrade> {
    tracks.filter_map(|c: CachedLibraryTrack|
        if album_key_of(c) == Some(key) { track_grade(c.track) } else { None })
}

/// Cached tracks whose bitrates can be graded without overflow.
pub open spec fn cached_in_range(tracks: Seq<CachedLibraryTrack>) -> bool {
    forall|i: int| 0 <= i < tracks.len() ==> track_in_range(#[trigger] tracks[i].track)
}

/// The summary map describes the albums' grades: an entry for each album
/// with a graded track, summarising its grades.
pub open spec fn summarises_albums(m: Map<Seq<char>, CollectionQualitySummary>, tracks: Seq<CachedLibraryTrack>) -> bool {
    &&& forall|k: Seq<char>| #[trigger] m.dom().contains(k) <==> album_grades(tracks, k).len() > 0
    &&& forall|k: Seq<char>| #[trigger] m.dom().contains(k) ==> Some(m[k]) == summary_of_grades(album_grades(tracks, k))
}

/// The texts of a list, as a set.
pub open spec fn key_set(s: Seq<String>) -> Set<Seq<char>> {
    s.map_values(|t: String| t@).to_set()
}

/// The keys of the cached tracks, in order.
pub open spec fn cached_keys(tracks: Seq<CachedLibraryTrack>) -> Seq<Seq<char>> {
    tracks.map_values(|c: CachedLibraryTrack| track_key_view(c.track.reference.provider, c.track.reference.id@))
}

/// The track with the known quality of its cached copy, where there is one.
pub open spec fn enriched_track(t: TrackSummary, qualities: Map<Seq<char>, AudioQuality>) -> TrackSummary {
    let k = track_key_view(t.reference.provider, t.reference.id@);
    if qualities.dom().contains(k) {
        TrackSummary { audio_format: qualities[k].audio_format, bitrate_bps: qualities[k].bitrate_bps, ..t }
    } else {
        t
    }
}

/// The known quality of each cached track by track key, and the summary of
/// each album's grades by album key.
pub fn build_cached_quality_maps(tracks: &[CachedLibraryTrack]) -> (r: (TextMap<AudioQuality>, TextMap<CollectionQualitySummary>))
    requires
        cached_in_range(tracks@),
    ensures
        r.0.map() == qualities_map(tracks@),
        summarises_albums(r.1.map(), tracks@),
{
    let mut track_qualities: TextMap<AudioQuality> = TextMap::new();
    let mut grades: TextMap<Vec<AudioQualityGrade>> = TextMap::new();
    let n = tracks.len();
    for i in 0..n
        invariant
            n == tracks@.len(),
            cached_in_range(tracks@),
            track_qualities.map() == qualities_map(tracks@.take(i as int)),
            forall|k: Seq<char>| #[trigger] grades.map().dom().contains(k) <==> album_grades(tracks@.take(i as int), k).len() > 0,
            forall|k: Seq<char>| #[trigger] grades.map().dom().contains(k) ==> grades.map()[k]@ == album_grades(tracks@.take(i as int), k),
    {
        let c = &tracks[i];
        let ghost prefix = tracks@.take(i as int);
        let ghost next = tracks@.take(i as int + 1);
        proof {
            assert(next.drop_last() =~= prefix);
            assert(next.last() == tracks@[i as int]);
            assert(track_in_range(tracks@[i as int].track));
            assert forall|k: Seq<char>| album_grades(next, k) == if album_key_of(tracks@[i as int]) == Some(k) {
                match track_grade(c.track) { Some(g) => album_grades(prefix, k).push(g), None => album_grades(prefix, k) }
            } else { album_grades(prefix, k) } by {
                let g = |x: CachedLibraryTrack| if album_key_of(x) == Some(k) { track_grade(x.track) } else { None };
                assert(album_grades(next, k) == next.filter_map(g));
                assert(album_grades(prefix, k) == prefix.filter_map(g));
                if let Some(v) = g(tracks@[i as int]) {
                    assert(album_grades(prefix, k) + seq![v] =~= album_grades(prefix, k).push(v));
                }
            }
        }
        let quality = audio_quality_from_track(&c.track);
        match quality {
            Some(q) => {
                let key = track_cache_key(&c.track);
                let grade = track_quality_grade(&c.track);
                track_qualities.insert(key, q);
                if let Some(cid) = &c.track.collection_id {
                    if let Some(g) = grade {
                        let album_key = provider_scoped_key(&c.collection_provider, cid.as_str());
                        let ghost ak = album_key@;
                        let mut list = match grades.take(&album_key) {
                            Some(v) => v,
                            None => Vec::new(),
                        };
                        list.push(g);
                        grades.insert(album_key, list);
                        proof {
                            assert forall|k: Seq<char>| #[trigger] grades.map().dom().contains(k) <==> album_grades(next, k).len() > 0 by {}
                            assert forall|k: Seq<char>| #[trigger] grades.map().dom().contains(k) implies grades.map()[k]@ == album_grades(next, k) by {
                                if k == ak {
                                    assert(album_key_of(tracks@[i as int]) == Some(k));
                                }
                            }
                        }
                    }
                }
            },
            None => {},
        }
    }
    proof {
        assert(tracks@.take(n as int) =~= tracks@);
    }
    let mut summaries: TextMap<CollectionQualitySummary> = TextMap::new();
    let entries = grades.into_entries();
    let ghost gm = entries_map(entries@);
    let m = entries.len();
    for j in 0..m
        invariant
            m == entries@.len(),
            distinct_keys(entries@),
            gm == entries_map(entries@),
            forall|k: Seq<char>| #[trigger] gm.dom().contains(k) <==> album_grades(tracks@, k).len() > 0,
            forall|k: Seq<char>| #[trigger] gm.dom().contains(k) ==> gm[k]@ == album_grades(tracks@, k),
            forall|k: Seq<char>| #[trigger] summaries.map().dom().contains(k) <==>
                exists|a: int| 0 <= a < j && (#[trigger] entries@[a]).0@ == k,
            forall|k: Seq<char>| #[trigger] summaries.map().dom().contains(k) ==>
                Some(summaries.map()[k]) == summary_of_grades(album_grades(tracks@, k)),
    {
        let (k, list) = &entries[j];
        proof {
            crate::keyed::lemma_entries_value(entries@, j as int);
        }
        match summarize_audio_quality_grades(list.as_slice()) {
            Some(summary) => {
                summaries.insert(k.clone(), summary);
            },
            None => {},
        }
        proof {
            assert(album_grades(tracks@, k@).len() > 0);
            assert forall|key: Seq<char>| #[trigger] summaries.map().dom().contains(key) <==>
                exists|a: int| 0 <= a < j + 1 && (#[trigger] entries@[a]).0@ == key by {
                if key == k@ {
                    assert(entries@[j as int].0@ == key);
                }
            }
        }
    }
    proof {
        assert forall|k: Seq<char>| #[trigger] summaries.map().dom().contains(k) <==> album_grades(tracks@, k).len() > 0 by {
            crate::keyed::lemma_entries_dom(entries@, k);
        }
    }
    (track_qualities, summaries)
}

/// Gives each track of the list the known quality of its cached copy.
pub fn enrich_track_list_with_cached_qualities(track_list: &mut TrackList, cached_track_qualities: &TextMap<AudioQuality>)
    ensures
        final(track_list).collection == old(track_list).collection,
        final(track_list).tracks@ == old(track_list).tracks@.map_values(
            |t: TrackSummary| enriched_track(t, cached_track_qualities.map()),
        ),
{
    let ghost m = cached_track_qualities.map();
    let mut out: Vec<TrackSummary> = Vec::new();
    let n = track_list.tracks.len();
    for i in 0..n
        invariant
            n == track_list.tracks@.len(),
            m == cached_track_qualities.map(),
            out@.len() == i,
            forall|j: int| 0 <= j < i ==> #[trigger] out@[j] == enriched_track(track_list.tracks@[j], m),
    {
        let t = &track_list.tracks[i];
        let key = track_cache_key(t);
        let enriched = match cached_track_qualities.get(&key) {
            Some(q) => TrackSummary {
                audio_format: clone_opt_format(&q.audio_format),
                bitrate_bps: q.bitrate_bps,
                ..t.clone()
            },
            None => t.clone(),
        };
        out.push(enriched);
    }
    proof {
        assert(out@ =~= track_list.tracks@.map_values(|t: TrackSummary| enriched_track(t, m)));
    }
    track_list.tracks = out;
}

/// The playlists with the recently played playlist placed right after the
/// liked tracks playlist (first when there is none).
pub open spec fn with_recently_played(lists: Seq<TrackListView>, recent: Option<TrackListView>) -> Seq<TrackListView> {
    match recent {
        None => lists,
        Some(r) => {
            let at = match first_index(lists, |l: TrackListView| l.collection.reference.id@ == liked_tracks_id()) {
                Some(i) => i + 1,
                None => 0,
            };
            lists.insert(at, r)
        },
    }
}

/// A playlist, as opposed to an album.
pub open spec fn is_playlist_list(l: TrackListView) -> bool {
    l.collection.reference.kind == CollectionKind::Playlist
}

/// Everything the library database answered for a refresh; `None` where a
/// query failed.
pub struct LibraryRefresh {
    pub cached_tracks: Option<Vec<CachedLibraryTrack>>,
    pub album_track_lists: Vec<TrackList>,
    pub playlists: Option<Vec<TrackList>>,
    pub recently_played: Option<TrackList>,
    pub cached_track_ids: Option<Vec<String>>,
    pub liked_track_ids: Option<Vec<String>>,
}

/// The local library's state, as a value.
pub struct LibraryView {
    pub albums: Seq<TrackListView>,
    pub artists: Seq<TrackListView>,
    pub playlists: Seq<TrackListView>,
    pub selected_album: Option<Seq<char>>,
    pub selected_artist: Option<Seq<char>>,
    pub selected_playlist: Option<Seq<char>>,
    pub track_qualities: Map<Seq<char>, AudioQuality>,
    pub album_qualities: Map<Seq<char>, CollectionQualitySummary>,
    pub cached_ids: Set<Seq<char>>,
    pub liked_ids: Set<Seq<char>>,
}

/// The lists a view shows.
pub open spec fn lists_in(v: LibraryView, mode: BrowseMode) -> Seq<TrackListView> {
    match mode {
        BrowseMode::Albums => v.albums,
        BrowseMode::Artists => v.artists,
        BrowseMode::Playlists => v.playlists,
        BrowseMode::Discover => Seq::empty(),
    }
}

/// The selection of a view.
pub open spec fn selection_in(v: LibraryView, mode: BrowseMode) -> Option<Seq<char>> {
    match mode {
        BrowseMode::Albums => v.selected_album,
        BrowseMode::Artists => v.selected_artist,
        BrowseMode::Playlists => v.selected_playlist,
        BrowseMode::Discover => None,
    }
}

/// Each view's selection names one of its lists, or the first list.
pub open spec fn reconciled(v: LibraryView, selected_album: Option<Seq<char>>, selected_artist: Option<Seq<char>>, selected_playlist: Option<Seq<char>>) -> bool {
    &&& v.selected_album == picked_selection(BrowseMode::Albums, selected_album, v.albums)
    &&& v.selected_artist == picked_selection(BrowseMode::Artists, selected_artist, v.artists)
    &&& v.selected_playlist == picked_selection(BrowseMode::Playlists, selected_playlist, v.playlists)
}

/// A list of the given provider album.
pub open spec fn is_album_of(l: TrackListView, provider: ProviderId, id: Seq<char>) -> bool {
    l.collection.reference.provider.same(provider) && l.collection.reference.id@ == id
}

/// The track keys of the first album of the provider album, if any.
pub open spec fn removed_keys(albums: Seq<TrackListView>, provider: ProviderId, id: Seq<char>) -> Set<Seq<char>> {
    match first_index(albums, |l: TrackListView| is_album_of(l, provider, id)) {
        Some(i) => list_track_keys(albums[i]),
        None => Set::empty(),
    }
}

/// How the album list is ordered: lower-cased title, then lower-cased
/// subtitle.
pub open spec fn album_key(l: TrackListView) -> SearchKey {
    SearchKey {
        rank: 0,
        title: lowercase_of(l.collection.title@),
        provider: lowercase_of(text_or_empty(l.collection.subtitle)),
    }
}

/// `out` holds `base` stably sorted by album key.
pub open spec fn sorted_albums_of(base: Seq<TrackListView>, out: Seq<TrackListView>) -> bool {
    exists|order: Seq<usize>| {
        &&& is_index_permutation(order, base.len())
        &&& out.len() == base.len()
        &&& (forall|k: int| 0 <= k < out.len() ==> #[trigger] out[k] == base[order[k] as int])
        &&& stably_sorted(order, base.map_values(|l: TrackListView| album_key(l)))
    }
}

/// The album list after an album of the provider album is stored: the
/// album's old entry goes; the new one, if any, joins and the list is
/// sorted again.
pub open spec fn albums_after_upsert(
    albums: Seq<TrackListView>,
    album: Option<TrackListView>,
    provider: ProviderId,
    id: Seq<char>,
    out: Seq<TrackListView>,
) -> bool {
    let kept = albums.filter(|l: TrackListView| !is_album_of(l, provider, id));
    match album {
        Some(a) => sorted_albums_of(kept.push(a), out),
        None => out == kept,
    }
}

/// The album qualities after cached tracks are recorded: albums with graded
/// tracks among them get their new summary, others keep theirs.
pub open spec fn album_qualities_updated(
    before: Map<Seq<char>, CollectionQualitySummary>,
    after: Map<Seq<char>, CollectionQualitySummary>,
    tracks: Seq<CachedLibraryTrack>,
) -> bool {
    &&& forall|k: Seq<char>| #[trigger] after.dom().contains(k) <==> (before.dom().contains(k) || album_grades(tracks, k).len() > 0)
    &&& forall|k: Seq<char>| album_grades(tracks, k).len() > 0 ==> Some(#[trigger] after[k]) == summary_of_grades(album_grades(tracks, k))
    &&& forall|k: Seq<char>| album_grades(tracks, k).len() == 0 && before.dom().contains(k) ==> #[trigger] after[k] == before[k]
}

/// The track keys of an album list.
pub open spec fn list_track_keys(l: TrackListView) -> Set<Seq<char>> {
    l.tracks.map_values(|t: TrackSummary| track_key_view(t.reference.provider, t.reference.id@)).to_set()
}

fn set_of_texts(texts: Vec<String>) -> (r: TextMap<()>)
    ensures
        r.map().dom() == key_set(texts@),
{
    let mut set: TextMap<()> = TextMap::new();
    let n = texts.len();
    let ghost tv = texts@;
    for i in 0..n
        invariant
            n == texts@.len(),
            tv == texts@,
            set.map().dom() == key_set(texts@.take(i as int)),
    {
        proof {
            let a = texts@.take(i as int);
            let b = texts@.take(i as int + 1);
            assert(b.map_values(|t: String| t@) =~= a.map_values(|t: String| t@).push(texts@[i as int]@));
            assert(key_set(b) =~= key_set(a).insert(texts@[i as int]@)) by {
                assert forall|x: Seq<char>| key_set(b).contains(x) <==> key_set(a).insert(texts@[i as int]@).contains(x) by {
                    let av = a.map_values(|t: String| t@);
                    let bv = b.map_values(|t: String| t@);
                    if bv.contains(x) {
                        let j = choose|j: int| 0 <= j < bv.len() && bv[j] == x;
                        if j < av.len() { assert(av[j] == bv[j]); }
                    }
                    if av.contains(x) {
                        let j = choose|j: int| 0 <= j < av.len() && av[j] == x;
                        assert(bv[j] == av[j]);
                    }
                    if x == texts@[i as int]@ {
                        assert(bv[i as int] == x);
                    }
                }
            }
        }
        set.insert(texts[i].clone(), ());
    }
    proof {
        assert(texts@.take(n as int) =~= texts@);
    }
    set
}

/// The local library as the browser shows it.
pub struct LibraryModule {
    local_albums: Vec<TrackList>,
    local_artists: Vec<TrackList>,
    local_playlists: Vec<TrackList>,
    selected_local_album_id: Option<String>,
    selected_local_artist_id: Option<String>,
    selected_local_playlist_id: Option<String>,
    cached_track_qualities: TextMap<AudioQuality>,
    cached_collection_qualities: TextMap<CollectionQualitySummary>,
    cached_track_ids: TextMap<()>,
    liked_track_ids: TextMap<()>,
}

impl View for LibraryModule {
    type V = LibraryView;

    closed spec fn view(&self) -> LibraryView {
        LibraryView {
            albums: lists_view(self.local_albums@),
            artists: lists_view(self.local_artists@),
            playlists: lists_view(self.local_playlists@),
            selected_album: opt_str(self.selected_local_album_id),
            selected_artist: opt_str(self.selected_local_artist_id),
            selected_playlist: opt_str(self.selected_local_playlist_id),
            track_qualities: self.cached_track_qualities.map(),
            album_qualities: self.cached_collection_qualities.map(),
            cached_ids: self.cached_track_ids.map().dom(),
            liked_ids: self.liked_track_ids.map().dom(),
        }
    }
}

impl LibraryModule {
    /// An empty library; a refresh fills it.
    pub fn new() -> (r: Self)
        ensures
            r@.albums == Seq::<TrackListView>::empty(),
            r@.artists == Seq::<TrackListView>::empty(),
            r@.playlists == Seq::<TrackListView>::empty(),
            r@.selected_album is None,
            r@.selected_artist is None,
            r@.selected_playlist is None,
            r@.track_qualities == Map::<Seq<char>, AudioQuality>::empty(),
            r@.album_qualities == Map::<Seq<char>, CollectionQualitySummary>::empty(),
            r@.cached_ids == Set::<Seq<char>>::empty(),
            r@.liked_ids == Set::<Seq<char>>::empty(),
    {
        let r = LibraryModule {
            local_albums: Vec::new(),
            local_artists: Vec::new(),
            local_playlists: Vec::new(),
            selected_local_album_id: None,
            selected_local_artist_id: None,
            selected_local_playlist_id: None,
            cached_track_qualities: TextMap::new(),
            cached_collection_qualities: TextMap::new(),
            cached_track_ids: TextMap::new(),
            liked_track_ids: TextMap::new(),
        };
        proof {
            assert(lists_view(r.local_albums@) =~= Seq::<TrackListView>::empty());
            assert(lists_view(r.local_artists@) =~= Seq::<TrackListView>::empty());
            assert(lists_view(r.local_playlists@) =~= Seq::<TrackListView>::empty());
            assert(r.cached_track_ids.map().dom() =~= Set::<Seq<char>>::empty());
            assert(r.liked_track_ids.map().dom() =~= Set::<Seq<char>>::empty());
        }
        r
    }

    /// Each view's selection is kept where it still names a list, else the
    /// first list is selected.
    pub fn reconcile_local_selections(&mut self)
        ensures
            reconciled(final(self)@, old(self)@.selected_album, old(self)@.selected_artist, old(self)@.selected_playlist),
            final(self)@.albums == old(self)@.albums,
            final(self)@.artists == old(self)@.artists,
            final(self)@.playlists == old(self)@.playlists,
            final(self)@.track_qualities == old(self)@.track_qualities,
            final(self)@.album_qualities == old(self)@.album_qualities,
            final(self)@.cached_ids == old(self)@.cached_ids,
            final(self)@.liked_ids == old(self)@.liked_ids,
    {
        self.selected_local_album_id = pick_existing_or_first(
            BrowseMode::Albums,
            self.selected_local_album_id.take(),
            self.local_albums.as_slice(),
        );
        self.selected_local_artist_id = pick_existing_or_first(
            BrowseMode::Artists,
            self.selected_local_artist_id.take(),
            self.local_artists.as_slice(),
        );
        self.selected_local_playlist_id = pick_existing_or_first(
            BrowseMode::Playlists,
            self.selected_local_playlist_id.take(),
            self.local_playlists.as_slice(),
        );
    }
}


impl LibraryModule {
    /// The number of albums.
    pub fn album_count(&self) -> (r: usize)
        ensures
            r == self@.albums.len(),
    {
        self.local_albums.len()
    }

    /// The number of artists.
    pub fn artist_count(&self) -> (r: usize)
        ensures
            r == self@.artists.len(),
    {
        self.local_artists.len()
    }

    /// The number of playlists.
    pub fn playlist_count(&self) -> (r: usize)
        ensures
            r == self@.playlists.len(),
    {
        self.local_playlists.len()
    }

    /// The lists a view shows; none for the discover view.
    pub fn local_collections(&self, mode: BrowseMode) -> (r: &[TrackList])
        ensures
            lists_view(r@) == lists_in(self@, mode),
    {
        match mode {
            BrowseMode::Albums => self.local_albums.as_slice(),
            BrowseMode::Artists => self.local_artists.as_slice(),
            BrowseMode::Playlists => self.local_playlists.as_slice(),
            BrowseMode::Discover => {
                let r: &[TrackList] = &[];
                proof { assert(lists_view(r@) =~= Seq::<TrackListView>::empty()); }
                r
            },
        }
    }

    /// A copy of the lists a view shows.
    pub fn local_collections_owned(&self, mode: BrowseMode) -> (r: Vec<TrackList>)
        ensures
            lists_view(r@) == lists_in(self@, mode),
    {
        let lists = self.local_collections(mode);
        let mut out: Vec<TrackList> = Vec::new();
        let n = lists.len();
        for i in 0..n
            invariant
                n == lists@.len(),
                out@.len() == i,
                forall|j: int| 0 <= j < i ==> (#[trigger] out@[j])@ == lists@[j]@,
        {
            out.push(lists[i].clone());
        }
        proof {
            assert(lists_view(out@) =~= lists_view(lists@));
        }
        out
    }

    /// The selection of a view; none for the discover view.
    pub fn selected_local_collection_id(&self, mode: BrowseMode) -> (r: Option<&String>)
        ensures
            match r {
                Some(s) => selection_in(self@, mode) == Some(s@),
                None => selection_in(self@, mode) is None,
            },
    {
        match mode {
            BrowseMode::Albums => self.selected_local_album_id.as_ref(),
            BrowseMode::Artists => self.selected_local_artist_id.as_ref(),
            BrowseMode::Playlists => self.selected_local_playlist_id.as_ref(),
            BrowseMode::Discover => None,
        }
    }

    /// A copy of the selection of a view.
    pub fn selected_local_collection_id_owned(&self, mode: BrowseMode) -> (r: Option<String>)
        ensures
            opt_str(r) == selection_in(self@, mode),
    {
        match self.selected_local_collection_id(mode) {
            Some(s) => Some(s.clone()),
            None => None,
        }
    }

    /// Selects a list of a view: the first list the id names, by its key,
    /// else the id as given. The discover view keeps no selection.
    pub fn select_local_collection(&mut self, mode: BrowseMode, id: String)
        ensures
            ({
                let lists = lists_in(old(self)@, mode);
                let resolved = match first_index(lists, names_list(mode, id@)) {
                    Some(i) => selection_key_view(mode, lists[i].collection.reference),
                    None => id@,
                };
                &&& final(self)@.selected_album == (if mode == BrowseMode::Albums { Some(resolved) } else { old(self)@.selected_album })
                &&& final(self)@.selected_artist == (if mode == BrowseMode::Artists { Some(resolved) } else { old(self)@.selected_artist })
                &&& final(self)@.selected_playlist == (if mode == BrowseMode::Playlists { Some(resolved) } else { old(self)@.selected_playlist })
            }),
            final(self)@.albums == old(self)@.albums,
            final(self)@.artists == old(self)@.artists,
            final(self)@.playlists == old(self)@.playlists,
            final(self)@.track_qualities == old(self)@.track_qualities,
            final(self)@.album_qualities == old(self)@.album_qualities,
            final(self)@.cached_ids == old(self)@.cached_ids,
            final(self)@.liked_ids == old(self)@.liked_ids,
    {
        let resolved = {
            let lists = self.local_collections(mode);
            match find_named_list(mode, lists, &id) {
                Some(i) => local_collection_selection_key(mode, &lists[i].collection.reference),
                None => id,
            }
        };
        match mode {
            BrowseMode::Albums => self.selected_local_album_id = Some(resolved),
            BrowseMode::Artists => self.selected_local_artist_id = Some(resolved),
            BrowseMode::Playlists => self.selected_local_playlist_id = Some(resolved),
            BrowseMode::Discover => {},
        }
    }

    /// The list a view shows: the first its selection names, else the first.
    pub fn current_local_track_list(&self, mode: BrowseMode) -> (r: Option<&TrackList>)
        ensures
            match (r, selected_list_index(mode, lists_in(self@, mode), selection_in(self@, mode))) {
                (Some(l), Some(i)) => l@ == lists_in(self@, mode)[i],
                (None, None) => true,
                _ => false,
            },
    {
        let lists = self.local_collections(mode);
        let selected = match self.selected_local_collection_id(mode) {
            Some(s) => Some(s.as_str()),
            None => None,
        };
        proof {
            if let Some(sel) = selection_in(self@, mode) {
                crate::browse::lemma_first_index_valid(lists_in(self@, mode), names_list(mode, sel));
            }
            assert(lists_view(lists@) == lists@.map_values(|l: TrackList| l@));
        }
        let r = selected_local_track_list(mode, lists, selected);
        proof {
            if let Some(i) = selected_list_index(mode, lists_in(self@, mode), selection_in(self@, mode)) {
                assert(0 <= i < lists@.len());
                assert(lists_view(lists@)[i] == lists@[i]@);
            }
        }
        r
    }

    /// A copy of the list a view shows.
    pub fn current_local_track_list_owned(&self, mode: BrowseMode) -> (r: Option<TrackList>)
        ensures
            match (r, selected_list_index(mode, lists_in(self@, mode), selection_in(self@, mode))) {
                (Some(l), Some(i)) => l@ == lists_in(self@, mode)[i],
                (None, None) => true,
                _ => false,
            },
    {
        match self.current_local_track_list(mode) {
            Some(l) => Some(l.clone()),
            None => None,
        }
    }

    /// The known quality of the track's cached copy.
    pub fn track_quality(&self, track: &TrackSummary) -> (r: Option<AudioQuality>)
        ensures
            ({
                let k = track_key_view(track.reference.provider, track.reference.id@);
                match r {
                    Some(q) => self@.track_qualities.dom().contains(k) && self@.track_qualities[k] == q,
                    None => !self@.track_qualities.dom().contains(k),
                }
            }),
    {
        let key = track_cache_key(track);
        match self.cached_track_qualities.get(&key) {
            Some(q) => Some(q.clone()),
            None => None,
        }
    }

    /// The quality summary of the album's cached tracks.
    pub fn collection_quality(&self, collection: &CollectionRef) -> (r: Option<CollectionQualitySummary>)
        ensures
            ({
                let k = browser_key_view(*collection);
                match r {
                    Some(q) => self@.album_qualities.dom().contains(k) && self@.album_qualities[k] == q,
                    None => !self@.album_qualities.dom().contains(k),
                }
            }),
    {
        let key = collection_browser_key(collection);
        match self.cached_collection_qualities.get(&key) {
            Some(q) => Some(*q),
            None => None,
        }
    }

    /// Whether the track is cached.
    pub fn track_is_cached(&self, track: &TrackSummary) -> (r: bool)
        ensures
            r == self@.cached_ids.contains(track_key_view(track.reference.provider, track.reference.id@)),
    {
        self.cached_track_ids.contains_key(&track_cache_key(track))
    }

    /// Whether the track is liked.
    pub fn track_is_liked(&self, track: &TrackSummary) -> (r: bool)
        ensures
            r == self@.liked_ids.contains(track_key_view(track.reference.provider, track.reference.id@)),
    {
        self.liked_track_ids.contains_key(&track_cache_key(track))
    }

    /// Gives each track of the list the known quality of its cached copy.
    pub fn enrich_track_list(&self, track_list: &mut TrackList)
        ensures
            final(track_list).collection == old(track_list).collection,
            final(track_list).tracks@ == old(track_list).tracks@.map_values(
                |t: TrackSummary| enriched_track(t, self@.track_qualities),
            ),
    {
        enrich_track_list_with_cached_qualities(track_list, &self.cached_track_qualities);
    }
}


fn cached_key_list(tracks: &[CachedLibraryTrack]) -> (r: Vec<String>)
    ensures
        r@.map_values(|t: String| t@) == cached_keys(tracks@),
{
    let mut keys: Vec<String> = Vec::new();
    let n = tracks.len();
    for i in 0..n
        invariant
            n == tracks@.len(),
            keys@.len() == i,
            forall|j: int| 0 <= j < i ==> (#[trigger] keys@[j])@ == cached_keys(tracks@)[j],
    {
        keys.push(track_cache_key(&tracks[i].track));
    }
    proof {
        assert(keys@.map_values(|t: String| t@) =~= cached_keys(tracks@));
    }
    keys
}

fn playlists_with_recent(playlists: Vec<TrackList>, recently_played: Option<TrackList>) -> (r: Vec<TrackList>)
    ensures
        lists_view(r@) == with_recently_played(lists_view(playlists@), opt_list_view(recently_played))
            .filter(|l: TrackListView| is_playlist_list(l)),
{
    let ghost pv = lists_view(playlists@);
    let mut lists = playlists;
    if let Some(recent) = recently_played {
        let ghost liked = |l: TrackListView| l.collection.reference.id@ == liked_tracks_id();
        let liked_id = String::from_str(liked_playlist_id());
        let n = lists.len();
        let mut at: usize = 0;
        let mut i: usize = 0;
        while i < n && !(lists[i].collection.reference.id == liked_id)
            invariant
                n == lists@.len(),
                pv == lists_view(lists@),
                liked == (|l: TrackListView| l.collection.reference.id@ == liked_tracks_id()),
                liked_id@ == liked_tracks_id(),
                i <= n,
                forall|j: int| 0 <= j < i ==> !liked(#[trigger] pv[j]),
            decreases n - i,
        {
            i += 1;
        }
        if i < n {
            proof {
                assert(liked(pv[i as int]));
                crate::browse::lemma_first_index_found(pv, liked, i as int);
            }
            at = i + 1;
        } else {
            proof { crate::browse::lemma_first_index_none(pv, liked); }
        }
        let ghost rv = recent@;
        lists.insert(at, recent);
        proof {
            assert(lists_view(lists@) =~= pv.insert(at as int, rv));
        }
    }
    let ghost wv = lists_view(lists@);
    let ghost pred = |l: TrackListView| is_playlist_list(l);
    let mut out: Vec<TrackList> = Vec::new();
    let m = lists.len();
    for k in 0..m
        invariant
            m == lists@.len(),
            wv == lists_view(lists@),
            pred == (|l: TrackListView| is_playlist_list(l)),
            lists_view(out@) == wv.take(k as int).filter(pred),
    {
        proof {
            assert(wv.take(k as int + 1).drop_last() =~= wv.take(k as int));
            assert(wv.take(k as int + 1).last() == lists@[k as int]@);
            reveal(Seq::filter);
        }
        if lists[k].collection.reference.kind == CollectionKind::Playlist {
            let ghost before = out@;
            out.push(lists[k].clone());
            proof {
                assert(lists_view(out@) =~= lists_view(before).push(lists@[k as int]@));
            }
        }
    }
    proof {
        assert(wv.take(m as int) =~= wv);
    }
    out
}

fn find_album(albums: &Vec<TrackList>, provider: &ProviderId, id: &String) -> (r: Option<usize>)
    ensures
        match r {
            Some(i) => first_index(lists_view(albums@), |l: TrackListView| is_album_of(l, *provider, id@)) == Some(i as int)
                && i < albums@.len(),
            None => first_index(lists_view(albums@), |l: TrackListView| is_album_of(l, *provider, id@)) is None,
        },
{
    let ghost av = lists_view(albums@);
    let ghost pred = |l: TrackListView| is_album_of(l, *provider, id@);
    let n = albums.len();
    for i in 0..n
        invariant
            n == albums@.len(),
            av == lists_view(albums@),
            pred == (|l: TrackListView| is_album_of(l, *provider, id@)),
            forall|j: int| 0 <= j < i ==> !pred(#[trigger] av[j]),
    {
        let l = &albums[i];
        if l.collection.reference.provider.same_as(provider) && l.collection.reference.id == *id {
            proof {
                assert(pred(av[i as int]));
                crate::browse::lemma_first_index_found(av, pred, i as int);
            }
            return Some(i);
        }
    }
    proof { crate::browse::lemma_first_index_none(av, pred); }
    None
}

impl LibraryModule {
    /// Rebuilds the library from what the database answered: with the
    /// cached tracks come the quality maps, the albums holding cached tracks
    /// and the artists built from them; playlists get the recently played
    /// playlist after the liked tracks; the cached and liked track sets are
    /// replaced. A failed query leaves its part alone. Each view's selection
    /// is then reconciled.
    pub fn refresh(&mut self, update: LibraryRefresh)
        requires
            match update.cached_tracks {
                Some(ts) => cached_in_range(ts@),
                None => true,
            },
        ensures
            match update.cached_tracks {
                Some(ts) => {
                    &&& final(self)@.track_qualities == qualities_map(ts@)
                    &&& summarises_albums(final(self)@.album_qualities, ts@)
                    &&& final(self)@.albums == cached_albums(lists_view(update.album_track_lists@), cached_keys(ts@))
                    &&& is_local_artist_lists(final(self)@.albums, final(self)@.artists)
                },
                None => {
                    &&& final(self)@.track_qualities == old(self)@.track_qualities
                    &&& final(self)@.album_qualities == old(self)@.album_qualities
                    &&& final(self)@.albums == old(self)@.albums
                    &&& final(self)@.artists == old(self)@.artists
                },
            },
            final(self)@.playlists == match update.playlists {
                Some(ps) => with_recently_played(lists_view(ps@), opt_list_view(update.recently_played))
                    .filter(|l: TrackListView| is_playlist_list(l)),
                None => old(self)@.playlists,
            },
            final(self)@.cached_ids == match update.cached_track_ids {
                Some(ids) => key_set(ids@),
                None => old(self)@.cached_ids,
            },
            final(self)@.liked_ids == match update.liked_track_ids {
                Some(ids) => key_set(ids@),
                None => old(self)@.liked_ids,
            },
            reconciled(final(self)@, old(self)@.selected_album, old(self)@.selected_artist, old(self)@.selected_playlist),
    {
        let LibraryRefresh { cached_tracks, album_track_lists, playlists, recently_played, cached_track_ids, liked_track_ids } = update;
        if let Some(tracks) = cached_tracks {
            let keys = cached_key_list(tracks.as_slice());
            let (track_qualities, collection_qualities) = build_cached_quality_maps(tracks.as_slice());
            self.cached_track_qualities = track_qualities;
            self.cached_collection_qualities = collection_qualities;
            self.local_albums = filtered_cached_album_track_lists(album_track_lists, keys.as_slice());
            self.local_artists = build_local_artist_lists(self.local_albums.as_slice());
        }
        if let Some(lists) = playlists {
            self.local_playlists = playlists_with_recent(lists, recently_played);
        }
        if let Some(ids) = cached_track_ids {
            self.cached_track_ids = set_of_texts(ids);
        }
        if let Some(ids) = liked_track_ids {
            self.liked_track_ids = set_of_texts(ids);
        }
        self.reconcile_local_selections();
    }

    /// Records cached tracks: their keys join the cached set, their
    /// qualities overwrite the known ones, and the albums they belong to get
    /// new quality summaries.
    fn insert_cached_state(&mut self, tracks: &[CachedLibraryTrack])
        requires
            cached_in_range(tracks@),
        ensures
            final(self)@.cached_ids == old(self)@.cached_ids + cached_keys(tracks@).to_set(),
            final(self)@.track_qualities == old(self)@.track_qualities.union_prefer_right(qualities_map(tracks@)),
            album_qualities_updated(old(self)@.album_qualities, final(self)@.album_qualities, tracks@),
            final(self)@.albums == old(self)@.albums,
            final(self)@.artists == old(self)@.artists,
            final(self)@.playlists == old(self)@.playlists,
            final(self)@.selected_album == old(self)@.selected_album,
            final(self)@.selected_artist == old(self)@.selected_artist,
            final(self)@.selected_playlist == old(self)@.selected_playlist,
            final(self)@.liked_ids == old(self)@.liked_ids,
    {
        let ghost old_aq = self.cached_collection_qualities.map();
        let ghost old_ids = self.cached_track_ids.map().dom();
        let (track_qualities, collection_qualities) = build_cached_quality_maps(tracks);
        let ghost built = collection_qualities.map();
        let mut ids: TextMap<()> = TextMap::new();
        std::mem::swap(&mut ids, &mut self.cached_track_ids);
        let n = tracks.len();
        for i in 0..n
            invariant
                n == tracks@.len(),
                ids.map().dom() == old_ids + cached_keys(tracks@.take(i as int)).to_set(),
        {
            let key = track_cache_key(&tracks[i].track);
            ids.insert(key, ());
            proof {
                let a = cached_keys(tracks@.take(i as int));
                let b = cached_keys(tracks@.take(i as int + 1));
                assert(b =~= a.push(cached_keys(tracks@)[i as int]));
                assert forall|x: Seq<char>| b.to_set().contains(x) <==> a.to_set().insert(cached_keys(tracks@)[i as int]).contains(x) by {
                    if b.contains(x) {
                        let j = choose|j: int| 0 <= j < b.len() && b[j] == x;
                        if j < a.len() { assert(a[j] == b[j]); }
                    }
                    if a.contains(x) {
                        let j = choose|j: int| 0 <= j < a.len() && a[j] == x;
                        assert(b[j] == a[j]);
                    }
                    if x == cached_keys(tracks@)[i as int] {
                        assert(b[i as int] == x);
                    }
                }
                assert(ids.map().dom() =~= old_ids + b.to_set());
            }
        }
        proof {
            assert(tracks@.take(n as int) =~= tracks@);
        }
        self.cached_track_ids = ids;
        self.cached_track_qualities.insert_all(track_qualities.into_entries());
        self.cached_collection_qualities.insert_all(collection_qualities.into_entries());
        proof {
            let after = self.cached_collection_qualities.map();
            assert(after == old_aq.union_prefer_right(built));
            assert forall|k: Seq<char>| album_grades(tracks@, k).len() > 0 implies Some(#[trigger] after[k]) == summary_of_grades(album_grades(tracks@, k)) by {
                assert(built.dom().contains(k));
            }
            assert forall|k: Seq<char>| album_grades(tracks@, k).len() == 0 && old_aq.dom().contains(k) implies #[trigger] after[k] == old_aq[k] by {
                assert(!built.dom().contains(k));
            }
        }
    }

    /// Forgets the cached state of a provider album: its listed tracks
    /// leave the cached set and the quality map, and its summary goes.
    fn remove_cached_state_for_collection(&mut self, provider: &ProviderId, collection_id: &String)
        ensures
            final(self)@.cached_ids == old(self)@.cached_ids - removed_keys(old(self)@.albums, *provider, collection_id@),
            final(self)@.track_qualities == old(self)@.track_qualities.remove_keys(removed_keys(old(self)@.albums, *provider, collection_id@)),
            final(self)@.album_qualities == old(self)@.album_qualities.remove(track_key_view(*provider, collection_id@)),
            final(self)@.albums == old(self)@.albums,
            final(self)@.artists == old(self)@.artists,
            final(self)@.playlists == old(self)@.playlists,
            final(self)@.selected_album == old(self)@.selected_album,
            final(self)@.selected_artist == old(self)@.selected_artist,
            final(self)@.selected_playlist == old(self)@.selected_playlist,
            final(self)@.liked_ids == old(self)@.liked_ids,
    {
        let ghost av = lists_view(self.local_albums@);
        let ghost old_ids = self.cached_track_ids.map().dom();
        let ghost old_tq = self.cached_track_qualities.map();
        let found = find_album(&self.local_albums, provider, collection_id);
        match found {
            Some(i) => {
                let ghost keys = list_track_keys(av[i as int]);
                let ghost kseq = av[i as int].tracks.map_values(|t: TrackSummary| track_key_view(t.reference.provider, t.reference.id@));
                let mut ids: TextMap<()> = TextMap::new();
                std::mem::swap(&mut ids, &mut self.cached_track_ids);
                let mut qualities: TextMap<AudioQuality> = TextMap::new();
                std::mem::swap(&mut qualities, &mut self.cached_track_qualities);
                let album = &self.local_albums[i];
                let m = album.tracks.len();
                for j in 0..m
                    invariant
                        m == album.tracks@.len(),
                        album@ == av[i as int],
                        kseq == av[i as int].tracks.map_values(|t: TrackSummary| track_key_view(t.reference.provider, t.reference.id@)),
                        ids.map().dom() == old_ids - kseq.take(j as int).to_set(),
                        qualities.map() == old_tq.remove_keys(kseq.take(j as int).to_set()),
                {
                    let key = track_cache_key(&album.tracks[j]);
                    ids.remove(&key);
                    qualities.remove(&key);
                    proof {
                        let a = kseq.take(j as int);
                        let b = kseq.take(j as int + 1);
                        assert(b =~= a.push(key@));
                        assert forall|x: Seq<char>| b.to_set().contains(x) <==> a.to_set().insert(key@).contains(x) by {
                            if b.contains(x) {
                                let q = choose|q: int| 0 <= q < b.len() && b[q] == x;
                                if q < a.len() { assert(a[q] == b[q]); }
                            }
                            if a.contains(x) {
                                let q = choose|q: int| 0 <= q < a.len() && a[q] == x;
                                assert(b[q] == a[q]);
                            }
                            if x == key@ {
                                assert(b[j as int] == x);
                            }
                        }
                        assert(ids.map().dom() =~= old_ids - b.to_set());
                        assert(qualities.map() =~= old_tq.remove_keys(b.to_set()));
                    }
                }
                proof {
                    assert(kseq.take(m as int) =~= kseq);
                    assert(old_tq.remove_keys(Set::<Seq<char>>::empty()) =~= old_tq);
                }
                self.cached_track_ids = ids;
                self.cached_track_qualities = qualities;
            },
            None => {
                proof {
                    assert(old_ids - Set::<Seq<char>>::empty() =~= old_ids);
                    assert(old_tq.remove_keys(Set::<Seq<char>>::empty()) =~= old_tq);
                }
            },
        }
        self.cached_collection_qualities.remove(&provider_scoped_key(provider, collection_id.as_str()));
    }
}


impl LibraryModule {
    /// Stores an album of a provider album: its old entry goes, and the new
    /// one, if any, joins the albums, sorted by lower-cased title and then
    /// lower-cased subtitle.
    fn upsert_local_album(&mut self, track_list: Option<TrackList>, provider: &ProviderId, collection_id: &String)
        ensures
            albums_after_upsert(old(self)@.albums, opt_list_view(track_list), *provider, collection_id@, final(self)@.albums),
            final(self)@.artists == old(self)@.artists,
            final(self)@.playlists == old(self)@.playlists,
            final(self)@.selected_album == old(self)@.selected_album,
            final(self)@.selected_artist == old(self)@.selected_artist,
            final(self)@.selected_playlist == old(self)@.selected_playlist,
            final(self)@.track_qualities == old(self)@.track_qualities,
            final(self)@.album_qualities == old(self)@.album_qualities,
            final(self)@.cached_ids == old(self)@.cached_ids,
            final(self)@.liked_ids == old(self)@.liked_ids,
    {
        let ghost av = lists_view(self.local_albums@);
        let ghost pred = |l: TrackListView| !is_album_of(l, *provider, collection_id@);
        let mut kept: Vec<TrackList> = Vec::new();
        let n = self.local_albums.len();
        for i in 0..n
            invariant
                n == self.local_albums@.len(),
                av == lists_view(self.local_albums@),
                pred == (|l: TrackListView| !is_album_of(l, *provider, collection_id@)),
                lists_view(kept@) == av.take(i as int).filter(pred),
        {
            proof {
                assert(av.take(i as int + 1).drop_last() =~= av.take(i as int));
                assert(av.take(i as int + 1).last() == self.local_albums@[i as int]@);
                reveal(Seq::filter);
            }
            let l = &self.local_albums[i];
            let same = l.collection.reference.provider.same_as(provider) && l.collection.reference.id == *collection_id;
            if !same {
                let ghost before = kept@;
                kept.push(l.clone());
                proof {
                    assert(lists_view(kept@) =~= lists_view(before).push(self.local_albums@[i as int]@));
                }
            }
        }
        proof {
            assert(av.take(n as int) =~= av);
        }
        match track_list {
            None => {
                self.local_albums = kept;
            },
            Some(list) => {
                let ghost lv = list@;
                kept.push(list);
                let ghost base = lists_view(kept@);
                let m = kept.len();
                let mut keys: Vec<ExecKey> = Vec::new();
                for k in 0..m
                    invariant
                        m == kept@.len(),
                        base == lists_view(kept@),
                        keys@.len() == k,
                        forall|j: int| 0 <= j < k ==> exec_key_view(#[trigger] keys@[j]) == album_key(base[j]),
                {
                    let c = &kept[k].collection;
                    let title = chars_of(to_lowercase(c.title.as_str()).as_str());
                    let subtitle = match &c.subtitle {
                        Some(sub) => chars_of(to_lowercase(sub.as_str()).as_str()),
                        None => chars_of(to_lowercase("").as_str()),
                    };
                    proof {
                        assert(text_or_empty(c.subtitle) == match c.subtitle { Some(sub) => sub@, None => ""@ }) by {
                            reveal_strlit("");
                        }
                    }
                    keys.push(ExecKey { rank: 0, title, provider: subtitle });
                }
                let order = stable_sort_keys(&keys);
                proof {
                    assert(keys@.map_values(|k: ExecKey| exec_key_view(k)) =~= base.map_values(|l: TrackListView| album_key(l)));
                }
                let mut sorted: Vec<TrackList> = Vec::new();
                for k in 0..m
                    invariant
                        m == kept@.len(),
                        base == lists_view(kept@),
                        is_index_permutation(order@, m as nat),
                        sorted@.len() == k,
                        forall|j: int| 0 <= j < k ==> (#[trigger] sorted@[j])@ == base[order@[j] as int],
                {
                    sorted.push(kept[order[k]].clone());
                }
                proof {
                    assert(base =~= av.filter(pred).push(lv));
                    let out = lists_view(sorted@);
                    assert forall|k: int| 0 <= k < out.len() implies #[trigger] out[k] == base[order@[k] as int] by {}
                    assert(is_index_permutation(order@, base.len()));
                }
                self.local_albums = sorted;
            },
        }
    }

    /// Reloads one provider album after its cache changed: the album's
    /// cached state is replaced by the given cached tracks, its stored track
    /// list (kept only while it holds a cached track) replaces its album
    /// entry, the artists are rebuilt and the selections reconciled.
    pub fn refresh_album_collection(
        &mut self,
        provider: ProviderId,
        collection_id: &str,
        cached_tracks: Vec<CachedLibraryTrack>,
        stored_album: Option<TrackList>,
    )
        requires
            cached_in_range(cached_tracks@),
        ensures
            ({
                let removed = removed_keys(old(self)@.albums, provider, collection_id@);
                let restored = match stored_album {
                    Some(l) => if crate::artists::is_cached_album(l@, cached_keys(cached_tracks@)) { Some(l@) } else { None },
                    None => None,
                };
                &&& final(self)@.cached_ids == (old(self)@.cached_ids - removed) + cached_keys(cached_tracks@).to_set()
                &&& final(self)@.track_qualities == old(self)@.track_qualities.remove_keys(removed).union_prefer_right(qualities_map(cached_tracks@))
                &&& album_qualities_updated(
                    old(self)@.album_qualities.remove(track_key_view(provider, collection_id@)),
                    final(self)@.album_qualities,
                    cached_tracks@,
                )
                &&& albums_after_upsert(old(self)@.albums, restored, provider, collection_id@, final(self)@.albums)
                &&& is_local_artist_lists(final(self)@.albums, final(self)@.artists)
                &&& reconciled(final(self)@, old(self)@.selected_album, old(self)@.selected_artist, old(self)@.selected_playlist)
                &&& final(self)@.playlists == old(self)@.playlists
                &&& final(self)@.liked_ids == old(self)@.liked_ids
            }),
    {
        let id = String::from_str(collection_id);
        let keys = cached_key_list(cached_tracks.as_slice());
        self.remove_cached_state_for_collection(&provider, &id);
        self.insert_cached_state(cached_tracks.as_slice());
        let updated = match stored_album {
            Some(list) => {
                let ghost lv = list@;
                let mut one: Vec<TrackList> = Vec::new();
                one.push(list);
                proof {
                    let sv = lists_view(one@);
                    assert(sv =~= seq![lv]);
                    assert(sv.drop_last() =~= Seq::<TrackListView>::empty());
                }
                let mut filtered = filtered_cached_album_track_lists(one, keys.as_slice());
                proof {
                    let sv = seq![lv];
                    let ck = cached_keys(cached_tracks@);
                    assert(sv.drop_last() =~= Seq::<TrackListView>::empty());
                    assert(sv.last() == lv);
                    assert(cached_albums(Seq::<TrackListView>::empty(), ck) == Seq::<TrackListView>::empty());
                    assert(lists_view(filtered@) == cached_albums(sv, ck));
                    if crate::artists::is_cached_album(lv, ck) {
                        assert(cached_albums(sv, ck) =~= seq![lv]);
                    } else {
                        assert(cached_albums(sv, ck) =~= Seq::<TrackListView>::empty());
                    }
                }
                if filtered.len() > 0 {
                    let ghost f0 = filtered@[0]@;
                    let first = filtered.remove(0);
                    proof { assert(first@ == f0); }
                    Some(first)
                } else {
                    None
                }
            },
            None => None,
        };
        self.upsert_local_album(updated, &provider, &id);
        self.local_artists = build_local_artist_lists(self.local_albums.as_slice());
        self.reconcile_local_selections();
    }
}


} // verus!
