//! What the browser's rows show besides titles: sidebar metadata, quality
//! badges, provider labels and the artwork of collection collages.

use vstd::prelude::*;
use crate::browse::is_local_artist_list;
use crate::model::{CollectionKind, ProviderId, TrackList, TrackListView, TrackSummary, opt_str};
use crate::quality::{
    AudioQuality, AudioQualityGrade, CollectionQualitySummary, audio_quality_from_track, grade_of_normalized,
    normalized_audio_quality_grade, normalized_quality_spec, quality_in_range, summarize_collection_quality,
    summarize_track_list_quality, summary_of_grades, track_grades, tracks_in_range,
};
use crate::search::{trimmed, trim_chars};
use crate::text::{chars_of, decimal, string_from_chars, u64_to_string};
use crate::textorder::text_equal;

verus! {

/// The colour family of a quality badge; the theme gives each its colour.
#[derive(Clone, Copy, Debug, PartialEq, Eq, Structural)]
pub enum QualityTone {
    Lossless,
    High,
    Standard,
    Low,
    Dim,
}

/// A quality badge.
#[derive(Debug, PartialEq, Eq)]
pub struct QualityMetadata {
    pub label: String,
    pub tone: QualityTone,
}

/// What a row shows on its right: the provider and the quality.
#[derive(Debug, PartialEq, Eq)]
pub struct RowMetadata {
    pub provider_label: Option<String>,
    pub quality: Option<QualityMetadata>,
}

/// The primary line under a sidebar entry: its subtitle, trimmed, unless it
/// is empty or just the kind label, which shows instead.
pub open spec fn primary_metadata(subtitle: Option<Seq<char>>, kind_label: Seq<char>) -> Seq<char> {
    match subtitle {
        Some(s) => if trimmed(s).len() > 0 && trimmed(s) != kind_label { trimmed(s) } else { kind_label },
        None => kind_label,
    }
}

/// The separator between the parts of a secondary line.
pub open spec fn part_separator() -> Seq<char> {
    "  \u{2022}  "@
}

/// The parts of a sidebar entry's secondary line: the kind label when it is
/// requested and differs from the primary line, and the track count.
pub open spec fn secondary_parts(kind_label: Option<Seq<char>>, track_count: Option<usize>, primary: Seq<char>) -> Seq<Seq<char>> {
    let kind_part = match kind_label {
        Some(k) => if primary != k { seq![k] } else { Seq::empty() },
        None => Seq::empty(),
    };
    let count_part = match track_count {
        Some(n) => seq![decimal(n as nat) + " tracks"@],
        None => Seq::empty(),
    };
    kind_part + count_part
}

/// The parts joined by the separator.
pub open spec fn joined(parts: Seq<Seq<char>>) -> Seq<char>
    decreases parts.len(),
{
    if parts.len() == 0 {
        Seq::empty()
    } else if parts.len() == 1 {
        parts[0]
    } else {
        joined(parts.drop_last()) + part_separator() + parts.last()
    }
}

/// The primary line under a sidebar entry.
pub fn sidebar_primary_metadata(subtitle: Option<&str>, kind_label: &str) -> (r: String)
    ensures
        r@ == primary_metadata(match subtitle { Some(s) => Some(s@), None => None }, kind_label@),
{
    match subtitle {
        Some(s) => {
            let chars = chars_of(s);
            let t = trim_chars(chars.as_slice());
            let kind = chars_of(kind_label);
            if t.len() > 0 && !text_equal(t.as_slice(), kind.as_slice()) {
                string_from_chars(t.as_slice())
            } else {
                String::from_str(kind_label)
            }
        },
        None => String::from_str(kind_label),
    }
}

/// The secondary line under a sidebar entry, when it has any part.
pub fn sidebar_secondary_metadata(kind_label: Option<&str>, track_count: Option<usize>, primary_metadata: &str) -> (r: Option<String>)
    ensures
        ({
            let parts = secondary_parts(match kind_label { Some(k) => Some(k@), None => None }, track_count, primary_metadata@);
            match r {
                Some(s) => parts.len() > 0 && s@ == joined(parts),
                None => parts.len() == 0,
            }
        }),
{
    let ghost parts = secondary_parts(match kind_label { Some(k) => Some(k@), None => None }, track_count, primary_metadata@);
    let mut kind_part: Option<String> = None;
    if let Some(k) = kind_label {
        let kc = chars_of(k);
        let pc = chars_of(primary_metadata);
        if !text_equal(pc.as_slice(), kc.as_slice()) {
            kind_part = Some(String::from_str(k));
        }
    }
    let count_part: Option<String> = match track_count {
        Some(n) => {
            let mut part = u64_to_string(n as u64);
            part.append(" tracks");
            Some(part)
        },
        None => None,
    };
    let ghost kind_v = kind_part;
    let ghost count_v = count_part;
    proof {
        let kp = match kind_label {
            Some(k) => if primary_metadata@ != k@ { seq![k@] } else { Seq::<Seq<char>>::empty() },
            None => Seq::<Seq<char>>::empty(),
        };
        let cp = match track_count {
            Some(n) => seq![decimal(n as nat) + " tracks"@],
            None => Seq::<Seq<char>>::empty(),
        };
        assert(parts == kp + cp);
        match (kind_v, count_v) {
            (Some(a), Some(b)) => {
                assert(parts =~= seq![a@, b@]);
                assert(parts.drop_last() =~= seq![a@]);
                assert(joined(seq![a@]) == a@);
                assert(joined(parts) == joined(parts.drop_last()) + part_separator() + parts.last());
                assert(parts.last() == b@);
            },
            (Some(a), None) => {
                assert(parts =~= seq![a@]);
                assert(joined(parts) == a@);
            },
            (None, Some(b)) => {
                assert(parts =~= seq![b@]);
                assert(joined(parts) == b@);
            },
            (None, None) => {
                assert(parts =~= Seq::<Seq<char>>::empty());
            },
        }
    }
    match (kind_part, count_part) {
        (Some(mut a), Some(b)) => {
            a.append("  \u{2022}  ");
            a.append(b.as_str());
            Some(a)
        },
        (Some(a), None) => Some(a),
        (None, Some(b)) => Some(b),
        (None, None) => None,
    }
}

/// The badge tone of a grade.
pub open spec fn grade_tone(g: AudioQualityGrade) -> QualityTone {
    match g {
        AudioQualityGrade::Lossless => QualityTone::Lossless,
        AudioQualityGrade::High => QualityTone::High,
        AudioQualityGrade::Standard => QualityTone::Standard,
        AudioQualityGrade::Low => QualityTone::Low,
    }
}

/// The badge of a grade: its label in its tone.
pub fn quality_metadata_for_grade(grade: AudioQualityGrade) -> (r: QualityMetadata)
    ensures
        r.label@ == grade.label_view(),
        r.tone == grade_tone(grade),
{
    let tone = match grade {
        AudioQualityGrade::Lossless => QualityTone::Lossless,
        AudioQualityGrade::High => QualityTone::High,
        AudioQualityGrade::Standard => QualityTone::Standard,
        AudioQualityGrade::Low => QualityTone::Low,
    };
    QualityMetadata { label: String::from_str(grade.label()), tone }
}

/// The badge of a collection's quality: the grade's badge when uniform,
/// "High / Lossless" in the high tone for that range, otherwise "Mixed" in
/// the dim tone.
pub open spec fn collection_badge(summary: CollectionQualitySummary) -> (Seq<char>, QualityTone) {
    match summary {
        CollectionQualitySummary::Uniform(g) => (g.label_view(), grade_tone(g)),
        CollectionQualitySummary::Range { lowest, highest } =>
            if lowest == AudioQualityGrade::High && highest == AudioQualityGrade::Lossless {
                ("High / Lossless"@, QualityTone::High)
            } else {
                ("Mixed"@, QualityTone::Dim)
            },
    }
}

/// The badge of a collection's quality.
pub fn collection_quality_metadata(summary: &CollectionQualitySummary) -> (r: Option<QualityMetadata>)
    ensures
        r matches Some(m) && m.label@ == collection_badge(*summary).0 && m.tone == collection_badge(*summary).1,
{
    match summary {
        CollectionQualitySummary::Uniform(g) => Some(quality_metadata_for_grade(*g)),
        CollectionQualitySummary::Range { lowest, highest } => {
            if *lowest == AudioQualityGrade::High && *highest == AudioQualityGrade::Lossless {
                Some(QualityMetadata { label: String::from_str("High / Lossless"), tone: QualityTone::High })
            } else {
                Some(QualityMetadata { label: String::from_str("Mixed"), tone: QualityTone::Dim })
            }
        },
    }
}

/// What a row shows on its right, when anything: the provider's short
/// name where it is shown, and the quality badge.
pub fn metadata_label(provider_short_name: &str, quality: Option<QualityMetadata>, show_provider: bool) -> (r: Option<RowMetadata>)
    ensures
        match r {
            Some(m) => (show_provider || quality is Some)
                && (match m.provider_label { Some(l) => show_provider && l@ == provider_short_name@, None => !show_provider })
                && m.quality == quality,
            None => !show_provider && quality is None,
        },
{
    let provider_label = if show_provider { Some(String::from_str(provider_short_name)) } else { None };
    if provider_label.is_none() && quality.is_none() {
        None
    } else {
        Some(RowMetadata { provider_label, quality })
    }
}

/// The tracks of the album with the id.
pub open spec fn album_tracks(tracks: Seq<TrackSummary>, collection_id: Seq<char>) -> Seq<TrackSummary> {
    tracks.filter(|t: TrackSummary| opt_str(t.collection_id) == Some(collection_id))
}

/// What an album row of an artist list shows: the quality of the album's
/// tracks in the list, and the provider where it is not the local library.
pub fn artist_album_metadata(
    provider: &ProviderId,
    provider_short_name: &str,
    tracks: &[TrackSummary],
    collection_id: &str,
) -> (r: Option<RowMetadata>)
    requires
        tracks_in_range(tracks@),
    ensures
        ({
            let summary = summary_of_grades(track_grades(album_tracks(tracks@, collection_id@)));
            let show = !(*provider is Local);
            match r {
                Some(m) => (show || summary is Some)
                    && (match m.provider_label { Some(l) => show && l@ == provider_short_name@, None => !show })
                    && (match (m.quality, summary) {
                        (Some(q), Some(s)) => q.label@ == collection_badge(s).0 && q.tone == collection_badge(s).1,
                        (None, None) => true,
                        _ => false,
                    }),
                None => !show && summary is None,
            }
        }),
{
    let ghost pred = |t: TrackSummary| opt_str(t.collection_id) == Some(collection_id@);
    let id = String::from_str(collection_id);
    let mut album: Vec<TrackSummary> = Vec::new();
    let n = tracks.len();
    for i in 0..n
        invariant
            n == tracks@.len(),
            id@ == collection_id@,
            pred == (|t: TrackSummary| opt_str(t.collection_id) == Some(collection_id@)),
            album@ == tracks@.take(i as int).filter(pred),
    {
        proof {
            assert(tracks@.take(i as int + 1).drop_last() =~= tracks@.take(i as int));
            reveal(Seq::filter);
        }
        let belongs = match &tracks[i].collection_id {
            Some(c) => *c == id,
            None => false,
        };
        if belongs {
            album.push(tracks[i].clone());
        }
    }
    proof {
        assert(tracks@.take(n as int) =~= tracks@);
        assert forall|j: int| 0 <= j < album@.len() implies crate::quality::track_in_range(#[trigger] album@[j]) by {
            let t = album@[j];
            assert(tracks@.filter(pred).contains(t));
            tracks@.lemma_filter_contains_rev(pred, t);
        }
    }
    let quality = match summarize_collection_quality(album.as_slice()) {
        Some(summary) => collection_quality_metadata(&summary),
        None => None,
    };
    let show = match provider {
        ProviderId::Local => false,
        ProviderId::Remote(_) => true,
    };
    metadata_label(provider_short_name, quality, show)
}

/// A playlist of the local library.
pub open spec fn is_local_playlist_list(l: TrackListView) -> bool {
    l.collection.reference.kind == CollectionKind::Playlist && l.collection.reference.provider is Local
}

/// Whether a list is a playlist of the local library.
pub fn is_local_playlist(track_list: &TrackList) -> (r: bool)
    ensures
        r == is_local_playlist_list(track_list@),
{
    track_list.collection.reference.kind == CollectionKind::Playlist
        && track_list.collection.reference.provider.is_local_provider()
}

/// Local playlists and library artists show a collage of artwork.
pub fn supports_artwork_collage(track_list: &TrackList) -> (r: bool)
    ensures
        r == (is_local_playlist_list(track_list@) || is_local_artist_list(track_list@)),
{
    is_local_playlist(track_list) || crate::browse::is_local_artist_track_list(track_list)
}

/// A track's artwork, trimmed, when it has a non-empty one.
pub open spec fn track_artwork(t: TrackSummary) -> Option<Seq<char>> {
    match t.artwork_url {
        Some(a) => if trimmed(a@).len() > 0 { Some(trimmed(a@)) } else { None },
        None => None,
    }
}

/// The tracks' artworks, each once, in the order first seen.
pub open spec fn distinct_artworks(tracks: Seq<TrackSummary>) -> Seq<Seq<char>>
    decreases tracks.len(),
{
    if tracks.len() == 0 {
        Seq::empty()
    } else {
        let r = distinct_artworks(tracks.drop_last());
        match track_artwork(tracks.last()) {
            Some(a) => if r.contains(a) { r } else { r.push(a) },
            None => r,
        }
    }
}

/// At most the first four.
pub open spec fn first_four(s: Seq<Seq<char>>) -> Seq<Seq<char>> {
    if s.len() <= 4 { s } else { s.take(4) }
}

/// The album a track of an artist list belongs to: its collection id, else
/// its collection title, else its own id.
pub open spec fn track_album_key(t: TrackSummary) -> Seq<char> {
    match t.collection_id {
        Some(c) => c@,
        None => match t.collection_title {
            Some(c) => c@,
            None => t.reference.id@,
        },
    }
}

/// Where the walk through an artist's tracks stands: the artworks chosen,
/// the current album and the artwork found for it so far.
pub struct CollageState {
    pub urls: Seq<Seq<char>>,
    pub key: Option<Seq<char>>,
    pub art: Option<Seq<char>>,
}

/// One track of the walk: a new album closes the previous one (keeping its
/// artwork, if found); within an album the first artwork found is kept.
pub open spec fn collage_step(st: CollageState, t: TrackSummary) -> CollageState {
    let k = track_album_key(t);
    if st.key != Some(k) {
        CollageState {
            urls: match st.art { Some(x) => st.urls.push(x), None => st.urls },
            key: Some(k),
            art: track_artwork(t),
        }
    } else {
        CollageState { art: if st.art is None { track_artwork(t) } else { st.art }, ..st }
    }
}

/// The walk over the tracks.
pub open spec fn collage_run(tracks: Seq<TrackSummary>) -> CollageState
    decreases tracks.len(),
{
    if tracks.len() == 0 {
        CollageState { urls: Seq::empty(), key: None, art: None }
    } else {
        collage_step(collage_run(tracks.drop_last()), tracks.last())
    }
}

/// The walk's artworks, the last album's included.
pub open spec fn collage_all(tracks: Seq<TrackSummary>) -> Seq<Seq<char>> {
    let st = collage_run(tracks);
    match st.art { Some(x) => st.urls.push(x), None => st.urls }
}

/// The artworks of a library artist's collage: one per album, at most four.
pub open spec fn artist_collage(tracks: Seq<TrackSummary>) -> Seq<Seq<char>> {
    first_four(collage_all(tracks))
}

/// The artworks of a list's collage.
pub open spec fn collage_of(list: TrackListView) -> Seq<Seq<char>> {
    if is_local_artist_list(list) { artist_collage(list.tracks) } else { first_four(distinct_artworks(list.tracks)) }
}

proof fn lemma_distinct_prefix(s: Seq<TrackSummary>, j: int)
    requires
        0 <= j <= s.len(),
    ensures
        distinct_artworks(s.take(j)).len() <= distinct_artworks(s).len(),
        distinct_artworks(s).take(distinct_artworks(s.take(j)).len() as int) == distinct_artworks(s.take(j)),
    decreases s.len() - j,
{
    if j == s.len() {
        assert(s.take(j) =~= s);
        assert(distinct_artworks(s).take(distinct_artworks(s).len() as int) =~= distinct_artworks(s));
    } else {
        lemma_distinct_prefix(s, j + 1);
        let a = s.take(j);
        let b = s.take(j + 1);
        assert(b.drop_last() =~= a);
        let da = distinct_artworks(a);
        let db = distinct_artworks(b);
        let ds = distinct_artworks(s);
        assert(db.take(da.len() as int) =~= da);
        assert(ds.take(db.len() as int).take(da.len() as int) =~= ds.take(da.len() as int));
    }
}

proof fn lemma_collage_prefix(s: Seq<TrackSummary>, j: int)
    requires
        0 <= j <= s.len(),
    ensures
        collage_run(s.take(j)).urls.len() <= collage_all(s).len(),
        collage_all(s).take(collage_run(s.take(j)).urls.len() as int) == collage_run(s.take(j)).urls,
    decreases s.len() - j,
{
    if j == s.len() {
        assert(s.take(j) =~= s);
        let st = collage_run(s);
        assert(collage_all(s).take(st.urls.len() as int) =~= st.urls);
    } else {
        lemma_collage_prefix(s, j + 1);
        let a = s.take(j);
        let b = s.take(j + 1);
        assert(b.drop_last() =~= a);
        let ua = collage_run(a).urls;
        let ub = collage_run(b).urls;
        let all = collage_all(s);
        assert(ub.take(ua.len() as int) =~= ua);
        assert(all.take(ub.len() as int).take(ua.len() as int) =~= all.take(ua.len() as int));
    }
}

fn trimmed_artwork(t: &TrackSummary) -> (r: Option<String>)
    ensures
        opt_str(r) == track_artwork(*t),
{
    match &t.artwork_url {
        Some(a) => {
            let c = chars_of(a.as_str());
            let tc = trim_chars(c.as_slice());
            if tc.len() > 0 { Some(string_from_chars(tc.as_slice())) } else { None }
        },
        None => None,
    }
}

fn contains_string(v: &Vec<String>, x: &String) -> (r: bool)
    ensures
        r == v@.map_values(|s: String| s@).contains(x@),
{
    let ghost vv = v@.map_values(|s: String| s@);
    let n = v.len();
    for i in 0..n
        invariant
            n == v@.len(),
            vv == v@.map_values(|s: String| s@),
            forall|j: int| 0 <= j < i ==> vv[j] != x@,
    {
        if v[i] == *x {
            assert(vv[i as int] == x@);
            return true;
        }
    }
    false
}

/// The artworks of a library artist's collage: one per album, at most four.
pub fn artist_album_collage_urls(track_list: &TrackList) -> (r: Vec<String>)
    ensures
        r@.map_values(|s: String| s@) == artist_collage(track_list@.tracks),
{
    let ghost tracks = track_list.tracks@;
    let mut urls: Vec<String> = Vec::new();
    let mut current_key: Option<String> = None;
    let mut current_art: Option<String> = None;
    let n = track_list.tracks.len();
    for i in 0..n
        invariant
            n == tracks.len(),
            tracks == track_list.tracks@,
            urls@.map_values(|s: String| s@) == collage_run(tracks.take(i as int)).urls,
            opt_str(current_key) == collage_run(tracks.take(i as int)).key,
            opt_str(current_art) == collage_run(tracks.take(i as int)).art,
            urls@.len() < 4,
    {
        let t = &track_list.tracks[i];
        let key = match &t.collection_id {
            Some(c) => c.clone(),
            None => match &t.collection_title {
                Some(c) => c.clone(),
                None => t.reference.id.clone(),
            },
        };
        let art = trimmed_artwork(t);
        proof {
            assert(tracks.take(i as int + 1).drop_last() =~= tracks.take(i as int));
            assert(tracks.take(i as int + 1).last() == tracks[i as int]);
        }
        let same = match &current_key {
            Some(k) => *k == key,
            None => false,
        };
        if !same {
            let ghost before = urls@;
            if let Some(a) = current_art {
                urls.push(a);
                proof {
                    assert(urls@.map_values(|s: String| s@) =~= before.map_values(|s: String| s@).push(a@));
                }
                if urls.len() == 4 {
                    proof {
                        lemma_collage_prefix(tracks, i as int + 1);
                        let u = collage_run(tracks.take(i as int + 1)).urls;
                        assert(u.len() == 4);
                        assert(first_four(collage_all(tracks)) =~= collage_all(tracks).take(4));
                    }
                    return urls;
                }
            }
            current_key = Some(key);
            current_art = art;
        } else if current_art.is_none() {
            current_art = art;
        }
    }
    proof {
        assert(tracks.take(n as int) =~= tracks);
    }
    if let Some(a) = current_art {
        let ghost before = urls@;
        urls.push(a);
        proof {
            assert(urls@.map_values(|s: String| s@) =~= before.map_values(|s: String| s@).push(a@));
        }
    }
    proof {
        assert(urls@.len() <= 4);
        assert(first_four(collage_all(tracks)) == collage_all(tracks));
    }
    urls
}

/// The artworks of a list's collage: for a library artist one per album,
/// otherwise the distinct artworks of the tracks; at most four.
pub fn artwork_collage_urls(track_list: &TrackList) -> (r: Vec<String>)
    ensures
        r@.map_values(|s: String| s@) == collage_of(track_list@),
{
    if crate::browse::is_local_artist_track_list(track_list) {
        return artist_album_collage_urls(track_list);
    }
    let ghost tracks = track_list.tracks@;
    let mut urls: Vec<String> = Vec::new();
    let n = track_list.tracks.len();
    for i in 0..n
        invariant
            n == tracks.len(),
            tracks == track_list.tracks@,
            urls@.map_values(|s: String| s@) == distinct_artworks(tracks.take(i as int)),
            urls@.len() < 4,
            !is_local_artist_list(track_list@),
    {
        proof {
            assert(tracks.take(i as int + 1).drop_last() =~= tracks.take(i as int));
            assert(tracks.take(i as int + 1).last() == tracks[i as int]);
        }
        if let Some(a) = trimmed_artwork(&track_list.tracks[i]) {
            if !contains_string(&urls, &a) {
                let ghost before = urls@;
                urls.push(a);
                proof {
                    assert(urls@.map_values(|s: String| s@) =~= before.map_values(|s: String| s@).push(a@));
                }
                if urls.len() == 4 {
                    proof {
                        lemma_distinct_prefix(tracks, i as int + 1);
                        assert(first_four(distinct_artworks(tracks)) =~= distinct_artworks(tracks).take(4));
                    }
                    return urls;
                }
            }
        }
    }
    proof {
        assert(tracks.take(n as int) =~= tracks);
    }
    urls
}


/// The grade of a quality, when it can be graded.
pub open spec fn quality_grade(q: AudioQuality) -> Option<AudioQualityGrade> {
    match normalized_quality_spec(q) {
        Some(n) => grade_of_normalized(n),
        None => None,
    }
}

/// Whether a track row shows its own grade: when it has one and the
/// collection's quality is unknown, a different single grade, or a range.
pub open spec fn shows_track_grade(track_grade: Option<AudioQualityGrade>, collection: Option<CollectionQualitySummary>) -> bool {
    match (track_grade, collection) {
        (None, _) => false,
        (Some(_), None) => true,
        (Some(t), Some(CollectionQualitySummary::Uniform(c))) => t != c,
        (Some(_), Some(CollectionQualitySummary::Range { .. })) => true,
    }
}

/// The quality known of a track: the library's record, else its summary's.
pub open spec fn known_track_quality(recorded: Option<AudioQuality>, t: TrackSummary) -> Option<AudioQuality> {
    match recorded {
        Some(q) => Some(q),
        None => if t.audio_format is None && t.bitrate_bps is None {
            None
        } else {
            Some(AudioQuality { audio_format: t.audio_format, bitrate_bps: t.bitrate_bps })
        },
    }
}

/// What a track row in a collection shows on its right: its grade where it
/// tells something the collection's badge does not, and its provider's
/// short name where that differs from the collection's. `recorded` is the
/// quality the library recorded for the track, if any.
pub fn track_metadata_for_collection(
    track: &TrackSummary,
    collection_provider: &ProviderId,
    collection_quality: Option<&CollectionQualitySummary>,
    recorded: Option<AudioQuality>,
    provider_short_name: &str,
) -> (r: Option<RowMetadata>)
    requires
        recorded matches Some(q) ==> quality_in_range(q),
        track.bitrate_bps matches Some(b) ==> crate::quality::bitrate_in_range(b),
    ensures
        ({
            let grade = match known_track_quality(recorded, *track) { Some(q) => quality_grade(q), None => None };
            let shown = shows_track_grade(grade, match collection_quality { Some(c) => Some(*c), None => None });
            let show_provider = !track.reference.provider.same(*collection_provider);
            match r {
                Some(m) => (show_provider || shown)
                    && (match m.provider_label { Some(l) => show_provider && l@ == provider_short_name@, None => !show_provider })
                    && (match m.quality {
                        Some(b) => shown && b.label@ == grade.unwrap().label_view() && b.tone == grade_tone(grade.unwrap()),
                        None => !shown,
                    }),
                None => !show_provider && !shown,
            }
        }),
{
    let known = match recorded {
        Some(q) => Some(q),
        None => audio_quality_from_track(track),
    };
    let grade = match &known {
        Some(q) => normalized_audio_quality_grade(q),
        None => None,
    };
    let shown = match (grade, collection_quality) {
        (None, _) => false,
        (Some(_), None) => true,
        (Some(t), Some(CollectionQualitySummary::Uniform(c))) => t != *c,
        (Some(_), Some(CollectionQualitySummary::Range { .. })) => true,
    };
    let quality = if shown {
        match grade {
            Some(g) => Some(quality_metadata_for_grade(g)),
            None => None,
        }
    } else {
        None
    };
    let show_provider = !track.reference.provider.same_as(collection_provider);
    metadata_label(provider_short_name, quality, show_provider)
}

/// The provider a list's metadata names: that of its first track, else the
/// collection's.
pub fn track_list_metadata_provider(track_list: &TrackList) -> (r: &ProviderId)
    ensures
        *r == if track_list.tracks@.len() > 0 {
            track_list.tracks@[0].reference.provider
        } else {
            track_list.collection.reference.provider
        },
{
    if track_list.tracks.len() > 0 { &track_list.tracks[0].reference.provider } else { &track_list.collection.reference.provider }
}

/// What a list's row shows on its right: the badge of the quality the
/// library recorded for the collection (else of its tracks' summary), and
/// the provider's short name unless the list is from the local library.
/// `provider_short_name` names `track_list_metadata_provider(track_list)`.
pub fn track_list_metadata(
    track_list: &TrackList,
    recorded: Option<CollectionQualitySummary>,
    provider_short_name: &str,
) -> (r: Option<RowMetadata>)
    requires
        tracks_in_range(track_list.tracks@),
    ensures
        ({
            let summary = match recorded { Some(s) => Some(s), None => summary_of_grades(track_grades(track_list.tracks@)) };
            let provider = if track_list.tracks@.len() > 0 {
                track_list.tracks@[0].reference.provider
            } else {
                track_list.collection.reference.provider
            };
            let show_provider = !(provider is Local);
            match r {
                Some(m) => (show_provider || summary is Some)
                    && (match m.provider_label { Some(l) => show_provider && l@ == provider_short_name@, None => !show_provider })
                    && (match m.quality {
                        Some(b) => summary is Some && b.label@ == collection_badge(summary.unwrap()).0
                            && b.tone == collection_badge(summary.unwrap()).1,
                        None => summary is None,
                    }),
                None => !show_provider && summary is None,
            }
        }),
{
    let summary = match recorded {
        Some(s) => Some(s),
        None => summarize_track_list_quality(track_list),
    };
    let quality = match &summary {
        Some(s) => collection_quality_metadata(s),
        None => None,
    };
    let provider = track_list_metadata_provider(track_list);
    metadata_label(provider_short_name, quality, !provider.is_local_provider())
}

/// What a collection's row shows on its right: its provider's short name,
/// and the badge of the quality the library recorded for it, if any.
pub fn collection_metadata(recorded: Option<CollectionQualitySummary>, provider_short_name: &str) -> (r: Option<RowMetadata>)
    ensures
        r matches Some(m) && (m.provider_label matches Some(l) && l@ == provider_short_name@) && match recorded {
            Some(s) => m.quality matches Some(b) && b.label@ == collection_badge(s).0 && b.tone == collection_badge(s).1,
            None => m.quality is None,
        },
{
    let quality = match &recorded {
        Some(s) => collection_quality_metadata(s),
        None => None,
    };
    metadata_label(provider_short_name, quality, true)
}

} // verus!
