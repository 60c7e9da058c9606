//! The rows of a library artist's list, grouped by album, and the subtitle
//! of a playlist track.

use vstd::prelude::*;
use crate::keys::{clock_view, format_duration};
use crate::model::{ProviderId, TrackList, TrackListView, TrackSummary, clone_opt_string, opt_str};
use crate::text::{decimal, u64_to_string};
use crate::rows::{joined, part_separator};
use crate::search::{trimmed, trim_chars};
use crate::text::chars_of;

verus! {

/// A row of an artist's list: the header of an album, or one of its tracks
/// with its index in the list.
#[derive(Debug)]
pub enum ArtistTrackRow {
    AlbumHeader {
        provider: ProviderId,
        collection_id: String,
        album: String,
        artwork_url: Option<String>,
        track_count: usize,
    },
    Track { index: usize, track: TrackSummary },
}

/// A row as a value.
pub enum ArtistRowView {
    AlbumHeader {
        provider: ProviderId,
        collection_id: Seq<char>,
        album: Seq<char>,
        artwork_url: Option<Seq<char>>,
        track_count: nat,
    },
    Track { index: nat, track: TrackSummary },
}

impl View for ArtistTrackRow {
    type V = ArtistRowView;

    open spec fn view(&self) -> ArtistRowView {
        match self {
            ArtistTrackRow::AlbumHeader { provider, collection_id, album, artwork_url, track_count } => ArtistRowView::AlbumHeader {
                provider: *provider,
                collection_id: collection_id@,
                album: album@,
                artwork_url: opt_str(*artwork_url),
                track_count: *track_count as nat,
            },
            ArtistTrackRow::Track { index, track } => ArtistRowView::Track { index: *index as nat, track: *track },
        }
    }
}

/// The album a track is grouped under: its collection, else the track itself.
pub open spec fn group_id(t: TrackSummary) -> Seq<char> {
    match t.collection_id {
        Some(c) => c@,
        None => t.reference.id@,
    }
}

/// Two tracks fall under the same album header.
pub open spec fn same_group(a: TrackSummary, b: TrackSummary) -> bool {
    a.reference.provider.same(b.reference.provider) && group_id(a) == group_id(b)
}

/// The title an album header shows.
pub open spec fn group_title(t: TrackSummary) -> Seq<char> {
    match t.collection_title {
        Some(c) => c@,
        None => match t.album {
            Some(a) => a@,
            None => "Unknown album"@,
        },
    }
}

/// The end of the run of tracks, from `j` on, under the album of track `i`.
pub open spec fn run_end(tracks: Seq<TrackSummary>, i: int, j: int) -> int
    decreases tracks.len() - j,
{
    if j >= tracks.len() || j < 0 {
        tracks.len() as int
    } else if same_group(tracks[i], tracks[j]) {
        run_end(tracks, i, j + 1)
    } else {
        j
    }
}

pub proof fn lemma_run_end_bounds(tracks: Seq<TrackSummary>, i: int, j: int)
    requires
        0 <= j <= tracks.len(),
    ensures
        j <= run_end(tracks, i, j) <= tracks.len(),
    decreases tracks.len() - j,
{
    if j < tracks.len() && same_group(tracks[i], tracks[j]) {
        lemma_run_end_bounds(tracks, i, j + 1);
    }
}

/// The header of the album whose tracks are `i..j`.
pub open spec fn group_header(tracks: Seq<TrackSummary>, i: int, j: int) -> ArtistRowView {
    ArtistRowView::AlbumHeader {
        provider: tracks[i].reference.provider,
        collection_id: group_id(tracks[i]),
        album: group_title(tracks[i]),
        artwork_url: opt_str(tracks[i].artwork_url),
        track_count: (j - i) as nat,
    }
}

/// The track rows of tracks `i..j`.
pub open spec fn track_rows(tracks: Seq<TrackSummary>, i: int, j: int) -> Seq<ArtistRowView> {
    Seq::new((j - i) as nat, |m: int| ArtistRowView::Track { index: (i + m) as nat, track: tracks[i + m] })
}

/// The rows of the tracks from `i` on: each run of consecutive tracks of
/// one album, under a header that counts them and shows the first one's
/// album title and artwork.
pub open spec fn group_rows(tracks: Seq<TrackSummary>, i: int) -> Seq<ArtistRowView>
    decreases tracks.len() - i,
{
    if i < 0 || i >= tracks.len() {
        Seq::empty()
    } else {
        let j = run_end(tracks, i, i + 1);
        if j <= i || j > tracks.len() {
            Seq::empty()
        } else {
            seq![group_header(tracks, i, j)] + track_rows(tracks, i, j) + group_rows(tracks, j)
        }
    }
}

fn same_group_exec(a: &TrackSummary, b: &TrackSummary) -> (r: bool)
    ensures
        r == same_group(*a, *b),
{
    if !a.reference.provider.same_as(&b.reference.provider) {
        return false;
    }
    let ia = match &a.collection_id { Some(c) => c.as_str(), None => a.reference.id.as_str() };
    let ib = match &b.collection_id { Some(c) => c.as_str(), None => b.reference.id.as_str() };
    let ca = chars_of(ia);
    let cb = chars_of(ib);
    crate::textorder::text_equal(ca.as_slice(), cb.as_slice())
}

/// The rows of an artist's list: each run of consecutive tracks of one
/// album under a header.
pub fn artist_group_rows(track_list: &TrackList) -> (r: Vec<ArtistTrackRow>)
    ensures
        r@.map_values(|x: ArtistTrackRow| x@) == group_rows(track_list.tracks@, 0),
{
    let tracks = &track_list.tracks;
    let ghost t = tracks@;
    let n = tracks.len();
    let mut rows: Vec<ArtistTrackRow> = Vec::new();
    let mut i: usize = 0;
    proof {
        assert(rows@.map_values(|x: ArtistTrackRow| x@) + group_rows(t, 0) =~= group_rows(t, 0));
    }
    while i < n
        invariant
            n == t.len(),
            t == tracks@,
            i <= n,
            rows@.map_values(|x: ArtistTrackRow| x@) + group_rows(t, i as int) == group_rows(t, 0),
        decreases n - i,
    {
        let first = &tracks[i];
        let mut j: usize = i + 1;
        while j < n && same_group_exec(first, &tracks[j])
            invariant
                n == t.len(),
                t == tracks@,
                *first == t[i as int],
                i < j <= n,
                run_end(t, i as int, j as int) == run_end(t, i as int, i + 1),
            decreases n - j,
        {
            j += 1;
        }
        proof {
            lemma_run_end_bounds(t, i as int, i + 1);
            assert(run_end(t, i as int, j as int) == j);
        }
        let ghost before = rows@.map_values(|x: ArtistTrackRow| x@);
        let collection_id = match &first.collection_id {
            Some(c) => c.clone(),
            None => first.reference.id.clone(),
        };
        let album = match &first.collection_title {
            Some(c) => c.clone(),
            None => match &first.album {
                Some(a) => a.clone(),
                None => {
                    proof { reveal_strlit("Unknown album"); }
                    String::from_str("Unknown album")
                },
            },
        };
        rows.push(ArtistTrackRow::AlbumHeader {
            provider: first.reference.provider.clone(),
            collection_id,
            album,
            artwork_url: clone_opt_string(&first.artwork_url),
            track_count: j - i,
        });
        proof {
            assert(rows@.map_values(|x: ArtistTrackRow| x@) =~= before + seq![group_header(t, i as int, j as int)]);
        }
        for k in i..j
            invariant
                n == t.len(),
                t == tracks@,
                i < j <= n,
                rows@.map_values(|x: ArtistTrackRow| x@) == before + seq![group_header(t, i as int, j as int)]
                    + track_rows(t, i as int, k as int),
        {
            let ghost prev = rows@;
            let track = tracks[k].clone();
            rows.push(ArtistTrackRow::Track { index: k, track });
            proof {
                assert(rows@ == prev.push(ArtistTrackRow::Track { index: k, track }));
                assert(rows@.map_values(|x: ArtistTrackRow| x@) =~= prev.map_values(|x: ArtistTrackRow| x@).push(
                    ArtistRowView::Track { index: k as nat, track: t[k as int] }));
                assert(track_rows(t, i as int, k + 1) =~= track_rows(t, i as int, k as int).push(
                    ArtistRowView::Track { index: k as nat, track: t[k as int] }));
                assert(rows@.map_values(|x: ArtistTrackRow| x@) =~= before + seq![group_header(t, i as int, j as int)]
                    + track_rows(t, i as int, k + 1));
            }
        }
        proof {
            assert(group_rows(t, i as int) == seq![group_header(t, i as int, j as int)] + track_rows(t, i as int, j as int)
                + group_rows(t, j as int));
            assert(rows@.map_values(|x: ArtistTrackRow| x@) + group_rows(t, j as int)
                =~= before + group_rows(t, i as int));
        }
        i = j;
    }
    proof {
        assert(group_rows(t, n as int) =~= Seq::<ArtistRowView>::empty());
        assert(rows@.map_values(|x: ArtistTrackRow| x@) =~= rows@.map_values(|x: ArtistTrackRow| x@) + group_rows(t, n as int));
    }
    rows
}

/// The clock text of a duration, or dashes when it is unknown.
pub open spec fn duration_text(d: Option<u32>) -> Seq<char> {
    match d {
        Some(t) => clock_view(t as nat),
        None => seq!['-', '-', ':', '-', '-'],
    }
}

/// The artist a playlist track's subtitle names.
pub open spec fn subtitle_artist(t: TrackSummary) -> Seq<char> {
    match t.artist { Some(a) => a@, None => "Unknown artist"@ }
}

/// The album part of a playlist track's subtitle, when it is not blank.
pub open spec fn subtitle_album(t: TrackSummary) -> Seq<Seq<char>> {
    match t.album {
        Some(a) => if trimmed(a@).len() > 0 { seq![a@] } else { Seq::empty() },
        None => Seq::empty(),
    }
}

/// The parts of a playlist track's subtitle: the artist (or "Unknown
/// artist"), the album when it is not blank, and the duration.
pub open spec fn playlist_subtitle_parts(t: TrackSummary) -> Seq<Seq<char>> {
    seq![subtitle_artist(t)] + subtitle_album(t) + seq![duration_text(t.duration_seconds)]
}

/// The subtitle of a track of a playlist.
pub fn playlist_track_subtitle(track: &TrackSummary) -> (r: String)
    ensures
        r@ == joined(playlist_subtitle_parts(*track)),
{
    let ghost parts = playlist_subtitle_parts(*track);
    proof {
        reveal_strlit("  \u{2022}  ");
        reveal_strlit("Unknown artist");
        assert("  \u{2022}  "@ == part_separator());
    }
    let mut out = match &track.artist {
        Some(a) => a.clone(),
        None => String::from_str("Unknown artist"),
    };
    let ghost artist = out@;
    let ghost album_part = subtitle_album(*track);
    assert(artist == subtitle_artist(*track));
    if let Some(album) = &track.album {
        let cs = chars_of(album.as_str());
        let t = trim_chars(cs.as_slice());
        if t.len() > 0 {
            out.append("  \u{2022}  ");
            out.append(album.as_str());
            assert(album_part =~= seq![album@]);
            assert(out@ == artist + part_separator() + album@);
            assert(out@ == joined(seq![artist] + album_part)) by {
                let q = seq![artist] + album_part;
                assert(q =~= seq![artist, album@]);
                assert(q.drop_last() =~= seq![artist]);
                assert(joined(q.drop_last()) == artist);
                assert(q.last() == album@);
                assert(joined(q) == joined(q.drop_last()) + part_separator() + q.last());
            }
        } else {
            assert(album_part =~= Seq::<Seq<char>>::empty());
            assert(seq![artist] + album_part =~= seq![artist]);
        }
    } else {
        assert(seq![artist] + album_part =~= seq![artist]);
    }
    assert(out@ == joined(seq![artist] + album_part));
    let duration = format_duration(track.duration_seconds);
    let ghost head = out@;
    out.append("  \u{2022}  ");
    out.append(duration.as_str());
    proof {
        let d = duration_text(track.duration_seconds);
        assert(duration@ == d);
        assert(parts =~= (seq![artist] + album_part).push(d));
        assert(parts.drop_last() =~= seq![artist] + album_part);
        assert(parts.len() >= 2);
        assert(joined(parts) == joined(parts.drop_last()) + part_separator() + parts.last());
    }
    out
}

/// The subtitle of a track row: its artist (or "Unknown artist") and its
/// length.
pub open spec fn track_row_subtitle_text(t: TrackSummary) -> Seq<char> {
    subtitle_artist(t) + part_separator() + duration_text(t.duration_seconds)
}

/// The subtitle of a track row.
pub fn track_row_subtitle(track: &TrackSummary) -> (r: String)
    ensures
        r@ == track_row_subtitle_text(*track),
{
    proof {
        reveal_strlit("  \u{2022}  ");
        reveal_strlit("Unknown artist");
        assert("  \u{2022}  "@ == part_separator());
    }
    let mut out = match &track.artist {
        Some(a) => a.clone(),
        None => String::from_str("Unknown artist"),
    };
    let duration = format_duration(track.duration_seconds);
    out.append("  \u{2022}  ");
    out.append(duration.as_str());
    out
}

/// The number of tracks a list shows in its header: the collection's
/// count, else the number of tracks it holds.
pub open spec fn shown_track_count(list: TrackListView) -> nat {
    match list.collection.track_count {
        Some(n) => n as nat,
        None => list.tracks.len(),
    }
}

/// The header line of a track list: its kind and its number of tracks.
pub fn collection_meta_line(track_list: &TrackList) -> (r: String)
    ensures
        r@ == track_list.collection.reference.kind.label_view() + "  \u{2022}  "@
            + decimal(shown_track_count(track_list@)) + " track(s)"@,
{
    let count = match track_list.collection.track_count {
        Some(n) => n,
        None => track_list.tracks.len(),
    };
    let mut out = String::from_str(track_list.collection.reference.kind.label());
    out.append("  \u{2022}  ");
    let digits = u64_to_string(count as u64);
    out.append(digits.as_str());
    out.append(" track(s)");
    out
}

/// The header line of an artist's list.
pub fn artist_meta_line(track_list: &TrackList) -> (r: String)
    ensures
        r@ == "Artist  \u{2022}  "@ + decimal(shown_track_count(track_list@)) + " track(s)"@,
{
    let count = match track_list.collection.track_count {
        Some(n) => n,
        None => track_list.tracks.len(),
    };
    let mut out = String::from_str("Artist  \u{2022}  ");
    let digits = u64_to_string(count as u64);
    out.append(digits.as_str());
    out.append(" track(s)");
    out
}

} // verus!
