//! The text fields of an import review: one for each field of each file
//! whose metadata is entered by hand.

use vstd::prelude::*;
use crate::textinput::{ImportMetadataField, TextInputState, TextInputView, end_view};
use crate::textorder::str_equal;

verus! {

/// What a file's manual entry holds, field by field.
pub struct ManualMetadata {
    pub title: String,
    pub artist: String,
    pub album: String,
    pub album_artist: String,
    pub disc_number: String,
    pub track_number: String,
}

/// What the review's text fields read of one file: its path, whether its
/// metadata is entered by hand, whether it is skipped, and the entry.
pub struct ManualEntryTrack {
    pub source_path: String,
    pub manual_mode: bool,
    pub skipped: bool,
    pub manual_metadata: ManualMetadata,
}

/// The text of one field of a manual entry.
pub open spec fn field_text(m: ManualMetadata, f: ImportMetadataField) -> Seq<char> {
    match f {
        ImportMetadataField::Title => m.title@,
        ImportMetadataField::Artist => m.artist@,
        ImportMetadataField::Album => m.album@,
        ImportMetadataField::AlbumArtist => m.album_artist@,
        ImportMetadataField::DiscNumber => m.disc_number@,
        ImportMetadataField::TrackNumber => m.track_number@,
    }
}

/// The fields of a manual entry, in the order the review shows them.
pub open spec fn entry_fields() -> Seq<ImportMetadataField> {
    seq![
        ImportMetadataField::Title,
        ImportMetadataField::Artist,
        ImportMetadataField::Album,
        ImportMetadataField::AlbumArtist,
        ImportMetadataField::DiscNumber,
        ImportMetadataField::TrackNumber,
    ]
}

/// The fields a file asks for, keyed by its path and the field, each with
/// the entry's text: all six for a file entered by hand and not skipped,
/// none otherwise.
pub open spec fn track_inputs(t: ManualEntryTrack) -> Seq<((Seq<char>, ImportMetadataField), Seq<char>)> {
    if t.manual_mode && !t.skipped {
        entry_fields().map_values(|f: ImportMetadataField| ((t.source_path@, f), field_text(t.manual_metadata, f)))
    } else {
        Seq::empty()
    }
}

/// The fields an album's files ask for, file by file.
pub open spec fn album_inputs(tracks: Seq<ManualEntryTrack>) -> Seq<((Seq<char>, ImportMetadataField), Seq<char>)>
    decreases tracks.len(),
{
    if tracks.len() == 0 {
        Seq::empty()
    } else {
        album_inputs(tracks.drop_last()) + track_inputs(tracks.last())
    }
}

/// The fields a review's albums ask for, album by album.
pub open spec fn review_inputs(albums: Seq<Seq<ManualEntryTrack>>) -> Seq<((Seq<char>, ImportMetadataField), Seq<char>)>
    decreases albums.len(),
{
    if albums.len() == 0 {
        Seq::empty()
    } else {
        review_inputs(albums.drop_last()) + album_inputs(albums.last())
    }
}

/// The albums of a review as sequences of files.
pub open spec fn albums_view(albums: Seq<Vec<ManualEntryTrack>>) -> Seq<Seq<ManualEntryTrack>> {
    albums.map_values(|a: Vec<ManualEntryTrack>| a@)
}

/// The value first given for a key in a sequence of pairs.
pub open spec fn first_for<K, V>(s: Seq<(K, V)>, k: K) -> Option<V>
    decreases s.len(),
{
    if s.len() == 0 {
        None
    } else {
        match first_for(s.drop_last(), k) {
            Some(v) => Some(v),
            None => if s.last().0 == k { Some(s.last().1) } else { None },
        }
    }
}

/// A sequence of pairs read as a map: each key to the value first given
/// for it.
pub open spec fn as_map<K, V>(s: Seq<(K, V)>) -> Map<K, V> {
    Map::new(|k: K| first_for(s, k) is Some, |k: K| first_for(s, k)->0)
}

/// The fields after a refresh: those the review asks for; a field that was
/// there keeps its state, a new one holds its entry's text with the cursor
/// at the end.
pub open spec fn synced(
    old: Map<(Seq<char>, ImportMetadataField), TextInputView>,
    desired: Seq<((Seq<char>, ImportMetadataField), Seq<char>)>,
) -> Map<(Seq<char>, ImportMetadataField), TextInputView> {
    Map::new(
        |k: (Seq<char>, ImportMetadataField)| first_for(desired, k) is Some,
        |k: (Seq<char>, ImportMetadataField)| if old.contains_key(k) {
            old[k]
        } else {
            end_view(first_for(desired, k)->0)
        },
    )
}

/// Refreshing the fields twice from the same review is refreshing them
/// once: the second refresh keeps every field as the first left it.
pub proof fn lemma_sync_idempotent(
    old: Map<(Seq<char>, ImportMetadataField), TextInputView>,
    desired: Seq<((Seq<char>, ImportMetadataField), Seq<char>)>,
)
    ensures
        synced(synced(old, desired), desired) == synced(old, desired),
{
    assert(synced(synced(old, desired), desired) =~= synced(old, desired));
}

/// A field the review no longer asks for is gone after a refresh, and one
/// it asks for is there.
pub proof fn lemma_sync_keys(
    old: Map<(Seq<char>, ImportMetadataField), TextInputView>,
    desired: Seq<((Seq<char>, ImportMetadataField), Seq<char>)>,
    k: (Seq<char>, ImportMetadataField),
)
    ensures
        synced(old, desired).contains_key(k) <==> exists|i: int| 0 <= i < desired.len() && #[trigger] desired[i].0 == k,
{
    lemma_first_for_none(desired, k);
}

/// Appending a pair changes only the value of a key that had none.
pub proof fn lemma_first_for_push<K, V>(s: Seq<(K, V)>, e: (K, V), k: K)
    ensures
        first_for(s.push(e), k) == match first_for(s, k) {
            Some(v) => Some(v),
            None => if e.0 == k { Some(e.1) } else { None },
        },
{
    assert(s.push(e).drop_last() =~= s);
}

/// A key has no value exactly when no pair has it.
pub proof fn lemma_first_for_none<K, V>(s: Seq<(K, V)>, k: K)
    ensures
        first_for(s, k) is None <==> forall|i: int| 0 <= i < s.len() ==> #[trigger] s[i].0 != k,
    decreases s.len(),
{
    if s.len() > 0 {
        let rest = s.drop_last();
        lemma_first_for_none(rest, k);
        assert forall|i: int| 0 <= i < rest.len() implies #[trigger] rest[i] == s[i] by {}
        if first_for(s, k) is None {
            assert forall|i: int| 0 <= i < s.len() implies #[trigger] s[i].0 != k by {
                if i < rest.len() {
                    assert(rest[i] == s[i]);
                }
            }
        } else if forall|i: int| 0 <= i < s.len() ==> #[trigger] s[i].0 != k {
            assert forall|i: int| 0 <= i < rest.len() implies #[trigger] rest[i].0 != k by {
                assert(rest[i] == s[i]);
            }
            assert(s.last() == s[s.len() - 1]);
        }
    }
}

/// The first pair with a key gives its value.
pub proof fn lemma_first_for_at<K, V>(s: Seq<(K, V)>, k: K, i: int)
    requires
        0 <= i < s.len(),
        s[i].0 == k,
        forall|j: int| 0 <= j < i ==> #[trigger] s[j].0 != k,
    ensures
        first_for(s, k) == Some(s[i].1),
    decreases s.len(),
{
    let rest = s.drop_last();
    if i < s.len() - 1 {
        assert forall|j: int| 0 <= j < i implies #[trigger] rest[j].0 != k by {
            assert(rest[j] == s[j]);
        }
        assert(rest[i] == s[i]);
        lemma_first_for_at(rest, k, i);
    } else {
        assert forall|j: int| 0 <= j < rest.len() implies #[trigger] rest[j].0 != k by {
            assert(rest[j] == s[j]);
        }
        lemma_first_for_none(rest, k);
    }
}

/// A key given a value in a prefix keeps that value in the whole.
pub proof fn lemma_first_for_prefix<K, V>(s: Seq<(K, V)>, n: int, k: K)
    requires
        0 <= n <= s.len(),
        first_for(s.take(n), k) is Some,
    ensures
        first_for(s, k) == first_for(s.take(n), k),
    decreases s.len() - n,
{
    if n < s.len() {
        assert(s.take(n + 1) =~= s.take(n).push(s[n]));
        lemma_first_for_push(s.take(n), s[n], k);
        lemma_first_for_prefix(s, n + 1, k);
    } else {
        assert(s.take(n) =~= s);
    }
}

/// The fields a file asks for, as owned triples of path, field and text.
fn push_track_inputs(out: &mut Vec<(String, ImportMetadataField, String)>, t: &ManualEntryTrack)
    ensures
        final(out)@.map_values(|e: (String, ImportMetadataField, String)| ((e.0@, e.1), e.2@))
            == old(out)@.map_values(|e: (String, ImportMetadataField, String)| ((e.0@, e.1), e.2@)) + track_inputs(*t),
{
    let ghost before = old(out)@.map_values(|e: (String, ImportMetadataField, String)| ((e.0@, e.1), e.2@));
    if t.manual_mode && !t.skipped {
        let m = &t.manual_metadata;
        out.push((t.source_path.clone(), ImportMetadataField::Title, m.title.clone()));
        out.push((t.source_path.clone(), ImportMetadataField::Artist, m.artist.clone()));
        out.push((t.source_path.clone(), ImportMetadataField::Album, m.album.clone()));
        out.push((t.source_path.clone(), ImportMetadataField::AlbumArtist, m.album_artist.clone()));
        out.push((t.source_path.clone(), ImportMetadataField::DiscNumber, m.disc_number.clone()));
        out.push((t.source_path.clone(), ImportMetadataField::TrackNumber, m.track_number.clone()));
        proof {
            let after = out@.map_values(|e: (String, ImportMetadataField, String)| ((e.0@, e.1), e.2@));
            assert(after =~= before + track_inputs(*t));
        }
    } else {
        proof {
            let after = out@.map_values(|e: (String, ImportMetadataField, String)| ((e.0@, e.1), e.2@));
            assert(after =~= before + track_inputs(*t));
        }
    }
}

/// The fields a review's albums ask for, in order, as owned triples.
pub fn desired_review_inputs(albums: &[Vec<ManualEntryTrack>]) -> (r: Vec<(String, ImportMetadataField, String)>)
    ensures
        r@.map_values(|e: (String, ImportMetadataField, String)| ((e.0@, e.1), e.2@)) == review_inputs(albums_view(albums@)),
{
    let mut out: Vec<(String, ImportMetadataField, String)> = Vec::new();
    let ghost av = albums_view(albums@);
    for a in 0..albums.len()
        invariant
            av == albums_view(albums@),
            out@.map_values(|e: (String, ImportMetadataField, String)| ((e.0@, e.1), e.2@)) == review_inputs(av.take(a as int)),
    {
        let tracks = &albums[a];
        let ghost start = out@.map_values(|e: (String, ImportMetadataField, String)| ((e.0@, e.1), e.2@));
        for t in 0..tracks.len()
            invariant
                tracks@ == av[a as int],
                out@.map_values(|e: (String, ImportMetadataField, String)| ((e.0@, e.1), e.2@))
                    == start + album_inputs(tracks@.take(t as int)),
        {
            push_track_inputs(&mut out, &tracks[t]);
            proof {
                assert(tracks@.take(t as int + 1).drop_last() =~= tracks@.take(t as int));
                assert(tracks@.take(t as int + 1).last() == tracks@[t as int]);
                assert(start + album_inputs(tracks@.take(t as int)) + track_inputs(tracks@[t as int])
                    =~= start + (album_inputs(tracks@.take(t as int)) + track_inputs(tracks@[t as int])));
            }
        }
        proof {
            assert(tracks@.take(tracks@.len() as int) =~= tracks@);
            assert(av.take(a as int + 1).drop_last() =~= av.take(a as int));
            assert(av.take(a as int + 1).last() == av[a as int]);
        }
    }
    proof { assert(av.take(albums@.len() as int) =~= av); }
    out
}

/// One text field of the review.
pub struct ReviewInputEntry {
    pub source_path: String,
    pub field: ImportMetadataField,
    pub state: TextInputState,
}

/// The text fields of an import review, keyed by the file's path and the
/// field.
pub struct ImportReviewInputs {
    entries: Vec<ReviewInputEntry>,
}

/// The entries as pairs of key and field state.
pub open spec fn entries_view(entries: Seq<ReviewInputEntry>) -> Seq<((Seq<char>, ImportMetadataField), TextInputView)> {
    entries.map_values(|e: ReviewInputEntry| ((e.source_path@, e.field), e.state@))
}

/// The triples as pairs of key and text.
pub open spec fn desired_view(d: Seq<(String, ImportMetadataField, String)>) -> Seq<((Seq<char>, ImportMetadataField), Seq<char>)> {
    d.map_values(|e: (String, ImportMetadataField, String)| ((e.0@, e.1), e.2@))
}

impl View for ImportReviewInputs {
    type V = Map<(Seq<char>, ImportMetadataField), TextInputView>;

    closed spec fn view(&self) -> Self::V {
        as_map(entries_view(self.entries@))
    }
}

/// The index of the first entry with a key.
fn find_entry(entries: &Vec<ReviewInputEntry>, path: &str, field: ImportMetadataField) -> (r: Option<usize>)
    ensures
        match r {
            Some(i) => i < entries@.len() && entries@[i as int].source_path@ == path@
                && entries@[i as int].field == field
                && first_for(entries_view(entries@), (path@, field)) == Some(entries@[i as int].state@)
                && forall|j: int| 0 <= j < i ==> #[trigger] entries_view(entries@)[j].0 != (path@, field),
            None => first_for(entries_view(entries@), (path@, field)) is None,
        },
{
    let ghost s = entries_view(entries@);
    let ghost k = (path@, field);
    for i in 0..entries.len()
        invariant
            s == entries_view(entries@),
            k == (path@, field),
            forall|j: int| 0 <= j < i ==> #[trigger] s[j].0 != k,
    {
        if entries[i].field == field && str_equal(entries[i].source_path.as_str(), path) {
            proof { lemma_first_for_at(s, k, i as int); }
            return Some(i);
        }
    }
    proof { lemma_first_for_none(s, k); }
    None
}

/// Whether some triple has a key.
fn desired_has(desired: &Vec<(String, ImportMetadataField, String)>, path: &str, field: ImportMetadataField) -> (r: bool)
    ensures
        r == (first_for(desired_view(desired@), (path@, field)) is Some),
{
    let ghost s = desired_view(desired@);
    let ghost k = (path@, field);
    for i in 0..desired.len()
        invariant
            s == desired_view(desired@),
            k == (path@, field),
            forall|j: int| 0 <= j < i ==> #[trigger] s[j].0 != k,
    {
        if desired[i].1 == field && str_equal(desired[i].0.as_str(), path) {
            proof { assert(s[i as int].0 == k); lemma_first_for_none(s, k); }
            return true;
        }
    }
    proof { lemma_first_for_none(s, k); }
    false
}

impl ImportReviewInputs {
    /// No fields.
    pub fn new() -> (r: Self)
        ensures
            r@ == Map::<(Seq<char>, ImportMetadataField), TextInputView>::empty(),
    {
        let r = ImportReviewInputs { entries: Vec::new() };
        proof { assert(r@ =~= Map::<(Seq<char>, ImportMetadataField), TextInputView>::empty()); }
        r
    }

    /// The field of a file, if the review has it.
    pub fn get(&self, source_path: &str, field: ImportMetadataField) -> (r: Option<&TextInputState>)
        ensures
            match r {
                Some(s) => self@.contains_key((source_path@, field)) && s@ == self@[(source_path@, field)],
                None => !self@.contains_key((source_path@, field)),
            },
    {
        match find_entry(&self.entries, source_path, field) {
            Some(i) => Some(&self.entries[i].state),
            None => None,
        }
    }

    /// Replaces the state of a field the review has; a field it does not
    /// have is left out.
    pub fn replace(&mut self, source_path: &str, field: ImportMetadataField, state: TextInputState) -> (r: bool)
        ensures
            r == old(self)@.contains_key((source_path@, field)),
            final(self)@ == if r { old(self)@.insert((source_path@, field), state@) } else { old(self)@ },
    {
        let ghost k = (source_path@, field);
        let ghost s = entries_view(self.entries@);
        match find_entry(&self.entries, source_path, field) {
            None => false,
            Some(i) => {
                let mut rebuilt: Vec<ReviewInputEntry> = Vec::new();
                let n = self.entries.len();
                let mut state = Some(state);
                let ghost sv = state->0@;
                for j in 0..n
                    invariant
                        n == self.entries@.len(),
                        s == entries_view(self.entries@),
                        i < n,
                        s[i as int].0 == k,
                        forall|x: int| 0 <= x < i ==> #[trigger] s[x].0 != k,
                        j <= i ==> state == Some(state->0) && state->0@ == sv,
                        forall|q: (Seq<char>, ImportMetadataField)| #[trigger] first_for(entries_view(rebuilt@), q)
                            == if q == k && j > i { Some(sv) } else { first_for(s.take(j as int), q) },
                {
                    let e = &self.entries[j];
                    let entry = if j == i {
                        let taken = state.take();
                        match taken {
                            Some(st) => ReviewInputEntry { source_path: e.source_path.clone(), field: e.field, state: st },
                            None => ReviewInputEntry { source_path: e.source_path.clone(), field: e.field, state: e.state.clone() },
                        }
                    } else {
                        ReviewInputEntry { source_path: e.source_path.clone(), field: e.field, state: e.state.clone() }
                    };
                    let ghost before = entries_view(rebuilt@);
                    rebuilt.push(entry);
                    proof {
                        let last = entries_view(rebuilt@).last();
                        assert(last == if j == i { (s[j as int].0, sv) } else { s[j as int] });
                        assert(entries_view(rebuilt@) =~= before.push(last));
                        assert(s.take(j as int + 1) =~= s.take(j as int).push(s[j as int]));
                        if j <= i {
                            assert forall|x: int| 0 <= x < j implies #[trigger] s.take(j as int)[x].0 != k by {
                                assert(s.take(j as int)[x] == s[x]);
                            }
                            lemma_first_for_none(s.take(j as int), k);
                        }
                        assert forall|q: (Seq<char>, ImportMetadataField)| #[trigger] first_for(entries_view(rebuilt@), q)
                            == if q == k && j + 1 > i { Some(sv) } else { first_for(s.take(j as int + 1), q) } by {
                            lemma_first_for_push(before, last, q);
                            lemma_first_for_push(s.take(j as int), s[j as int], q);
                        }
                    }
                }
                proof {
                    assert(s.take(n as int) =~= s);
                    assert(entries_view(rebuilt@) == entries_view(rebuilt@));
                }
                self.entries = rebuilt;
                proof {
                    assert(self@ =~= old(self)@.insert(k, sv));
                }
                true
            },
        }
    }

    /// Brings the fields in line with a review's albums: a field the review
    /// no longer asks for goes, one it asks for and had keeps its state, and
    /// a new one holds the entry's text with the cursor at the end. With no
    /// albums, every field goes.
    pub fn sync(&mut self, albums: &[Vec<ManualEntryTrack>])
        ensures
            final(self)@ == synced(old(self)@, review_inputs(albums_view(albums@))),
    {
        let desired = desired_review_inputs(albums);
        let ghost d = desired_view(desired@);
        let ghost s = entries_view(self.entries@);
        let mut kept: Vec<ReviewInputEntry> = Vec::new();
        let n = self.entries.len();
        for j in 0..n
            invariant
                n == self.entries@.len(),
                s == entries_view(self.entries@),
                d == desired_view(desired@),
                forall|q: (Seq<char>, ImportMetadataField)| #[trigger] first_for(entries_view(kept@), q)
                    == if first_for(d, q) is Some { first_for(s.take(j as int), q) } else { None },
        {
            let e = &self.entries[j];
            let ghost before = entries_view(kept@);
            if desired_has(&desired, e.source_path.as_str(), e.field) {
                kept.push(ReviewInputEntry { source_path: e.source_path.clone(), field: e.field, state: e.state.clone() });
                proof {
                    assert(entries_view(kept@) =~= before.push(s[j as int]));
                }
            }
            proof {
                assert(s.take(j as int + 1) =~= s.take(j as int).push(s[j as int]));
                assert forall|q: (Seq<char>, ImportMetadataField)| #[trigger] first_for(entries_view(kept@), q)
                    == if first_for(d, q) is Some { first_for(s.take(j as int + 1), q) } else { None } by {
                    lemma_first_for_push(before, s[j as int], q);
                    lemma_first_for_push(s.take(j as int), s[j as int], q);
                }
            }
        }
        proof { assert(s.take(n as int) =~= s); }
        let m = desired.len();
        for j in 0..m
            invariant
                m == desired@.len(),
                d == desired_view(desired@),
                forall|q: (Seq<char>, ImportMetadataField)| #[trigger] first_for(entries_view(kept@), q)
                    == if first_for(d, q) is Some && first_for(s, q) is Some {
                        first_for(s, q)
                    } else if first_for(d.take(j as int), q) is Some {
                        Some(end_view(first_for(d.take(j as int), q)->0))
                    } else {
                        None
                    },
        {
            let entry = &desired[j];
            let ghost before = entries_view(kept@);
            let ghost q0 = d[j as int].0;
            match find_entry(&kept, entry.0.as_str(), entry.1) {
                Some(_) => {},
                None => {
                    let st = TextInputState::at_end(entry.2.clone());
                    kept.push(ReviewInputEntry { source_path: entry.0.clone(), field: entry.1, state: st });
                    proof {
                        assert(entries_view(kept@) =~= before.push((q0, end_view(d[j as int].1))));
                    }
                },
            }
            proof {
                assert(d.take(j as int + 1) =~= d.take(j as int).push(d[j as int]));
                assert forall|q: (Seq<char>, ImportMetadataField)| #[trigger] first_for(entries_view(kept@), q)
                    == if first_for(d, q) is Some && first_for(s, q) is Some {
                        first_for(s, q)
                    } else if first_for(d.take(j as int + 1), q) is Some {
                        Some(end_view(first_for(d.take(j as int + 1), q)->0))
                    } else {
                        None
                    } by {
                    lemma_first_for_push(d.take(j as int), d[j as int], q);
                    if entries_view(kept@).len() > before.len() {
                        lemma_first_for_push(before, (q0, end_view(d[j as int].1)), q);
                    }
                    if q == q0 {
                        assert(d.take(j as int + 1)[j as int] == d[j as int]);
                        lemma_first_for_prefix(d, j as int + 1, q);
                    }
                }
            }
        }
        proof { assert(d.take(m as int) =~= d); }
        self.entries = kept;
        proof {
            assert forall|q: (Seq<char>, ImportMetadataField)| #![auto] first_for(d, q) is Some && first_for(s, q) is Some
                implies as_map(s).contains_key(q) by {}
            assert(self@ =~= synced(old(self)@, review_inputs(albums_view(albums@))));
        }
    }
}

} // verus!
