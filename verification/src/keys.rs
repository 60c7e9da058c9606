//! Stable text keys for tracks and collections, and clock formatting.

use vstd::prelude::*;
use crate::model::{CollectionKind, CollectionRef, ProviderId, TrackSummary, local_provider_name};
use crate::text::{decimal, u64_to_string};

verus! {

pub open spec fn colon() -> Seq<char> {
    seq![':']
}

/// `<provider>:<track id>`: the key under which a track is cached.
pub open spec fn track_key_view(provider: ProviderId, id: Seq<char>) -> Seq<char> {
    provider.name() + colon() + id
}

/// `<provider>:<collection id>`: a collection's key in the browser.
pub open spec fn browser_key_view(c: CollectionRef) -> Seq<char> {
    c.provider.name() + colon() + c.id@
}

pub open spec fn kind_word(k: CollectionKind) -> Seq<char> {
    match k {
        CollectionKind::Album => seq!['a', 'l', 'b', 'u', 'm'],
        CollectionKind::Playlist => seq!['p', 'l', 'a', 'y', 'l', 'i', 's', 't'],
    }
}

/// `<album|playlist>:<provider>:<collection id>`: a collection entity's key.
pub open spec fn entity_key_view(c: CollectionRef) -> Seq<char> {
    kind_word(c.kind) + colon() + c.provider.name() + colon() + c.id@
}

/// The key of a provider and an identifier.
pub fn provider_scoped_key(provider: &ProviderId, id: &str) -> (r: String)
    ensures
        r@ == track_key_view(*provider, id@),
{
    let mut s = String::from_str(provider.as_str());
    proof { reveal_strlit(":"); }
    s.append(":");
    s.append(id);
    s
}

/// The key under which a track is cached: `<provider>:<track id>`.
pub fn track_cache_key(track: &TrackSummary) -> (r: String)
    ensures
        r@ == track_key_view(track.reference.provider, track.reference.id@),
{
    provider_scoped_key(&track.reference.provider, track.reference.id.as_str())
}

/// A collection's key in the browser: `<provider>:<collection id>`.
pub fn collection_browser_key(collection: &CollectionRef) -> (r: String)
    ensures
        r@ == browser_key_view(*collection),
{
    provider_scoped_key(&collection.provider, collection.id.as_str())
}

/// A collection entity's key: `<album|playlist>:<provider>:<collection id>`.
pub fn collection_entity_key(collection: &CollectionRef) -> (r: String)
    ensures
        r@ == entity_key_view(*collection),
{
    let mut s = match collection.kind {
        CollectionKind::Album => {
            proof { reveal_strlit("album"); }
            String::from_str("album")
        },
        CollectionKind::Playlist => {
            proof { reveal_strlit("playlist"); }
            String::from_str("playlist")
        },
    };
    proof { reveal_strlit(":"); }
    s.append(":");
    s.append(collection.provider.as_str());
    s.append(":");
    s.append(collection.id.as_str());
    proof {
        assert(s@ =~= entity_key_view(*collection));
    }
    s
}

/// The position of the first `:` in a character sequence, if any.
pub open spec fn no_colon(s: Seq<char>) -> bool {
    forall|i: int| 0 <= i < s.len() ==> s[i] != ':'
}

proof fn lemma_prefix_split(a1: Seq<char>, b1: Seq<char>, a2: Seq<char>, b2: Seq<char>)
    requires
        no_colon(a1),
        no_colon(a2),
        a1 + colon() + b1 == a2 + colon() + b2,
    ensures
        a1 == a2,
        b1 == b2,
{
    let k1 = a1 + colon() + b1;
    let k2 = a2 + colon() + b2;
    if a1.len() < a2.len() {
        assert(k1[a1.len() as int] == ':');
        assert(k2[a1.len() as int] == a2[a1.len() as int]);
    } else if a2.len() < a1.len() {
        assert(k2[a2.len() as int] == ':');
        assert(k1[a2.len() as int] == a1[a2.len() as int]);
    }
    assert(a1.len() == a2.len());
    assert forall|i: int| 0 <= i < a1.len() implies a1[i] == a2[i] by {
        assert(k1[i] == a1[i]);
        assert(k2[i] == a2[i]);
    }
    assert(a1 =~= a2);
    let p1 = a1 + colon();
    let p2 = a2 + colon();
    assert(p1.len() == a1.len() + 1);
    assert(p2.len() == p1.len());
    assert(k1 == p1 + b1);
    assert(k2 == p2 + b2);
    assert((p1 + b1).len() == p1.len() + b1.len());
    assert((p2 + b2).len() == p2.len() + b2.len());
    assert(b1.len() == b2.len());
    assert forall|i: int| 0 <= i < b1.len() implies b1[i] == b2[i] by {
        assert((p1 + b1)[p1.len() + i] == b1[i]);
        assert((p2 + b2)[p2.len() + i] == b2[i]);
    }
    assert(b1 =~= b2);
}

/// A well-formed provider's name holds no `:`.
pub proof fn lemma_provider_name_no_colon(p: ProviderId)
    requires
        p.well_formed(),
    ensures
        no_colon(p.name()),
{
    match p {
        ProviderId::Local => {
            assert forall|i: int| 0 <= i < local_provider_name().len() implies local_provider_name()[i] != ':' by {}
        },
        ProviderId::Remote(s) => {
            assert forall|i: int| 0 <= i < s@.len() implies s@[i] != ':' by {
                assert(crate::model::is_provider_id_char(s@[i]));
            }
        },
    }
}

/// Distinct well-formed providers have distinct names.
pub proof fn lemma_provider_name_injective(p: ProviderId, q: ProviderId)
    requires
        p.well_formed(),
        q.well_formed(),
        p.name() == q.name(),
    ensures
        p.same(q),
{
}

/// Cache keys identify tracks: two tracks of well-formed providers share a
/// cache key exactly when they have the same provider and the same id.
pub proof fn lemma_track_key_identifies_track(p1: ProviderId, id1: Seq<char>, p2: ProviderId, id2: Seq<char>)
    requires
        p1.well_formed(),
        p2.well_formed(),
    ensures
        track_key_view(p1, id1) == track_key_view(p2, id2) <==> (p1.same(p2) && id1 == id2),
{
    lemma_provider_name_no_colon(p1);
    lemma_provider_name_no_colon(p2);
    if track_key_view(p1, id1) == track_key_view(p2, id2) {
        lemma_prefix_split(p1.name(), id1, p2.name(), id2);
        lemma_provider_name_injective(p1, p2);
    }
}

/// The text `m:ss` of a number of seconds: minutes, a colon, two-digit seconds.
pub open spec fn clock_view(total_seconds: nat) -> Seq<char> {
    let minutes = total_seconds / 60;
    let seconds = total_seconds % 60;
    decimal(minutes) + colon() + (if seconds < 10 { seq!['0'] } else { seq![] }) + decimal(seconds)
}

/// Formats whole seconds as `m:ss`.
pub fn format_clock(total_seconds: u64) -> (r: String)
    ensures
        r@ == clock_view(total_seconds as nat),
{
    let minutes = total_seconds / 60;
    let seconds = total_seconds % 60;
    let mut s = u64_to_string(minutes);
    proof { reveal_strlit(":"); reveal_strlit("0"); }
    s.append(":");
    if seconds < 10 {
        s.append("0");
    }
    let digits = u64_to_string(seconds);
    s.append(digits.as_str());
    proof {
        assert(s@ =~= clock_view(total_seconds as nat));
    }
    s
}

/// Formats an optional duration in seconds as `m:ss`, or `--:--` when unknown.
pub fn format_duration(duration_seconds: Option<u32>) -> (r: String)
    ensures
        duration_seconds matches Some(t) ==> r@ == clock_view(t as nat),
        duration_seconds is None ==> r@ == seq!['-', '-', ':', '-', '-'],
{
    match duration_seconds {
        Some(t) => format_clock(t as u64),
        None => {
            proof { reveal_strlit("--:--"); }
            String::from_str("--:--")
        },
    }
}

} // verus!
