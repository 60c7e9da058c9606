//! Artwork found in the local cache, put into the collections it belongs to.

use vstd::prelude::*;
use crate::keys::{collection_entity_key, entity_key_view};
use crate::model::{CollectionSummary, TrackList};

verus! {

/// The collection with the cached artwork's path as its artwork, when the
/// cache has one; else the collection as it was.
pub open spec fn with_artwork(c: CollectionSummary, cached: Option<String>) -> CollectionSummary {
    match cached {
        Some(path) => CollectionSummary { artwork_url: Some(path), ..c },
        None => c,
    }
}

/// Puts the cached artwork's path into a collection, when there is one.
pub fn apply_cached_artwork(collection: CollectionSummary, cached: Option<String>) -> (r: CollectionSummary)
    ensures
        r == with_artwork(collection, cached),
{
    let mut collection = collection;
    if let Some(path) = cached {
        collection.artwork_url = Some(path);
    }
    collection
}

/// Puts the cached artwork of each collection of a batch into it; the
/// lookups are given in the batch's order, one for each collection.
pub fn apply_cached_artwork_batch(collections: Vec<CollectionSummary>, cached: Vec<Option<String>>) -> (r: Vec<CollectionSummary>)
    requires
        cached@.len() == collections@.len(),
    ensures
        r@.len() == collections@.len(),
        forall|i: int| 0 <= i < r@.len() ==> #[trigger] r@[i] == with_artwork(collections@[i], cached@[i]),
{
    let n = collections.len();
    let mut r: Vec<CollectionSummary> = Vec::new();
    for i in 0..n
        invariant
            n == collections@.len(),
            cached@.len() == n,
            r@.len() == i,
            forall|j: int| 0 <= j < i ==> #[trigger] r@[j] == with_artwork(collections@[j], cached@[j]),
    {
        let c = collections[i].clone();
        let a = match &cached[i] {
            Some(p) => Some(p.clone()),
            None => None,
        };
        r.push(apply_cached_artwork(c, a));
    }
    r
}

/// Whether a track list whose artwork was filled in is the one playing,
/// so that the playing list takes it too: the two name the same
/// collection entity.
pub fn hydrated_list_is_playing(playing: Option<&TrackList>, hydrated: &TrackList) -> (r: bool)
    ensures
        r == match playing {
            Some(p) => entity_key_view(p.collection.reference) == entity_key_view(hydrated.collection.reference),
            None => false,
        },
{
    match playing {
        Some(p) => {
            let a = collection_entity_key(&p.collection.reference);
            let b = collection_entity_key(&hydrated.collection.reference);
            a == b
        },
        None => false,
    }
}

} // verus!
