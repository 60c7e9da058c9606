//! The discover browser: which remote providers are searched, the search
//! results, and the collection opened from them. Each search and each
//! collection load gets a fresh number so that late answers can be told
//! apart from current ones.

use vstd::prelude::*;
use crate::model::{CollectionSummary, ProviderId, TrackList, TrackListView, opt_str, clone_opt_string};
use crate::playback::{clone_opt_list, opt_list_view};
use crate::text::u64_to_string;
use crate::textorder::{
    is_index_permutation, sort_indices_by_text, sorted_by_text_key, text_key_before, text_lt,
};

verus! {

/// A provider as the discover browser knows it.
pub struct ProviderEntry {
    pub id: ProviderId,
    pub display_name: String,
}

/// The discover browser's state, as a value.
pub struct DiscoverView {
    pub enabled: Seq<ProviderId>,
    pub search_results: Seq<CollectionSummary>,
    pub selected_collection_id: Option<Seq<char>>,
    pub track_list: Option<TrackListView>,
    pub search_loading: bool,
    pub track_list_loading: bool,
    pub source_picker_open: bool,
    pub search_nonce: u64,
    pub track_list_nonce: u64,
}

/// Whether a provider is among `enabled`.
pub open spec fn contains_provider(enabled: Seq<ProviderId>, p: ProviderId) -> bool {
    exists|i: int| 0 <= i < enabled.len() && (#[trigger] enabled[i]).same(p)
}

/// No provider occurs twice.
pub open spec fn distinct_providers(s: Seq<ProviderId>) -> bool {
    forall|i: int, j: int| 0 <= i < j < s.len() ==> !(#[trigger] s[i]).same(#[trigger] s[j])
}

/// The remote providers of the list that are enabled, in list order.
pub open spec fn enabled_in(providers: Seq<ProviderEntry>, enabled: Seq<ProviderId>) -> Seq<ProviderId> {
    providers.map_values(|e: ProviderEntry| e.id).filter(
        |p: ProviderId| !(p is Local) && contains_provider(enabled, p),
    )
}

/// `r` holds the elements of `f`, each once, in the order that `order` gives.
pub open spec fn arranged(r: Seq<ProviderId>, f: Seq<ProviderId>, order: Seq<usize>) -> bool {
    &&& is_index_permutation(order, f.len())
    &&& r.len() == f.len()
    &&& forall|i: int| 0 <= i < r.len() ==> #[trigger] r[i] == f[order[i] as int]
}

/// Sorted by identifier.
pub open spec fn sorted_by_name(r: Seq<ProviderId>) -> bool {
    forall|i: int, j: int| 0 <= i < j < r.len() ==> !text_lt((#[trigger] r[j]).name(), (#[trigger] r[i]).name())
}

/// The first provider of the list with the identifier.
pub open spec fn first_provider_with(providers: Seq<ProviderEntry>, p: ProviderId) -> Option<int> {
    crate::browse::first_index(providers, |e: ProviderEntry| e.id.same(p))
}

/// "None", the one enabled provider's display name, or "<n> enabled".
pub open spec fn source_label(providers: Seq<ProviderEntry>, enabled: Seq<ProviderId>) -> Seq<char> {
    let f = enabled_in(providers, enabled);
    if f.len() == 0 {
        seq!['N', 'o', 'n', 'e']
    } else if f.len() == 1 {
        match first_provider_with(providers, f[0]) {
            Some(i) => providers[i].display_name@,
            None => seq!['1', ' ', 'e', 'n', 'a', 'b', 'l', 'e', 'd'],
        }
    } else {
        crate::text::decimal(f.len()) + seq![' ', 'e', 'n', 'a', 'b', 'l', 'e', 'd']
    }
}

/// Finds a provider among a list.
fn position_of(enabled: &Vec<ProviderId>, p: &ProviderId) -> (r: Option<usize>)
    ensures
        match r {
            Some(i) => i < enabled@.len() && enabled@[i as int].same(*p),
            None => !contains_provider(enabled@, *p),
        },
{
    let n = enabled.len();
    for i in 0..n
        invariant
            n == enabled@.len(),
            forall|j: int| 0 <= j < i ==> !(#[trigger] enabled@[j]).same(*p),
    {
        if enabled[i].same_as(p) {
            return Some(i);
        }
    }
    None
}

fn first_provider_index(providers: &[ProviderEntry], p: &ProviderId) -> (r: Option<usize>)
    ensures
        match r {
            Some(i) => first_provider_with(providers@, *p) == Some(i as int),
            None => first_provider_with(providers@, *p) is None,
        },
{
    let ghost pred = |e: ProviderEntry| e.id.same(*p);
    let n = providers.len();
    for i in 0..n
        invariant
            n == providers@.len(),
            pred == (|e: ProviderEntry| e.id.same(*p)),
            forall|j: int| 0 <= j < i ==> !pred(#[trigger] providers@[j]),
    {
        if providers[i].id.same_as(p) {
            proof {
                assert(pred(providers@[i as int]));
                crate::browse::lemma_first_index_found(providers@, pred, i as int);
            }
            return Some(i);
        }
    }
    proof { crate::browse::lemma_first_index_none(providers@, pred); }
    None
}

proof fn lemma_same_symmetric(a: ProviderId, b: ProviderId)
    ensures
        a.same(b) == b.same(a),
{
}

proof fn lemma_same_transitive(a: ProviderId, b: ProviderId, c: ProviderId)
    requires
        a.same(b),
        b.same(c),
    ensures
        a.same(c),
{
}

/// The discover browser's state.
pub struct DiscoverModule {
    enabled_search_providers: Vec<ProviderId>,
    search_results: Vec<CollectionSummary>,
    selected_collection_id: Option<String>,
    track_list: Option<TrackList>,
    search_loading: bool,
    track_list_loading: bool,
    source_picker_open: bool,
    search_nonce: u64,
    track_list_nonce: u64,
}

impl View for DiscoverModule {
    type V = DiscoverView;

    closed spec fn view(&self) -> DiscoverView {
        DiscoverView {
            enabled: self.enabled_search_providers@,
            search_results: self.search_results@,
            selected_collection_id: opt_str(self.selected_collection_id),
            track_list: opt_list_view(self.track_list),
            search_loading: self.search_loading,
            track_list_loading: self.track_list_loading,
            source_picker_open: self.source_picker_open,
            search_nonce: self.search_nonce,
            track_list_nonce: self.track_list_nonce,
        }
    }
}

/// The positions in the list of the enabled providers, sorted by
/// identifier: for each enabled identifier, the first provider of the list
/// with it.
pub open spec fn active_positions(providers: Seq<ProviderEntry>, enabled: Seq<ProviderId>, r: Seq<usize>) -> bool {
    exists|ids: Seq<ProviderId>, order: Seq<usize>|
        arranged(ids, enabled_in(providers, enabled), order)
        && sorted_by_name(ids)
        && r.len() == ids.len()
        && forall|i: int| 0 <= i < r.len() ==> first_provider_with(providers, #[trigger] ids[i]) == Some(r[i] as int)
}

impl DiscoverModule {
    #[verifier::type_invariant]
    spec fn no_repeated_provider(self) -> bool {
        distinct_providers(self.enabled_search_providers@)
    }

    /// A browser with the given providers enabled (each counted once) and
    /// the given results and collection; nothing loading, numbering from 0.
    pub fn new(
        enabled_search_providers: Vec<ProviderId>,
        search_results: Vec<CollectionSummary>,
        selected_collection_id: Option<String>,
        track_list: Option<TrackList>,
    ) -> (r: Self)
        ensures
            distinct_providers(r@.enabled),
            forall|p: ProviderId| contains_provider(r@.enabled, p) <==> contains_provider(enabled_search_providers@, p),
            r@.search_results == search_results@,
            r@.selected_collection_id == opt_str(selected_collection_id),
            r@.track_list == opt_list_view(track_list),
            !r@.search_loading,
            !r@.track_list_loading,
            !r@.source_picker_open,
            r@.search_nonce == 0,
            r@.track_list_nonce == 0,
    {
        let mut enabled: Vec<ProviderId> = Vec::new();
        let n = enabled_search_providers.len();
        for i in 0..n
            invariant
                n == enabled_search_providers@.len(),
                distinct_providers(enabled@),
                forall|p: ProviderId| contains_provider(enabled@, p) <==>
                    exists|j: int| 0 <= j < i && (#[trigger] enabled_search_providers@[j]).same(p),
        {
            let p = &enabled_search_providers[i];
            if position_of(&enabled, p).is_none() {
                let ghost before = enabled@;
                enabled.push(p.clone());
                proof {
                    assert forall|a: int, b: int| 0 <= a < b < enabled@.len() implies !(#[trigger] enabled@[a]).same(#[trigger] enabled@[b]) by {
                        if b == before.len() {
                            assert(enabled@[a] == before[a]);
                            lemma_same_symmetric(before[a], *p);
                        } else {
                            assert(enabled@[a] == before[a] && enabled@[b] == before[b]);
                        }
                    }
                    assert forall|q: ProviderId| contains_provider(enabled@, q) <==>
                        exists|j: int| 0 <= j < i + 1 && (#[trigger] enabled_search_providers@[j]).same(q) by {
                        if contains_provider(enabled@, q) {
                            let k = choose|k: int| 0 <= k < enabled@.len() && (#[trigger] enabled@[k]).same(q);
                            if k < before.len() {
                                assert(enabled@[k] == before[k]);
                                assert(contains_provider(before, q));
                            } else {
                                assert(enabled_search_providers@[i as int].same(q));
                            }
                        }
                        if exists|j: int| 0 <= j < i + 1 && (#[trigger] enabled_search_providers@[j]).same(q) {
                            let j = choose|j: int| 0 <= j < i + 1 && (#[trigger] enabled_search_providers@[j]).same(q);
                            if j < i {
                                assert(contains_provider(before, q));
                                let k = choose|k: int| 0 <= k < before.len() && (#[trigger] before[k]).same(q);
                                assert(enabled@[k] == before[k]);
                            } else {
                                assert(enabled@[before.len() as int] == *p);
                            }
                        }
                    }
                }
            } else {
                proof {
                    let k = choose|k: int| 0 <= k < enabled@.len() && (#[trigger] enabled@[k]).same(*p);
                    assert forall|q: ProviderId| contains_provider(enabled@, q) <==>
                        exists|j: int| 0 <= j < i + 1 && (#[trigger] enabled_search_providers@[j]).same(q) by {
                        if exists|j: int| 0 <= j < i + 1 && (#[trigger] enabled_search_providers@[j]).same(q) {
                            let j = choose|j: int| 0 <= j < i + 1 && (#[trigger] enabled_search_providers@[j]).same(q);
                            if j == i {
                                lemma_same_transitive(enabled@[k], *p, q);
                            }
                        }
                    }
                }
            }
        }
        DiscoverModule {
            enabled_search_providers: enabled,
            search_results,
            selected_collection_id,
            track_list,
            search_loading: false,
            track_list_loading: false,
            source_picker_open: false,
            search_nonce: 0,
            track_list_nonce: 0,
        }
    }

    /// The search results.
    pub fn search_results(&self) -> (r: Vec<CollectionSummary>)
        ensures
            r@ == self@.search_results,
    {
        let mut r: Vec<CollectionSummary> = Vec::new();
        let n = self.search_results.len();
        for i in 0..n
            invariant
                n == self.search_results@.len(),
                r@ == self.search_results@.take(i as int),
        {
            r.push(self.search_results[i].clone());
            proof {
                assert(r@ =~= self.search_results@.take(i as int + 1));
            }
        }
        proof {
            assert(self.search_results@.take(n as int) =~= self.search_results@);
        }
        r
    }

    /// The key of the opened collection.
    pub fn selected_collection_id(&self) -> (r: Option<String>)
        ensures
            opt_str(r) == self@.selected_collection_id,
    {
        clone_opt_string(&self.selected_collection_id)
    }

    /// The opened collection's tracks.
    pub fn track_list(&self) -> (r: Option<TrackList>)
        ensures
            opt_list_view(r) == self@.track_list,
    {
        clone_opt_list(&self.track_list)
    }

    /// Whether a search is running.
    pub fn search_loading(&self) -> (r: bool)
        ensures
            r == self@.search_loading,
    {
        self.search_loading
    }

    /// Whether a collection is loading.
    pub fn track_list_loading(&self) -> (r: bool)
        ensures
            r == self@.track_list_loading,
    {
        self.track_list_loading
    }

    /// Whether the provider picker is open.
    pub fn source_picker_open(&self) -> (r: bool)
        ensures
            r == self@.source_picker_open,
    {
        self.source_picker_open
    }

    /// The enabled remote providers of the list, sorted by identifier.
    pub fn enabled_provider_ids(&self, providers: &[ProviderEntry]) -> (r: Vec<ProviderId>)
        ensures
            exists|order: Seq<usize>| arranged(r@, enabled_in(providers@, self@.enabled), order),
            sorted_by_name(r@),
    {
        let ghost ids = providers@.map_values(|e: ProviderEntry| e.id);
        let ghost pred = |p: ProviderId| !(p is Local) && contains_provider(self@.enabled, p);
        let mut picked: Vec<ProviderId> = Vec::new();
        let n = providers.len();
        for i in 0..n
            invariant
                n == providers@.len(),
                ids == providers@.map_values(|e: ProviderEntry| e.id),
                pred == (|p: ProviderId| !(p is Local) && contains_provider(self@.enabled, p)),
                picked@ == ids.take(i as int).filter(pred),
        {
            proof {
                assert(ids.take(i as int + 1).drop_last() =~= ids.take(i as int));
                assert(ids.take(i as int + 1).last() == providers@[i as int].id);
                reveal(Seq::filter);
            }
            let id = &providers[i].id;
            let keep = match id {
                ProviderId::Local => false,
                ProviderId::Remote(_) => position_of(&self.enabled_search_providers, id).is_some(),
            };
            if keep {
                picked.push(id.clone());
            }
        }
        proof {
            assert(ids.take(n as int) =~= ids);
        }
        let mut keys: Vec<Vec<char>> = Vec::new();
        let m = picked.len();
        for k in 0..m
            invariant
                m == picked@.len(),
                keys@.len() == k,
                forall|j: int| 0 <= j < k ==> (#[trigger] keys@[j])@ == picked@[j].name(),
        {
            keys.push(crate::text::chars_of(picked[k].as_str()));
        }
        let order = sort_indices_by_text(&keys);
        let ghost kv = keys@.map_values(|k: Vec<char>| k@);
        proof {
            assert forall|j: int| 0 <= j < m implies #[trigger] kv[j] == picked@[j].name() by {}
        }
        let mut r: Vec<ProviderId> = Vec::new();
        for k in 0..m
            invariant
                m == picked@.len(),
                is_index_permutation(order@, m as nat),
                r@.len() == k,
                forall|j: int| 0 <= j < k ==> #[trigger] r@[j] == picked@[order@[j] as int],
        {
            r.push(picked[order[k]].clone());
        }
        proof {
            assert(picked@ =~= enabled_in(providers@, self@.enabled));
            assert(arranged(r@, picked@, order@));
            assert forall|i: int, j: int| 0 <= i < j < r@.len() implies !text_lt((#[trigger] r@[j]).name(), (#[trigger] r@[i]).name()) by {
                let x = order@[i];
                let y = order@[j];
                assert(sorted_by_text_key(order@, kv));
                assert(text_key_before(kv, x, y));
                assert(kv[x as int] == picked@[x as int].name());
                assert(kv[y as int] == picked@[y as int].name());
                if text_lt(kv[x as int], kv[y as int]) {
                    crate::textorder::lemma_text_lt_asymmetric(kv[x as int], kv[y as int]);
                } else {
                    crate::textorder::lemma_text_lt_irreflexive(kv[x as int]);
                }
            }
        }
        r
    }

    /// "None", the enabled provider's display name, or "<n> enabled".
    pub fn active_source_label(&self, providers: &[ProviderEntry]) -> (r: String)
        ensures
            r@ == source_label(providers@, self@.enabled),
    {
        let enabled = self.enabled_provider_ids(providers);
        let ghost f = enabled_in(providers@, self@.enabled);
        proof {
            let order = choose|order: Seq<usize>| arranged(enabled@, f, order);
            if f.len() == 1 {
                assert(order[0] < 1);
                assert(enabled@[0] == f[0]);
            }
        }
        if enabled.len() == 0 {
            proof { reveal_strlit("None"); }
            return String::from_str("None");
        }
        if enabled.len() == 1 {
            proof { crate::browse::lemma_first_index_valid(providers@, |e: ProviderEntry| e.id.same(enabled@[0])); }
            return match first_provider_index(providers, &enabled[0]) {
                Some(i) => providers[i].display_name.clone(),
                None => {
                    proof { reveal_strlit("1 enabled"); }
                    String::from_str("1 enabled")
                },
            };
        }
        let mut label = u64_to_string(enabled.len() as u64);
        proof { reveal_strlit(" enabled"); }
        label.append(" enabled");
        label
    }

    /// The positions in the list of the enabled providers, sorted by
    /// identifier: for each, the first provider of the list with it.
    pub fn active_providers(&self, providers: &[ProviderEntry]) -> (r: Vec<usize>)
        ensures
            active_positions(providers@, self@.enabled, r@),
    {
        let ids = self.enabled_provider_ids(providers);
        let ghost f = enabled_in(providers@, self@.enabled);
        let ghost order = choose|order: Seq<usize>| arranged(ids@, f, order);
        let mut r: Vec<usize> = Vec::new();
        let n = ids.len();
        for k in 0..n
            invariant
                n == ids@.len(),
                arranged(ids@, f, order),
                f == enabled_in(providers@, self@.enabled),
                r@.len() == k,
                forall|i: int| 0 <= i < k ==> first_provider_with(providers@, #[trigger] ids@[i]) == Some(r@[i] as int),
        {
            proof {
                let j = order[k as int] as int;
                let all = providers@.map_values(|e: ProviderEntry| e.id);
                let pred = |p: ProviderId| !(p is Local) && contains_provider(self@.enabled, p);
                assert(f.contains(ids@[k as int]));
                all.lemma_filter_contains_rev(pred, ids@[k as int]);
                let w = choose|w: int| 0 <= w < all.len() && all[w] == ids@[k as int];
                let p_k = ids@[k as int];
                assert(providers@[w].id.same(p_k));
                crate::browse::lemma_first_index_valid(providers@, |e: ProviderEntry| e.id.same(p_k));
                if first_provider_with(providers@, p_k) is None {
                    assert((|e: ProviderEntry| e.id.same(p_k))(providers@[w]));
                }
            }
            match first_provider_index(providers, &ids[k]) {
                Some(i) => r.push(i),
                None => {},
            }
        }
        proof {
            assert(arranged(ids@, f, order) && sorted_by_name(ids@) && r@.len() == ids@.len());
        }
        r
    }

    /// Whether the provider is searched.
    pub fn is_provider_enabled(&self, provider_id: &ProviderId) -> (r: bool)
        ensures
            r == contains_provider(self@.enabled, *provider_id),
    {
        position_of(&self.enabled_search_providers, provider_id).is_some()
    }

    /// Searches the provider too.
    pub fn enable_provider(&mut self, provider_id: ProviderId)
        ensures
            forall|p: ProviderId| contains_provider(final(self)@.enabled, p) <==>
                (contains_provider(old(self)@.enabled, p) || p.same(provider_id)),
            final(self)@.search_results == old(self)@.search_results,
            final(self)@.selected_collection_id == old(self)@.selected_collection_id,
            final(self)@.track_list == old(self)@.track_list,
            final(self)@.search_loading == old(self)@.search_loading,
            final(self)@.track_list_loading == old(self)@.track_list_loading,
            final(self)@.source_picker_open == old(self)@.source_picker_open,
            final(self)@.search_nonce == old(self)@.search_nonce,
            final(self)@.track_list_nonce == old(self)@.track_list_nonce,
    {
        proof { use_type_invariant(&*self); }
        if let Some(k) = position_of(&self.enabled_search_providers, &provider_id) {
            proof {
                assert forall|p: ProviderId| contains_provider(self@.enabled, p) <==>
                    (contains_provider(self@.enabled, p) || p.same(provider_id)) by {
                    if p.same(provider_id) {
                        lemma_same_symmetric(p, provider_id);
                        lemma_same_transitive(self.enabled_search_providers@[k as int], provider_id, p);
                    }
                }
            }
            return;
        }
        let mut enabled = Vec::new();
        std::mem::swap(&mut enabled, &mut self.enabled_search_providers);
        let ghost before = enabled@;
        let ghost added = provider_id;
        enabled.push(provider_id);
        proof {
            assert forall|a: int, b: int| 0 <= a < b < enabled@.len() implies !(#[trigger] enabled@[a]).same(#[trigger] enabled@[b]) by {
                assert(enabled@[a] == before[a]);
                if b == before.len() {
                    lemma_same_symmetric(before[a], added);
                } else {
                    assert(enabled@[b] == before[b]);
                }
            }
            assert forall|p: ProviderId| contains_provider(enabled@, p) <==> (contains_provider(before, p) || p.same(added)) by {
                if contains_provider(enabled@, p) {
                    let k = choose|k: int| 0 <= k < enabled@.len() && (#[trigger] enabled@[k]).same(p);
                    if k < before.len() {
                        assert(enabled@[k] == before[k]);
                    } else {
                        lemma_same_symmetric(added, p);
                    }
                }
                if contains_provider(before, p) {
                    let k = choose|k: int| 0 <= k < before.len() && (#[trigger] before[k]).same(p);
                    assert(enabled@[k] == before[k]);
                }
                if p.same(added) {
                    lemma_same_symmetric(p, added);
                    assert(enabled@[before.len() as int] == added);
                }
            }
        }
        self.enabled_search_providers = enabled;
    }

    /// Stops searching the provider.
    pub fn disable_provider(&mut self, provider_id: &ProviderId)
        ensures
            forall|p: ProviderId| contains_provider(final(self)@.enabled, p) <==>
                (contains_provider(old(self)@.enabled, p) && !p.same(*provider_id)),
            final(self)@.search_results == old(self)@.search_results,
            final(self)@.selected_collection_id == old(self)@.selected_collection_id,
            final(self)@.track_list == old(self)@.track_list,
            final(self)@.search_loading == old(self)@.search_loading,
            final(self)@.track_list_loading == old(self)@.track_list_loading,
            final(self)@.source_picker_open == old(self)@.source_picker_open,
            final(self)@.search_nonce == old(self)@.search_nonce,
            final(self)@.track_list_nonce == old(self)@.track_list_nonce,
    {
        proof { use_type_invariant(&*self); }
        let k = match position_of(&self.enabled_search_providers, provider_id) {
            Some(k) => k,
            None => {
                proof {
                    assert forall|p: ProviderId| contains_provider(self@.enabled, p) implies !p.same(*provider_id) by {
                        let j = choose|j: int| 0 <= j < self@.enabled.len() && (#[trigger] self@.enabled[j]).same(p);
                        if p.same(*provider_id) {
                            lemma_same_transitive(self@.enabled[j], p, *provider_id);
                        }
                    }
                }
                return;
            },
        };
        let mut enabled = Vec::new();
        std::mem::swap(&mut enabled, &mut self.enabled_search_providers);
        let ghost before = enabled@;
        enabled.remove(k);
        proof {
            assert forall|j: int| 0 <= j < enabled@.len() implies #[trigger] enabled@[j] == (if j < k { before[j] } else { before[j + 1] }) by {}
            assert forall|a: int, b: int| 0 <= a < b < enabled@.len() implies !(#[trigger] enabled@[a]).same(#[trigger] enabled@[b]) by {
                let ia = if a < k { a } else { a + 1 };
                let ib = if b < k { b } else { b + 1 };
                assert(enabled@[a] == before[ia] && enabled@[b] == before[ib]);
            }
            assert forall|p: ProviderId| contains_provider(enabled@, p) <==> (contains_provider(before, p) && !p.same(*provider_id)) by {
                if contains_provider(enabled@, p) {
                    let j = choose|j: int| 0 <= j < enabled@.len() && (#[trigger] enabled@[j]).same(p);
                    let i = if j < k { j } else { j + 1 };
                    assert(enabled@[j] == before[i]);
                    if p.same(*provider_id) {
                        lemma_same_transitive(before[i], p, *provider_id);
                        lemma_same_symmetric(before[k as int], *provider_id);
                        lemma_same_transitive(before[i], *provider_id, before[k as int]);
                        if i < k {
                            assert(!before[i].same(before[k as int]));
                        } else {
                            lemma_same_symmetric(before[i], before[k as int]);
                            assert(!before[k as int].same(before[i]));
                        }
                    }
                }
                if contains_provider(before, p) && !p.same(*provider_id) {
                    let i = choose|i: int| 0 <= i < before.len() && (#[trigger] before[i]).same(p);
                    if i == k {
                        lemma_same_symmetric(before[k as int], p);
                        lemma_same_transitive(p, before[k as int], *provider_id);
                    } else {
                        let j = if i < k { i } else { i - 1 };
                        assert(enabled@[j] == before[i]);
                    }
                }
            }
        }
        self.enabled_search_providers = enabled;
    }

    /// Keeps searching only providers that are still in the list.
    pub fn retain_available_providers(&mut self, providers: &[ProviderEntry])
        ensures
            final(self)@.enabled == old(self)@.enabled.filter(
                |p: ProviderId| exists|i: int| 0 <= i < providers@.len() && (#[trigger] providers@[i]).id.same(p),
            ),
            final(self)@.search_results == old(self)@.search_results,
            final(self)@.selected_collection_id == old(self)@.selected_collection_id,
            final(self)@.track_list == old(self)@.track_list,
            final(self)@.search_loading == old(self)@.search_loading,
            final(self)@.track_list_loading == old(self)@.track_list_loading,
            final(self)@.source_picker_open == old(self)@.source_picker_open,
            final(self)@.search_nonce == old(self)@.search_nonce,
            final(self)@.track_list_nonce == old(self)@.track_list_nonce,
    {
        proof { use_type_invariant(&*self); }
        let ghost pred = |p: ProviderId| exists|i: int| 0 <= i < providers@.len() && (#[trigger] providers@[i]).id.same(p);
        let ghost orig = self.enabled_search_providers@;
        let mut kept: Vec<ProviderId> = Vec::new();
        let ghost mut src: Seq<int> = Seq::empty();
        let n = self.enabled_search_providers.len();
        for i in 0..n
            invariant
                n == orig.len(),
                orig == self.enabled_search_providers@,
                pred == (|p: ProviderId| exists|i: int| 0 <= i < providers@.len() && (#[trigger] providers@[i]).id.same(p)),
                kept@ == orig.take(i as int).filter(pred),
                distinct_providers(orig),
                distinct_providers(kept@),
                src.len() == kept@.len(),
                forall|a: int| 0 <= a < kept@.len() ==> 0 <= #[trigger] src[a] < i && kept@[a] == orig[src[a]],
        {
            proof {
                assert(orig.take(i as int + 1).drop_last() =~= orig.take(i as int));
                reveal(Seq::filter);
            }
            let p = &self.enabled_search_providers[i];
            let found = first_provider_index(providers, p);
            proof {
                crate::browse::lemma_first_index_valid(providers@, |e: ProviderEntry| e.id.same(*p));
            }
            if found.is_some() {
                let ghost before = kept@;
                kept.push(p.clone());
                proof {
                    assert forall|a: int, b: int| 0 <= a < b < kept@.len() implies !(#[trigger] kept@[a]).same(#[trigger] kept@[b]) by {
                        assert(kept@[a] == before[a]);
                        if b < before.len() {
                            assert(kept@[b] == before[b]);
                        } else {
                            assert(!orig[src[a]].same(orig[i as int]));
                        }
                    }
                    src = src.push(i as int);
                }
            }
        }
        proof {
            assert(orig.take(n as int) =~= orig);
        }
        self.enabled_search_providers = kept;
    }

    /// Closes the provider picker.
    pub fn close_source_picker(&mut self)
        ensures
            final(self)@ == (DiscoverView { source_picker_open: false, ..old(self)@ }),
    {
        proof { use_type_invariant(&*self); }
        self.source_picker_open = false;
    }

    /// Opens the provider picker, or closes it.
    pub fn toggle_source_picker(&mut self)
        ensures
            final(self)@ == (DiscoverView { source_picker_open: !old(self)@.source_picker_open, ..old(self)@ }),
    {
        proof { use_type_invariant(&*self); }
        self.source_picker_open = !self.source_picker_open;
    }

    /// Clears the results and the opened collection; nothing loads.
    pub fn reset_scope(&mut self)
        ensures
            final(self)@ == (DiscoverView {
                search_loading: false,
                track_list_loading: false,
                search_results: Seq::empty(),
                selected_collection_id: None,
                track_list: None,
                source_picker_open: false,
                ..old(self)@
            }),
    {
        proof { use_type_invariant(&*self); }
        self.search_loading = false;
        self.track_list_loading = false;
        self.search_results = Vec::new();
        self.selected_collection_id = None;
        self.track_list = None;
        self.source_picker_open = false;
    }

    /// Starts a search under the next number, clearing what an earlier
    /// search showed; returns the number.
    pub fn begin_search(&mut self) -> (r: u64)
        requires
            old(self)@.search_nonce < u64::MAX,
        ensures
            r == old(self)@.search_nonce + 1,
            final(self)@ == (DiscoverView {
                search_nonce: r,
                search_loading: true,
                track_list_loading: false,
                search_results: Seq::empty(),
                selected_collection_id: None,
                track_list: None,
                ..old(self)@
            }),
    {
        proof { use_type_invariant(&*self); }
        self.search_nonce = self.search_nonce + 1;
        self.search_loading = true;
        self.track_list_loading = false;
        self.search_results = Vec::new();
        self.selected_collection_id = None;
        self.track_list = None;
        self.search_nonce
    }

    /// Whether an answer belongs to the latest search.
    pub fn search_nonce_matches(&self, nonce: u64) -> (r: bool)
        ensures
            r == (self@.search_nonce == nonce),
    {
        self.search_nonce == nonce
    }

    /// Shows a search's results.
    pub fn finish_search(&mut self, results: Vec<CollectionSummary>)
        ensures
            final(self)@ == (DiscoverView { search_loading: false, search_results: results@, ..old(self)@ }),
    {
        proof { use_type_invariant(&*self); }
        self.search_loading = false;
        self.search_results = results;
    }

    /// Ends a search that failed.
    pub fn fail_search(&mut self)
        ensures
            final(self)@ == (DiscoverView { search_loading: false, ..old(self)@ }),
    {
        proof { use_type_invariant(&*self); }
        self.search_loading = false;
    }

    /// Replaces the results.
    pub fn replace_search_results(&mut self, results: Vec<CollectionSummary>)
        ensures
            final(self)@ == (DiscoverView { search_results: results@, ..old(self)@ }),
    {
        proof { use_type_invariant(&*self); }
        self.search_results = results;
    }

    /// Whether the collection is already opened and loading.
    pub fn should_skip_collection_load(&self, collection_key: &str) -> (r: bool)
        ensures
            r == (self@.selected_collection_id == Some(collection_key@) && self@.track_list_loading),
    {
        match &self.selected_collection_id {
            Some(id) => {
                let key = String::from_str(collection_key);
                *id == key && self.track_list_loading
            },
            None => false,
        }
    }

    /// Opens a collection under the next load number; returns the number.
    pub fn begin_collection_load(&mut self, collection_key: String) -> (r: u64)
        requires
            old(self)@.track_list_nonce < u64::MAX,
        ensures
            r == old(self)@.track_list_nonce + 1,
            final(self)@ == (DiscoverView {
                track_list_nonce: r,
                selected_collection_id: Some(collection_key@),
                ..old(self)@
            }),
    {
        proof { use_type_invariant(&*self); }
        self.track_list_nonce = self.track_list_nonce + 1;
        self.selected_collection_id = Some(collection_key);
        self.track_list_nonce
    }

    /// Marks the opened collection as loading.
    pub fn begin_track_list_fetch(&mut self)
        ensures
            final(self)@ == (DiscoverView { track_list_loading: true, ..old(self)@ }),
    {
        proof { use_type_invariant(&*self); }
        self.track_list_loading = true;
    }

    /// Whether an answer belongs to the latest collection load.
    pub fn track_list_nonce_matches(&self, nonce: u64) -> (r: bool)
        ensures
            r == (self@.track_list_nonce == nonce),
    {
        self.track_list_nonce == nonce
    }

    /// Shows the loaded collection.
    pub fn finish_track_list_load(&mut self, track_list: TrackList)
        ensures
            final(self)@ == (DiscoverView { track_list_loading: false, track_list: Some(track_list@), ..old(self)@ }),
    {
        proof { use_type_invariant(&*self); }
        self.track_list_loading = false;
        self.track_list = Some(track_list);
    }

    /// Ends a collection load that failed.
    pub fn fail_track_list_load(&mut self)
        ensures
            final(self)@ == (DiscoverView { track_list_loading: false, ..old(self)@ }),
    {
        proof { use_type_invariant(&*self); }
        self.track_list_loading = false;
    }

    /// Replaces the opened collection's tracks.
    pub fn replace_track_list(&mut self, track_list: TrackList)
        ensures
            final(self)@ == (DiscoverView { track_list: Some(track_list@), ..old(self)@ }),
    {
        proof { use_type_invariant(&*self); }
        self.track_list = Some(track_list);
    }

    /// Shows the collection that is playing.
    pub fn sync_browser_playback_context(&mut self, collection_id: Option<String>, track_list: Option<TrackList>)
        ensures
            final(self)@ == (DiscoverView {
                selected_collection_id: opt_str(collection_id),
                track_list: opt_list_view(track_list),
                ..old(self)@
            }),
    {
        proof { use_type_invariant(&*self); }
        self.selected_collection_id = collection_id;
        self.track_list = track_list;
    }
}

/// Once a search has begun (as `begin_search` leaves the browser), the
/// answer to any earlier search no longer matches; likewise for collection
/// loads (as `begin_collection_load` leaves it). Numbers only grow.
pub proof fn lemma_earlier_answers_are_stale(before: DiscoverView, after: DiscoverView, earlier: u64)
    ensures
        earlier <= before.search_nonce && after.search_nonce == before.search_nonce + 1
            ==> after.search_nonce != earlier,
        earlier <= before.track_list_nonce && after.track_list_nonce == before.track_list_nonce + 1
            ==> after.track_list_nonce != earlier,
{
}

} // verus!
