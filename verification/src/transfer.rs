//! Downloads in flight and the history of external downloads.
//!
//! A download's progress is a shared handle (`P`) owned by the transfer
//! worker; this model only carries it. Where the player pauses, resumes or
//! cancels a download, the model hands back the handle to act on.

use vstd::prelude::*;
use crate::browse::{ReadyPlayback, first_index, lemma_first_index_found, lemma_first_index_none};
use crate::keys::{track_cache_key, track_key_view};
use crate::model::{ProviderId, TrackSummary, clone_opt_string};
use crate::text::chars_of;
use crate::textorder::{text_lt, text_less, lemma_text_lt_transitive, lemma_text_lt_asymmetric};

verus! {

/// How many external downloads the history keeps.
pub const EXTERNAL_DOWNLOAD_HISTORY_LIMIT: usize = 200;

/// Why a track is being downloaded.
#[derive(Clone, Copy, Debug, PartialEq, Eq, Structural)]
pub enum DownloadPurpose {
    Explicit,
    PlaybackPrefetch,
    ExternalUrl,
}

/// What a progress handle reports at one moment.
#[derive(Clone, Copy, Debug, PartialEq, Eq, Structural)]
pub struct ProgressSnapshot {
    pub paused: bool,
    pub downloaded_bytes: u64,
    pub total_bytes: Option<u64>,
}

/// A track download in flight.
pub struct ActiveTransfer<P> {
    pub track_id: String,
    pub title: String,
    pub purpose: DownloadPurpose,
    pub progress: P,
    pub started_at: u64,
}

/// Where a download stands.
pub enum DownloadItemState<P> {
    Queued { source_url: String, progress: P },
    Active {
        progress: P,
        source_url: Option<String>,
        destination: Option<String>,
        started_at: u64,
        duration_seconds: Option<u64>,
    },
    Completed { source_url: String, destination: String },
    Failed { source_url: String, destination: Option<String>, error: String },
}

/// A download as the downloads list shows it.
pub struct DownloadItem<P> {
    pub id: String,
    pub title: String,
    pub purpose: DownloadPurpose,
    pub state: DownloadItemState<P>,
}

/// An entry of the external download history.
pub struct ExternalDownloadItem<P> {
    pub id: String,
    pub title: String,
    pub state: DownloadItemState<P>,
}

/// How a persisted external download ended.
#[derive(Clone, Debug, PartialEq, Eq)]
pub enum PersistedExternalDownloadState {
    Pending,
    Completed { destination: String },
    Failed { destination: Option<String>, error: String },
}

/// An external download as the session file keeps it.
#[derive(Clone, Debug, PartialEq, Eq)]
pub struct PersistedExternalDownload {
    pub id: String,
    pub title: String,
    pub source_url: String,
    pub destination: Option<String>,
    pub paused: bool,
    pub downloaded_bytes: Option<u64>,
    pub total_bytes: Option<u64>,
    pub state: PersistedExternalDownloadState,
}

/// What the transfer worker reports.
pub enum TransferEvent<P> {
    DownloadStarted { track_id: String, title: String, purpose: DownloadPurpose, progress: P },
    DownloadCompleted {
        track_id: String,
        title: String,
        provider: ProviderId,
        collection_id: Option<String>,
        purpose: DownloadPurpose,
    },
    DownloadCancelled { track_id: String },
    DownloadFailed { track_id: String, title: String, purpose: DownloadPurpose, error: String },
    ExternalDownloadQueued { download_id: String, title: String, source_url: String, progress: P },
    ExternalDownloadStarted {
        download_id: String,
        title: String,
        source_url: String,
        destination: String,
        duration_seconds: Option<u64>,
        progress: P,
    },
    ExternalDownloadCompleted {
        download_id: String,
        title: String,
        source_url: String,
        destination: String,
    },
    ExternalDownloadCancelled { download_id: String },
    ExternalDownloadFailed {
        download_id: String,
        title: String,
        source_url: String,
        destination: Option<String>,
        error: String,
    },
    PlaybackReady { request_id: u64, playback: ReadyPlayback<P> },
    PlaybackFailed { request_id: u64, title: String, error: String },
}

/// The transfers of a sequence, by track id; later entries win.
pub open spec fn transfer_map<P>(s: Seq<ActiveTransfer<P>>) -> Map<Seq<char>, ActiveTransfer<P>>
    decreases s.len(),
{
    if s.len() == 0 {
        Map::empty()
    } else {
        transfer_map(s.drop_last()).insert(s.last().track_id@, s.last())
    }
}

/// No two transfers share a track id.
pub open spec fn unique_ids<P>(s: Seq<ActiveTransfer<P>>) -> bool {
    forall|i: int, j: int| 0 <= i < j < s.len() ==> (#[trigger] s[i]).track_id@ != (#[trigger] s[j]).track_id@
}

/// The texts of a sequence of strings, as a set.
pub open spec fn text_set(s: Seq<String>) -> Set<Seq<char>> {
    Set::new(|k: Seq<char>| exists|i: int| 0 <= i < s.len() && (#[trigger] s[i])@ == k)
}

/// No text occurs twice.
pub open spec fn unique_texts(s: Seq<String>) -> bool {
    forall|i: int, j: int| 0 <= i < j < s.len() ==> (#[trigger] s[i])@ != (#[trigger] s[j])@
}

proof fn lemma_transfer_map_dom<P>(s: Seq<ActiveTransfer<P>>, k: Seq<char>)
    ensures
        transfer_map(s).dom().contains(k) <==> exists|i: int| 0 <= i < s.len() && (#[trigger] s[i]).track_id@ == k,
    decreases s.len(),
{
    if s.len() > 0 {
        let r = s.drop_last();
        lemma_transfer_map_dom(r, k);
        if transfer_map(s).dom().contains(k) {
            if k == s.last().track_id@ {
                assert(s[s.len() - 1].track_id@ == k);
            } else {
                let i = choose|i: int| 0 <= i < r.len() && (#[trigger] r[i]).track_id@ == k;
                assert(s[i] == r[i]);
            }
        }
        if exists|i: int| 0 <= i < s.len() && (#[trigger] s[i]).track_id@ == k {
            let i = choose|i: int| 0 <= i < s.len() && (#[trigger] s[i]).track_id@ == k;
            if i < s.len() - 1 {
                assert(r[i] == s[i]);
            }
        }
    }
}

proof fn lemma_unique_prefix<P>(s: Seq<ActiveTransfer<P>>)
    requires
        unique_ids(s),
        s.len() > 0,
    ensures
        unique_ids(s.drop_last()),
{
    let r = s.drop_last();
    assert forall|i: int, j: int| 0 <= i < j < r.len() implies (#[trigger] r[i]).track_id@ != (#[trigger] r[j]).track_id@ by {
        assert(r[i] == s[i] && r[j] == s[j]);
    }
}

proof fn lemma_transfer_map_value<P>(s: Seq<ActiveTransfer<P>>, i: int)
    requires
        unique_ids(s),
        0 <= i < s.len(),
    ensures
        transfer_map(s).dom().contains(s[i].track_id@),
        transfer_map(s)[s[i].track_id@] == s[i],
    decreases s.len(),
{
    if i < s.len() - 1 {
        let r = s.drop_last();
        lemma_unique_prefix(s);
        assert(r[i] == s[i]);
        lemma_transfer_map_value(r, i);
        assert(s[i].track_id@ != s[s.len() - 1].track_id@);
    }
}

proof fn lemma_transfer_map_remove<P>(s: Seq<ActiveTransfer<P>>, idx: int)
    requires
        unique_ids(s),
        0 <= idx < s.len(),
    ensures
        unique_ids(s.remove(idx)),
        transfer_map(s.remove(idx)) == transfer_map(s).remove(s[idx].track_id@),
{
    let t = s.remove(idx);
    let k = s[idx].track_id@;
    assert forall|j: int| 0 <= j < t.len() implies #[trigger] t[j] == (if j < idx { s[j] } else { s[j + 1] }) by {}
    assert forall|a: int, b: int| 0 <= a < b < t.len() implies (#[trigger] t[a]).track_id@ != (#[trigger] t[b]).track_id@ by {
        let ia = if a < idx { a } else { a + 1 };
        let ib = if b < idx { b } else { b + 1 };
        assert(t[a] == s[ia] && t[b] == s[ib]);
    }
    let mt = transfer_map(t);
    let ms = transfer_map(s).remove(k);
    assert forall|key: Seq<char>| mt.dom().contains(key) <==> ms.dom().contains(key) by {
        lemma_transfer_map_dom(t, key);
        lemma_transfer_map_dom(s, key);
        if mt.dom().contains(key) {
            let j = choose|j: int| 0 <= j < t.len() && (#[trigger] t[j]).track_id@ == key;
            let i = if j < idx { j } else { j + 1 };
            assert(t[j] == s[i]);
            assert(s[i].track_id@ != k);
        }
        if ms.dom().contains(key) {
            let i = choose|i: int| 0 <= i < s.len() && (#[trigger] s[i]).track_id@ == key;
            assert(i != idx);
            let j = if i < idx { i } else { i - 1 };
            assert(t[j] == s[i]);
        }
    }
    assert forall|key: Seq<char>| mt.dom().contains(key) implies mt[key] == ms[key] by {
        lemma_transfer_map_dom(t, key);
        let j = choose|j: int| 0 <= j < t.len() && (#[trigger] t[j]).track_id@ == key;
        let i = if j < idx { j } else { j + 1 };
        assert(t[j] == s[i]);
        lemma_transfer_map_value(t, j);
        lemma_transfer_map_value(s, i);
    }
    assert(mt =~= ms);
}

proof fn lemma_transfer_map_push<P>(s: Seq<ActiveTransfer<P>>, x: ActiveTransfer<P>)
    requires
        unique_ids(s),
        !transfer_map(s).dom().contains(x.track_id@),
    ensures
        unique_ids(s.push(x)),
        transfer_map(s.push(x)) == transfer_map(s).insert(x.track_id@, x),
{
    let t = s.push(x);
    assert(t.drop_last() =~= s);
    assert forall|a: int, b: int| 0 <= a < b < t.len() implies (#[trigger] t[a]).track_id@ != (#[trigger] t[b]).track_id@ by {
        assert(t[a] == s[a]);
        if b == s.len() {
            lemma_transfer_map_dom(s, x.track_id@);
        } else {
            assert(t[b] == s[b]);
        }
    }
}

proof fn lemma_text_set_remove(s: Seq<String>, idx: int)
    requires
        unique_texts(s),
        0 <= idx < s.len(),
    ensures
        unique_texts(s.remove(idx)),
        text_set(s.remove(idx)) == text_set(s).remove(s[idx]@),
{
    let t = s.remove(idx);
    assert forall|j: int| 0 <= j < t.len() implies #[trigger] t[j] == (if j < idx { s[j] } else { s[j + 1] }) by {}
    assert forall|a: int, b: int| 0 <= a < b < t.len() implies (#[trigger] t[a])@ != (#[trigger] t[b])@ by {
        let ia = if a < idx { a } else { a + 1 };
        let ib = if b < idx { b } else { b + 1 };
        assert(t[a] == s[ia] && t[b] == s[ib]);
    }
    assert forall|key: Seq<char>| text_set(t).contains(key) <==> text_set(s).remove(s[idx]@).contains(key) by {
        if text_set(t).contains(key) {
            let j = choose|j: int| 0 <= j < t.len() && (#[trigger] t[j])@ == key;
            let i = if j < idx { j } else { j + 1 };
            assert(t[j] == s[i]);
        }
        if text_set(s).remove(s[idx]@).contains(key) {
            let i = choose|i: int| 0 <= i < s.len() && (#[trigger] s[i])@ == key;
            let j = if i < idx { i } else { i - 1 };
            assert(t[j] == s[i]);
        }
    }
    assert(text_set(t) =~= text_set(s).remove(s[idx]@));
}

proof fn lemma_text_set_push(s: Seq<String>, x: String)
    requires
        unique_texts(s),
        !text_set(s).contains(x@),
    ensures
        unique_texts(s.push(x)),
        text_set(s.push(x)) == text_set(s).insert(x@),
{
    let t = s.push(x);
    assert forall|a: int, b: int| 0 <= a < b < t.len() implies (#[trigger] t[a])@ != (#[trigger] t[b])@ by {
        assert(t[a] == s[a]);
        if b < s.len() {
            assert(t[b] == s[b]);
        }
    }
    assert forall|key: Seq<char>| text_set(t).contains(key) <==> text_set(s).insert(x@).contains(key) by {
        if text_set(t).contains(key) {
            let j = choose|j: int| 0 <= j < t.len() && (#[trigger] t[j])@ == key;
            if j < s.len() {
                assert(t[j] == s[j]);
            }
        }
        if text_set(s).contains(key) {
            let i = choose|i: int| 0 <= i < s.len() && (#[trigger] s[i])@ == key;
            assert(t[i] == s[i]);
        }
        if key == x@ {
            assert(t[s.len() as int] == x);
        }
    }
    assert(text_set(t) =~= text_set(s).insert(x@));
}

/// Where, if anywhere, a track's transfer stands in the list.
fn find_transfer<P>(downloads: &Vec<ActiveTransfer<P>>, key: &String) -> (r: Option<usize>)
    ensures
        match r {
            Some(i) => i < downloads@.len() && downloads@[i as int].track_id@ == key@,
            None => forall|i: int| 0 <= i < downloads@.len() ==> (#[trigger] downloads@[i]).track_id@ != key@,
        },
{
    let n = downloads.len();
    for i in 0..n
        invariant
            n == downloads@.len(),
            forall|j: int| 0 <= j < i ==> (#[trigger] downloads@[j]).track_id@ != key@,
    {
        if downloads[i].track_id == *key {
            return Some(i);
        }
    }
    None
}

/// Where, if anywhere, a text stands in the list.
fn find_text(texts: &Vec<String>, key: &String) -> (r: Option<usize>)
    ensures
        match r {
            Some(i) => i < texts@.len() && texts@[i as int]@ == key@,
            None => forall|i: int| 0 <= i < texts@.len() ==> (#[trigger] texts@[i])@ != key@,
        },
{
    let n = texts.len();
    for i in 0..n
        invariant
            n == texts@.len(),
            forall|j: int| 0 <= j < i ==> (#[trigger] texts@[j])@ != key@,
    {
        if texts[i] == *key {
            return Some(i);
        }
    }
    None
}

/// A queued or running download.
pub open spec fn is_live<P>(state: DownloadItemState<P>) -> bool {
    state is Queued || state is Active
}

/// The progress handle of a queued or running download.
pub open spec fn progress_of<P>(state: DownloadItemState<P>) -> Option<P> {
    match state {
        DownloadItemState::Queued { progress, .. } => Some(progress),
        DownloadItemState::Active { progress, .. } => Some(progress),
        _ => None,
    }
}

/// The source a download came from, where it is known.
pub open spec fn source_url_of<P>(state: DownloadItemState<P>) -> Option<String> {
    match state {
        DownloadItemState::Queued { source_url, .. } => Some(source_url),
        DownloadItemState::Active { source_url, .. } => source_url,
        DownloadItemState::Completed { source_url, .. } => Some(source_url),
        DownloadItemState::Failed { source_url, .. } => Some(source_url),
    }
}

/// Where a download is written, where it is known.
pub open spec fn destination_of<P>(state: DownloadItemState<P>) -> Option<String> {
    match state {
        DownloadItemState::Queued { .. } => None,
        DownloadItemState::Active { destination, .. } => destination,
        DownloadItemState::Completed { destination, .. } => Some(destination),
        DownloadItemState::Failed { destination, .. } => destination,
    }
}

/// A running history entry knows its source.
pub open spec fn keeps_source<P>(item: ExternalDownloadItem<P>) -> bool {
    item.state is Active ==> source_url_of(item.state) is Some
}

/// `b` is a copy of `a`: equal fields, a cloned progress handle.
pub open spec fn state_copy<P: Clone>(a: DownloadItemState<P>, b: DownloadItemState<P>) -> bool {
    match (a, b) {
        (
            DownloadItemState::Queued { source_url: u1, progress: p1 },
            DownloadItemState::Queued { source_url: u2, progress: p2 },
        ) => u1 == u2 && cloned(p1, p2),
        (
            DownloadItemState::Active { progress: p1, source_url: u1, destination: d1, started_at: s1, duration_seconds: t1 },
            DownloadItemState::Active { progress: p2, source_url: u2, destination: d2, started_at: s2, duration_seconds: t2 },
        ) => cloned(p1, p2) && u1 == u2 && d1 == d2 && s1 == s2 && t1 == t2,
        (DownloadItemState::Completed { .. }, DownloadItemState::Completed { .. }) => a == b,
        (DownloadItemState::Failed { .. }, DownloadItemState::Failed { .. }) => a == b,
        _ => false,
    }
}

/// `b` is a copy of `a`.
pub open spec fn transfer_copy<P: Clone>(a: ActiveTransfer<P>, b: ActiveTransfer<P>) -> bool {
    &&& b.track_id == a.track_id
    &&& b.title == a.title
    &&& b.purpose == a.purpose
    &&& b.started_at == a.started_at
    &&& cloned(a.progress, b.progress)
}

/// The history entry `a` as the downloads list shows it, `b` holding a copy.
pub open spec fn external_listed<P: Clone>(a: ExternalDownloadItem<P>, b: DownloadItem<P>) -> bool {
    &&& b.id == a.id
    &&& b.title == a.title
    &&& b.purpose == DownloadPurpose::ExternalUrl
    &&& state_copy(a.state, b.state)
}

/// The history after `item` is recorded: newest first, one entry per id,
/// at most the history limit.
pub open spec fn upserted<P>(history: Seq<ExternalDownloadItem<P>>, item: ExternalDownloadItem<P>) -> Seq<ExternalDownloadItem<P>> {
    let all = seq![item] + history.filter(|x: ExternalDownloadItem<P>| x.id@ != item.id@);
    if all.len() <= EXTERNAL_DOWNLOAD_HISTORY_LIMIT { all } else { all.take(EXTERNAL_DOWNLOAD_HISTORY_LIMIT as int) }
}

/// Recording an external download puts it first, leaves no other entry of
/// its id, keeps every other entry in order, and stays within the limit.
pub proof fn lemma_upsert_single_entry<P>(history: Seq<ExternalDownloadItem<P>>, item: ExternalDownloadItem<P>)
    ensures
        upserted(history, item).len() <= EXTERNAL_DOWNLOAD_HISTORY_LIMIT,
        upserted(history, item)[0] == item,
        forall|i: int| 1 <= i < upserted(history, item).len() ==> (#[trigger] upserted(history, item)[i]).id@ != item.id@,
        history.len() < EXTERNAL_DOWNLOAD_HISTORY_LIMIT ==> upserted(history, item).len() == 1 + history.filter(|x: ExternalDownloadItem<P>| x.id@ != item.id@).len(),
{
    let pred = |x: ExternalDownloadItem<P>| x.id@ != item.id@;
    let kept = history.filter(pred);
    let all = seq![item] + kept;
    history.lemma_filter_len(pred);
    assert forall|i: int| 1 <= i < upserted(history, item).len() implies (#[trigger] upserted(history, item)[i]).id@ != item.id@ by {
        assert(upserted(history, item)[i] == all[i]);
        assert(all[i] == kept[i - 1]);
        history.lemma_filter_pred(pred, i - 1);
    }
}

/// A live entry of the history with the given id.
pub open spec fn live_with_id<P>(id: Seq<char>) -> spec_fn(ExternalDownloadItem<P>) -> bool {
    |x: ExternalDownloadItem<P>| x.id@ == id && is_live(x.state)
}

/// An entry of the history downloaded from the given source.
pub open spec fn from_source<P>(url: Seq<char>) -> spec_fn(ExternalDownloadItem<P>) -> bool {
    |x: ExternalDownloadItem<P>| source_url_of(x.state) matches Some(u) && u@ == url
}

/// The history entry a persisted download restores to; pending downloads
/// are not restored.
pub open spec fn restored_entry<P>(d: PersistedExternalDownload) -> Option<ExternalDownloadItem<P>> {
    match d.state {
        PersistedExternalDownloadState::Completed { destination } => Some(ExternalDownloadItem {
            id: d.id,
            title: d.title,
            state: DownloadItemState::Completed { source_url: d.source_url, destination },
        }),
        PersistedExternalDownloadState::Failed { destination, error } => Some(ExternalDownloadItem {
            id: d.id,
            title: d.title,
            state: DownloadItemState::Failed { source_url: d.source_url, destination, error },
        }),
        PersistedExternalDownloadState::Pending => None,
    }
}

/// The history restored from persisted downloads.
pub open spec fn restored_history<P>(downloads: Seq<PersistedExternalDownload>) -> Seq<ExternalDownloadItem<P>> {
    let all = downloads.filter_map(|d: PersistedExternalDownload| restored_entry::<P>(d));
    if all.len() <= EXTERNAL_DOWNLOAD_HISTORY_LIMIT { all } else { all.take(EXTERNAL_DOWNLOAD_HISTORY_LIMIT as int) }
}

/// What the session keeps of a history entry, given its progress snapshot
/// (read only for queued and running downloads).
pub open spec fn persisted_entry<P>(item: ExternalDownloadItem<P>, snap: ProgressSnapshot) -> PersistedExternalDownload {
    let live = is_live(item.state);
    PersistedExternalDownload {
        id: item.id,
        title: item.title,
        source_url: source_url_of(item.state).unwrap(),
        destination: destination_of(item.state),
        paused: live && snap.paused,
        downloaded_bytes: if live && snap.downloaded_bytes > 0 { Some(snap.downloaded_bytes) } else { None },
        total_bytes: if live { snap.total_bytes } else { None },
        state: match item.state {
            DownloadItemState::Completed { destination, .. } => PersistedExternalDownloadState::Completed { destination },
            DownloadItemState::Failed { destination, error, .. } => PersistedExternalDownloadState::Failed { destination, error },
            _ => PersistedExternalDownloadState::Pending,
        },
    }
}

/// Downloads in flight by track, the tracks whose download the user
/// cancelled, and the external download history, newest first.
pub struct TransferStateModel<P> {
    downloads: Vec<ActiveTransfer<P>>,
    cancelled_downloads: Vec<String>,
    external_downloads: Vec<ExternalDownloadItem<P>>,
}

fn clone_string_opt(o: &Option<String>) -> (r: Option<String>)
    ensures
        r == *o,
{
    clone_opt_string(o)
}

fn clone_state<P: Clone>(s: &DownloadItemState<P>) -> (r: DownloadItemState<P>)
    ensures
        state_copy(*s, r),
{
    match s {
        DownloadItemState::Queued { source_url, progress } => DownloadItemState::Queued {
            source_url: source_url.clone(),
            progress: progress.clone(),
        },
        DownloadItemState::Active { progress, source_url, destination, started_at, duration_seconds } => DownloadItemState::Active {
            progress: progress.clone(),
            source_url: clone_string_opt(source_url),
            destination: clone_string_opt(destination),
            started_at: *started_at,
            duration_seconds: *duration_seconds,
        },
        DownloadItemState::Completed { source_url, destination } => DownloadItemState::Completed {
            source_url: source_url.clone(),
            destination: destination.clone(),
        },
        DownloadItemState::Failed { source_url, destination, error } => DownloadItemState::Failed {
            source_url: source_url.clone(),
            destination: clone_string_opt(destination),
            error: error.clone(),
        },
    }
}

fn list_external<P: Clone>(item: &ExternalDownloadItem<P>) -> (r: DownloadItem<P>)
    ensures
        external_listed(*item, r),
{
    DownloadItem {
        id: item.id.clone(),
        title: item.title.clone(),
        purpose: DownloadPurpose::ExternalUrl,
        state: clone_state(&item.state),
    }
}

fn remove_transfer<P>(v: &mut Vec<ActiveTransfer<P>>, key: &String) -> (r: Option<ActiveTransfer<P>>)
    requires
        unique_ids(old(v)@),
    ensures
        unique_ids(final(v)@),
        transfer_map(final(v)@) == transfer_map(old(v)@).remove(key@),
        match r {
            Some(t) => transfer_map(old(v)@).dom().contains(key@) && transfer_map(old(v)@)[key@] == t,
            None => !transfer_map(old(v)@).dom().contains(key@),
        },
{
    proof { lemma_transfer_map_dom(v@, key@); }
    match find_transfer(v, key) {
        Some(i) => {
            proof {
                lemma_transfer_map_value(v@, i as int);
                lemma_transfer_map_remove(v@, i as int);
            }
            Some(v.remove(i))
        },
        None => {
            proof { assert(transfer_map(v@).remove(key@) =~= transfer_map(v@)); }
            None
        },
    }
}

fn remove_text(v: &mut Vec<String>, key: &String)
    requires
        unique_texts(old(v)@),
    ensures
        unique_texts(final(v)@),
        text_set(final(v)@) == text_set(old(v)@).remove(key@),
{
    match find_text(v, key) {
        Some(i) => {
            proof { lemma_text_set_remove(v@, i as int); }
            v.remove(i);
        },
        None => {
            proof {
                assert(text_set(v@).remove(key@) =~= text_set(v@));
            }
        },
    }
}

fn insert_text(v: &mut Vec<String>, key: String)
    requires
        unique_texts(old(v)@),
    ensures
        unique_texts(final(v)@),
        text_set(final(v)@) == text_set(old(v)@).insert(key@),
{
    match find_text(v, &key) {
        Some(i) => {
            proof { assert(text_set(v@).insert(key@) =~= text_set(v@)); }
        },
        None => {
            proof { lemma_text_set_push(v@, key); }
            v.push(key);
        },
    }
}

impl<P> TransferStateModel<P> {
    #[verifier::type_invariant]
    spec fn well_formed(self) -> bool {
        &&& unique_ids(self.downloads@)
        &&& unique_texts(self.cancelled_downloads@)
        &&& self.external_downloads@.len() <= EXTERNAL_DOWNLOAD_HISTORY_LIMIT
        &&& forall|i: int| 0 <= i < self.external_downloads@.len() ==> keeps_source(#[trigger] self.external_downloads@[i])
    }

    /// The downloads in flight, by track key.
    pub closed spec fn transfers(self) -> Map<Seq<char>, ActiveTransfer<P>> {
        transfer_map(self.downloads@)
    }

    /// The track keys whose download the user cancelled.
    pub closed spec fn cancelled(self) -> Set<Seq<char>> {
        text_set(self.cancelled_downloads@)
    }

    /// The external download history, newest first.
    pub closed spec fn history(self) -> Seq<ExternalDownloadItem<P>> {
        self.external_downloads@
    }

    /// A model with no downloads.
    pub fn new() -> (r: Self)
        ensures
            r.transfers() == Map::<Seq<char>, ActiveTransfer<P>>::empty(),
            r.cancelled() == Set::<Seq<char>>::empty(),
            r.history() == Seq::<ExternalDownloadItem<P>>::empty(),
    {
        let r = TransferStateModel { downloads: Vec::new(), cancelled_downloads: Vec::new(), external_downloads: Vec::new() };
        proof {
            assert(transfer_map(r.downloads@) =~= Map::<Seq<char>, ActiveTransfer<P>>::empty());
            assert(text_set(r.cancelled_downloads@) =~= Set::<Seq<char>>::empty());
        }
        r
    }

    /// Records a track download that started at `now`; it is no longer
    /// counted as cancelled.
    pub fn start_download(&mut self, track_id: String, title: String, purpose: DownloadPurpose, progress: P, now: u64)
        ensures
            final(self).transfers() == old(self).transfers().insert(
                track_id@,
                (ActiveTransfer { track_id, title, purpose, progress, started_at: now }),
            ),
            final(self).cancelled() == old(self).cancelled().remove(track_id@),
            final(self).history() == old(self).history(),
    {
        proof { use_type_invariant(&*self); }
        let ghost old_map = transfer_map(self.downloads@);
        let mut downloads = Vec::new();
        std::mem::swap(&mut downloads, &mut self.downloads);
        let mut cancelled = Vec::new();
        std::mem::swap(&mut cancelled, &mut self.cancelled_downloads);
        remove_text(&mut cancelled, &track_id);
        remove_transfer(&mut downloads, &track_id);
        let ghost key = track_id@;
        let t = ActiveTransfer { track_id, title, purpose, progress, started_at: now };
        proof {
            lemma_transfer_map_push(downloads@, t);
            assert(old_map.remove(key).insert(key, t) =~= old_map.insert(key, t));
        }
        downloads.push(t);
        self.downloads = downloads;
        self.cancelled_downloads = cancelled;
    }

    /// Forgets a track download that ended.
    pub fn finish_download(&mut self, track_id: &String)
        ensures
            final(self).transfers() == old(self).transfers().remove(track_id@),
            final(self).cancelled() == old(self).cancelled().remove(track_id@),
            final(self).history() == old(self).history(),
    {
        proof { use_type_invariant(&*self); }
        let mut downloads = Vec::new();
        std::mem::swap(&mut downloads, &mut self.downloads);
        let mut cancelled = Vec::new();
        std::mem::swap(&mut cancelled, &mut self.cancelled_downloads);
        remove_transfer(&mut downloads, track_id);
        remove_text(&mut cancelled, track_id);
        self.downloads = downloads;
        self.cancelled_downloads = cancelled;
    }

    /// Whether the track is being downloaded.
    pub fn track_is_downloading(&self, track: &TrackSummary) -> (r: bool)
        ensures
            r == self.transfers().dom().contains(track_key_view(track.reference.provider, track.reference.id@)),
    {
        let key = track_cache_key(track);
        proof { lemma_transfer_map_dom(self.downloads@, key@); }
        find_transfer(&self.downloads, &key).is_some()
    }

    /// Whether the user cancelled the track's download.
    pub fn was_cancelled(&self, track_id: &String) -> (r: bool)
        ensures
            r == self.cancelled().contains(track_id@),
    {
        find_text(&self.cancelled_downloads, track_id).is_some()
    }

    /// Cancels the track's download where the user asked for it: the
    /// download is forgotten, recorded as cancelled, and its progress handle
    /// is handed back to be stopped. Other downloads are left alone.
    pub fn cancel_explicit_download(&mut self, track: &TrackSummary) -> (r: Option<P>)
        ensures
            ({
                let k = track_key_view(track.reference.provider, track.reference.id@);
                let m = old(self).transfers();
                if m.dom().contains(k) && m[k].purpose == DownloadPurpose::Explicit {
                    &&& r == Some(m[k].progress)
                    &&& final(self).transfers() == m.remove(k)
                    &&& final(self).cancelled() == old(self).cancelled().insert(k)
                } else {
                    &&& r is None
                    &&& final(self).transfers() == m
                    &&& final(self).cancelled() == old(self).cancelled()
                }
            }),
            final(self).history() == old(self).history(),
    {
        proof { use_type_invariant(&*self); }
        let key = track_cache_key(track);
        proof { lemma_transfer_map_dom(self.downloads@, key@); }
        let idx = match find_transfer(&self.downloads, &key) {
            Some(i) => i,
            None => return None,
        };
        proof { lemma_transfer_map_value(self.downloads@, idx as int); }
        if self.downloads[idx].purpose != DownloadPurpose::Explicit {
            return None;
        }
        let mut downloads = Vec::new();
        std::mem::swap(&mut downloads, &mut self.downloads);
        let mut cancelled = Vec::new();
        std::mem::swap(&mut cancelled, &mut self.cancelled_downloads);
        proof { lemma_transfer_map_remove(downloads@, idx as int); }
        let removed = downloads.remove(idx);
        insert_text(&mut cancelled, key);
        self.downloads = downloads;
        self.cancelled_downloads = cancelled;
        Some(removed.progress)
    }

    /// Whether any download is queued or running.
    pub fn has_active_downloads(&self) -> (r: bool)
        ensures
            r == (self.transfers().dom() != Set::<Seq<char>>::empty()
                || exists|i: int| 0 <= i < self.history().len() && is_live((#[trigger] self.history()[i]).state)),
    {
        if self.downloads.len() > 0 {
            proof {
                lemma_transfer_map_dom(self.downloads@, self.downloads@[0].track_id@);
                assert(!Set::<Seq<char>>::empty().contains(self.downloads@[0].track_id@));
            }
            return true;
        }
        proof {
            assert(transfer_map(self.downloads@) =~= Map::<Seq<char>, ActiveTransfer<P>>::empty());
            assert(transfer_map(self.downloads@).dom() =~= Set::<Seq<char>>::empty());
        }
        let n = self.external_downloads.len();
        for i in 0..n
            invariant
                n == self.external_downloads@.len(),
                forall|j: int| 0 <= j < i ==> !is_live((#[trigger] self.external_downloads@[j]).state),
        {
            match &self.external_downloads[i].state {
                DownloadItemState::Queued { .. } | DownloadItemState::Active { .. } => return true,
                _ => {},
            }
        }
        false
    }
}


impl<P> TransferStateModel<P> {
    /// Records an external download as the newest history entry, replacing
    /// an older entry of the same id and dropping entries past the limit.
    fn upsert_external_download(&mut self, item: ExternalDownloadItem<P>)
        requires
            keeps_source(item),
        ensures
            final(self).history() == upserted(old(self).history(), item),
            final(self).transfers() == old(self).transfers(),
            final(self).cancelled() == old(self).cancelled(),
    {
        proof { use_type_invariant(&*self); }
        let ghost orig = self.external_downloads@;
        let ghost item_v = item;
        let ghost pred = |x: ExternalDownloadItem<P>| x.id@ != item.id@;
        let mut rest: Vec<ExternalDownloadItem<P>> = Vec::new();
        std::mem::swap(&mut rest, &mut self.external_downloads);
        let mut kept: Vec<ExternalDownloadItem<P>> = Vec::new();
        let mut consumed: usize = 0;
        let total = rest.len();
        while rest.len() > 0
            invariant
                total == orig.len(),
                pred == (|x: ExternalDownloadItem<P>| x.id@ != item_v.id@),
                item_v == item,
                consumed + rest@.len() == orig.len(),
                rest@ == orig.skip(consumed as int),
                kept@ == orig.take(consumed as int).filter(pred),
                forall|i: int| 0 <= i < orig.len() ==> keeps_source(#[trigger] orig[i]),
            decreases rest@.len(),
        {
            let x = rest.remove(0);
            proof {
                assert(x == orig[consumed as int]);
                assert(orig.take(consumed as int + 1).drop_last() =~= orig.take(consumed as int));
                reveal(Seq::filter);
            }
            let keep = x.id != item.id;
            if keep {
                kept.push(x);
            }
            consumed = consumed + 1;
            proof {
                assert(rest@ =~= orig.skip(consumed as int));
            }
        }
        proof {
            assert(orig.take(orig.len() as int) =~= orig);
        }
        let mut all: Vec<ExternalDownloadItem<P>> = Vec::new();
        all.push(item);
        all.append(&mut kept);
        proof {
            assert(all@ =~= seq![item_v] + orig.filter(pred));
            assert forall|i: int| 0 <= i < all@.len() implies keeps_source(#[trigger] all@[i]) by {
                if i > 0 {
                    let y = all@[i];
                    assert(orig.filter(pred).contains(y));
                    orig.lemma_filter_contains_rev(pred, y);
                }
            }
        }
        all.truncate(EXTERNAL_DOWNLOAD_HISTORY_LIMIT);
        self.external_downloads = all;
    }

    fn live_index(&self, download_id: &String) -> (r: Option<usize>)
        ensures
            match r {
                Some(i) => first_index(self.history(), live_with_id(download_id@)) == Some(i as int),
                None => first_index(self.history(), live_with_id(download_id@)) is None,
            },
    {
        let ghost pred = live_with_id::<P>(download_id@);
        let n = self.external_downloads.len();
        for i in 0..n
            invariant
                n == self.external_downloads@.len(),
                pred == live_with_id::<P>(download_id@),
                forall|j: int| 0 <= j < i ==> !pred(#[trigger] self.external_downloads@[j]),
        {
            let item = &self.external_downloads[i];
            let live = match &item.state {
                DownloadItemState::Queued { .. } | DownloadItemState::Active { .. } => true,
                _ => false,
            };
            if live && item.id == *download_id {
                proof {
                    assert(pred(self.external_downloads@[i as int]));
                    lemma_first_index_found(self.external_downloads@, pred, i as int);
                }
                return Some(i);
            }
        }
        proof { lemma_first_index_none(self.external_downloads@, pred); }
        None
    }

    /// Cancels the first queued or running external download of the id:
    /// it leaves the history and its progress handle is handed back to be
    /// stopped.
    pub fn cancel_external_download(&mut self, download_id: &String) -> (r: Option<P>)
        ensures
            match first_index(old(self).history(), live_with_id(download_id@)) {
                Some(i) => r == progress_of(old(self).history()[i].state)
                    && r is Some
                    && final(self).history() == old(self).history().remove(i),
                None => r is None && final(self).history() == old(self).history(),
            },
            final(self).history().len() <= EXTERNAL_DOWNLOAD_HISTORY_LIMIT,
            final(self).transfers() == old(self).transfers(),
            final(self).cancelled() == old(self).cancelled(),
    {
        proof {
            use_type_invariant(&*self);
            crate::browse::lemma_first_index_valid(self.external_downloads@, live_with_id::<P>(download_id@));
        }
        let idx = match self.live_index(download_id) {
            Some(i) => i,
            None => return None,
        };
        let mut history = Vec::new();
        std::mem::swap(&mut history, &mut self.external_downloads);
        let ghost before = history@;
        let removed = history.remove(idx);
        proof {
            assert forall|i: int| 0 <= i < history@.len() implies keeps_source(#[trigger] history@[i]) by {
                if i < idx { assert(history@[i] == before[i]); } else { assert(history@[i] == before[i + 1]); }
            }
        }
        self.external_downloads = history;
        match removed.state {
            DownloadItemState::Queued { progress, .. } => Some(progress),
            DownloadItemState::Active { progress, .. } => Some(progress),
            _ => None,
        }
    }

    /// The progress handle of the first queued or running external download
    /// of the id, to be paused.
    pub fn pause_external_download(&self, download_id: &String) -> (r: Option<&P>)
        ensures
            match first_index(self.history(), live_with_id(download_id@)) {
                Some(i) => r is Some && progress_of(self.history()[i].state) == Some(*r.unwrap()),
                None => r is None,
            },
    {
        self.live_progress(download_id)
    }

    /// The progress handle of the first queued or running external download
    /// of the id, to be resumed.
    pub fn resume_external_download(&self, download_id: &String) -> (r: Option<&P>)
        ensures
            match first_index(self.history(), live_with_id(download_id@)) {
                Some(i) => r is Some && progress_of(self.history()[i].state) == Some(*r.unwrap()),
                None => r is None,
            },
    {
        self.live_progress(download_id)
    }

    fn live_progress(&self, download_id: &String) -> (r: Option<&P>)
        ensures
            match first_index(self.history(), live_with_id(download_id@)) {
                Some(i) => r is Some && progress_of(self.history()[i].state) == Some(*r.unwrap()),
                None => r is None,
            },
    {
        proof { crate::browse::lemma_first_index_valid(self.external_downloads@, live_with_id::<P>(download_id@)); }
        match self.live_index(download_id) {
            Some(i) => match &self.external_downloads[i].state {
                DownloadItemState::Queued { progress, .. } => Some(progress),
                DownloadItemState::Active { progress, .. } => Some(progress),
                _ => None,
            },
            None => None,
        }
    }

    /// The number of entries in the external download history.
    pub fn external_download_count(&self) -> (r: usize)
        ensures
            r == self.history().len(),
    {
        self.external_downloads.len()
    }

    /// The progress handle of the history entry at `index`, for a queued or
    /// running download.
    pub fn external_download_progress(&self, index: usize) -> (r: Option<&P>)
        requires
            index < self.history().len(),
        ensures
            match progress_of(self.history()[index as int].state) {
                Some(p) => r is Some && *r.unwrap() == p,
                None => r is None,
            },
    {
        match &self.external_downloads[index].state {
            DownloadItemState::Queued { progress, .. } => Some(progress),
            DownloadItemState::Active { progress, .. } => Some(progress),
            _ => None,
        }
    }

    /// Replaces the history with the finished downloads of a saved session,
    /// in order, up to the history limit; pending downloads are dropped.
    pub fn restore_persisted_external_downloads(&mut self, downloads: Vec<PersistedExternalDownload>)
        ensures
            final(self).history() == restored_history::<P>(downloads@),
            final(self).history().len() <= EXTERNAL_DOWNLOAD_HISTORY_LIMIT,
            final(self).transfers() == old(self).transfers(),
            final(self).cancelled() == old(self).cancelled(),
    {
        proof { use_type_invariant(&*self); }
        let ghost orig = downloads@;
        let ghost f = |d: PersistedExternalDownload| restored_entry::<P>(d);
        let mut rest = downloads;
        let mut restored: Vec<ExternalDownloadItem<P>> = Vec::new();
        let mut consumed: usize = 0;
        let total = rest.len();
        while rest.len() > 0
            invariant
                total == orig.len(),
                f == (|d: PersistedExternalDownload| restored_entry::<P>(d)),
                consumed + rest@.len() == orig.len(),
                rest@ == orig.skip(consumed as int),
                restored@ == orig.take(consumed as int).filter_map(f),
                forall|i: int| 0 <= i < restored@.len() ==> !((#[trigger] restored@[i]).state is Active),
            decreases rest@.len(),
        {
            let d = rest.remove(0);
            proof {
                assert(d == orig[consumed as int]);
                assert(orig.take(consumed as int + 1).drop_last() =~= orig.take(consumed as int));
            }
            let PersistedExternalDownload { id, title, source_url, state, .. } = d;
            match state {
                PersistedExternalDownloadState::Completed { destination } => {
                    restored.push(ExternalDownloadItem {
                        id,
                        title,
                        state: DownloadItemState::Completed { source_url, destination },
                    });
                },
                PersistedExternalDownloadState::Failed { destination, error } => {
                    restored.push(ExternalDownloadItem {
                        id,
                        title,
                        state: DownloadItemState::Failed { source_url, destination, error },
                    });
                },
                PersistedExternalDownloadState::Pending => {},
            }
            consumed = consumed + 1;
            proof {
                assert(rest@ =~= orig.skip(consumed as int));
            }
        }
        proof {
            assert(orig.take(orig.len() as int) =~= orig);
        }
        restored.truncate(EXTERNAL_DOWNLOAD_HISTORY_LIMIT);
        self.external_downloads = restored;
    }

    /// What the session keeps of the history, entry by entry; `snapshots`
    /// holds the current progress of each entry's download (read only for
    /// queued and running ones).
    pub fn persisted_external_downloads(&self, snapshots: &[ProgressSnapshot]) -> (r: Vec<PersistedExternalDownload>)
        requires
            snapshots@.len() == self.history().len(),
        ensures
            r@.len() == self.history().len(),
            forall|i: int| 0 <= i < r@.len() ==> #[trigger] r@[i] == persisted_entry(self.history()[i], snapshots@[i]),
    {
        proof { use_type_invariant(self); }
        let mut out: Vec<PersistedExternalDownload> = Vec::new();
        let n = self.external_downloads.len();
        for i in 0..n
            invariant
                n == self.external_downloads@.len(),
                snapshots@.len() == n,
                out@.len() == i,
                forall|j: int| 0 <= j < n ==> keeps_source(#[trigger] self.external_downloads@[j]),
                forall|j: int| 0 <= j < i ==> #[trigger] out@[j] == persisted_entry(self.external_downloads@[j], snapshots@[j]),
        {
            let item = &self.external_downloads[i];
            let snap = snapshots[i];
            assert(keeps_source(self.external_downloads@[i as int]));
            let entry = match &item.state {
                DownloadItemState::Queued { source_url, .. } => PersistedExternalDownload {
                    id: item.id.clone(),
                    title: item.title.clone(),
                    source_url: source_url.clone(),
                    destination: None,
                    paused: snap.paused,
                    downloaded_bytes: if snap.downloaded_bytes > 0 { Some(snap.downloaded_bytes) } else { None },
                    total_bytes: snap.total_bytes,
                    state: PersistedExternalDownloadState::Pending,
                },
                DownloadItemState::Active { source_url, destination, .. } => {
                    let url = match source_url {
                        Some(u) => u.clone(),
                        None => String::new(),
                    };
                    PersistedExternalDownload {
                        id: item.id.clone(),
                        title: item.title.clone(),
                        source_url: url,
                        destination: clone_string_opt(destination),
                        paused: snap.paused,
                        downloaded_bytes: if snap.downloaded_bytes > 0 { Some(snap.downloaded_bytes) } else { None },
                        total_bytes: snap.total_bytes,
                        state: PersistedExternalDownloadState::Pending,
                    }
                },
                DownloadItemState::Completed { source_url, destination } => PersistedExternalDownload {
                    id: item.id.clone(),
                    title: item.title.clone(),
                    source_url: source_url.clone(),
                    destination: Some(destination.clone()),
                    paused: false,
                    downloaded_bytes: None,
                    total_bytes: None,
                    state: PersistedExternalDownloadState::Completed { destination: destination.clone() },
                },
                DownloadItemState::Failed { source_url, destination, error } => PersistedExternalDownload {
                    id: item.id.clone(),
                    title: item.title.clone(),
                    source_url: source_url.clone(),
                    destination: clone_string_opt(destination),
                    paused: false,
                    downloaded_bytes: None,
                    total_bytes: None,
                    state: PersistedExternalDownloadState::Failed {
                        destination: clone_string_opt(destination),
                        error: error.clone(),
                    },
                },
            };
            out.push(entry);
        }
        out
    }
}

impl<P: Clone> TransferStateModel<P> {
    /// The track's download in flight, if any, with a copy of its handle.
    pub fn active_download(&self, track: &TrackSummary) -> (r: Option<ActiveTransfer<P>>)
        ensures
            ({
                let k = track_key_view(track.reference.provider, track.reference.id@);
                match r {
                    Some(t) => self.transfers().dom().contains(k) && transfer_copy(self.transfers()[k], t),
                    None => !self.transfers().dom().contains(k),
                }
            }),
    {
        proof { use_type_invariant(self); }
        let key = track_cache_key(track);
        proof { lemma_transfer_map_dom(self.downloads@, key@); }
        match find_transfer(&self.downloads, &key) {
            Some(i) => {
                proof { lemma_transfer_map_value(self.downloads@, i as int); }
                let t = &self.downloads[i];
                Some(ActiveTransfer {
                    track_id: t.track_id.clone(),
                    title: t.title.clone(),
                    purpose: t.purpose,
                    progress: t.progress.clone(),
                    started_at: t.started_at,
                })
            },
            None => None,
        }
    }

    /// The first history entry downloaded from the source, as the downloads
    /// list shows it.
    pub fn external_download_for_url(&self, source_url: &String) -> (r: Option<DownloadItem<P>>)
        ensures
            match first_index(self.history(), from_source(source_url@)) {
                Some(i) => r is Some && external_listed(self.history()[i], r.unwrap()),
                None => r is None,
            },
    {
        let ghost pred = from_source::<P>(source_url@);
        let n = self.external_downloads.len();
        for i in 0..n
            invariant
                n == self.external_downloads@.len(),
                pred == from_source::<P>(source_url@),
                forall|j: int| 0 <= j < i ==> !pred(#[trigger] self.external_downloads@[j]),
        {
            let item = &self.external_downloads[i];
            let matches = match &item.state {
                DownloadItemState::Queued { source_url: u, .. } => *u == *source_url,
                DownloadItemState::Active { source_url: u, .. } => match u {
                    Some(u) => *u == *source_url,
                    None => false,
                },
                DownloadItemState::Completed { source_url: u, .. } => *u == *source_url,
                DownloadItemState::Failed { source_url: u, .. } => *u == *source_url,
            };
            if matches {
                proof {
                    assert(pred(self.external_downloads@[i as int]));
                    lemma_first_index_found(self.external_downloads@, pred, i as int);
                }
                return Some(list_external(item));
            }
        }
        proof { lemma_first_index_none(self.external_downloads@, pred); }
        None
    }
}


/// `a` is listed before `b`: it started later, or at the same time with a
/// title that sorts first.
pub open spec fn transfer_precedes<P>(a: ActiveTransfer<P>, b: ActiveTransfer<P>) -> bool {
    a.started_at > b.started_at || (a.started_at == b.started_at && text_lt(a.title@, b.title@))
}

/// The transfer `t` as the downloads list shows it, `b` holding a copy of
/// its handle.
pub open spec fn transfer_listed<P: Clone>(t: ActiveTransfer<P>, b: DownloadItem<P>) -> bool {
    &&& b.id == t.track_id
    &&& b.title == t.title
    &&& b.purpose == t.purpose
    &&& b.state matches DownloadItemState::Active { progress, source_url, destination, started_at, duration_seconds }
        && cloned(t.progress, progress) && source_url is None && destination is None
        && started_at == t.started_at && duration_seconds is None
}

/// The history entry with the id dropped.
pub open spec fn other_ids<P>(id: Seq<char>) -> spec_fn(ExternalDownloadItem<P>) -> bool {
    |x: ExternalDownloadItem<P>| x.id@ != id
}

proof fn lemma_precedes_transitive<P>(a: ActiveTransfer<P>, b: ActiveTransfer<P>, c: ActiveTransfer<P>)
    requires
        transfer_precedes(a, b),
        transfer_precedes(b, c),
    ensures
        transfer_precedes(a, c),
{
    if a.started_at == b.started_at && b.started_at == c.started_at {
        lemma_text_lt_transitive(a.title@, b.title@, c.title@);
    }
}

proof fn lemma_precedes_asymmetric<P>(a: ActiveTransfer<P>, b: ActiveTransfer<P>)
    requires
        transfer_precedes(a, b),
    ensures
        !transfer_precedes(b, a),
{
    if a.started_at == b.started_at {
        lemma_text_lt_asymmetric(a.title@, b.title@);
    }
}

proof fn lemma_transfer_map_len<P>(s: Seq<ActiveTransfer<P>>)
    requires
        unique_ids(s),
    ensures
        transfer_map(s).dom().finite(),
        transfer_map(s).dom().len() == s.len(),
    decreases s.len(),
{
    if s.len() > 0 {
        let r = s.drop_last();
        lemma_unique_prefix(s);
        lemma_transfer_map_len(r);
        lemma_transfer_map_dom(r, s.last().track_id@);
        if transfer_map(r).dom().contains(s.last().track_id@) {
            let i = choose|i: int| 0 <= i < r.len() && (#[trigger] r[i]).track_id@ == s.last().track_id@;
            assert(r[i] == s[i]);
            assert(s[i].track_id@ != s[s.len() - 1].track_id@);
        }
    } else {
        assert(transfer_map(s).dom() =~= Set::<Seq<char>>::empty());
    }
}

/// The history without entries of the id, in order.
fn drop_id<P>(v: Vec<ExternalDownloadItem<P>>, id: &String) -> (r: Vec<ExternalDownloadItem<P>>)
    ensures
        r@ == v@.filter(other_ids(id@)),
{
    let ghost orig = v@;
    let ghost pred = other_ids::<P>(id@);
    let mut rest = v;
    let mut kept: Vec<ExternalDownloadItem<P>> = Vec::new();
    let mut consumed: usize = 0;
    let total = rest.len();
    while rest.len() > 0
        invariant
            total == orig.len(),
            pred == other_ids::<P>(id@),
            consumed + rest@.len() == orig.len(),
            rest@ == orig.skip(consumed as int),
            kept@ == orig.take(consumed as int).filter(pred),
        decreases rest@.len(),
    {
        let x = rest.remove(0);
        proof {
            assert(x == orig[consumed as int]);
            assert(orig.take(consumed as int + 1).drop_last() =~= orig.take(consumed as int));
            reveal(Seq::filter);
        }
        if x.id != *id {
            kept.push(x);
        }
        consumed = consumed + 1;
        proof {
            assert(rest@ =~= orig.skip(consumed as int));
        }
    }
    proof {
        assert(orig.take(orig.len() as int) =~= orig);
    }
    kept
}

fn precedes_at<P>(downloads: &Vec<ActiveTransfer<P>>, titles: &Vec<Vec<char>>, i: usize, o: usize) -> (r: bool)
    requires
        i < downloads@.len(),
        o < downloads@.len(),
        titles@.len() == downloads@.len(),
        forall|j: int| 0 <= j < downloads@.len() ==> (#[trigger] titles@[j])@ == downloads@[j].title@,
    ensures
        r == transfer_precedes(downloads@[i as int], downloads@[o as int]),
{
    let si = downloads[i].started_at;
    let so = downloads[o].started_at;
    si > so || (si == so && text_less(titles[i].as_slice(), titles[o].as_slice()))
}

/// Indices of the transfers, latest start first, ties by title.
fn sort_transfer_indices<P>(downloads: &Vec<ActiveTransfer<P>>) -> (r: Vec<usize>)
    ensures
        r@.len() == downloads@.len(),
        forall|a: int| 0 <= a < r@.len() ==> #[trigger] r@[a] < downloads@.len(),
        forall|a: int, b: int| 0 <= a < b < r@.len() ==> r@[a] != r@[b],
        forall|a: int, b: int| 0 <= a < b < r@.len() ==>
            !transfer_precedes(downloads@[#[trigger] r@[b] as int], downloads@[#[trigger] r@[a] as int]),
{
    let n = downloads.len();
    let mut titles: Vec<Vec<char>> = Vec::new();
    for k in 0..n
        invariant
            n == downloads@.len(),
            titles@.len() == k,
            forall|j: int| 0 <= j < k ==> (#[trigger] titles@[j])@ == downloads@[j].title@,
    {
        titles.push(chars_of(downloads[k].title.as_str()));
    }
    let ghost d = downloads@;
    let mut order: Vec<usize> = Vec::new();
    for i in 0..n
        invariant
            n == d.len(),
            d == downloads@,
            titles@.len() == n,
            forall|j: int| 0 <= j < n ==> (#[trigger] titles@[j])@ == d[j].title@,
            order@.len() == i,
            forall|a: int| 0 <= a < order@.len() ==> #[trigger] order@[a] < i,
            forall|a: int, b: int| 0 <= a < b < order@.len() ==> order@[a] != order@[b],
            forall|a: int, b: int| 0 <= a < b < order@.len() ==>
                !transfer_precedes(d[#[trigger] order@[b] as int], d[#[trigger] order@[a] as int]),
    {
        let mut pos: usize = 0;
        while pos < order.len() && !precedes_at(downloads, &titles, i, order[pos])
            invariant
                n == d.len(),
                d == downloads@,
                titles@.len() == n,
                forall|j: int| 0 <= j < n ==> (#[trigger] titles@[j])@ == d[j].title@,
                i < n,
                pos <= order@.len(),
                forall|a: int| 0 <= a < order@.len() ==> #[trigger] order@[a] < i,
                forall|a: int| 0 <= a < pos ==> !transfer_precedes(d[i as int], d[#[trigger] order@[a] as int]),
            decreases order@.len() - pos,
        {
            pos += 1;
        }
        proof {
            if pos < order@.len() {
                let x = order@[pos as int];
                assert(transfer_precedes(d[i as int], d[x as int]));
                assert forall|b: int| pos <= b < order@.len() implies !transfer_precedes(d[#[trigger] order@[b] as int], d[i as int]) by {
                    if b == pos {
                        lemma_precedes_asymmetric(d[i as int], d[x as int]);
                    } else {
                        assert(!transfer_precedes(d[order@[b] as int], d[x as int]));
                        if transfer_precedes(d[order@[b] as int], d[i as int]) {
                            lemma_precedes_transitive(d[order@[b] as int], d[i as int], d[x as int]);
                        }
                    }
                }
            }
        }
        let ghost prev = order@;
        order.insert(pos, i);
        proof {
            assert(order@ =~= prev.take(pos as int).push(i).add(prev.skip(pos as int)));
            assert forall|a: int, b: int| 0 <= a < b < order@.len() implies
                !transfer_precedes(d[#[trigger] order@[b] as int], d[#[trigger] order@[a] as int]) by {
                if a < pos && b < pos {
                    assert(order@[a] == prev[a] && order@[b] == prev[b]);
                } else if a < pos && b == pos {
                    assert(order@[a] == prev[a]);
                } else if a < pos && b > pos {
                    assert(order@[a] == prev[a] && order@[b] == prev[b - 1]);
                } else if a == pos {
                    assert(order@[b] == prev[b - 1]);
                } else {
                    assert(order@[a] == prev[a - 1] && order@[b] == prev[b - 1]);
                }
            }
            assert forall|a: int, b: int| 0 <= a < b < order@.len() implies order@[a] != order@[b] by {
                if a < pos && b < pos {
                    assert(order@[a] == prev[a] && order@[b] == prev[b]);
                } else if a < pos && b == pos {
                    assert(order@[a] == prev[a]);
                } else if a < pos && b > pos {
                    assert(order@[a] == prev[a] && order@[b] == prev[b - 1]);
                } else if a == pos {
                    assert(order@[b] == prev[b - 1]);
                } else {
                    assert(order@[a] == prev[a - 1] && order@[b] == prev[b - 1]);
                }
            }
            assert forall|a: int| 0 <= a < order@.len() implies #[trigger] order@[a] < i + 1 by {
                if a < pos { assert(order@[a] == prev[a]); }
                else if a > pos { assert(order@[a] == prev[a - 1]); }
            }
        }
    }
    order
}

impl<P: Clone> TransferStateModel<P> {
    /// The downloads list: track downloads in flight, latest start first and
    /// ties by title, then the external download history.
    pub fn download_items(&self) -> (r: Vec<DownloadItem<P>>)
        ensures
            ({
                let n = self.transfers().dom().len();
                &&& r@.len() == n + self.history().len()
                &&& forall|i: int| 0 <= i < n ==> self.transfers().dom().contains((#[trigger] r@[i]).id@)
                    && transfer_listed(self.transfers()[r@[i].id@], r@[i])
                &&& forall|i: int, j: int| 0 <= i < j < n ==> (#[trigger] r@[i]).id@ != (#[trigger] r@[j]).id@
                &&& forall|i: int, j: int| 0 <= i < j < n ==>
                    !transfer_precedes(self.transfers()[(#[trigger] r@[j]).id@], self.transfers()[(#[trigger] r@[i]).id@])
                &&& forall|i: int| 0 <= i < self.history().len() ==> external_listed(self.history()[i], #[trigger] r@[n + i])
            }),
    {
        proof {
            use_type_invariant(self);
            lemma_transfer_map_len(self.downloads@);
        }
        let ghost d = self.downloads@;
        let order = sort_transfer_indices(&self.downloads);
        let n = order.len();
        let mut items: Vec<DownloadItem<P>> = Vec::new();
        for k in 0..n
            invariant
                n == order@.len(),
                n == d.len(),
                d == self.downloads@,
                unique_ids(d),
                forall|a: int| 0 <= a < n ==> #[trigger] order@[a] < n,
                items@.len() == k,
                forall|a: int| 0 <= a < k ==> #[trigger] items@[a] == items@[a]
                    && transfer_listed(d[order@[a] as int], items@[a]),
        {
            let t = &self.downloads[order[k]];
            items.push(DownloadItem {
                id: t.track_id.clone(),
                title: t.title.clone(),
                purpose: t.purpose,
                state: DownloadItemState::Active {
                    progress: t.progress.clone(),
                    source_url: None,
                    destination: None,
                    started_at: t.started_at,
                    duration_seconds: None,
                },
            });
        }
        proof {
            assert forall|a: int| 0 <= a < n implies self.transfers().dom().contains((#[trigger] items@[a]).id@)
                && transfer_listed(self.transfers()[items@[a].id@], items@[a]) by {
                lemma_transfer_map_value(d, order@[a] as int);
            }
            assert forall|a: int, b: int| 0 <= a < b < n implies (#[trigger] items@[a]).id@ != (#[trigger] items@[b]).id@ by {
                let x = order@[a] as int;
                let y = order@[b] as int;
                assert(x != y);
                if x < y { assert(d[x].track_id@ != d[y].track_id@); } else { assert(d[y].track_id@ != d[x].track_id@); }
            }
            assert forall|a: int, b: int| 0 <= a < b < n implies
                !transfer_precedes(self.transfers()[(#[trigger] items@[b]).id@], self.transfers()[(#[trigger] items@[a]).id@]) by {
                lemma_transfer_map_value(d, order@[a] as int);
                lemma_transfer_map_value(d, order@[b] as int);
            }
        }
        let m = self.external_downloads.len();
        for k in 0..m
            invariant
                m == self.external_downloads@.len(),
                n == d.len(),
                n == self.transfers().dom().len(),
                items@.len() == n + k,
                forall|a: int| 0 <= a < n ==> self.transfers().dom().contains((#[trigger] items@[a]).id@)
                    && transfer_listed(self.transfers()[items@[a].id@], items@[a]),
                forall|a: int, b: int| 0 <= a < b < n ==> (#[trigger] items@[a]).id@ != (#[trigger] items@[b]).id@,
                forall|a: int, b: int| 0 <= a < b < n ==>
                    !transfer_precedes(self.transfers()[(#[trigger] items@[b]).id@], self.transfers()[(#[trigger] items@[a]).id@]),
                forall|a: int| 0 <= a < k ==> external_listed(self.external_downloads@[a], #[trigger] items@[n + a]),
        {
            let listed = list_external(&self.external_downloads[k]);
            items.push(listed);
            proof {
                assert(items@[n + k] == listed);
            }
        }
        items
    }

    /// Applies a worker report. Track downloads are recorded or forgotten,
    /// external downloads enter the history (newest first) or leave it when
    /// cancelled; playback reports leave the model alone. Returns whether
    /// the model changed.
    pub fn handle_worker_event(&mut self, event: &TransferEvent<P>, now: u64) -> (changed: bool)
        ensures
            final(self).history().len() <= EXTERNAL_DOWNLOAD_HISTORY_LIMIT,
            match *event {
                TransferEvent::DownloadStarted { track_id, title, purpose, progress } => {
                    &&& changed
                    &&& final(self).transfers().remove(track_id@) == old(self).transfers().remove(track_id@)
                    &&& final(self).transfers().dom().contains(track_id@)
                    &&& transfer_copy(
                        (ActiveTransfer { track_id, title, purpose, progress, started_at: now }),
                        final(self).transfers()[track_id@],
                    )
                    &&& final(self).cancelled() == old(self).cancelled().remove(track_id@)
                    &&& final(self).history() == old(self).history()
                },
                TransferEvent::DownloadCompleted { track_id, .. }
                | TransferEvent::DownloadCancelled { track_id }
                | TransferEvent::DownloadFailed { track_id, .. } => {
                    &&& changed
                    &&& final(self).transfers() == old(self).transfers().remove(track_id@)
                    &&& final(self).cancelled() == old(self).cancelled().remove(track_id@)
                    &&& final(self).history() == old(self).history()
                },
                TransferEvent::ExternalDownloadQueued { download_id, title, source_url, progress } => {
                    &&& changed
                    &&& exists|item: ExternalDownloadItem<P>| #![trigger upserted(old(self).history(), item)]
                        final(self).history() == upserted(old(self).history(), item)
                        && item.id == download_id && item.title == title
                        && state_copy(DownloadItemState::Queued { source_url, progress }, item.state)
                    &&& final(self).transfers() == old(self).transfers()
                    &&& final(self).cancelled() == old(self).cancelled()
                },
                TransferEvent::ExternalDownloadStarted { download_id, title, source_url, destination, duration_seconds, progress } => {
                    &&& changed
                    &&& exists|item: ExternalDownloadItem<P>| #![trigger upserted(old(self).history(), item)]
                        final(self).history() == upserted(old(self).history(), item)
                        && item.id == download_id && item.title == title
                        && state_copy(
                            DownloadItemState::Active {
                                progress,
                                source_url: Some(source_url),
                                destination: Some(destination),
                                started_at: now,
                                duration_seconds,
                            },
                            item.state,
                        )
                    &&& final(self).transfers() == old(self).transfers()
                    &&& final(self).cancelled() == old(self).cancelled()
                },
                TransferEvent::ExternalDownloadCompleted { download_id, title, source_url, destination } => {
                    &&& changed
                    &&& final(self).history() == upserted(old(self).history(), ExternalDownloadItem {
                        id: download_id,
                        title,
                        state: DownloadItemState::Completed { source_url, destination },
                    })
                    &&& final(self).transfers() == old(self).transfers()
                    &&& final(self).cancelled() == old(self).cancelled()
                },
                TransferEvent::ExternalDownloadCancelled { download_id } => {
                    &&& changed
                    &&& final(self).history() == old(self).history().filter(other_ids(download_id@))
                    &&& final(self).transfers() == old(self).transfers()
                    &&& final(self).cancelled() == old(self).cancelled()
                },
                TransferEvent::ExternalDownloadFailed { download_id, title, source_url, destination, error } => {
                    &&& changed
                    &&& final(self).history() == upserted(old(self).history(), ExternalDownloadItem {
                        id: download_id,
                        title,
                        state: DownloadItemState::Failed { source_url, destination, error },
                    })
                    &&& final(self).transfers() == old(self).transfers()
                    &&& final(self).cancelled() == old(self).cancelled()
                },
                TransferEvent::PlaybackReady { .. } | TransferEvent::PlaybackFailed { .. } => {
                    &&& !changed
                    &&& final(self).transfers() == old(self).transfers()
                    &&& final(self).cancelled() == old(self).cancelled()
                    &&& final(self).history() == old(self).history()
                },
            },
    {
        proof { use_type_invariant(&*self); }
        match event {
            TransferEvent::DownloadStarted { track_id, title, purpose, progress } => {
                let copy = progress.clone();
                let ghost prev = self.transfers();
                self.start_download(track_id.clone(), title.clone(), *purpose, copy, now);
                proof {
                    assert(final(self).transfers().remove(track_id@) =~= prev.remove(track_id@));
                }
                true
            },
            TransferEvent::DownloadCompleted { track_id, .. } => {
                self.finish_download(track_id);
                true
            },
            TransferEvent::DownloadCancelled { track_id } => {
                self.finish_download(track_id);
                true
            },
            TransferEvent::DownloadFailed { track_id, .. } => {
                self.finish_download(track_id);
                true
            },
            TransferEvent::ExternalDownloadQueued { download_id, title, source_url, progress } => {
                let item = ExternalDownloadItem {
                    id: download_id.clone(),
                    title: title.clone(),
                    state: DownloadItemState::Queued { source_url: source_url.clone(), progress: progress.clone() },
                };
                let ghost item_v = item;
                self.upsert_external_download(item);
                proof {
                    assert(final(self).history() == upserted(old(self).history(), item_v));
                }
                true
            },
            TransferEvent::ExternalDownloadStarted { download_id, title, source_url, destination, duration_seconds, progress } => {
                let item = ExternalDownloadItem {
                    id: download_id.clone(),
                    title: title.clone(),
                    state: DownloadItemState::Active {
                        progress: progress.clone(),
                        source_url: Some(source_url.clone()),
                        destination: Some(destination.clone()),
                        started_at: now,
                        duration_seconds: *duration_seconds,
                    },
                };
                let ghost item_v = item;
                self.upsert_external_download(item);
                proof {
                    assert(final(self).history() == upserted(old(self).history(), item_v));
                }
                true
            },
            TransferEvent::ExternalDownloadCompleted { download_id, title, source_url, destination } => {
                self.upsert_external_download(ExternalDownloadItem {
                    id: download_id.clone(),
                    title: title.clone(),
                    state: DownloadItemState::Completed { source_url: source_url.clone(), destination: destination.clone() },
                });
                true
            },
            TransferEvent::ExternalDownloadCancelled { download_id } => {
                let mut history = Vec::new();
                std::mem::swap(&mut history, &mut self.external_downloads);
                let ghost before = history@;
                let kept = drop_id(history, download_id);
                proof {
                    before.lemma_filter_len(other_ids::<P>(download_id@));
                    assert forall|i: int| 0 <= i < kept@.len() implies keeps_source(#[trigger] kept@[i]) by {
                        let y = kept@[i];
                        assert(before.filter(other_ids::<P>(download_id@)).contains(y));
                        before.lemma_filter_contains_rev(other_ids::<P>(download_id@), y);
                    }
                }
                self.external_downloads = kept;
                true
            },
            TransferEvent::ExternalDownloadFailed { download_id, title, source_url, destination, error } => {
                self.upsert_external_download(ExternalDownloadItem {
                    id: download_id.clone(),
                    title: title.clone(),
                    state: DownloadItemState::Failed {
                        source_url: source_url.clone(),
                        destination: clone_string_opt(destination),
                        error: error.clone(),
                    },
                });
                true
            },
            TransferEvent::PlaybackReady { .. } => false,
            TransferEvent::PlaybackFailed { .. } => false,
        }
    }
}


} // verus!
