//! The Open Media prompt and the external downloads a session brings back:
//! what a submitted URL leads to, and which saved downloads start again.

use vstd::prelude::*;
use crate::search::{trimmed, trim_chars};
use crate::text::{chars_of, string_from_chars};
use crate::transfer::{
    DownloadItem, DownloadItemState, EXTERNAL_DOWNLOAD_HISTORY_LIMIT, PersistedExternalDownload,
    PersistedExternalDownloadState, ProgressSnapshot, persisted_entry, restored_entry, restored_history,
};

verus! {

/// The URL typed into the prompt, trimmed; an error when nothing is left.
pub fn open_url_input(content: &str) -> (r: Result<String, String>)
    ensures
        match r {
            Ok(u) => trimmed(content@).len() > 0 && u@ == trimmed(content@),
            Err(e) => trimmed(content@).len() == 0 && e@ == "A URL is required."@,
        },
{
    let cs = chars_of(content);
    let t = trim_chars(cs.as_slice());
    if t.len() == 0 {
        Err(String::from_str("A URL is required."))
    } else {
        Ok(string_from_chars(t.as_slice()))
    }
}

/// What submitting a checked URL leads to.
pub enum OpenUrlSubmission {
    /// A download of the URL is queued or running.
    AlreadyDownloading { message: String },
    /// The URL was downloaded already.
    AlreadyInDownloads { message: String },
    /// The URL failed before: download it again under the same entry.
    Retry { download_id: String, source_url: String, destination: Option<String>, message: String },
    /// Queue a new download of the URL.
    Queue { source_url: String, message: String },
}

/// What submitting a checked URL leads to, given the download history's
/// entry for it, if any.
pub fn open_url_submission<P>(existing: Option<DownloadItem<P>>, normalized_url: String) -> (r: OpenUrlSubmission)
    ensures
        match existing {
            Some(item) => match item.state {
                DownloadItemState::Queued { .. } | DownloadItemState::Active { .. } => r matches
                    OpenUrlSubmission::AlreadyDownloading { message } && message@ == "'"@ + item.title@ + "' is already downloading."@,
                DownloadItemState::Completed { .. } => r matches
                    OpenUrlSubmission::AlreadyInDownloads { message } && message@ == "'"@ + item.title@ + "' is already in Downloads."@,
                DownloadItemState::Failed { destination, .. } => r matches
                    OpenUrlSubmission::Retry { download_id, source_url, destination: d, message }
                    && download_id@ == item.id@ && source_url@ == normalized_url@ && d == destination
                    && message@ == "Retrying '"@ + normalized_url@ + "'."@,
            },
            None => r matches OpenUrlSubmission::Queue { source_url, message }
                && source_url@ == normalized_url@ && message@ == "Queued '"@ + normalized_url@ + "' for download."@,
        },
{
    match existing {
        Some(item) => {
            let DownloadItem { id, title, purpose: _, state } = item;
            match state {
                DownloadItemState::Queued { .. } | DownloadItemState::Active { .. } => {
                    let mut message = String::from_str("'");
                    message.append(title.as_str());
                    message.append("' is already downloading.");
                    OpenUrlSubmission::AlreadyDownloading { message }
                },
                DownloadItemState::Completed { .. } => {
                    let mut message = String::from_str("'");
                    message.append(title.as_str());
                    message.append("' is already in Downloads.");
                    OpenUrlSubmission::AlreadyInDownloads { message }
                },
                DownloadItemState::Failed { destination, .. } => {
                    let mut message = String::from_str("Retrying '");
                    message.append(normalized_url.as_str());
                    message.append("'.");
                    OpenUrlSubmission::Retry { download_id: id, source_url: normalized_url, destination, message }
                },
            }
        },
        None => {
            let mut message = String::from_str("Queued '");
            message.append(normalized_url.as_str());
            message.append("' for download.");
            OpenUrlSubmission::Queue { source_url: normalized_url, message }
        },
    }
}

/// The saved downloads that had not finished, in order.
pub open spec fn pending_of(ds: Seq<PersistedExternalDownload>) -> Seq<PersistedExternalDownload>
    decreases ds.len(),
{
    if ds.len() == 0 {
        Seq::empty()
    } else {
        let rest = pending_of(ds.drop_last());
        if ds.last().state is Pending { rest.push(ds.last()) } else { rest }
    }
}

/// The saved downloads that completed or failed, in order.
pub open spec fn settled_of(ds: Seq<PersistedExternalDownload>) -> Seq<PersistedExternalDownload>
    decreases ds.len(),
{
    if ds.len() == 0 {
        Seq::empty()
    } else {
        let rest = settled_of(ds.drop_last());
        if ds.last().state is Pending { rest } else { rest.push(ds.last()) }
    }
}

/// Splits the saved external downloads into those that ended (kept in the
/// history) and those that had not (queued again), each in order.
pub fn split_persisted_external_downloads(downloads: Vec<PersistedExternalDownload>)
    -> (r: (Vec<PersistedExternalDownload>, Vec<PersistedExternalDownload>))
    ensures
        r.0@ == settled_of(downloads@),
        r.1@ == pending_of(downloads@),
{
    let ghost orig = downloads@;
    let mut rest = downloads;
    let mut settled: Vec<PersistedExternalDownload> = Vec::new();
    let mut pending: Vec<PersistedExternalDownload> = Vec::new();
    let ghost mut consumed: int = 0;
    while rest.len() > 0
        invariant
            0 <= consumed <= orig.len(),
            rest@ == orig.skip(consumed),
            settled@ == settled_of(orig.take(consumed)),
            pending@ == pending_of(orig.take(consumed)),
        decreases rest.len(),
    {
        let d = rest.remove(0);
        proof {
            assert(d == orig[consumed]);
            assert(orig.take(consumed + 1).drop_last() =~= orig.take(consumed));
            assert(orig.take(consumed + 1).last() == d);
        }
        let is_pending = match d.state {
            PersistedExternalDownloadState::Pending => true,
            _ => false,
        };
        if is_pending {
            pending.push(d);
        } else {
            settled.push(d);
        }
        proof {
            assert(rest@ =~= orig.skip(consumed + 1));
            consumed = consumed + 1;
        }
    }
    proof {
        assert(orig.take(consumed) =~= orig);
    }
    (settled, pending)
}

/// The progress a saved download starts again with: its total, the bytes
/// it had (when any), and whether it was paused.
pub fn restored_external_download_progress(download: &PersistedExternalDownload) -> (r: ProgressSnapshot)
    ensures
        r.total_bytes == download.total_bytes,
        r.downloaded_bytes == match download.downloaded_bytes { Some(b) => b, None => 0 },
        r.paused == download.paused,
{
    ProgressSnapshot {
        paused: download.paused,
        downloaded_bytes: match download.downloaded_bytes { Some(b) => b, None => 0 },
        total_bytes: download.total_bytes,
    }
}

/// A saved download that ended, as saving it again writes it: its
/// progress fields cleared and its destination the one it ended with.
pub open spec fn saved_again(d: PersistedExternalDownload) -> PersistedExternalDownload {
    PersistedExternalDownload {
        destination: match d.state {
            PersistedExternalDownloadState::Completed { destination } => Some(destination),
            PersistedExternalDownloadState::Failed { destination, .. } => destination,
            PersistedExternalDownloadState::Pending => d.destination,
        },
        paused: false,
        downloaded_bytes: None,
        total_bytes: None,
        ..d
    }
}

proof fn lemma_settled_len_step(ds: Seq<PersistedExternalDownload>)
    requires
        ds.len() > 0,
    ensures
        settled_of(ds.drop_last()).len() <= settled_of(ds).len(),
{
}

proof fn lemma_restored_matches_settled<P>(ds: Seq<PersistedExternalDownload>)
    requires
        settled_of(ds).len() <= EXTERNAL_DOWNLOAD_HISTORY_LIMIT,
    ensures
        restored_history::<P>(ds).len() == settled_of(ds).len(),
        forall|i: int| 0 <= i < settled_of(ds).len() ==>
            restored_entry::<P>(#[trigger] settled_of(ds)[i]) == Some(restored_history::<P>(ds)[i]),
    decreases ds.len(),
{
    if ds.len() > 0 {
        let rest = ds.drop_last();
        lemma_settled_len_step(ds);
        lemma_restored_matches_settled::<P>(rest);
        let last = ds.last();
        match last.state {
            PersistedExternalDownloadState::Pending => {
                assert(settled_of(ds) == settled_of(rest));
            },
            _ => {
                assert(settled_of(ds) == settled_of(rest).push(last));
                assert(restored_entry::<P>(last) is Some);
                assert forall|i: int| 0 <= i < settled_of(ds).len() implies
                    restored_entry::<P>(#[trigger] settled_of(ds)[i]) == Some(restored_history::<P>(ds)[i]) by {
                    if i < settled_of(rest).len() {
                        assert(settled_of(ds)[i] == settled_of(rest)[i]);
                        assert(restored_history::<P>(ds)[i] == restored_history::<P>(rest)[i]);
                    }
                }
            },
        }
    }
}

/// Saving the history entry restored from a download that ended gives the
/// download back as `saved_again` writes it, whatever the progress reads.
pub proof fn lemma_restored_entry_saved_again<P>(d: PersistedExternalDownload, snap: ProgressSnapshot)
    requires
        !(d.state is Pending),
    ensures
        restored_entry::<P>(d) is Some,
        persisted_entry(restored_entry::<P>(d).unwrap(), snap) == saved_again(d),
{
}

/// Restoring the saved external downloads and saving the history again
/// gives back, in order, the downloads that had ended, as `saved_again`
/// writes them (when they fit in the history); the ones still pending are
/// queued again instead.
pub proof fn lemma_restore_then_save<P>(ds: Seq<PersistedExternalDownload>, snapshots: Seq<ProgressSnapshot>)
    requires
        settled_of(ds).len() <= EXTERNAL_DOWNLOAD_HISTORY_LIMIT,
        snapshots.len() == settled_of(ds).len(),
    ensures
        restored_history::<P>(ds).len() == settled_of(ds).len(),
        forall|i: int| 0 <= i < settled_of(ds).len() ==>
            persisted_entry(#[trigger] restored_history::<P>(ds)[i], snapshots[i]) == saved_again(settled_of(ds)[i]),
{
    lemma_restored_matches_settled::<P>(ds);
    assert forall|i: int| 0 <= i < settled_of(ds).len() implies
        persisted_entry(#[trigger] restored_history::<P>(ds)[i], snapshots[i]) == saved_again(settled_of(ds)[i]) by {
        let d = settled_of(ds)[i];
        lemma_settled_not_pending(ds, i);
        lemma_restored_entry_saved_again::<P>(d, snapshots[i]);
    }
}

proof fn lemma_settled_not_pending(ds: Seq<PersistedExternalDownload>, i: int)
    requires
        0 <= i < settled_of(ds).len(),
    ensures
        !(settled_of(ds)[i].state is Pending),
    decreases ds.len(),
{
    if ds.len() > 0 {
        let rest = ds.drop_last();
        if i < settled_of(rest).len() {
            lemma_settled_not_pending(rest, i);
        }
    }
}

} // verus!
