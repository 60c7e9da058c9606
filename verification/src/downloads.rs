//! The texts of the downloads list: its header, and for each entry what it
//! is for, where it goes and how it stands.

use vstd::prelude::*;
use crate::text::{decimal, u64_to_string};
use crate::transfer::{DownloadItem, DownloadItemState, DownloadPurpose, is_live};

verus! {

/// What a download is for.
pub open spec fn purpose_text(purpose: DownloadPurpose) -> Seq<char> {
    match purpose {
        DownloadPurpose::Explicit => "Download"@,
        DownloadPurpose::PlaybackPrefetch => "Playback cache"@,
        DownloadPurpose::ExternalUrl => "External URL"@,
    }
}

/// The label of a download's purpose.
pub fn download_purpose_label(purpose: DownloadPurpose) -> (r: &'static str)
    ensures
        r@ == purpose_text(purpose),
{
    match purpose {
        DownloadPurpose::Explicit => "Download",
        DownloadPurpose::PlaybackPrefetch => "Playback cache",
        DownloadPurpose::ExternalUrl => "External URL",
    }
}

/// The number of queued or running downloads among the first `n` entries.
pub open spec fn live_count<P>(items: Seq<DownloadItem<P>>, n: int) -> nat
    decreases n,
{
    if n <= 0 || n > items.len() {
        0
    } else {
        live_count(items, n - 1) + if is_live(items[n - 1].state) { 1nat } else { 0nat }
    }
}

proof fn lemma_live_count_bound<P>(items: Seq<DownloadItem<P>>, n: int)
    requires
        0 <= n <= items.len(),
    ensures
        live_count(items, n) <= n,
    decreases n,
{
    if n > 0 {
        lemma_live_count_bound(items, n - 1);
    }
}

/// The number of queued or running downloads.
pub fn active_download_count<P>(items: &[DownloadItem<P>]) -> (r: usize)
    ensures
        r == live_count(items@, items@.len() as int),
{
    let n = items.len();
    let mut count: usize = 0;
    for i in 0..n
        invariant
            n == items@.len(),
            count == live_count(items@, i as int),
    {
        proof { lemma_live_count_bound(items@, i as int); }
        let live = match items[i].state {
            DownloadItemState::Queued { .. } | DownloadItemState::Active { .. } => true,
            _ => false,
        };
        if live {
            count = count + 1;
        }
    }
    count
}

/// The header line of the downloads list.
pub open spec fn downloads_summary_text(active: nat, total: nat) -> Seq<char> {
    if active == 0 {
        decimal(total) + " saved item(s)"@
    } else {
        decimal(active) + " active transfer(s), "@ + decimal(total) + " total item(s)"@
    }
}

/// The header line of the downloads list: how many entries are saved, and
/// how many of them are transferring.
pub fn downloads_summary(active_count: usize, total: usize) -> (r: String)
    ensures
        r@ == downloads_summary_text(active_count as nat, total as nat),
{
    if active_count == 0 {
        let mut r = u64_to_string(total as u64);
        r.append(" saved item(s)");
        r
    } else {
        let mut r = u64_to_string(active_count as u64);
        r.append(" active transfer(s), ");
        let t = u64_to_string(total as u64);
        r.append(t.as_str());
        r.append(" total item(s)");
        r
    }
}

/// The second line of a download's entry: where it goes, else where it
/// comes from, else what it is for (a failure shows its error when it has
/// no destination).
pub open spec fn secondary_text<P>(item: DownloadItem<P>) -> Seq<char> {
    match item.state {
        DownloadItemState::Queued { source_url, .. } => source_url@,
        DownloadItemState::Active { source_url, destination, .. } => match destination {
            Some(d) => d@,
            None => match source_url {
                Some(u) => u@,
                None => purpose_text(item.purpose),
            },
        },
        DownloadItemState::Completed { destination, .. } => destination@,
        DownloadItemState::Failed { destination, error, .. } => match destination {
            Some(d) => d@,
            None => error@,
        },
    }
}

/// The second line of a download's entry.
pub fn download_secondary_line<P>(item: &DownloadItem<P>) -> (r: String)
    ensures
        r@ == secondary_text(*item),
{
    match &item.state {
        DownloadItemState::Queued { source_url, .. } => source_url.clone(),
        DownloadItemState::Active { source_url, destination, .. } => match destination {
            Some(d) => d.clone(),
            None => match source_url {
                Some(u) => u.clone(),
                None => String::from_str(download_purpose_label(item.purpose)),
            },
        },
        DownloadItemState::Completed { destination, .. } => destination.clone(),
        DownloadItemState::Failed { destination, error, .. } => match destination {
            Some(d) => d.clone(),
            None => error.clone(),
        },
    }
}

/// The status of a download that is not running: resolving, ready, or its
/// error. A running download shows its progress instead.
pub fn download_status_text<P>(state: &DownloadItemState<P>) -> (r: Option<String>)
    ensures
        match *state {
            DownloadItemState::Queued { .. } => r matches Some(t) && t@ == "Resolving URL\u{2026}"@,
            DownloadItemState::Active { .. } => r is None,
            DownloadItemState::Completed { .. } => r matches Some(t) && t@ == "Ready to open"@,
            DownloadItemState::Failed { error, .. } => r matches Some(t) && t@ == error@,
        },
{
    match state {
        DownloadItemState::Queued { .. } => Some(String::from_str("Resolving URL\u{2026}")),
        DownloadItemState::Active { .. } => None,
        DownloadItemState::Completed { .. } => Some(String::from_str("Ready to open")),
        DownloadItemState::Failed { error, .. } => Some(error.clone()),
    }
}

/// Whether an entry offers an action: opening a finished download, or
/// retrying a failed one.
pub fn download_has_actions<P>(state: &DownloadItemState<P>) -> (r: bool)
    ensures
        r <==> (*state is Completed || *state is Failed),
{
    match state {
        DownloadItemState::Completed { .. } | DownloadItemState::Failed { .. } => true,
        _ => false,
    }
}

} // verus!
