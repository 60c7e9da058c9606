//! What the library's long operations (removing, importing, refreshing
//! artwork, looking files up online) report when they start and end.

use vstd::prelude::*;
use crate::feedback::quoted;
use crate::notifications::NotificationLevel;
use crate::playback::PlaybackContextTrackRemoval;
use crate::text::{decimal, u64_to_string};

verus! {

/// The parts joined with a separator between each two.
pub open spec fn joined(parts: Seq<Seq<char>>, sep: Seq<char>) -> Seq<char>
    decreases parts.len(),
{
    if parts.len() == 0 {
        Seq::empty()
    } else if parts.len() == 1 {
        parts[0]
    } else {
        joined(parts.drop_last(), sep) + sep + parts.last()
    }
}

/// The texts as sequences of characters.
pub open spec fn texts_view(parts: Seq<String>) -> Seq<Seq<char>> {
    parts.map_values(|p: String| p@)
}

/// The texts joined with a separator between each two.
pub fn join_texts(parts: &[String], sep: &str) -> (r: String)
    ensures
        r@ == joined(texts_view(parts@), sep@),
{
    let mut r = String::new();
    let ghost v = texts_view(parts@);
    for i in 0..parts.len()
        invariant
            v == texts_view(parts@),
            r@ == joined(v.take(i as int), sep@),
    {
        proof {
            assert(v.take(i as int + 1).drop_last() =~= v.take(i as int));
            assert(v.take(i as int + 1).last() == parts@[i as int]@);
        }
        if i > 0 {
            r.append(sep);
        } else {
            proof { assert(v.take(1)[0] == parts@[0]@); }
        }
        r.append(parts[i].as_str());
    }
    proof { assert(v.take(parts@.len() as int) =~= v); }
    r
}

/// The status line while something is being removed from the library.
pub fn removing_message(title: &str) -> (r: String)
    ensures
        r@ == "Removing "@ + quoted(title@) + " from library..."@,
{
    let mut r = String::from_str("Removing '");
    r.append(title);
    r.append("' from library...");
    proof { reveal_strlit("Removing '"); reveal_strlit("Removing "); reveal_strlit("'"); reveal_strlit("' from library..."); reveal_strlit(" from library..."); }
    assert(r@ =~= "Removing "@ + quoted(title@) + " from library..."@);
    r
}

/// The report of removing an album, by the number of cached rows removed
/// or the error's text.
pub open spec fn album_removal_report(title: Seq<char>, result: Result<u64, Seq<char>>) -> (Seq<char>, NotificationLevel) {
    match result {
        Ok(0) => ("No cached tracks found for "@ + quoted(title) + "."@, NotificationLevel::Success),
        Ok(_) => ("Removed "@ + quoted(title) + " from library."@, NotificationLevel::Success),
        Err(e) => ("Failed to remove "@ + quoted(title) + ": "@ + e, NotificationLevel::Error),
    }
}

/// The status line and notification after removing an album.
pub fn album_removal_message(title: &str, result: Result<u64, &str>) -> (r: (String, NotificationLevel))
    ensures
        (r.0@, r.1) == album_removal_report(title@, match result { Ok(n) => Ok(n), Err(e) => Err(e@) }),
{
    proof {
        reveal_strlit("'");
        reveal_strlit(".");
        reveal_strlit("No cached tracks found for '");
        reveal_strlit("No cached tracks found for ");
        reveal_strlit("'.");
        reveal_strlit("Removed '");
        reveal_strlit("Removed ");
        reveal_strlit("' from library.");
        reveal_strlit(" from library.");
        reveal_strlit("Failed to remove '");
        reveal_strlit("Failed to remove ");
        reveal_strlit("': ");
        reveal_strlit(": ");
    }
    match result {
        Ok(0) => {
            let mut m = String::from_str("No cached tracks found for '");
            m.append(title);
            m.append("'.");
            assert(m@ =~= "No cached tracks found for "@ + quoted(title@) + "."@);
            (m, NotificationLevel::Success)
        },
        Ok(_) => {
            let mut m = String::from_str("Removed '");
            m.append(title);
            m.append("' from library.");
            assert(m@ =~= "Removed "@ + quoted(title@) + " from library."@);
            (m, NotificationLevel::Success)
        },
        Err(e) => {
            let mut m = String::from_str("Failed to remove '");
            m.append(title);
            m.append("': ");
            m.append(e);
            assert(m@ =~= "Failed to remove "@ + quoted(title@) + ": "@ + e@);
            (m, NotificationLevel::Error)
        },
    }
}

/// The report of removing a track, by whether a cached track was removed
/// (and what that did to the playing list) or the error's text.
pub open spec fn track_removal_report(
    title: Seq<char>,
    result: Result<bool, Seq<char>>,
    removal: PlaybackContextTrackRemoval,
) -> (Seq<char>, NotificationLevel) {
    match result {
        Ok(false) => ("No cached track found for "@ + quoted(title) + "."@, NotificationLevel::Success),
        Ok(true) => if removal == PlaybackContextTrackRemoval::CurrentTrackRemoved {
            ("Removed "@ + quoted(title) + " from library and stopped playback."@, NotificationLevel::Success)
        } else {
            ("Removed "@ + quoted(title) + " from library."@, NotificationLevel::Success)
        },
        Err(e) => ("Failed to remove "@ + quoted(title) + ": "@ + e, NotificationLevel::Error),
    }
}

/// The status line and notification after removing a track.
pub fn track_removal_message(
    title: &str,
    result: Result<bool, &str>,
    removal: PlaybackContextTrackRemoval,
) -> (r: (String, NotificationLevel))
    ensures
        (r.0@, r.1) == track_removal_report(title@, match result { Ok(b) => Ok(b), Err(e) => Err(e@) }, removal),
{
    proof {
        reveal_strlit("'");
        reveal_strlit(".");
        reveal_strlit("No cached track found for '");
        reveal_strlit("No cached track found for ");
        reveal_strlit("'.");
        reveal_strlit("Removed '");
        reveal_strlit("Removed ");
        reveal_strlit("' from library.");
        reveal_strlit(" from library.");
        reveal_strlit("' from library and stopped playback.");
        reveal_strlit(" from library and stopped playback.");
        reveal_strlit("Failed to remove '");
        reveal_strlit("Failed to remove ");
        reveal_strlit("': ");
        reveal_strlit(": ");
    }
    match result {
        Ok(false) => {
            let mut m = String::from_str("No cached track found for '");
            m.append(title);
            m.append("'.");
            assert(m@ =~= "No cached track found for "@ + quoted(title@) + "."@);
            (m, NotificationLevel::Success)
        },
        Ok(true) => {
            let mut m = String::from_str("Removed '");
            m.append(title);
            match removal {
                PlaybackContextTrackRemoval::CurrentTrackRemoved => {
                    m.append("' from library and stopped playback.");
                    assert(m@ =~= "Removed "@ + quoted(title@) + " from library and stopped playback."@);
                },
                _ => {
                    m.append("' from library.");
                    assert(m@ =~= "Removed "@ + quoted(title@) + " from library."@);
                },
            }
            (m, NotificationLevel::Success)
        },
        Err(e) => {
            let mut m = String::from_str("Failed to remove '");
            m.append(title);
            m.append("': ");
            m.append(e);
            assert(m@ =~= "Failed to remove "@ + quoted(title@) + ": "@ + e@);
            (m, NotificationLevel::Error)
        },
    }
}

/// How the file picker of an import ended.
pub enum ImportPick {
    /// These files or folders were chosen, each by its displayed path.
    Chosen(Vec<String>),
    /// The picker was closed without a choice.
    Cancelled,
    /// The picker could not be opened; the error's text.
    Failed(String),
    /// The picker's answer never came.
    Dropped,
}

/// The status line once the picker ends: the analysis of what was chosen
/// (one path by itself, else how many), the cancellation or the failure;
/// nothing when nothing was chosen or no answer came.
pub open spec fn import_pick_report(pick: ImportPick) -> Option<Seq<char>> {
    match pick {
        ImportPick::Chosen(paths) => if paths@.len() == 0 {
            None
        } else if paths@.len() == 1 {
            Some("Analyzing "@ + paths@[0]@ + "..."@)
        } else {
            Some("Analyzing "@ + decimal(paths@.len()) + " selections..."@)
        },
        ImportPick::Cancelled => Some("Import selection cancelled."@),
        ImportPick::Failed(e) => Some("Failed to open import picker: "@ + e@),
        ImportPick::Dropped => None,
    }
}

/// The status line once the import picker ends; `None` where the import
/// stops without a word or, for a choice, goes on.
pub fn import_pick_status(pick: &ImportPick) -> (r: Option<String>)
    ensures
        match r {
            Some(m) => import_pick_report(*pick) == Some(m@),
            None => import_pick_report(*pick) is None,
        },
{
    proof {
        reveal_strlit("Analyzing ");
        reveal_strlit("...");
        reveal_strlit(" selections...");
        reveal_strlit("Failed to open import picker: ");
    }
    match pick {
        ImportPick::Chosen(paths) => {
            if paths.len() == 0 {
                None
            } else {
                let mut m = String::from_str("Analyzing ");
                if paths.len() == 1 {
                    m.append(paths[0].as_str());
                    m.append("...");
                } else {
                    let n = u64_to_string(paths.len() as u64);
                    m.append(n.as_str());
                    m.append(" selections...");
                }
                Some(m)
            }
        },
        ImportPick::Cancelled => Some(String::from_str("Import selection cancelled.")),
        ImportPick::Failed(e) => {
            let mut m = String::from_str("Failed to open import picker: ");
            m.append(e.as_str());
            Some(m)
        },
        ImportPick::Dropped => None,
    }
}

/// The status line once the chosen files were analysed: how many album
/// groups the review holds and how many files are ready or need attention;
/// or the failure.
pub fn import_analysis_message(result: Result<(u64, u64, u64), &str>) -> (r: String)
    ensures
        r@ == match result {
            Ok((albums, matched, unresolved)) => "Review "@ + decimal(albums as nat) + " album group(s): "@
                + decimal(matched as nat) + " ready offline, "@ + decimal(unresolved as nat) + " need attention."@,
            Err(e) => "Import failed: "@ + e@,
        },
{
    match result {
        Ok((albums, matched, unresolved)) => {
            let mut m = String::from_str("Review ");
            m.append(u64_to_string(albums).as_str());
            m.append(" album group(s): ");
            m.append(u64_to_string(matched).as_str());
            m.append(" ready offline, ");
            m.append(u64_to_string(unresolved).as_str());
            m.append(" need attention.");
            m
        },
        Err(e) => {
            let mut m = String::from_str("Import failed: ");
            m.append(e);
            m
        },
    }
}

/// What committing a reviewed import did.
pub struct ImportCommitSummary {
    pub imported_tracks: u64,
    pub imported_albums: u64,
    pub skipped_files: u64,
    pub error_samples: Vec<String>,
}

/// The counts of a committed import, then the sample errors if there are
/// any.
pub open spec fn import_commit_text(s: ImportCommitSummary) -> Seq<char> {
    let counts = "Imported "@ + decimal(s.imported_tracks as nat) + " track(s) across "@
        + decimal(s.imported_albums as nat) + " album(s). Skipped "@ + decimal(s.skipped_files as nat) + " file(s)."@;
    if s.error_samples@.len() == 0 {
        counts
    } else {
        counts + " Errors: "@ + joined(texts_view(s.error_samples@), " | "@)
    }
}

/// The status line and notification once a reviewed import was committed,
/// or failed.
pub fn import_commit_message(result: Result<&ImportCommitSummary, &str>) -> (r: (String, NotificationLevel))
    ensures
        match result {
            Ok(s) => r.0@ == import_commit_text(*s) && r.1 == NotificationLevel::Success,
            Err(e) => r.0@ == "Import failed: "@ + e@ && r.1 == NotificationLevel::Error,
        },
{
    match result {
        Ok(s) => {
            let mut m = String::from_str("Imported ");
            m.append(u64_to_string(s.imported_tracks).as_str());
            m.append(" track(s) across ");
            m.append(u64_to_string(s.imported_albums).as_str());
            m.append(" album(s). Skipped ");
            m.append(u64_to_string(s.skipped_files).as_str());
            m.append(" file(s).");
            if s.error_samples.len() > 0 {
                m.append(" Errors: ");
                let joined_samples = join_texts(s.error_samples.as_slice(), " | ");
                m.append(joined_samples.as_str());
            }
            (m, NotificationLevel::Success)
        },
        Err(e) => {
            let mut m = String::from_str("Import failed: ");
            m.append(e);
            (m, NotificationLevel::Error)
        },
    }
}

/// What refreshing the artwork of local albums did.
pub struct ArtworkRefreshSummary {
    pub inspected_albums: u64,
    pub updated_albums: u64,
    pub skipped_albums: u64,
    pub error_samples: Vec<String>,
}

/// The counts of an artwork refresh, then the sample errors if there are
/// any, else a pointer to the logs if albums were skipped.
pub open spec fn artwork_refresh_text(s: ArtworkRefreshSummary) -> Seq<char> {
    let counts = "Checked "@ + decimal(s.inspected_albums as nat) + " missing-cover album(s). Updated "@
        + decimal(s.updated_albums as nat) + " album(s). Skipped "@ + decimal(s.skipped_albums as nat) + " album(s)."@;
    if s.error_samples@.len() > 0 {
        counts + " Errors: "@ + joined(texts_view(s.error_samples@), " | "@)
    } else if s.skipped_albums > 0 {
        counts + " Check terminal logs for skip reasons."@
    } else {
        counts
    }
}

/// The status line and notification once an artwork refresh ended.
pub fn artwork_refresh_message(result: Result<&ArtworkRefreshSummary, &str>) -> (r: (String, NotificationLevel))
    ensures
        match result {
            Ok(s) => r.0@ == artwork_refresh_text(*s) && r.1 == NotificationLevel::Success,
            Err(e) => r.0@ == "Artwork refresh failed: "@ + e@ && r.1 == NotificationLevel::Error,
        },
{
    match result {
        Ok(s) => {
            let mut m = String::from_str("Checked ");
            m.append(u64_to_string(s.inspected_albums).as_str());
            m.append(" missing-cover album(s). Updated ");
            m.append(u64_to_string(s.updated_albums).as_str());
            m.append(" album(s). Skipped ");
            m.append(u64_to_string(s.skipped_albums).as_str());
            m.append(" album(s).");
            if s.error_samples.len() > 0 {
                m.append(" Errors: ");
                let joined_samples = join_texts(s.error_samples.as_slice(), " | ");
                m.append(joined_samples.as_str());
            } else if s.skipped_albums > 0 {
                m.append(" Check terminal logs for skip reasons.");
            }
            (m, NotificationLevel::Success)
        },
        Err(e) => {
            let mut m = String::from_str("Artwork refresh failed: ");
            m.append(e);
            (m, NotificationLevel::Error)
        },
    }
}

/// The status line while a file is looked up online.
pub fn online_lookup_started_message(source_path: &str) -> (r: String)
    ensures
        r@ == "Resolving "@ + quoted(source_path@) + " with online services..."@,
{
    proof { reveal_strlit("Resolving '"); reveal_strlit("Resolving "); reveal_strlit("'"); reveal_strlit("' with online services..."); reveal_strlit(" with online services..."); }
    let mut m = String::from_str("Resolving '");
    m.append(source_path);
    m.append("' with online services...");
    assert(m@ =~= "Resolving "@ + quoted(source_path@) + " with online services..."@);
    m
}

/// What an online lookup of a file reports: on success the status line
/// naming the title found; on failure the status line, which is also the
/// notification, and the note kept on the file.
pub enum OnlineLookupReport {
    Resolved { status: String },
    Failed { status: String, issue: String },
}

/// The report of an online lookup, by the title found or the error's text.
pub fn online_lookup_report(source_path: &str, result: Result<&str, &str>) -> (r: OnlineLookupReport)
    ensures
        match (result, r) {
            (Ok(title), OnlineLookupReport::Resolved { status }) =>
                status@ == "Resolved "@ + quoted(title@) + " with online metadata."@,
            (Err(e), OnlineLookupReport::Failed { status, issue }) =>
                status@ == "Online lookup failed for "@ + quoted(source_path@) + ": "@ + e@
                && issue@ == "Online lookup failed: "@ + e@,
            _ => false,
        },
{
    proof {
        reveal_strlit("'");
        reveal_strlit("Resolved '");
        reveal_strlit("Resolved ");
        reveal_strlit("' with online metadata.");
        reveal_strlit(" with online metadata.");
        reveal_strlit("Online lookup failed for '");
        reveal_strlit("Online lookup failed for ");
        reveal_strlit("': ");
        reveal_strlit(": ");
    }
    match result {
        Ok(title) => {
            let mut status = String::from_str("Resolved '");
            status.append(title);
            status.append("' with online metadata.");
            assert(status@ =~= "Resolved "@ + quoted(title@) + " with online metadata."@);
            OnlineLookupReport::Resolved { status }
        },
        Err(e) => {
            let mut status = String::from_str("Online lookup failed for '");
            status.append(source_path);
            status.append("': ");
            status.append(e);
            assert(status@ =~= "Online lookup failed for "@ + quoted(source_path@) + ": "@ + e@);
            let mut issue = String::from_str("Online lookup failed: ");
            issue.append(e);
            OnlineLookupReport::Failed { status, issue }
        },
    }
}

} // verus!
