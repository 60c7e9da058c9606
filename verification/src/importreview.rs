//! How an import review shows each file: its status, and the metadata
//! found for it.

use vstd::prelude::*;
use crate::rows::part_separator;
use crate::text::{decimal, u64_to_string};

verus! {

/// Where a file's metadata came from.
#[derive(Clone, Copy, Debug, PartialEq, Eq, Structural)]
pub enum ReviewSource {
    LocalTags,
    OnlineServices,
    /// Any other source, such as values typed in by hand.
    Other,
}

/// The status of a file of an import review.
#[derive(Clone, Copy, Debug, PartialEq, Eq, Structural)]
pub enum ImportTrackStatus {
    Skipped,
    ReadyOffline,
    ReadyOnline,
    ReadyManual,
    NeedsInput,
}

impl ImportTrackStatus {
    pub open spec fn label_view(self) -> Seq<char> {
        match self {
            ImportTrackStatus::Skipped => "Skipped"@,
            ImportTrackStatus::ReadyOffline => "Ready Offline"@,
            ImportTrackStatus::ReadyOnline => "Ready Online"@,
            ImportTrackStatus::ReadyManual => "Ready Manual"@,
            ImportTrackStatus::NeedsInput => "Needs Input"@,
        }
    }

    /// The badge text of a status.
    pub fn label(self) -> (r: &'static str)
        ensures
            r@ == self.label_view(),
    {
        match self {
            ImportTrackStatus::Skipped => "Skipped",
            ImportTrackStatus::ReadyOffline => "Ready Offline",
            ImportTrackStatus::ReadyOnline => "Ready Online",
            ImportTrackStatus::ReadyManual => "Ready Manual",
            ImportTrackStatus::NeedsInput => "Needs Input",
        }
    }
}

/// The status of a file: skipped; ready, by where its metadata came from,
/// once metadata was found; else waiting for input.
pub fn import_track_status(skipped: bool, has_detected_track: bool, source: Option<ReviewSource>) -> (r: ImportTrackStatus)
    ensures
        skipped ==> r == ImportTrackStatus::Skipped,
        !skipped && !has_detected_track ==> r == ImportTrackStatus::NeedsInput,
        !skipped && has_detected_track ==> r == match source {
            Some(ReviewSource::LocalTags) => ImportTrackStatus::ReadyOffline,
            Some(ReviewSource::OnlineServices) => ImportTrackStatus::ReadyOnline,
            _ => ImportTrackStatus::ReadyManual,
        },
{
    if skipped {
        ImportTrackStatus::Skipped
    } else if has_detected_track && source == Some(ReviewSource::LocalTags) {
        ImportTrackStatus::ReadyOffline
    } else if has_detected_track && source == Some(ReviewSource::OnlineServices) {
        ImportTrackStatus::ReadyOnline
    } else if has_detected_track {
        ImportTrackStatus::ReadyManual
    } else {
        ImportTrackStatus::NeedsInput
    }
}

/// A number written with at least two digits.
pub open spec fn two_digits(n: nat) -> Seq<char> {
    if n < 10 { seq!['0'] + decimal(n) } else { decimal(n) }
}

/// The metadata line of a file whose metadata was found: the title, after
/// its track number when known, then the artist and the album.
pub open spec fn metadata_summary_text(track_number: Option<u32>, title: Seq<char>, artist: Seq<char>, album: Seq<char>) -> Seq<char> {
    let head = match track_number {
        Some(n) => two_digits(n as nat) + seq![' '] + title,
        None => title,
    };
    head + part_separator() + artist + part_separator() + album
}

/// The metadata line of a file whose metadata was found.
pub fn import_metadata_summary(track_number: Option<u32>, title: &str, artist: &str, album: &str) -> (r: String)
    ensures
        r@ == metadata_summary_text(track_number, title@, artist@, album@),
{
    proof {
        reveal_strlit("  \u{2022}  ");
        assert("  \u{2022}  "@ == part_separator());
    }
    let mut out = match track_number {
        Some(n) => {
            let mut s = if n < 10 { String::from_str("0") } else { String::new() };
            proof {
                reveal_strlit("0");
            }
            let digits = u64_to_string(n as u64);
            s.append(digits.as_str());
            s.append(" ");
            proof { reveal_strlit(" "); }
            s.append(title);
            s
        },
        None => String::from_str(title),
    };
    out.append("  \u{2022}  ");
    out.append(artist);
    out.append("  \u{2022}  ");
    out.append(album);
    out
}

/// The metadata line of a file with no metadata found yet.
pub fn no_metadata_summary() -> (r: &'static str)
    ensures
        r@ == "No importable metadata yet."@,
{
    "No importable metadata yet."
}

/// The line naming the fields a file's tags lack, by their labels joined
/// with ", "; none when it lacks none.
pub fn missing_tags_line(labels: &[String]) -> (r: Option<String>)
    ensures
        labels@.len() == 0 ==> r is None,
        labels@.len() > 0 ==> (r matches Some(t) && t@ == "Missing from local tags: "@
            + crate::libraryops::joined(crate::libraryops::texts_view(labels@), ", "@)),
{
    if labels.len() == 0 {
        return None;
    }
    let mut line = String::from_str("Missing from local tags: ");
    let joined = crate::libraryops::join_texts(labels, ", ");
    line.append(joined.as_str());
    Some(line)
}

/// The name a file of the review is shown by: its file name when the path
/// has one that is valid text, else the title it was found with.
pub fn import_file_label(file_name: Option<&str>, original_title: &str) -> (r: String)
    ensures
        r@ == match file_name { Some(n) => n@, None => original_title@ },
{
    match file_name {
        Some(n) => String::from_str(n),
        None => String::from_str(original_title),
    }
}

} // verus!
