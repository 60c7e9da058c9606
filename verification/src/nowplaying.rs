//! The texts of the now-playing bar.

use vstd::prelude::*;
use crate::keys::format_duration;
use crate::albumgroups::duration_text;
use crate::model::{PlaybackStatus, Track, clone_opt_format};
use crate::quality::{
    AudioQuality, label_of_normalized, normalized_audio_quality_label, normalized_quality_spec, opt_str_view,
    quality_in_range,
};
use crate::rows::{joined, part_separator};

verus! {

/// The quality of the playing track, as known.
pub open spec fn track_quality(track: Track) -> AudioQuality {
    AudioQuality { audio_format: track.audio_format, bitrate_bps: track.bitrate_bps }
}

/// The quality label of the playing track, when its quality is known.
pub fn now_playing_quality_label(track: &Track) -> (r: Option<String>)
    requires
        quality_in_range(track_quality(*track)),
    ensures
        opt_str_view(r) == (match normalized_quality_spec(track_quality(*track)) {
            Some(n) => label_of_normalized(n),
            None => None,
        }),
{
    let quality = AudioQuality { audio_format: clone_opt_format(&track.audio_format), bitrate_bps: track.bitrate_bps };
    normalized_audio_quality_label(&quality)
}

/// The title line: the track's title, or that nothing is selected.
pub fn now_playing_title(track: Option<&Track>) -> (r: String)
    ensures
        r@ == match track { Some(t) => t.title@, None => "Nothing selected"@ },
{
    match track {
        Some(t) => t.title.clone(),
        None => String::from_str("Nothing selected"),
    }
}

/// The parts of the detail line of a track: artist, album, length, the
/// provider's name and, when known, the quality.
pub open spec fn detail_parts(track: Track, provider_name: Seq<char>, quality: Option<Seq<char>>) -> Seq<Seq<char>> {
    let base = seq![track.artist@, track.album@, duration_text(track.duration_seconds), provider_name];
    match quality {
        Some(q) => base.push(q),
        None => base,
    }
}

/// The detail line under the title: the track's parts joined, or a hint to
/// choose a track.
pub fn now_playing_detail(track: Option<&Track>, provider_name: &str) -> (r: String)
    requires
        track matches Some(t) ==> quality_in_range(track_quality(*t)),
    ensures
        match track {
            Some(t) => r@ == joined(detail_parts(*t, provider_name@, match normalized_quality_spec(track_quality(*t)) {
                Some(n) => label_of_normalized(n),
                None => None,
            })),
            None => r@ == "Choose a track to start playback."@,
        },
{
    match track {
        None => String::from_str("Choose a track to start playback."),
        Some(t) => {
            let quality = now_playing_quality_label(t);
            let duration = format_duration(t.duration_seconds);
            let mut out = t.artist.clone();
            out.append("  \u{2022}  ");
            out.append(t.album.as_str());
            out.append("  \u{2022}  ");
            out.append(duration.as_str());
            out.append("  \u{2022}  ");
            out.append(provider_name);
            let ghost four = out@;
            proof {
                reveal_strlit("  \u{2022}  ");
                assert("  \u{2022}  "@ == part_separator());
                let base = seq![t.artist@, t.album@, duration_text(t.duration_seconds), provider_name@];
                assert(base.drop_last() =~= seq![t.artist@, t.album@, duration_text(t.duration_seconds)]);
                assert(base.drop_last().drop_last() =~= seq![t.artist@, t.album@]);
                assert(base.drop_last().drop_last().drop_last() =~= seq![t.artist@]);
                let d1 = base.drop_last();
                let d2 = d1.drop_last();
                let d3 = d2.drop_last();
                assert(joined(d3) == t.artist@);
                assert(joined(d2) == joined(d3) + part_separator() + d2.last());
                assert(joined(d1) == joined(d2) + part_separator() + d1.last());
                assert(joined(base) == joined(d1) + part_separator() + base.last());
                assert(duration@ == duration_text(t.duration_seconds));
                assert(joined(base) =~= four);
            }
            match quality {
                Some(q) => {
                    out.append("  \u{2022}  ");
                    out.append(q.as_str());
                    proof {
                        let base = seq![t.artist@, t.album@, duration_text(t.duration_seconds), provider_name@];
                        assert(base.push(q@).drop_last() =~= base);
                    }
                    out
                },
                None => out,
            }
        },
    }
}

/// Whether the play button shows pause: while playing or buffering.
pub fn shows_pause(status: PlaybackStatus) -> (r: bool)
    ensures
        r <==> (status == PlaybackStatus::Playing || status == PlaybackStatus::Buffering),
{
    match status {
        PlaybackStatus::Playing | PlaybackStatus::Buffering => true,
        _ => false,
    }
}

} // verus!
