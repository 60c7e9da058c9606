//! Audio quality: bitrate normalization to standard tiers, codec-aware
//! grading, display labels and collection summaries.

use vstd::prelude::*;
use crate::model::{AudioFormat, TrackSummary, TrackList, clone_opt_format};
use crate::text::{decimal, u64_to_string};

verus! {

/// The format and bitrate known of a track.
#[derive(Debug, PartialEq, Eq, Hash)]
pub struct AudioQuality {
    pub audio_format: Option<AudioFormat>,
    pub bitrate_bps: Option<u32>,
}

impl Clone for AudioQuality {
    fn clone(&self) -> (r: Self)
        ensures
            r == *self,
    {
        AudioQuality { audio_format: clone_opt_format(&self.audio_format), bitrate_bps: self.bitrate_bps }
    }
}

/// How good a track sounds, from best to worst.
#[derive(Clone, Copy, Debug, PartialEq, Eq, Hash, Structural)]
pub enum AudioQualityGrade {
    Lossless,
    High,
    Standard,
    Low,
}

impl AudioQualityGrade {
    /// The grade's place in the order Low < Standard < High < Lossless.
    pub open spec fn rank(self) -> int {
        match self {
            AudioQualityGrade::Low => 0,
            AudioQualityGrade::Standard => 1,
            AudioQualityGrade::High => 2,
            AudioQualityGrade::Lossless => 3,
        }
    }

    pub open spec fn label_view(self) -> Seq<char> {
        match self {
            AudioQualityGrade::Lossless => seq!['L', 'o', 's', 's', 'l', 'e', 's', 's'],
            AudioQualityGrade::High => seq!['H', 'i', 'g', 'h'],
            AudioQualityGrade::Standard => seq!['S', 't', 'a', 'n', 'd', 'a', 'r', 'd'],
            AudioQualityGrade::Low => seq!['L', 'o', 'w'],
        }
    }

    /// The grade's display name.
    pub fn label(self) -> (r: &'static str)
        ensures
            r@ == self.label_view(),
    {
        match self {
            AudioQualityGrade::Lossless => {
                proof { reveal_strlit("Lossless"); }
                "Lossless"
            },
            AudioQualityGrade::High => {
                proof { reveal_strlit("High"); }
                "High"
            },
            AudioQualityGrade::Standard => {
                proof { reveal_strlit("Standard"); }
                "Standard"
            },
            AudioQualityGrade::Low => {
                proof { reveal_strlit("Low"); }
                "Low"
            },
        }
    }

    /// The grade's rank as a number.
    pub fn rank_exec(self) -> (r: u8)
        ensures
            r == self.rank(),
    {
        match self {
            AudioQualityGrade::Low => 0,
            AudioQualityGrade::Standard => 1,
            AudioQualityGrade::High => 2,
            AudioQualityGrade::Lossless => 3,
        }
    }
}

/// The grade has a distinct rank: rank determines the grade.
pub proof fn lemma_grade_rank_injective(a: AudioQualityGrade, b: AudioQualityGrade)
    ensures
        a.rank() == b.rank() <==> a == b,
{
}

/// How the grades of a collection's tracks spread.
#[derive(Clone, Copy, Debug, PartialEq, Eq, Structural)]
pub enum CollectionQualitySummary {
    Uniform(AudioQualityGrade),
    Range { lowest: AudioQualityGrade, highest: AudioQualityGrade },
}

/// Bitrates whose rounding cannot overflow.
pub open spec fn bitrate_in_range(b: u32) -> bool {
    b <= u32::MAX - 500
}

pub open spec fn quality_in_range(q: AudioQuality) -> bool {
    q.bitrate_bps matches Some(b) ==> bitrate_in_range(b)
}

/// A measured bitrate rounded to whole kilobits per second, at least 1.
pub open spec fn measured_kbps(b: u32) -> int {
    let k = (b + 500) / 1000;
    if k < 1 { 1 } else { k }
}

pub open spec fn kbps_distance(a: int, b: int) -> int {
    if a >= b { a - b } else { b - a }
}

/// `tiers[i]` is the first tier nearest to `m`.
pub open spec fn is_first_nearest(tiers: Seq<u32>, m: int, i: int) -> bool {
    &&& 0 <= i < tiers.len()
    &&& forall|j: int| 0 <= j < tiers.len() ==> kbps_distance(m, tiers[i] as int) <= kbps_distance(m, #[trigger] tiers[j] as int)
    &&& forall|j: int| 0 <= j < i ==> kbps_distance(m, tiers[i] as int) < kbps_distance(m, #[trigger] tiers[j] as int)
}

/// The standard lossy tiers of a format, in kbps.
pub open spec fn lossy_tiers(format: AudioFormat) -> Seq<u32> {
    match format {
        AudioFormat::Aac | AudioFormat::M4a | AudioFormat::Opus => seq![96u32, 128, 160, 192, 256, 320],
        _ => seq![96u32, 128, 160, 192, 224, 256, 320],
    }
}

fn lossy_tier_table(format: &AudioFormat) -> (r: Vec<u32>)
    ensures
        r@ == lossy_tiers(*format),
{
    match format {
        AudioFormat::Aac | AudioFormat::M4a | AudioFormat::Opus => {
            let r = vec![96u32, 128, 160, 192, 256, 320];
            assert(r@ =~= lossy_tiers(*format));
            r
        },
        _ => {
            let r = vec![96u32, 128, 160, 192, 224, 256, 320];
            assert(r@ =~= lossy_tiers(*format));
            r
        },
    }
}

/// Rounds a measured bitrate to the nearest of the given tiers (the first
/// one on a tie); without tiers, to the measured kbps.
pub fn nearest_bitrate_tier_bps(bitrate_bps: u32, tiers_kbps: &[u32]) -> (r: u32)
    requires
        bitrate_in_range(bitrate_bps),
        forall|i: int| #[trigger] is_first_nearest(tiers_kbps@, measured_kbps(bitrate_bps), i) ==> tiers_kbps@[i] <= 4_294_967,
    ensures
        tiers_kbps@.len() == 0 ==> r == measured_kbps(bitrate_bps) * 1000,
        tiers_kbps@.len() > 0 ==> exists|i: int| is_first_nearest(tiers_kbps@, measured_kbps(bitrate_bps), i)
            && r == tiers_kbps@[i] * 1000,
{
    let rounded = (bitrate_bps + 500) / 1000;
    let measured = if rounded < 1 { 1 } else { rounded };
    assert(measured == measured_kbps(bitrate_bps));
    if tiers_kbps.len() == 0 {
        return measured * 1000;
    }
    let mut best: usize = 0;
    let mut best_dist: u32 = if measured >= tiers_kbps[0] { measured - tiers_kbps[0] } else { tiers_kbps[0] - measured };
    let mut i: usize = 1;
    while i < tiers_kbps.len()
        invariant
            1 <= i <= tiers_kbps@.len(),
            best < i,
            measured == measured_kbps(bitrate_bps),
            best_dist == kbps_distance(measured as int, tiers_kbps@[best as int] as int),
            forall|j: int| 0 <= j < i ==> best_dist <= kbps_distance(measured as int, #[trigger] tiers_kbps@[j] as int),
            forall|j: int| 0 <= j < best ==> best_dist < kbps_distance(measured as int, #[trigger] tiers_kbps@[j] as int),
        decreases tiers_kbps@.len() - i,
    {
        let t = tiers_kbps[i];
        let d = if measured >= t { measured - t } else { t - measured };
        if d < best_dist {
            best = i;
            best_dist = d;
        }
        i += 1;
    }
    let tier = tiers_kbps[best];
    assert(is_first_nearest(tiers_kbps@, measured_kbps(bitrate_bps), best as int));
    tier * 1000
}

/// The lossy normalization of a bitrate for a format: nearest standard tier.
pub open spec fn is_lossy_normalized(format: AudioFormat, b: u32, r: u32) -> bool {
    if format is Flac {
        r == b
    } else {
        exists|i: int| is_first_nearest(lossy_tiers(format), measured_kbps(b), i)
            && r == lossy_tiers(format)[i] * 1000
    }
}

/// Snaps a lossy bitrate to the nearest standard tier of its format; a
/// lossless format keeps its bitrate.
pub fn normalize_lossy_bitrate_bps(format: &AudioFormat, bitrate_bps: u32) -> (r: u32)
    requires
        bitrate_in_range(bitrate_bps),
    ensures
        is_lossy_normalized(*format, bitrate_bps, r),
{
    if let AudioFormat::Flac = format {
        return bitrate_bps;
    }
    let tiers = lossy_tier_table(format);
    assert forall|i: int| #[trigger] is_first_nearest(tiers@, measured_kbps(bitrate_bps), i) implies tiers@[i] <= 4_294_967 by {
        assert(tiers@[i] <= 320);
    }
    nearest_bitrate_tier_bps(bitrate_bps, tiers.as_slice())
}

/// Rounds a bitrate of unknown format to whole kbps (at least 1).
pub fn normalize_unknown_bitrate_bps(bitrate_bps: u32) -> (r: u32)
    requires
        bitrate_in_range(bitrate_bps),
    ensures
        r == measured_kbps(bitrate_bps) * 1000,
{
    let rounded = (bitrate_bps + 500) / 1000;
    let kbps = if rounded < 1 { 1 } else { rounded };
    kbps * 1000
}

/// `r` is the normalized form of `q`.
pub open spec fn is_normalized_of(q: AudioQuality, r: AudioQuality) -> bool {
    &&& r.audio_format == q.audio_format
    &&& match q.audio_format {
        Some(AudioFormat::Flac) => r.bitrate_bps is None,
        Some(f) => match q.bitrate_bps {
            Some(b) => r.bitrate_bps matches Some(rb) && is_lossy_normalized(f, b, rb),
            None => r.bitrate_bps is None,
        },
        None => match q.bitrate_bps {
            Some(b) => r.bitrate_bps == Some((measured_kbps(b) * 1000) as u32),
            None => r.bitrate_bps is None,
        },
    }
}

/// Normalizes a quality: lossless formats drop their bitrate, lossy ones
/// snap to their format's tiers, unknown formats round to whole kbps. A
/// quality with neither format nor bitrate has no normalized form.
pub fn normalized_audio_quality(quality: &AudioQuality) -> (r: Option<AudioQuality>)
    requires
        quality_in_range(*quality),
    ensures
        r is None <==> (quality.audio_format is None && quality.bitrate_bps is None),
        r matches Some(n) ==> is_normalized_of(*quality, n),
{
    if quality.audio_format.is_none() && quality.bitrate_bps.is_none() {
        return None;
    }
    let audio_format = clone_opt_format(&quality.audio_format);
    let bitrate_bps = match &quality.audio_format {
        Some(AudioFormat::Flac) => None,
        Some(format) => match quality.bitrate_bps {
            Some(b) => Some(normalize_lossy_bitrate_bps(format, b)),
            None => None,
        },
        None => match quality.bitrate_bps {
            Some(b) => Some(normalize_unknown_bitrate_bps(b)),
            None => None,
        },
    };
    Some(AudioQuality { audio_format, bitrate_bps })
}

/// The grade of a bitrate in kbps under a format's thresholds.
pub open spec fn grade_for_kbps(format: Option<AudioFormat>, kbps: int) -> AudioQualityGrade {
    match format {
        Some(AudioFormat::Opus) => if kbps <= 127 { AudioQualityGrade::Low } else if kbps <= 159 {
            AudioQualityGrade::Standard } else { AudioQualityGrade::High },
        Some(AudioFormat::Mp3) => if kbps <= 191 { AudioQualityGrade::Low } else if kbps <= 319 {
            AudioQualityGrade::Standard } else { AudioQualityGrade::High },
        _ => if kbps <= 159 { AudioQualityGrade::Low } else if kbps <= 255 {
            AudioQualityGrade::Standard } else { AudioQualityGrade::High },
    }
}

/// The grade of a normalized quality.
pub open spec fn grade_of_normalized(n: AudioQuality) -> Option<AudioQualityGrade> {
    match (n.audio_format, n.bitrate_bps) {
        (Some(AudioFormat::Flac), _) => Some(AudioQualityGrade::Lossless),
        (f, Some(b)) => Some(grade_for_kbps(f, (b / 1000) as int)),
        (Some(_), None) => None,
        (None, None) => None,
    }
}

fn grade_for_bitrate(format: &Option<AudioFormat>, bitrate_bps: u32) -> (r: AudioQualityGrade)
    ensures
        r == grade_for_kbps(*format, (bitrate_bps / 1000) as int),
{
    let kbps = bitrate_bps / 1000;
    match format {
        Some(AudioFormat::Opus) => if kbps <= 127 { AudioQualityGrade::Low } else if kbps <= 159 {
            AudioQualityGrade::Standard } else { AudioQualityGrade::High },
        Some(AudioFormat::Mp3) => if kbps <= 191 { AudioQualityGrade::Low } else if kbps <= 319 {
            AudioQualityGrade::Standard } else { AudioQualityGrade::High },
        _ => if kbps <= 159 { AudioQualityGrade::Low } else if kbps <= 255 {
            AudioQualityGrade::Standard } else { AudioQualityGrade::High },
    }
}

/// Grades a quality after normalizing it: lossless is Lossless, lossy
/// bitrates are graded with the codec's thresholds; with no bitrate (and a
/// lossy format) or nothing known there is no grade.
pub fn normalized_audio_quality_grade(quality: &AudioQuality) -> (r: Option<AudioQualityGrade>)
    requires
        quality_in_range(*quality),
    ensures
        r == (match normalized_quality_spec(*quality) {
            Some(n) => grade_of_normalized(n),
            None => None,
        }),
        quality.audio_format == Some(AudioFormat::Flac) ==> r == Some(AudioQualityGrade::Lossless),
{
    let normalized = normalized_audio_quality(quality);
    proof { lemma_normalized_unique(*quality, normalized); }
    match normalized {
        None => None,
        Some(n) => match (&n.audio_format, n.bitrate_bps) {
            (Some(AudioFormat::Flac), _) => Some(AudioQualityGrade::Lossless),
            (f, Some(b)) => Some(grade_for_bitrate(f, b)),
            (Some(_), None) => None,
            (None, None) => None,
        },
    }
}

/// The normalized form of a quality, as a value.
pub open spec fn normalized_quality_spec(q: AudioQuality) -> Option<AudioQuality> {
    if q.audio_format is None && q.bitrate_bps is None {
        None
    } else {
        Some(choose|n: AudioQuality| is_normalized_of(q, n))
    }
}

/// The normalized form is unique, so the executable result is the spec value.
pub proof fn lemma_normalized_unique(q: AudioQuality, r: Option<AudioQuality>)
    requires
        r is None <==> (q.audio_format is None && q.bitrate_bps is None),
        r matches Some(n) ==> is_normalized_of(q, n),
    ensures
        r == normalized_quality_spec(q),
{
    if let Some(n) = r {
        let c = choose|n: AudioQuality| is_normalized_of(q, n);
        assert(is_normalized_of(q, c));
        lemma_normalized_determined(q, n, c);
    }
}

/// Two normalized forms of one quality are equal.
pub proof fn lemma_normalized_determined(q: AudioQuality, a: AudioQuality, b: AudioQuality)
    requires
        is_normalized_of(q, a),
        is_normalized_of(q, b),
    ensures
        a == b,
{
    match q.audio_format {
        Some(AudioFormat::Flac) => {},
        Some(f) => {
            if let Some(bps) = q.bitrate_bps {
                let ra = a.bitrate_bps.unwrap();
                let rb = b.bitrate_bps.unwrap();
                let ia = choose|i: int| is_first_nearest(lossy_tiers(f), measured_kbps(bps), i)
                    && ra == lossy_tiers(f)[i] * 1000;
                let ib = choose|i: int| is_first_nearest(lossy_tiers(f), measured_kbps(bps), i)
                    && rb == lossy_tiers(f)[i] * 1000;
                lemma_first_nearest_unique(lossy_tiers(f), measured_kbps(bps), ia, ib);
            }
        },
        None => {},
    }
}

/// There is only one first nearest tier.
pub proof fn lemma_first_nearest_unique(tiers: Seq<u32>, m: int, i: int, j: int)
    requires
        is_first_nearest(tiers, m, i),
        is_first_nearest(tiers, m, j),
    ensures
        i == j,
{
    if i < j {
        assert(kbps_distance(m, tiers[j] as int) < kbps_distance(m, tiers[i] as int));
        assert(kbps_distance(m, tiers[j] as int) <= kbps_distance(m, tiers[i] as int));
    } else if j < i {
        assert(kbps_distance(m, tiers[i] as int) < kbps_distance(m, tiers[j] as int));
        assert(kbps_distance(m, tiers[i] as int) <= kbps_distance(m, tiers[j] as int));
    }
}

/// The display label of a normalized quality.
pub open spec fn label_of_normalized(n: AudioQuality) -> Option<Seq<char>> {
    match (n.audio_format, n.bitrate_bps) {
        (Some(AudioFormat::Flac), _) => Some(seq!['F', 'L', 'A', 'C']),
        (Some(f), Some(b)) => Some(f.label_view() + seq![' '] + decimal((b / 1000) as nat) + seq!['k']),
        (Some(f), None) => Some(f.label_view()),
        (None, Some(b)) => Some(decimal((b / 1000) as nat) + seq!['k']),
        (None, None) => None,
    }
}

/// The label of a quality after normalizing it: `FLAC`, `<format> <kbps>k`,
/// `<format>` or `<kbps>k`.
pub fn normalized_audio_quality_label(quality: &AudioQuality) -> (r: Option<String>)
    requires
        quality_in_range(*quality),
    ensures
        opt_str_view(r) == (match normalized_quality_spec(*quality) {
            Some(n) => label_of_normalized(n),
            None => None,
        }),
{
    let normalized = normalized_audio_quality(quality);
    proof { lemma_normalized_unique(*quality, normalized); }
    match normalized {
        None => None,
        Some(n) => match (&n.audio_format, n.bitrate_bps) {
            (Some(AudioFormat::Flac), _) => {
                proof { reveal_strlit("FLAC"); }
                Some(String::from_str("FLAC"))
            },
            (Some(format), Some(b)) => {
                let mut s = String::from_str(format.label());
                proof { reveal_strlit(" "); reveal_strlit("k"); }
                s.append(" ");
                let digits = u64_to_string((b / 1000) as u64);
                s.append(digits.as_str());
                s.append("k");
                Some(s)
            },
            (Some(format), None) => Some(String::from_str(format.label())),
            (None, Some(b)) => {
                let mut s = u64_to_string((b / 1000) as u64);
                proof { reveal_strlit("k"); }
                s.append("k");
                Some(s)
            },
            (None, None) => None,
        },
    }
}

/// The view of an optional string.
pub open spec fn opt_str_view(o: Option<String>) -> Option<Seq<char>> {
    match o {
        Some(s) => Some(s@),
        None => None,
    }
}

/// The quality a track carries, when it carries a format or a bitrate.
pub fn audio_quality_from_track(track: &TrackSummary) -> (r: Option<AudioQuality>)
    ensures
        r is None <==> (track.audio_format is None && track.bitrate_bps is None),
        r matches Some(q) ==> q.audio_format == track.audio_format && q.bitrate_bps == track.bitrate_bps,
{
    if track.audio_format.is_none() && track.bitrate_bps.is_none() {
        return None;
    }
    Some(AudioQuality { audio_format: clone_opt_format(&track.audio_format), bitrate_bps: track.bitrate_bps })
}

/// The grade of a track, when its quality can be graded.
pub open spec fn track_grade(t: TrackSummary) -> Option<AudioQualityGrade> {
    if t.audio_format is None && t.bitrate_bps is None {
        None
    } else {
        let q = AudioQuality { audio_format: t.audio_format, bitrate_bps: t.bitrate_bps };
        match normalized_quality_spec(q) {
            Some(n) => grade_of_normalized(n),
            None => None,
        }
    }
}

pub open spec fn track_in_range(t: TrackSummary) -> bool {
    t.bitrate_bps matches Some(b) ==> bitrate_in_range(b)
}

/// The grade of a track, when its quality can be graded.
pub fn track_quality_grade(track: &TrackSummary) -> (r: Option<AudioQualityGrade>)
    requires
        track_in_range(*track),
    ensures
        r == track_grade(*track),
{
    match audio_quality_from_track(track) {
        None => None,
        Some(q) => {
            assert(q == AudioQuality { audio_format: track.audio_format, bitrate_bps: track.bitrate_bps });
            normalized_audio_quality_grade(&q)
        },
    }
}

/// The lowest rank among a non-empty sequence of grades.
pub open spec fn min_rank(grades: Seq<AudioQualityGrade>) -> int
    decreases grades.len(),
{
    if grades.len() <= 1 {
        grades[0].rank()
    } else {
        let rest = min_rank(grades.drop_last());
        if grades.last().rank() < rest { grades.last().rank() } else { rest }
    }
}

/// The highest rank among a non-empty sequence of grades.
pub open spec fn max_rank(grades: Seq<AudioQualityGrade>) -> int
    decreases grades.len(),
{
    if grades.len() <= 1 {
        grades[0].rank()
    } else {
        let rest = max_rank(grades.drop_last());
        if grades.last().rank() > rest { grades.last().rank() } else { rest }
    }
}

/// The grade of a rank.
pub open spec fn grade_of_rank(r: int) -> AudioQualityGrade {
    if r <= 0 { AudioQualityGrade::Low } else if r == 1 { AudioQualityGrade::Standard }
    else if r == 2 { AudioQualityGrade::High } else { AudioQualityGrade::Lossless }
}

/// The summary of a sequence of grades: none for no grades, `Uniform` when
/// all are the same, otherwise the `Range` from the lowest to the highest.
pub open spec fn summary_of_grades(grades: Seq<AudioQualityGrade>) -> Option<CollectionQualitySummary> {
    if grades.len() == 0 {
        None
    } else if min_rank(grades) == max_rank(grades) {
        Some(CollectionQualitySummary::Uniform(grade_of_rank(min_rank(grades))))
    } else {
        Some(CollectionQualitySummary::Range {
            lowest: grade_of_rank(min_rank(grades)),
            highest: grade_of_rank(max_rank(grades)),
        })
    }
}

proof fn lemma_min_max_bounds(grades: Seq<AudioQualityGrade>)
    requires
        grades.len() > 0,
    ensures
        0 <= min_rank(grades) <= max_rank(grades) <= 3,
        forall|i: int| 0 <= i < grades.len() ==> min_rank(grades) <= #[trigger] grades[i].rank() <= max_rank(grades),
        exists|i: int| 0 <= i < grades.len() && grades[i].rank() == min_rank(grades),
        exists|i: int| 0 <= i < grades.len() && grades[i].rank() == max_rank(grades),
    decreases grades.len(),
{
    if grades.len() > 1 {
        lemma_min_max_bounds(grades.drop_last());
        let rest = grades.drop_last();
        assert forall|i: int| 0 <= i < grades.len() implies min_rank(grades) <= #[trigger] grades[i].rank() <= max_rank(grades) by {
            if i < grades.len() - 1 {
                assert(grades[i] == rest[i]);
            }
        }
        let im = choose|i: int| 0 <= i < rest.len() && rest[i].rank() == min_rank(rest);
        let iM = choose|i: int| 0 <= i < rest.len() && rest[i].rank() == max_rank(rest);
        assert(grades[im] == rest[im]);
        assert(grades[iM] == rest[iM]);
        assert(grades[grades.len() - 1] == grades.last());
    } else {
        assert(grades[0].rank() == min_rank(grades));
    }
}

fn grade_from_rank(r: u8) -> (g: AudioQualityGrade)
    ensures
        g == grade_of_rank(r as int),
{
    if r == 0 { AudioQualityGrade::Low } else if r == 1 { AudioQualityGrade::Standard }
    else if r == 2 { AudioQualityGrade::High } else { AudioQualityGrade::Lossless }
}

/// Summarizes grades: `Uniform` when all agree, else the `Range` they span.
pub fn summarize_audio_quality_grades(grades: &[AudioQualityGrade]) -> (r: Option<CollectionQualitySummary>)
    ensures
        r == summary_of_grades(grades@),
{
    if grades.len() == 0 {
        return None;
    }
    let mut lo: u8 = grades[0].rank_exec();
    let mut hi: u8 = grades[0].rank_exec();
    let mut i: usize = 1;
    while i < grades.len()
        invariant
            1 <= i <= grades@.len(),
            lo == min_rank(grades@.take(i as int)),
            hi == max_rank(grades@.take(i as int)),
        decreases grades@.len() - i,
    {
        let r = grades[i].rank_exec();
        assert(grades@.take(i + 1).drop_last() =~= grades@.take(i as int));
        if r < lo {
            lo = r;
        }
        if r > hi {
            hi = r;
        }
        i += 1;
    }
    assert(grades@.take(grades@.len() as int) =~= grades@);
    if lo == hi {
        Some(CollectionQualitySummary::Uniform(grade_from_rank(lo)))
    } else {
        Some(CollectionQualitySummary::Range { lowest: grade_from_rank(lo), highest: grade_from_rank(hi) })
    }
}

/// The grades of the gradable tracks, in order.
pub open spec fn track_grades(tracks: Seq<TrackSummary>) -> Seq<AudioQualityGrade>
    decreases tracks.len(),
{
    if tracks.len() == 0 {
        seq![]
    } else {
        let rest = track_grades(tracks.drop_last());
        match track_grade(tracks.last()) {
            Some(g) => rest.push(g),
            None => rest,
        }
    }
}

pub open spec fn tracks_in_range(tracks: Seq<TrackSummary>) -> bool {
    forall|i: int| 0 <= i < tracks.len() ==> track_in_range(#[trigger] tracks[i])
}

/// The grades of the gradable tracks, in order.
pub fn collect_track_grades(tracks: &[TrackSummary]) -> (r: Vec<AudioQualityGrade>)
    requires
        tracks_in_range(tracks@),
    ensures
        r@ == track_grades(tracks@),
{
    let mut grades: Vec<AudioQualityGrade> = Vec::new();
    let n = tracks.len();
    for i in 0..n
        invariant
            n == tracks@.len(),
            tracks_in_range(tracks@),
            grades@ == track_grades(tracks@.take(i as int)),
    {
        assert(tracks@.take(i + 1).drop_last() =~= tracks@.take(i as int));
        assert(tracks@.take(i + 1).last() == tracks@[i as int]);
        match track_quality_grade(&tracks[i]) {
            Some(g) => grades.push(g),
            None => {},
        }
    }
    assert(tracks@.take(n as int) =~= tracks@);
    grades
}

/// Summarizes the grades of a collection's tracks (ungradable tracks are
/// left out).
pub fn summarize_collection_quality(tracks: &[TrackSummary]) -> (r: Option<CollectionQualitySummary>)
    requires
        tracks_in_range(tracks@),
    ensures
        r == summary_of_grades(track_grades(tracks@)),
{
    let grades = collect_track_grades(tracks);
    summarize_audio_quality_grades(grades.as_slice())
}

/// Summarizes the grades of a track list.
pub fn summarize_track_list_quality(track_list: &TrackList) -> (r: Option<CollectionQualitySummary>)
    requires
        tracks_in_range(track_list.tracks@),
    ensures
        r == summary_of_grades(track_grades(track_list.tracks@)),
{
    summarize_collection_quality(track_list.tracks.as_slice())
}

/// The label shown for a collection's quality: the grade when uniform,
/// `High / Lossless` for that range, `Mixed` for any other range.
pub open spec fn summary_label(s: CollectionQualitySummary) -> Seq<char> {
    match s {
        CollectionQualitySummary::Uniform(g) => g.label_view(),
        CollectionQualitySummary::Range { lowest, highest } =>
            if lowest == AudioQualityGrade::High && highest == AudioQualityGrade::Lossless {
                seq!['H', 'i', 'g', 'h', ' ', '/', ' ', 'L', 'o', 's', 's', 'l', 'e', 's', 's']
            } else {
                seq!['M', 'i', 'x', 'e', 'd']
            },
    }
}

/// The label shown for a collection's quality.
pub fn collection_quality_label(summary: &CollectionQualitySummary) -> (r: String)
    ensures
        r@ == summary_label(*summary),
{
    match summary {
        CollectionQualitySummary::Uniform(g) => String::from_str(g.label()),
        CollectionQualitySummary::Range { lowest, highest } => {
            if *lowest == AudioQualityGrade::High && *highest == AudioQualityGrade::Lossless {
                proof { reveal_strlit("High / Lossless"); }
                String::from_str("High / Lossless")
            } else {
                proof { reveal_strlit("Mixed"); }
                String::from_str("Mixed")
            }
        },
    }
}

/// A summary's range never runs backwards: the lowest grade ranks below the
/// highest, and every summarized grade lies between them.
pub proof fn lemma_summary_brackets_grades(grades: Seq<AudioQualityGrade>)
    requires
        grades.len() > 0,
    ensures
        summary_of_grades(grades) matches Some(CollectionQualitySummary::Range { lowest, highest })
            ==> lowest.rank() < highest.rank()
                && forall|i: int| 0 <= i < grades.len() ==> lowest.rank() <= #[trigger] grades[i].rank() <= highest.rank(),
        summary_of_grades(grades) matches Some(CollectionQualitySummary::Uniform(g))
            ==> forall|i: int| 0 <= i < grades.len() ==> #[trigger] grades[i] == g,
{
    lemma_min_max_bounds(grades);
    assert forall|i: int| 0 <= i < grades.len() implies min_rank(grades) <= #[trigger] grades[i].rank() <= max_rank(grades) by {}
    if min_rank(grades) == max_rank(grades) {
        assert forall|i: int| 0 <= i < grades.len() implies #[trigger] grades[i] == grade_of_rank(min_rank(grades)) by {
            assert(grades[i].rank() == min_rank(grades));
        }
    }
}


/// AAC and M4A grade alike and by the AAC thresholds: below 160 kbps Low,
/// 160 to 255 kbps Standard, from 256 kbps High.
pub proof fn lemma_aac_m4a_thresholds(bitrate_bps: u32)
    ensures
        grade_of_normalized(AudioQuality { audio_format: Some(AudioFormat::M4a), bitrate_bps: Some(bitrate_bps) })
            == grade_of_normalized(AudioQuality { audio_format: Some(AudioFormat::Aac), bitrate_bps: Some(bitrate_bps) }),
        grade_of_normalized(AudioQuality { audio_format: Some(AudioFormat::Aac), bitrate_bps: Some(bitrate_bps) }) == Some(
            if bitrate_bps < 160_000 {
                AudioQualityGrade::Low
            } else if bitrate_bps < 256_000 {
                AudioQualityGrade::Standard
            } else {
                AudioQualityGrade::High
            },
        ),
{
}

/// Opus grades by its own thresholds: below 128 kbps Low, 128 to 159 kbps
/// Standard, from 160 kbps High; MP3 by its own: below 192 kbps Low, 192
/// to 319 kbps Standard, from 320 kbps High.
pub proof fn lemma_opus_and_mp3_thresholds(bitrate_bps: u32)
    ensures
        grade_of_normalized(AudioQuality { audio_format: Some(AudioFormat::Opus), bitrate_bps: Some(bitrate_bps) }) == Some(
            if bitrate_bps < 128_000 {
                AudioQualityGrade::Low
            } else if bitrate_bps < 160_000 {
                AudioQualityGrade::Standard
            } else {
                AudioQualityGrade::High
            },
        ),
        grade_of_normalized(AudioQuality { audio_format: Some(AudioFormat::Mp3), bitrate_bps: Some(bitrate_bps) }) == Some(
            if bitrate_bps < 192_000 {
                AudioQualityGrade::Low
            } else if bitrate_bps < 320_000 {
                AudioQualityGrade::Standard
            } else {
                AudioQualityGrade::High
            },
        ),
{
}


/// FLAC is lossless at any bitrate; an unknown or missing format with a
/// bitrate grades by the AAC thresholds.
pub proof fn lemma_flac_and_unknown_grades(bitrate: Option<u32>, b: u32, name: String)
    ensures
        grade_of_normalized(AudioQuality { audio_format: Some(AudioFormat::Flac), bitrate_bps: bitrate })
            == Some(AudioQualityGrade::Lossless),
        grade_of_normalized(AudioQuality { audio_format: None, bitrate_bps: Some(b) })
            == grade_of_normalized(AudioQuality { audio_format: Some(AudioFormat::Aac), bitrate_bps: Some(b) }),
        grade_of_normalized(AudioQuality { audio_format: Some(AudioFormat::Unknown(name)), bitrate_bps: Some(b) })
            == grade_of_normalized(AudioQuality { audio_format: Some(AudioFormat::Aac), bitrate_bps: Some(b) }),
{
}

} // verus!
