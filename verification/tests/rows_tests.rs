use oryx::model::{AudioFormat, CollectionKind, CollectionRef, CollectionSummary, ProviderId, TrackList, TrackRef, TrackSummary};
use oryx::quality::{AudioQualityGrade, CollectionQualitySummary, summarize_collection_quality};
use oryx::rows::{QualityMetadata, QualityTone, artist_album_collage_urls, collection_quality_metadata, sidebar_secondary_metadata};

#[test]
fn local_artist_collage_uses_one_image_per_album() {
    let track_list = TrackList {
        collection: CollectionSummary {
            reference: CollectionRef::new(
                ProviderId::Local,
                "local-artist:Artist One",
                CollectionKind::Album,
                None,
            ),
            title: "Artist One".to_string(),
            subtitle: Some("2 albums".to_string()),
            artwork_url: None,
            track_count: Some(4),
        },
        tracks: vec![
            track_summary(
                "track-1",
                Some("album-a"),
                Some("Album A"),
                Some("https://cdn.example/track-a-variant.jpg"),
            ),
            track_summary(
                "track-2",
                Some("album-a"),
                Some("Album A"),
                Some("https://cdn.example/album-a.jpg"),
            ),
            track_summary(
                "track-3",
                Some("album-b"),
                Some("Album B"),
                Some("https://cdn.example/album-b.jpg"),
            ),
            track_summary(
                "track-4",
                Some("album-b"),
                Some("Album B"),
                Some("https://cdn.example/track-b-variant.jpg"),
            ),
        ],
    };

    assert_eq!(
        artist_album_collage_urls(&track_list),
        vec![
            "https://cdn.example/track-a-variant.jpg".to_string(),
            "https://cdn.example/album-b.jpg".to_string(),
        ]
    );
}

#[test]
fn sidebar_secondary_metadata_omits_kind_label_when_not_requested() {
    assert_eq!(
        sidebar_secondary_metadata(None, Some(12), "2 albums"),
        Some("12 tracks".to_string())
    );
}

#[test]
fn summarizes_high_and_lossless_collections_as_a_range() {
    let track_list = TrackList {
        collection: CollectionSummary {
            reference: CollectionRef::new(
                ProviderId::Local,
                "album-a",
                CollectionKind::Album,
                None,
            ),
            title: "Album A".to_string(),
            subtitle: Some("Artist One".to_string()),
            artwork_url: None,
            track_count: Some(2),
        },
        tracks: vec![
            track_summary_with_quality(
                "track-1",
                Some("album-a"),
                Some("Album A"),
                Some(AudioFormat::Flac),
                None,
            ),
            track_summary_with_quality(
                "track-2",
                Some("album-a"),
                Some("Album A"),
                Some(AudioFormat::Mp3),
                Some(320_000),
            ),
        ],
    };

    assert_eq!(
        summarize_collection_quality(&track_list.tracks),
        Some(CollectionQualitySummary::Range {
            lowest: AudioQualityGrade::High,
            highest: AudioQualityGrade::Lossless,
        })
    );
}

#[test]
fn quality_metadata_uses_explicit_label_for_high_and_lossless_ranges() {
    assert_eq!(
        collection_quality_metadata(&CollectionQualitySummary::Range {
            lowest: AudioQualityGrade::High,
            highest: AudioQualityGrade::Lossless,
        }),
        Some(QualityMetadata {
            label: "High / Lossless".to_string(),
            tone: QualityTone::High,
        })
    );
}

fn track_summary(
    id: &str,
    collection_id: Option<&str>,
    collection_title: Option<&str>,
    artwork_url: Option<&str>,
) -> TrackSummary {
    with_artwork(track_summary_with_quality(id, collection_id, collection_title, None, None), artwork_url)
}

fn track_summary_with_quality(
    id: &str,
    collection_id: Option<&str>,
    collection_title: Option<&str>,
    audio_format: Option<AudioFormat>,
    bitrate_bps: Option<u32>,
) -> TrackSummary {
    TrackSummary {
        reference: TrackRef::new(ProviderId::Local, id, None, Some(id.to_string())),
        title: id.to_string(),
        artist: Some("Artist One".to_string()),
        album: collection_title.map(str::to_string),
        collection_id: collection_id.map(str::to_string),
        collection_title: collection_title.map(str::to_string),
        collection_subtitle: Some("Artist One".to_string()),
        duration_seconds: None,
        bitrate_bps,
        audio_format,
        artwork_url: None,
    }
}

fn with_artwork(mut track: TrackSummary, artwork_url: Option<&str>) -> TrackSummary {
    track.artwork_url = artwork_url.map(str::to_string);
    track
}
