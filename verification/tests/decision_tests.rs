use oryx::controller::{PlaybackError, PlaybackState};
use oryx::model::{AudioFormat, CollectionKind, CollectionRef, CollectionSummary, ProviderId, TrackList, TrackRef, TrackSummary};
use oryx::output::{OutputRequest, ReopenStep, StreamErrorKind, forces_output_rebuild, reopen_step, stream_error_invalidates};
use oryx::quality::{AudioQuality, AudioQualityGrade, CollectionQualitySummary};
use oryx::requests::{
    download_cancelled_message, download_started_message, play_request, play_start_message, reached_end_message,
    restart_failure_message, should_start_download,
};
use oryx::rows::{QualityTone, collection_metadata, track_list_metadata, track_list_metadata_provider, track_metadata_for_collection};

fn remote() -> ProviderId {
    ProviderId::parse("fixture_remote").unwrap()
}

fn track(provider: ProviderId, id: &str, format: Option<AudioFormat>, bitrate: Option<u32>) -> TrackSummary {
    TrackSummary {
        reference: TrackRef::new(provider, id, None, None),
        title: id.to_string(),
        artist: None,
        album: None,
        collection_id: Some("album-1".to_string()),
        collection_title: None,
        collection_subtitle: None,
        duration_seconds: None,
        bitrate_bps: bitrate,
        audio_format: format,
        artwork_url: None,
    }
}

fn album(provider: ProviderId, id: &str, tracks: Vec<TrackSummary>) -> TrackList {
    TrackList {
        collection: CollectionSummary {
            reference: CollectionRef::new(provider, id, CollectionKind::Album, None),
            title: id.to_string(),
            subtitle: None,
            artwork_url: None,
            track_count: Some(tracks.len()),
        },
        tracks,
    }
}

#[test]
fn track_rows_show_grades_that_differ_from_the_collection() {
    let flac = track(remote(), "t1", Some(AudioFormat::Flac), None);
    let uniform_lossless = CollectionQualitySummary::Uniform(AudioQualityGrade::Lossless);
    assert_eq!(track_metadata_for_collection(&flac, &remote(), Some(&uniform_lossless), None, "FX"), None);

    let uniform_high = CollectionQualitySummary::Uniform(AudioQualityGrade::High);
    let shown = track_metadata_for_collection(&flac, &remote(), Some(&uniform_high), None, "FX").unwrap();
    assert_eq!(shown.provider_label, None);
    let badge = shown.quality.unwrap();
    assert_eq!(badge.label, "Lossless");
    assert_eq!(badge.tone, QualityTone::Lossless);

    let unknown = track(remote(), "t2", None, None);
    let other_provider = track_metadata_for_collection(&unknown, &ProviderId::Local, None, None, "FX").unwrap();
    assert_eq!(other_provider.provider_label.as_deref(), Some("FX"));
    assert_eq!(other_provider.quality, None);

    let recorded = AudioQuality { audio_format: Some(AudioFormat::Mp3), bitrate_bps: Some(320_000) };
    let from_record = track_metadata_for_collection(&unknown, &remote(), None, Some(recorded), "FX").unwrap();
    assert_eq!(from_record.quality.unwrap().label, "High");
}

#[test]
fn list_rows_show_their_summary_and_remote_provider() {
    let list = album(
        remote(),
        "album-1",
        vec![track(remote(), "t1", Some(AudioFormat::Flac), None), track(remote(), "t2", Some(AudioFormat::Mp3), Some(320_000))],
    );
    assert_eq!(*track_list_metadata_provider(&list), remote());
    let metadata = track_list_metadata(&list, None, "FX").unwrap();
    assert_eq!(metadata.provider_label.as_deref(), Some("FX"));
    assert_eq!(metadata.quality.unwrap().label, "High / Lossless");

    let local = album(ProviderId::Local, "local-album", vec![]);
    assert_eq!(track_list_metadata(&local, None, "Local"), None);
    let recorded = track_list_metadata(&local, Some(CollectionQualitySummary::Uniform(AudioQualityGrade::Low)), "Local").unwrap();
    assert_eq!(recorded.provider_label, None);
    assert_eq!(recorded.quality.unwrap().label, "Low");

    let collection = collection_metadata(None, "FX").unwrap();
    assert_eq!(collection.provider_label.as_deref(), Some("FX"));
    assert_eq!(collection.quality, None);
}

#[test]
fn play_requests_remember_the_browser() {
    let context = album(remote(), "album-1", vec![track(remote(), "t1", None, None)]);
    let browser = album(remote(), "album-1", vec![]);
    let request = play_request(context, 0, None, Some(browser), Some("fixture_remote:album-1".to_string())).unwrap();
    assert!(request.browser_contains_track);
    assert_eq!(request.index, 0);
    let other = album(remote(), "album-2", vec![]);
    let context = album(remote(), "album-1", vec![track(remote(), "t1", None, None)]);
    assert!(!play_request(context, 0, None, Some(other), None).unwrap().browser_contains_track);
    let context = album(remote(), "album-1", vec![track(remote(), "t1", None, None)]);
    assert!(play_request(context, 1, None, None, None).is_none());
}

#[test]
fn playback_and_download_messages() {
    assert_eq!(play_start_message(true), "Starting playback.");
    assert_eq!(play_start_message(false), "Resolving, caching, and starting playback");
    assert!(should_start_download(false, false));
    assert!(!should_start_download(true, false));
    assert!(!should_start_download(false, true));
    assert_eq!(download_started_message("Song"), "Downloading 'Song'.");
    assert_eq!(download_cancelled_message("Song"), "Cancelled download for 'Song'.");
    assert_eq!(
        restart_failure_message(&PlaybackError::WorkerDisconnected),
        "Failed to restart playback: Playback worker disconnected before responding"
    );
    assert_eq!(reached_end_message(), "Reached end of track list.");
}

#[test]
fn output_is_reopened_after_route_changes() {
    assert!(forces_output_rebuild(OutputRequest::Play, true, false));
    assert!(!forces_output_rebuild(OutputRequest::Resume, true, false));
    assert!(forces_output_rebuild(OutputRequest::Seek, true, true));
    assert!(!forces_output_rebuild(OutputRequest::Pause, true, true));
    assert!(!forces_output_rebuild(OutputRequest::Restart, false, true));
    assert_eq!(reopen_step(PlaybackState::Paused), ReopenStep::PauseAgain);
    assert_eq!(reopen_step(PlaybackState::Idle), ReopenStep::StopAndForget);
    assert!(stream_error_invalidates(StreamErrorKind::StreamInvalidated));
    assert!(!stream_error_invalidates(StreamErrorKind::Other));
}
