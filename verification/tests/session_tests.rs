use std::sync::mpsc;

use oryx::browse::BrowseMode;
use oryx::controller::{PlaybackCommand, PlaybackController};
use oryx::discover::DiscoverModule;
use oryx::model::{CollectionKind, CollectionRef, CollectionSummary, PlaybackStatus, ProviderId, RepeatMode, TrackList, TrackRef, TrackSummary};
use oryx::playback::PlaybackModule;
use oryx::session::{CachedTrackPaths, restored_session_state, session_snapshot_at};
use oryx::time::MediaTime;

fn remote() -> ProviderId {
    ProviderId::parse("fixture_remote").unwrap()
}

fn album() -> TrackList {
    TrackList {
        collection: CollectionSummary {
            reference: CollectionRef::new(remote(), "album-1", CollectionKind::Album, None),
            title: "Album".to_string(),
            subtitle: None,
            artwork_url: None,
            track_count: Some(1),
        },
        tracks: vec![TrackSummary {
            reference: TrackRef::new(remote(), "t1", Some("https://example.com/t1".to_string()), None),
            title: "Song".to_string(),
            artist: Some("Band".to_string()),
            album: Some("Album".to_string()),
            collection_id: Some("album-1".to_string()),
            collection_title: Some("Album".to_string()),
            collection_subtitle: None,
            duration_seconds: Some(200),
            bitrate_bps: None,
            audio_format: None,
            artwork_url: None,
        }],
    }
}

#[test]
fn a_saved_session_comes_back_paused_where_it_was() {
    let (tx, _rx) = mpsc::channel::<PlaybackCommand<()>>();
    let playback = PlaybackModule::new(
        PlaybackController::from_sender(tx),
        Some(album()),
        Some(0),
        None,
        MediaTime::zero(),
        PlaybackStatus::Playing,
        RepeatMode::All,
        true,
        7,
    );
    assert_eq!(playback.pending_track_key(), None);
    assert!(playback.current_track_key().is_some());
    let discover = DiscoverModule::new(vec![remote()], vec![], None, Some(album()));
    let snapshot = session_snapshot_at(
        "query",
        BrowseMode::Albums,
        &discover,
        &playback,
        Some(MediaTime::from_secs(42)),
        Some("local-album".to_string()),
        None,
        None,
    );
    let restored = restored_session_state(
        Some(snapshot),
        Some(CachedTrackPaths { audio_path: "/cache/t1.flac".to_string(), artwork_path: None }),
    );
    assert_eq!(restored.query, "query");
    assert_eq!(restored.query_cursor, 5);
    assert_eq!(restored.browse_mode, BrowseMode::Albums);
    assert_eq!(restored.current_track_index, Some(0));
    assert_eq!(restored.playback_status, PlaybackStatus::Paused);
    assert_eq!(restored.repeat_mode, RepeatMode::All);
    assert!(restored.shuffle_enabled);
    assert_eq!(restored.shuffle_seed, 7);
    assert_eq!(restored.resume_position.as_secs(), 42);
    assert_eq!(restored.selected_local_album_id.as_deref(), Some("local-album"));
    assert_eq!(restored.selected_collection_id.as_deref(), Some("album:fixture_remote:album-1"));
    let now_playing = restored.now_playing.unwrap();
    assert_eq!(now_playing.title, "Song");
    assert_eq!(now_playing.source_path, "/cache/t1.flac");
}

#[test]
fn without_a_saved_session_everything_starts_fresh() {
    let restored = restored_session_state(None, None);
    assert_eq!(restored.query, "");
    assert_eq!(restored.browse_mode, BrowseMode::Discover);
    assert_eq!(restored.playback_status, PlaybackStatus::Idle);
    assert_eq!(restored.status_message, "Type a query and press Enter.");
    assert!(restored.now_playing.is_none());
}
