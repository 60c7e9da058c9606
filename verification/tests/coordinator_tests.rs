use oryx::browse::{
    PlaybackRefreshTarget, ReadyPlayback, playback_refresh_target, recently_played_playlist_id,
    refreshable_collection_for_track_list, should_record_recently_played, track_for_recently_played,
};
use oryx::controller::PlaybackSource;
use oryx::model::{CollectionKind, CollectionRef, CollectionSummary, ProviderId, Track, TrackList, TrackRef, TrackSummary};

#[test]
fn skips_recording_when_playing_from_recently_played_playlist() {
    let track_list = track_list(
        ProviderId::Local,
        recently_played_playlist_id(),
        CollectionKind::Playlist,
    );

    assert!(!should_record_recently_played(&track_list));
}

#[test]
fn records_when_playing_from_other_local_playlists() {
    let track_list = track_list(ProviderId::Local, "liked-tracks", CollectionKind::Playlist);

    assert!(should_record_recently_played(&track_list));
}

#[test]
fn records_when_playing_from_albums() {
    let track_list = track_list(fixture_provider(), "album-1", CollectionKind::Album);

    assert!(should_record_recently_played(&track_list));
}

#[test]
fn recently_played_prefers_local_artwork_path_when_available() {
    let track = track_summary("track-1", Some("https://cdn.example/art.jpg"));
    let updated =
        track_for_recently_played(track, Some(&"/tmp/oryx-art.jpg".to_string()));

    assert_eq!(updated.artwork_url.as_deref(), Some("/tmp/oryx-art.jpg"));
}

#[test]
fn playback_refresh_target_only_refreshes_playlists_for_recently_played_updates() {
    assert_eq!(
        playback_refresh_target(
            &ready_playback(false),
            Some((fixture_provider(), "album-1".to_string())),
            true,
        ),
        PlaybackRefreshTarget::PlaylistsOnly
    );
}

#[test]
fn playback_refresh_target_refreshes_album_when_cache_changed() {
    assert_eq!(
        playback_refresh_target(
            &ready_playback(true),
            Some((fixture_provider(), "album-1".to_string())),
            true,
        ),
        PlaybackRefreshTarget::Album {
            provider: fixture_provider(),
            collection_id: "album-1".to_string(),
        }
    );
}

#[test]
fn refreshable_collection_uses_track_collection_id_when_present() {
    let track_list = TrackList {
        collection: CollectionSummary {
            reference: CollectionRef::new(
                ProviderId::Local,
                "local-artist:Artist",
                CollectionKind::Album,
                None,
            ),
            title: "Artist".to_string(),
            subtitle: None,
            artwork_url: None,
            track_count: Some(1),
        },
        tracks: vec![track_summary("track-1", None)],
    };

    assert_eq!(
        refreshable_collection_for_track_list(&track_list, track_list.tracks.first()),
        Some((fixture_provider(), "album-1".to_string()))
    );
}

#[test]
fn refreshable_collection_falls_back_to_remote_album_reference() {
    let track_list = TrackList {
        collection: CollectionSummary {
            reference: CollectionRef::new(
                fixture_provider(),
                "album-42",
                CollectionKind::Album,
                None,
            ),
            title: "Album".to_string(),
            subtitle: None,
            artwork_url: None,
            track_count: Some(1),
        },
        tracks: vec![track_summary_without_collection("track-1")],
    };

    assert_eq!(
        refreshable_collection_for_track_list(&track_list, track_list.tracks.first()),
        Some((fixture_provider(), "album-42".to_string()))
    );
}

#[test]
fn refreshable_collection_matches_selected_track_album_in_artist_view() {
    let track_list = TrackList {
        collection: CollectionSummary {
            reference: CollectionRef::new(
                ProviderId::Local,
                "local-artist:Artist",
                CollectionKind::Album,
                None,
            ),
            title: "Artist".to_string(),
            subtitle: None,
            artwork_url: None,
            track_count: Some(3),
        },
        tracks: vec![
            track_summary("track-1", None),
            TrackSummary {
                reference: TrackRef::new(
                    fixture_provider(),
                    "track-2",
                    None,
                    Some("track-2".to_string()),
                ),
                title: "track-2".to_string(),
                artist: Some("Artist".to_string()),
                album: Some("Album B".to_string()),
                collection_id: None,
                collection_title: Some("Album B".to_string()),
                collection_subtitle: Some("Artist".to_string()),
                duration_seconds: None,
                bitrate_bps: None,
                audio_format: None,
                artwork_url: None,
            },
            TrackSummary {
                reference: TrackRef::new(
                    fixture_provider(),
                    "track-3",
                    None,
                    Some("track-3".to_string()),
                ),
                title: "track-3".to_string(),
                artist: Some("Artist".to_string()),
                album: Some("Album B".to_string()),
                collection_id: Some("album-b".to_string()),
                collection_title: Some("Album B".to_string()),
                collection_subtitle: Some("Artist".to_string()),
                duration_seconds: None,
                bitrate_bps: None,
                audio_format: None,
                artwork_url: None,
            },
        ],
    };

    assert_eq!(
        refreshable_collection_for_track_list(&track_list, track_list.tracks.get(1)),
        Some((fixture_provider(), "album-b".to_string()))
    );
}

#[test]
fn refreshable_collection_does_not_guess_from_first_track_for_local_artist_view() {
    let track_list = TrackList {
        collection: CollectionSummary {
            reference: CollectionRef::new(
                ProviderId::Local,
                "local-artist:Artist",
                CollectionKind::Album,
                None,
            ),
            title: "Artist".to_string(),
            subtitle: None,
            artwork_url: None,
            track_count: Some(2),
        },
        tracks: vec![
            track_summary("track-1", None),
            TrackSummary {
                reference: TrackRef::new(
                    fixture_provider(),
                    "track-2",
                    None,
                    Some("track-2".to_string()),
                ),
                title: "track-2".to_string(),
                artist: Some("Artist".to_string()),
                album: Some("Other Album".to_string()),
                collection_id: None,
                collection_title: Some("Other Album".to_string()),
                collection_subtitle: Some("Artist".to_string()),
                duration_seconds: None,
                bitrate_bps: None,
                audio_format: None,
                artwork_url: None,
            },
        ],
    };

    assert_eq!(
        refreshable_collection_for_track_list(&track_list, track_list.tracks.get(1)),
        None
    );
}

fn fixture_provider() -> ProviderId {
    ProviderId::parse("fixture_remote").expect("fixture provider id should parse")
}

fn track_list(provider: ProviderId, collection_id: &str, kind: CollectionKind) -> TrackList {
    TrackList {
        collection: CollectionSummary {
            reference: CollectionRef::new(provider, collection_id, kind, None),
            title: "Collection".to_string(),
            subtitle: None,
            artwork_url: None,
            track_count: Some(1),
        },
        tracks: vec![],
    }
}

fn track_summary(id: &str, artwork_url: Option<&str>) -> TrackSummary {
    TrackSummary {
        reference: TrackRef::new(fixture_provider(), id, None, Some(id.to_string())),
        title: id.to_string(),
        artist: Some("Artist".to_string()),
        album: Some("Album".to_string()),
        collection_id: Some("album-1".to_string()),
        collection_title: Some("Album".to_string()),
        collection_subtitle: Some("Artist".to_string()),
        duration_seconds: None,
        bitrate_bps: None,
        audio_format: None,
        artwork_url: artwork_url.map(str::to_string),
    }
}

fn track_summary_without_collection(id: &str) -> TrackSummary {
    TrackSummary {
        collection_id: None,
        collection_title: None,
        ..track_summary(id, None)
    }
}

fn ready_playback(cache_changed: bool) -> ReadyPlayback<()> {
    ReadyPlayback {
        current: Track::from_track_summary_with_source(
            track_summary("track-1", None),
            "/tmp/track.mp3".to_string(),
            None,
        ),
        source: PlaybackSource::LocalFile("/tmp/track.mp3".to_string()),
        fully_cached: true,
        cache_changed,
    }
}
