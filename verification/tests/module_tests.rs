use oryx::controller::PlaybackState;
use oryx::browse::ReadyPlayback;
use oryx::controller::{PlaybackCommand, PlaybackController, PlaybackSource};
use oryx::feedback::{PlaybackReadyOutcome, handle_playback_ready};
use oryx::importreview::{import_file_label, missing_tags_line};
use oryx::playback::{PlaybackModule, PlaybackRuntimeEvent};
use oryx::requests::play_request;
use oryx::worker::session_publish_states;
use oryx::trackrows::{
    TrackRowHighlight, artist_album_header_line, explicit_download_active, showing_album_status, shows_download_action,
    track_row_highlight,
};
use oryx::feedback::{SearchStart, search_refusal_message};
use oryx::advance::playback_order;
use oryx::albumgroups::{
    ArtistTrackRow, artist_group_rows, artist_meta_line, collection_meta_line, playlist_track_subtitle,
    track_row_subtitle,
};
use oryx::browse::BrowseMode;
use oryx::clock::PlaybackClock;
use oryx::downloads::{
    active_download_count, download_has_actions, download_purpose_label, download_secondary_line,
    download_status_text, downloads_summary,
};
use oryx::importreview::{ImportTrackStatus, ReviewSource, import_metadata_summary, import_track_status};
use oryx::model::{
    AudioFormat, CollectionKind, CollectionRef, CollectionSummary, PlaybackStatus, ProviderId, RepeatMode, Track,
    TrackList, TrackRef, TrackSummary,
};
use oryx::notifications::{NotificationCenter, NotificationLevel, notification_duration_millis};
use oryx::nowplaying::{now_playing_detail, now_playing_quality_label, now_playing_title, shows_pause};
use oryx::openurl::{
    OpenUrlSubmission, open_url_input, open_url_submission, restored_external_download_progress,
    split_persisted_external_downloads,
};
use oryx::playback::media_session_track;
use oryx::prompts::{
    AuthKeyAction, LinkKeyAction, ProviderImportStatus, default_provider_link_export_target,
    provider_auth_credentials, provider_auth_key_action, provider_auth_prompt_message, provider_auth_submit_label,
    provider_auth_title, provider_import_outcome, provider_link_copied_message, provider_link_export_target,
    provider_link_import_payload, provider_link_key_action, provider_link_prompt_message, provider_link_prompt_texts,
};
use oryx::sources::{
    ProviderAccess, ProviderToggle, browse_mode_status, default_enabled_search_providers, local_selection_status,
    provider_toggle, provider_toggled_message, provider_unavailable_message,
};
use oryx::artwork::{apply_cached_artwork, apply_cached_artwork_batch, hydrated_list_is_playing};
use oryx::icons::AppIcon;
use oryx::intents::{AppIntent, KeyModifiers, key_down_intent};
use oryx::libraryops::{
    ArtworkRefreshSummary, ImportCommitSummary, ImportPick, OnlineLookupReport, album_removal_message,
    artwork_refresh_message, import_analysis_message, import_commit_message, import_pick_status, join_texts,
    online_lookup_report, online_lookup_started_message, removing_message, track_removal_message,
};
use oryx::playback::{PlaybackContextTrackRemoval, PlaybackIntent};
use oryx::reviewinputs::{ImportReviewInputs, ManualEntryTrack, ManualMetadata};
use oryx::textinput::{ImportMetadataField, TextInputId, TextInputShortcut, TextInputState};
use oryx::time::MediaTime;
use oryx::transfer::{
    DownloadItem, DownloadItemState, DownloadPurpose, PersistedExternalDownload, PersistedExternalDownloadState,
    TransferEvent, TransferStateModel,
};
use oryx::ui::ProviderLinkPromptMode;
use oryx::controller::PlaybackError;
use oryx::transport::{
    TransportAction, resume_request, seek_backward_target, seek_forward_target, seek_within_track,
    should_restart_current_track_on_play, shuffle_toggled, toggle_playback_action, transport_failure_message,
};
use oryx::visible::should_show_playback_context_panel;

fn remote() -> ProviderId {
    ProviderId::parse("fixture_remote").unwrap()
}

fn track(id: &str, collection_id: Option<&str>, album: Option<&str>, artwork: Option<&str>) -> TrackSummary {
    TrackSummary {
        reference: TrackRef::new(remote(), id, None, None),
        title: id.to_string(),
        artist: Some("Artist".to_string()),
        album: album.map(str::to_string),
        collection_id: collection_id.map(str::to_string),
        collection_title: album.map(str::to_string),
        collection_subtitle: None,
        duration_seconds: Some(75),
        bitrate_bps: None,
        audio_format: None,
        artwork_url: artwork.map(str::to_string),
    }
}

fn list(tracks: Vec<TrackSummary>, count: Option<usize>) -> TrackList {
    TrackList {
        collection: CollectionSummary {
            reference: CollectionRef::new(ProviderId::Local, "local-artist:Artist", CollectionKind::Album, None),
            title: "Artist".to_string(),
            subtitle: None,
            artwork_url: None,
            track_count: count,
        },
        tracks,
    }
}

fn playing(format: Option<AudioFormat>, bitrate: Option<u32>) -> Track {
    Track {
        provider: remote(),
        track_id: "t".to_string(),
        title: "Song".to_string(),
        artist: "Band".to_string(),
        album: "Record".to_string(),
        source_path: "/music/song.flac".to_string(),
        artwork_path: Some("/tmp/art.jpg".to_string()),
        duration_seconds: Some(200),
        audio_format: format,
        bitrate_bps: bitrate,
    }
}

#[test]
fn artist_rows_group_consecutive_tracks_by_album() {
    let rows = artist_group_rows(&list(
        vec![
            track("t1", Some("a"), Some("Album A"), Some("https://a.jpg")),
            track("t2", Some("a"), Some("Album A"), None),
            track("t3", Some("b"), None, None),
        ],
        Some(3),
    ));
    assert_eq!(rows.len(), 5);
    match &rows[0] {
        ArtistTrackRow::AlbumHeader { collection_id, album, artwork_url, track_count, .. } => {
            assert_eq!(collection_id, "a");
            assert_eq!(album, "Album A");
            assert_eq!(artwork_url.as_deref(), Some("https://a.jpg"));
            assert_eq!(*track_count, 2);
        },
        other => panic!("expected a header, got {other:?}"),
    }
    assert!(matches!(&rows[1], ArtistTrackRow::Track { index: 0, .. }));
    assert!(matches!(&rows[2], ArtistTrackRow::Track { index: 1, .. }));
    match &rows[3] {
        ArtistTrackRow::AlbumHeader { album, track_count, .. } => {
            assert_eq!(album, "Unknown album");
            assert_eq!(*track_count, 1);
        },
        other => panic!("expected a header, got {other:?}"),
    }
    assert!(matches!(&rows[4], ArtistTrackRow::Track { index: 2, .. }));
    assert!(artist_group_rows(&list(vec![], None)).is_empty());
}

#[test]
fn row_texts_show_artist_album_and_length() {
    let t = track("t1", Some("a"), Some("Album A"), None);
    assert_eq!(track_row_subtitle(&t), "Artist  •  1:15");
    assert_eq!(playlist_track_subtitle(&t), "Artist  •  Album A  •  1:15");
    let blank_album = TrackSummary { album: Some("  ".to_string()), artist: None, duration_seconds: None, ..t.clone() };
    assert_eq!(playlist_track_subtitle(&blank_album), "Unknown artist  •  --:--");
    let l = list(vec![t.clone(), t], None);
    assert_eq!(collection_meta_line(&l), "Album  •  2 track(s)");
    assert_eq!(artist_meta_line(&list(vec![], Some(7))), "Artist  •  7 track(s)");
}

#[test]
fn default_search_providers_need_usable_sign_in() {
    let providers = vec![
        ProviderAccess { id: ProviderId::Local, requires_credentials: false, has_stored_credentials: false },
        ProviderAccess { id: remote(), requires_credentials: false, has_stored_credentials: false },
        ProviderAccess {
            id: ProviderId::parse("locked").unwrap(),
            requires_credentials: true,
            has_stored_credentials: false,
        },
        ProviderAccess {
            id: ProviderId::parse("signed_in").unwrap(),
            requires_credentials: true,
            has_stored_credentials: true,
        },
    ];
    assert_eq!(
        default_enabled_search_providers(&providers),
        vec![remote(), ProviderId::parse("signed_in").unwrap()]
    );
}

#[test]
fn toggling_a_provider_disables_prompts_or_enables() {
    assert_eq!(provider_toggle(true, true, false), ProviderToggle::Disable);
    assert_eq!(provider_toggle(false, true, false), ProviderToggle::PromptForCredentials);
    assert_eq!(provider_toggle(false, true, true), ProviderToggle::Enable);
    assert_eq!(provider_toggle(false, false, false), ProviderToggle::Enable);
    assert_eq!(provider_toggled_message("Fixture", true), "Enabled Fixture for search.");
    assert_eq!(provider_toggled_message("Fixture", false), "Disabled Fixture for search.");
    assert_eq!(provider_unavailable_message("gone"), "Provider 'gone' is not available.");
}

#[test]
fn browse_modes_describe_themselves() {
    assert_eq!(browse_mode_status(BrowseMode::Discover, "all sources", 1, 2, 3), "Press Enter to search all sources.");
    assert_eq!(browse_mode_status(BrowseMode::Albums, "", 1, 2, 3), "1 local album(s).");
    assert_eq!(browse_mode_status(BrowseMode::Artists, "", 1, 2, 3), "2 local artist(s).");
    assert_eq!(browse_mode_status(BrowseMode::Playlists, "", 1, 2, 3), "3 playlist(s).");
    assert_eq!(local_selection_status(BrowseMode::Artists, 4, "Band").as_deref(), Some("4 track(s) by 'Band'."));
    assert_eq!(local_selection_status(BrowseMode::Discover, 4, "Band"), None);
}

#[test]
fn open_url_input_needs_text() {
    assert_eq!(open_url_input("   "), Err("A URL is required.".to_string()));
    assert_eq!(open_url_input("  https://example.com/v  "), Ok("https://example.com/v".to_string()));
}

fn item(state: DownloadItemState<()>) -> DownloadItem<()> {
    DownloadItem { id: "d1".to_string(), title: "Clip".to_string(), purpose: DownloadPurpose::ExternalUrl, state }
}

#[test]
fn submitting_a_known_url_reuses_its_entry() {
    let url = "https://example.com/v".to_string();
    let queued = item(DownloadItemState::Queued { source_url: url.clone(), progress: () });
    match open_url_submission(Some(queued), url.clone()) {
        OpenUrlSubmission::AlreadyDownloading { message } => assert_eq!(message, "'Clip' is already downloading."),
        _ => panic!("expected already downloading"),
    }
    let done = item(DownloadItemState::Completed { source_url: url.clone(), destination: "/d/v.mp4".to_string() });
    match open_url_submission(Some(done), url.clone()) {
        OpenUrlSubmission::AlreadyInDownloads { message } => assert_eq!(message, "'Clip' is already in Downloads."),
        _ => panic!("expected already in downloads"),
    }
    let failed = item(DownloadItemState::Failed {
        source_url: url.clone(),
        destination: Some("/d/v.part".to_string()),
        error: "network".to_string(),
    });
    match open_url_submission(Some(failed), url.clone()) {
        OpenUrlSubmission::Retry { download_id, source_url, destination, message } => {
            assert_eq!(download_id, "d1");
            assert_eq!(source_url, url);
            assert_eq!(destination.as_deref(), Some("/d/v.part"));
            assert_eq!(message, "Retrying 'https://example.com/v'.");
        },
        _ => panic!("expected a retry"),
    }
    match open_url_submission::<()>(None, url.clone()) {
        OpenUrlSubmission::Queue { source_url, message } => {
            assert_eq!(source_url, url);
            assert_eq!(message, "Queued 'https://example.com/v' for download.");
        },
        _ => panic!("expected a new download"),
    }
}

fn persisted(id: &str, state: PersistedExternalDownloadState) -> PersistedExternalDownload {
    PersistedExternalDownload {
        id: id.to_string(),
        title: id.to_string(),
        source_url: format!("https://example.com/{id}"),
        destination: None,
        paused: true,
        downloaded_bytes: Some(128),
        total_bytes: Some(512),
        state,
    }
}

#[test]
fn saved_downloads_split_into_settled_and_pending() {
    let (settled, pending) = split_persisted_external_downloads(vec![
        persisted("p1", PersistedExternalDownloadState::Pending),
        persisted("c1", PersistedExternalDownloadState::Completed { destination: "/d/c1".to_string() }),
        persisted("p2", PersistedExternalDownloadState::Pending),
        persisted("f1", PersistedExternalDownloadState::Failed { destination: None, error: "x".to_string() }),
    ]);
    let settled_ids: Vec<_> = settled.iter().map(|d| d.id.as_str()).collect();
    let pending_ids: Vec<_> = pending.iter().map(|d| d.id.as_str()).collect();
    assert_eq!(settled_ids, vec!["c1", "f1"]);
    assert_eq!(pending_ids, vec!["p1", "p2"]);
    let progress = restored_external_download_progress(&pending[0]);
    assert!(progress.paused);
    assert_eq!(progress.downloaded_bytes, 128);
    assert_eq!(progress.total_bytes, Some(512));
}

#[test]
fn download_list_texts() {
    assert_eq!(download_purpose_label(DownloadPurpose::PlaybackPrefetch), "Playback cache");
    assert_eq!(downloads_summary(0, 3), "3 saved item(s)");
    assert_eq!(downloads_summary(2, 5), "2 active transfer(s), 5 total item(s)");
    let items = vec![
        item(DownloadItemState::Queued { source_url: "https://q".to_string(), progress: () }),
        item(DownloadItemState::Active {
            progress: (),
            source_url: Some("https://a".to_string()),
            destination: None,
            started_at: 0,
            duration_seconds: None,
        }),
        item(DownloadItemState::Failed { source_url: "https://f".to_string(), destination: None, error: "boom".to_string() }),
    ];
    assert_eq!(active_download_count(&items), 2);
    assert_eq!(download_secondary_line(&items[0]), "https://q");
    assert_eq!(download_secondary_line(&items[1]), "https://a");
    assert_eq!(download_secondary_line(&items[2]), "boom");
    assert_eq!(download_status_text(&items[0].state).as_deref(), Some("Resolving URL…"));
    assert_eq!(download_status_text(&items[1].state), None);
    assert_eq!(download_status_text(&items[2].state).as_deref(), Some("boom"));
    assert!(download_has_actions(&items[2].state));
    assert!(!download_has_actions(&items[0].state));
}

#[test]
fn now_playing_texts() {
    assert_eq!(now_playing_title(None), "Nothing selected");
    assert_eq!(now_playing_detail(None, "x"), "Choose a track to start playback.");
    let t = playing(Some(AudioFormat::Flac), None);
    assert_eq!(now_playing_title(Some(&t)), "Song");
    assert_eq!(now_playing_quality_label(&t).as_deref(), Some("FLAC"));
    assert_eq!(now_playing_detail(Some(&t), "Fixture"), "Band  •  Record  •  3:20  •  Fixture  •  FLAC");
    let unknown = playing(None, None);
    assert_eq!(now_playing_detail(Some(&unknown), "Fixture"), "Band  •  Record  •  3:20  •  Fixture");
    assert!(shows_pause(PlaybackStatus::Buffering));
    assert!(!shows_pause(PlaybackStatus::Paused));
}

#[test]
fn media_session_uses_file_urls_for_artwork() {
    let session = media_session_track(&playing(None, None));
    assert_eq!(session.artwork_url.as_deref(), Some("file:///tmp/art.jpg"));
    assert_eq!(session.title, "Song");
    assert_eq!(session.duration_seconds, Some(200));
}

#[test]
fn prompt_texts_and_keys() {
    let import = provider_link_prompt_texts(ProviderLinkPromptMode::Import, true);
    assert_eq!(import.submit_label, "Importing...");
    assert_eq!(provider_link_prompt_texts(ProviderLinkPromptMode::Export, true).submit_label, "Copy Link");
    assert_eq!(provider_auth_title(Some("Fixture")), "Sign in to Fixture");
    assert_eq!(provider_auth_title(None), "Sign in to Provider");
    assert_eq!(provider_auth_submit_label(false), "Sign in");
    let password = TextInputId::ProviderAuthPassword;
    let username = TextInputId::ProviderAuthUsername;
    assert_eq!(provider_auth_key_action("tab", false, false, Some(&username)), AuthKeyAction::FocusPassword);
    assert_eq!(provider_auth_key_action("tab", false, true, Some(&password)), AuthKeyAction::FocusUsername);
    assert_eq!(provider_auth_key_action("tab", false, true, None), AuthKeyAction::FocusPassword);
    assert_eq!(provider_auth_key_action("enter", false, false, Some(&password)), AuthKeyAction::Submit);
    assert_eq!(provider_auth_key_action("enter", false, false, Some(&username)), AuthKeyAction::FocusPassword);
    assert_eq!(provider_auth_key_action("escape", true, false, None), AuthKeyAction::Ignore);
    assert_eq!(provider_link_key_action("escape", false), LinkKeyAction::Close);
    assert_eq!(provider_link_key_action("x", false), LinkKeyAction::Ignore);
}

#[test]
fn import_review_status_and_summary() {
    assert_eq!(import_track_status(true, true, Some(ReviewSource::LocalTags)), ImportTrackStatus::Skipped);
    assert_eq!(import_track_status(false, true, Some(ReviewSource::LocalTags)).label(), "Ready Offline");
    assert_eq!(import_track_status(false, true, Some(ReviewSource::OnlineServices)).label(), "Ready Online");
    assert_eq!(import_track_status(false, true, None).label(), "Ready Manual");
    assert_eq!(import_track_status(false, false, None).label(), "Needs Input");
    assert_eq!(import_metadata_summary(Some(3), "Song", "Band", "Record"), "03 Song  •  Band  •  Record");
    assert_eq!(import_metadata_summary(Some(12), "Song", "Band", "Record"), "12 Song  •  Band  •  Record");
    assert_eq!(import_metadata_summary(None, "Song", "Band", "Record"), "Song  •  Band  •  Record");
}

#[test]
fn notifications_keep_the_newest_four() {
    let mut center = NotificationCenter::new();
    for n in 0..6 {
        center.show(format!("message {n}"), NotificationLevel::Info);
    }
    let ids: Vec<u64> = center.items().iter().map(|e| e.id).collect();
    assert_eq!(ids.len(), 4);
    assert!(ids.contains(&6));
    assert!(!ids.contains(&1));
    assert!(center.dismiss(6));
    assert!(!center.dismiss(6));
    assert_eq!(notification_duration_millis(NotificationLevel::Error), 5600);
    assert_eq!(notification_duration_millis(NotificationLevel::Info), 3400);
}

#[test]
fn clock_pause_freezes_and_resume_skips_the_pause() {
    let mut clock = PlaybackClock::new();
    clock.start(MediaTime::from_secs(10), MediaTime::from_secs(100));
    assert_eq!(clock.elapsed(MediaTime::from_secs(105)).map(|t| t.as_secs()), Some(15));
    clock.pause(MediaTime::from_secs(105));
    assert_eq!(clock.elapsed(MediaTime::from_secs(200)).map(|t| t.as_secs()), Some(15));
    clock.resume(MediaTime::from_secs(120));
    assert_eq!(clock.elapsed(MediaTime::from_secs(125)).map(|t| t.as_secs()), Some(20));
}

#[test]
fn repeat_mode_cycles_back_after_three_steps() {
    let mode = RepeatMode::Off;
    assert_eq!(mode.cycle(), RepeatMode::All);
    assert_eq!(mode.cycle().cycle(), RepeatMode::One);
    assert_eq!(mode.cycle().cycle().cycle(), RepeatMode::Off);
}

#[test]
fn shuffled_order_is_a_stable_permutation() {
    let l = list(
        vec![track("t1", None, None, None), track("t2", None, None, None), track("t3", None, None, None)],
        None,
    );
    assert_eq!(playback_order(&l, false, 0), vec![0, 1, 2]);
    let shuffled = playback_order(&l, true, 42);
    assert_eq!(shuffled, playback_order(&l, true, 42));
    let mut sorted = shuffled.clone();
    sorted.sort();
    assert_eq!(sorted, vec![0, 1, 2]);
    let reordered = (0..20u64).any(|seed| playback_order(&l, true, seed) != vec![0, 1, 2]);
    assert!(reordered);
}

#[test]
fn history_keeps_one_entry_per_download_newest_first() {
    let mut state: TransferStateModel<()> = TransferStateModel::new();
    let queued = |id: &str| TransferEvent::ExternalDownloadQueued {
        download_id: id.to_string(),
        title: id.to_string(),
        source_url: format!("https://example.com/{id}"),
        progress: (),
    };
    state.handle_worker_event(&queued("a"), 0);
    state.handle_worker_event(&queued("b"), 0);
    state.handle_worker_event(&queued("a"), 0);
    let ids: Vec<String> = state.download_items().into_iter().map(|d| d.id).collect();
    assert_eq!(ids.len(), 2);
    assert_eq!(state.external_download_count(), 2);
}

#[test]
fn transport_decisions() {
    assert_eq!(toggle_playback_action(true, PlaybackStatus::Playing), TransportAction::Ignore);
    assert_eq!(toggle_playback_action(false, PlaybackStatus::Buffering), TransportAction::Pause);
    assert_eq!(toggle_playback_action(false, PlaybackStatus::Idle), TransportAction::Play);
    assert!(should_restart_current_track_on_play(PlaybackStatus::Idle, None, None));
    assert!(should_restart_current_track_on_play(PlaybackStatus::Paused, None, Some(0)));
    assert!(!should_restart_current_track_on_play(PlaybackStatus::Paused, Some(MediaTime::from_secs(3)), Some(0)));
    assert_eq!(resume_request(Some(2), MediaTime::zero()), Some((2, None)));
    assert_eq!(
        resume_request(Some(2), MediaTime::from_secs(9)).map(|(i, p)| (i, p.map(|t| t.as_secs()))),
        Some((2, Some(9)))
    );
    assert_eq!(seek_backward_target(MediaTime::from_secs(3), MediaTime::from_secs(10)).as_secs(), 0);
    assert_eq!(seek_forward_target(MediaTime::from_secs(3), MediaTime::from_secs(10)).as_secs(), 13);
    assert_eq!(
        seek_within_track(MediaTime::from_secs(300), Some(MediaTime::from_secs(200))).map(|t| t.as_secs()),
        Some(200)
    );
    assert_eq!(seek_within_track(MediaTime::from_secs(3), None).map(|t| t.as_secs()), None);
    assert_eq!(shuffle_toggled(false, 1, 99), (true, 99, "Shuffle On"));
    assert_eq!(shuffle_toggled(true, 1, 99), (false, 1, "Shuffle Off"));
    assert_eq!(
        transport_failure_message("Pause", &PlaybackError::WorkerUnavailable),
        "Pause failed: Playback worker is unavailable"
    );
    assert_eq!(transport_failure_message("Seek", &PlaybackError::Failed("no device".to_string())), "Seek failed: no device");
}

#[test]
fn playback_panel_shows_when_the_playing_track_is_not_in_view() {
    let context = list(vec![track("t1", None, None, None), track("t2", None, None, None)], None);
    let other = list(vec![track("t9", None, None, None)], None);
    assert!(!should_show_playback_context_panel(None, Some(0), Some(&other)));
    assert!(should_show_playback_context_panel(Some(&context), None, Some(&other)));
    assert!(should_show_playback_context_panel(Some(&context), Some(1), Some(&other)));
    assert!(should_show_playback_context_panel(Some(&context), Some(1), None));
    assert!(!should_show_playback_context_panel(Some(&context), Some(1), Some(&context)));
}

#[test]
fn prompt_submissions_are_checked() {
    assert_eq!(
        provider_auth_credentials("  alice ", "secret"),
        Ok(("alice".to_string(), "secret".to_string()))
    );
    assert_eq!(provider_auth_credentials("   ", "secret"), Err("Username and password are required."));
    assert_eq!(provider_auth_credentials("alice", ""), Err("Username and password are required."));
    assert_eq!(provider_link_import_payload("  oryx://x \n"), Ok("oryx://x".to_string()));
    assert_eq!(provider_link_import_payload(" \t "), Err("A provider link or TOML payload is required."));
    assert_eq!(provider_link_export_target(" fixture_remote "), Ok(remote()));
    assert_eq!(provider_link_export_target("local"), Ok(ProviderId::Local));
    assert_eq!(provider_link_export_target("Not Valid"), Err("Enter a valid provider id."));
}

#[test]
fn export_prompt_starts_from_the_open_list_or_a_remote_provider() {
    let open = list(vec![], None);
    let other = ProviderId::parse("other").unwrap();
    assert_eq!(
        default_provider_link_export_target(Some(&open), &[], &[remote()]),
        Some(ProviderId::Local)
    );
    let result = CollectionSummary {
        reference: CollectionRef::new(other.clone(), "c", CollectionKind::Album, None),
        title: "C".to_string(),
        subtitle: None,
        artwork_url: None,
        track_count: None,
    };
    assert_eq!(default_provider_link_export_target(None, &[result], &[remote()]), Some(other.clone()));
    assert_eq!(
        default_provider_link_export_target(None, &[], &[ProviderId::Local, remote(), other]),
        Some(remote())
    );
    assert_eq!(default_provider_link_export_target(None, &[], &[ProviderId::Local]), None);
}

#[test]
fn provider_import_and_link_messages() {
    assert_eq!(
        provider_import_outcome(ProviderImportStatus::Activated, "Fixture"),
        ("Imported provider 'Fixture' and activated the new config.".to_string(), NotificationLevel::Success)
    );
    assert_eq!(provider_import_outcome(ProviderImportStatus::PendingAuth, "Fixture").1, NotificationLevel::Info);
    assert_eq!(
        provider_import_outcome(ProviderImportStatus::RevertedToLastValidated, "Fixture").0,
        "Imported provider 'Fixture', but validation failed. The last validated config is still active."
    );
    assert_eq!(provider_link_copied_message("Fixture"), "Copied provider link for 'Fixture' to the clipboard.");
    assert_eq!(provider_auth_prompt_message("Fixture"), "Sign in to Fixture to use authenticated playback URLs.");
    assert_eq!(
        provider_link_prompt_message(ProviderLinkPromptMode::Import),
        "Paste a provider link or provider TOML to import it."
    );
}

fn plain() -> KeyModifiers {
    KeyModifiers { control: false, alt: false, shift: false, platform: false, function: false }
}

#[test]
fn keys_outside_fields_drive_playback() {
    assert_eq!(
        key_down_intent("space", plain(), false, None, None),
        Some(AppIntent::Playback(PlaybackIntent::Toggle))
    );
    assert_eq!(
        key_down_intent("left", plain(), false, None, None),
        Some(AppIntent::Playback(PlaybackIntent::SeekBackward(MediaTime::from_secs(10))))
    );
    assert_eq!(
        key_down_intent("right", plain(), false, None, None),
        Some(AppIntent::Playback(PlaybackIntent::SeekForward(MediaTime::from_secs(10))))
    );
    let shift = KeyModifiers { shift: true, ..plain() };
    assert_eq!(key_down_intent("space", shift, false, None, None), None);
    assert_eq!(key_down_intent("a", plain(), false, None, None), None);
}

#[test]
fn enter_in_the_search_field_starts_a_search() {
    assert_eq!(
        key_down_intent("enter", plain(), false, Some(TextInputId::Query), None),
        Some(AppIntent::StartSearch)
    );
    let shift = KeyModifiers { shift: true, ..plain() };
    assert_eq!(key_down_intent("enter", shift, false, Some(TextInputId::Query), None), Some(AppIntent::StartSearch));
    let control = KeyModifiers { control: true, ..plain() };
    assert_eq!(key_down_intent("enter", control, true, Some(TextInputId::Query), None), Some(AppIntent::StartSearch));
    assert_eq!(key_down_intent("enter", control, false, Some(TextInputId::Query), None), None);
    assert_eq!(
        key_down_intent("enter", plain(), false, Some(TextInputId::OpenUrl), Some(TextInputShortcut::SelectAll)),
        Some(AppIntent::TextInput(TextInputId::OpenUrl, TextInputShortcut::SelectAll))
    );
    assert_eq!(
        key_down_intent("backspace", plain(), false, Some(TextInputId::Query), Some(TextInputShortcut::Backspace)),
        Some(AppIntent::TextInput(TextInputId::Query, TextInputShortcut::Backspace))
    );
}

fn manual(path: &str, manual_mode: bool, skipped: bool, title: &str) -> ManualEntryTrack {
    ManualEntryTrack {
        source_path: path.to_string(),
        manual_mode,
        skipped,
        manual_metadata: ManualMetadata {
            title: title.to_string(),
            artist: "Artist".to_string(),
            album: "Album".to_string(),
            album_artist: String::new(),
            disc_number: "1".to_string(),
            track_number: "02".to_string(),
        },
    }
}

#[test]
fn review_fields_follow_the_files_entered_by_hand() {
    let mut inputs = ImportReviewInputs::new();
    let albums = vec![vec![manual("/a.flac", true, false, "Añejo"), manual("/b.flac", false, false, "B")]];
    inputs.sync(&albums);
    let title = inputs.get("/a.flac", ImportMetadataField::Title).unwrap();
    assert_eq!(title.content(), "Añejo");
    assert_eq!(title.cursor(), "Añejo".len());
    assert_eq!(inputs.get("/a.flac", ImportMetadataField::TrackNumber).unwrap().content(), "02");
    assert!(inputs.get("/b.flac", ImportMetadataField::Title).is_none());

    let mut edited = TextInputState::new("Edited".to_string(), 0);
    edited.move_to_end(false);
    assert!(inputs.replace("/a.flac", ImportMetadataField::Title, edited));
    assert!(!inputs.replace("/b.flac", ImportMetadataField::Title, TextInputState::new(String::new(), 0)));

    let albums = vec![vec![manual("/a.flac", true, false, "Añejo"), manual("/b.flac", true, false, "B")]];
    inputs.sync(&albums);
    assert_eq!(inputs.get("/a.flac", ImportMetadataField::Title).unwrap().content(), "Edited");
    assert_eq!(inputs.get("/b.flac", ImportMetadataField::Title).unwrap().content(), "B");

    let albums = vec![vec![manual("/a.flac", true, true, "Añejo")], vec![manual("/b.flac", true, false, "B")]];
    inputs.sync(&albums);
    assert!(inputs.get("/a.flac", ImportMetadataField::Title).is_none());
    assert_eq!(inputs.get("/b.flac", ImportMetadataField::Album).unwrap().content(), "Album");

    inputs.sync(&[]);
    assert!(inputs.get("/b.flac", ImportMetadataField::Album).is_none());
}

#[test]
fn library_removal_reports() {
    assert_eq!(removing_message("Blue"), "Removing 'Blue' from library...");
    assert_eq!(
        album_removal_message("Blue", Ok(0)),
        ("No cached tracks found for 'Blue'.".to_string(), NotificationLevel::Success)
    );
    assert_eq!(album_removal_message("Blue", Ok(3)).0, "Removed 'Blue' from library.");
    assert_eq!(
        album_removal_message("Blue", Err("disk full")),
        ("Failed to remove 'Blue': disk full".to_string(), NotificationLevel::Error)
    );
    assert_eq!(
        track_removal_message("Song", Ok(false), PlaybackContextTrackRemoval::Unchanged).0,
        "No cached track found for 'Song'."
    );
    assert_eq!(
        track_removal_message("Song", Ok(true), PlaybackContextTrackRemoval::CurrentTrackRemoved).0,
        "Removed 'Song' from library and stopped playback."
    );
    assert_eq!(
        track_removal_message("Song", Ok(true), PlaybackContextTrackRemoval::ContextUpdated).0,
        "Removed 'Song' from library."
    );
}

#[test]
fn import_and_artwork_reports() {
    assert_eq!(import_pick_status(&ImportPick::Chosen(vec!["/music/x".to_string()])), Some("Analyzing /music/x...".to_string()));
    assert_eq!(
        import_pick_status(&ImportPick::Chosen(vec!["/a".to_string(), "/b".to_string()])),
        Some("Analyzing 2 selections...".to_string())
    );
    assert_eq!(import_pick_status(&ImportPick::Chosen(vec![])), None);
    assert_eq!(import_pick_status(&ImportPick::Cancelled), Some("Import selection cancelled.".to_string()));
    assert_eq!(
        import_pick_status(&ImportPick::Failed("no portal".to_string())),
        Some("Failed to open import picker: no portal".to_string())
    );
    assert_eq!(import_pick_status(&ImportPick::Dropped), None);
    assert_eq!(
        import_analysis_message(Ok((2, 5, 1))),
        "Review 2 album group(s): 5 ready offline, 1 need attention."
    );
    assert_eq!(import_analysis_message(Err("unreadable")), "Import failed: unreadable");
    let summary = ImportCommitSummary {
        imported_tracks: 7,
        imported_albums: 2,
        skipped_files: 1,
        error_samples: vec!["a: bad tag".to_string(), "b: io".to_string()],
    };
    assert_eq!(
        import_commit_message(Ok(&summary)),
        (
            "Imported 7 track(s) across 2 album(s). Skipped 1 file(s). Errors: a: bad tag | b: io".to_string(),
            NotificationLevel::Success
        )
    );
    assert_eq!(join_texts(&[], " | "), "");
    let refresh = ArtworkRefreshSummary { inspected_albums: 4, updated_albums: 3, skipped_albums: 1, error_samples: vec![] };
    assert_eq!(
        artwork_refresh_message(Ok(&refresh)).0,
        "Checked 4 missing-cover album(s). Updated 3 album(s). Skipped 1 album(s). Check terminal logs for skip reasons."
    );
    assert_eq!(
        artwork_refresh_message(Err("offline")),
        ("Artwork refresh failed: offline".to_string(), NotificationLevel::Error)
    );
    assert_eq!(online_lookup_started_message("/a.flac"), "Resolving '/a.flac' with online services...");
    match online_lookup_report("/a.flac", Err("timeout")) {
        OnlineLookupReport::Failed { status, issue } => {
            assert_eq!(status, "Online lookup failed for '/a.flac': timeout");
            assert_eq!(issue, "Online lookup failed: timeout");
        }
        OnlineLookupReport::Resolved { .. } => panic!("expected a failure"),
    }
    match online_lookup_report("/a.flac", Ok("Song")) {
        OnlineLookupReport::Resolved { status } => assert_eq!(status, "Resolved 'Song' with online metadata."),
        OnlineLookupReport::Failed { .. } => panic!("expected a resolution"),
    }
}

#[test]
fn icons_name_their_bundled_files() {
    assert_eq!(AppIcon::Search.asset_path(), "icons/lucide/search.svg");
    assert_eq!(AppIcon::RepeatAll.asset_path(), "icons/lucide/repeat-2.svg");
    assert_eq!(AppIcon::Trash.asset_path(), "icons/lucide/trash-2.svg");
    assert_eq!(AppIcon::X.asset_path(), "icons/lucide/x.svg");
}

#[test]
fn cached_artwork_fills_collections() {
    let l = list(vec![], None);
    let with = apply_cached_artwork(l.collection.clone(), Some("/cache/a.jpg".to_string()));
    assert_eq!(with.artwork_url.as_deref(), Some("/cache/a.jpg"));
    assert_eq!(with.title, "Artist");
    let without = apply_cached_artwork(l.collection.clone(), None);
    assert_eq!(without.artwork_url, None);
    let batch = apply_cached_artwork_batch(
        vec![l.collection.clone(), l.collection.clone()],
        vec![None, Some("/cache/b.jpg".to_string())],
    );
    assert_eq!(batch[0].artwork_url, None);
    assert_eq!(batch[1].artwork_url.as_deref(), Some("/cache/b.jpg"));
    assert!(hydrated_list_is_playing(Some(&l), &l));
    assert!(!hydrated_list_is_playing(None, &l));
    let mut other = list(vec![], None);
    other.collection.reference = CollectionRef::new(ProviderId::Local, "elsewhere", CollectionKind::Album, None);
    assert!(!hydrated_list_is_playing(Some(&other), &l));
}

#[test]
fn refused_searches_are_error_notifications() {
    assert_eq!(
        search_refusal_message(&SearchStart::EmptyQuery),
        Some(("Search query is empty.", NotificationLevel::Error))
    );
    assert_eq!(
        search_refusal_message(&SearchStart::NoProviders),
        Some(("No search providers are enabled.", NotificationLevel::Error))
    );
}

#[test]
fn track_rows_follow_pending_and_playing_tracks() {
    assert_eq!(
        track_row_highlight(Some("p:a"), Some("p:b"), "p:b"),
        TrackRowHighlight { pending: false, current_playing: true, previous_playing: true, active: false }
    );
    assert_eq!(
        track_row_highlight(Some("p:a"), Some("p:b"), "p:a"),
        TrackRowHighlight { pending: true, current_playing: false, previous_playing: false, active: true }
    );
    assert_eq!(
        track_row_highlight(None, Some("p:b"), "p:b"),
        TrackRowHighlight { pending: false, current_playing: true, previous_playing: false, active: true }
    );
    assert!(shows_download_action(false, None));
    assert!(shows_download_action(false, Some(DownloadPurpose::Explicit)));
    assert!(!shows_download_action(false, Some(DownloadPurpose::PlaybackPrefetch)));
    assert!(!shows_download_action(true, None));
    assert!(explicit_download_active(Some(DownloadPurpose::Explicit)));
    assert!(!explicit_download_active(Some(DownloadPurpose::ExternalUrl)));
    assert_eq!(artist_album_header_line(12), "Album  •  12 track(s)  •  Open album");
    assert_eq!(showing_album_status("Blue", "Joni"), "Showing 'Blue' from 'Joni'.");
}

fn gone_worker() -> PlaybackModule<()> {
    let (tx, rx) = std::sync::mpsc::channel::<PlaybackCommand<()>>();
    drop(rx);
    PlaybackModule::new(
        PlaybackController::from_sender(tx),
        None,
        None,
        None,
        MediaTime::zero(),
        PlaybackStatus::Idle,
        RepeatMode::Off,
        false,
        0,
    )
}

#[test]
fn a_ready_playback_the_worker_cannot_start_is_marked_failed() {
    let mut state = gone_worker();
    let request = play_request(list(vec![track("t1", None, None, None)], None), 0, None, None, None).unwrap();
    let id = state.begin_play_request(request, MediaTime::zero());
    let ready = |state: &mut PlaybackModule<()>, id: u64| {
        handle_playback_ready(
            state,
            id,
            ReadyPlayback {
                current: playing(None, None),
                source: PlaybackSource::LocalFile("/music/song.flac".to_string()),
                fully_cached: true,
                cache_changed: false,
            },
        )
    };
    assert!(matches!(ready(&mut state, id + 1), PlaybackReadyOutcome::Stale));
    match ready(&mut state, id) {
        PlaybackReadyOutcome::Failed { message } => {
            assert_eq!(message, "Failed to start playback: Playback worker is unavailable")
        }
        _ => panic!("expected a failure"),
    }
    assert!(!state.play_loading());
    assert_eq!(state.playback_status(), PlaybackStatus::Idle);
    assert!(matches!(ready(&mut state, id), PlaybackReadyOutcome::Stale));
}

#[test]
fn a_refresh_with_no_worker_changes_nothing_but_still_refreshes_for_downloads() {
    let mut state = gone_worker();
    assert_eq!(state.handle_refresh_tick(true), vec![PlaybackRuntimeEvent::UiRefreshRequested]);
    assert_eq!(state.handle_refresh_tick(false), vec![]);
}

#[test]
fn import_review_file_texts() {
    assert_eq!(missing_tags_line(&[]), None);
    assert_eq!(
        missing_tags_line(&["Artist".to_string(), "Album".to_string()]),
        Some("Missing from local tags: Artist, Album".to_string())
    );
    assert_eq!(import_file_label(Some("01 Song.flac"), "Song"), "01 Song.flac");
    assert_eq!(import_file_label(None, "Song"), "Song");
}

#[test]
fn a_primed_session_shows_playing_first() {
    assert_eq!(session_publish_states(PlaybackState::Paused, true), vec![PlaybackState::Playing, PlaybackState::Paused]);
    assert_eq!(session_publish_states(PlaybackState::Paused, false), vec![PlaybackState::Paused]);
}
