use oryx::transfer::{
    DownloadItemState, PersistedExternalDownload, PersistedExternalDownloadState, ProgressSnapshot,
    TransferEvent, TransferStateModel,
};

fn idle_snapshot() -> ProgressSnapshot {
    ProgressSnapshot { paused: false, downloaded_bytes: 0, total_bytes: None }
}

#[test]
fn persisted_external_downloads_keep_pending_completed_and_failed_items() {
    let mut state: TransferStateModel<()> = TransferStateModel::new();
    // The history lists the newest entry first: report the oldest first.
    state.handle_worker_event(
        &TransferEvent::ExternalDownloadFailed {
            download_id: "failed".to_string(),
            title: "Failed".to_string(),
            source_url: "https://example.com/failed".to_string(),
            destination: Some("/tmp/failed.mp4".to_string()),
            error: "network".to_string(),
        },
        0,
    );
    state.handle_worker_event(
        &TransferEvent::ExternalDownloadCompleted {
            download_id: "done".to_string(),
            title: "Done".to_string(),
            source_url: "https://example.com/done".to_string(),
            destination: "/tmp/done.mp4".to_string(),
        },
        0,
    );
    state.handle_worker_event(
        &TransferEvent::ExternalDownloadStarted {
            download_id: "active".to_string(),
            title: "Active".to_string(),
            source_url: "https://example.com/active".to_string(),
            destination: "/tmp/active.mp4".to_string(),
            duration_seconds: Some(120),
            progress: (),
        },
        0,
    );
    state.handle_worker_event(
        &TransferEvent::ExternalDownloadQueued {
            download_id: "queued".to_string(),
            title: "Queued".to_string(),
            source_url: "https://example.com/queued".to_string(),
            progress: (),
        },
        0,
    );

    let snapshots = vec![idle_snapshot(), idle_snapshot(), idle_snapshot(), idle_snapshot()];
    let persisted = state.persisted_external_downloads(&snapshots);

    assert_eq!(persisted.len(), 4);
    assert!(matches!(persisted[0].state, PersistedExternalDownloadState::Pending));
    assert_eq!(persisted[0].source_url, "https://example.com/queued");
    assert_eq!(persisted[0].destination, None);
    assert!(!persisted[0].paused);
    assert!(matches!(persisted[1].state, PersistedExternalDownloadState::Pending));
    assert_eq!(persisted[1].source_url, "https://example.com/active");
    assert_eq!(persisted[1].destination.as_deref(), Some("/tmp/active.mp4"));
    assert!(!persisted[1].paused);
    assert!(matches!(persisted[2].state, PersistedExternalDownloadState::Completed { .. }));
    assert!(matches!(persisted[3].state, PersistedExternalDownloadState::Failed { .. }));
}

#[test]
fn restore_persisted_external_downloads_skips_pending_items() {
    let mut state: TransferStateModel<()> = TransferStateModel::new();
    state.restore_persisted_external_downloads(vec![
        PersistedExternalDownload {
            id: "pending".to_string(),
            title: "Pending".to_string(),
            source_url: "https://example.com/pending".to_string(),
            destination: Some("/tmp/pending.mp4".to_string()),
            paused: true,
            downloaded_bytes: Some(128),
            total_bytes: Some(512),
            state: PersistedExternalDownloadState::Pending,
        },
        PersistedExternalDownload {
            id: "done".to_string(),
            title: "Done".to_string(),
            source_url: "https://example.com/done".to_string(),
            destination: Some("/tmp/done.mp4".to_string()),
            paused: false,
            downloaded_bytes: None,
            total_bytes: None,
            state: PersistedExternalDownloadState::Completed { destination: "/tmp/done.mp4".to_string() },
        },
    ]);

    let downloads = state.download_items();

    assert_eq!(downloads.len(), 1);
    assert_eq!(downloads[0].id, "done");
    assert!(matches!(downloads[0].state, DownloadItemState::Completed { .. }));
}
