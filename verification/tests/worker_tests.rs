use oryx::runtime::{PlayerObservation, SourceObservation, runtime_status_from, worker_observation};
use oryx::runtime::at_track_end;
use oryx::time::MediaTime;

#[test]
fn treats_near_end_playback_as_finished_instead_of_stalled() {
    let position = MediaTime::from_millis(3_950);
    let duration = Some(4);

    let at_end = at_track_end(position, duration);

    assert!(at_end);
}

#[test]
fn every_request_fails_as_unavailable_once_the_worker_is_gone() {
    let (tx, rx) = std::sync::mpsc::channel::<oryx::controller::PlaybackCommand<()>>();
    drop(rx);
    let mut controller = oryx::controller::PlaybackController::from_sender(tx);
    assert_eq!(controller.pause(), Err(oryx::controller::PlaybackError::WorkerUnavailable));
    assert_eq!(controller.position(), Err(oryx::controller::PlaybackError::WorkerUnavailable));
    assert_eq!(
        controller.seek_to(oryx::time::MediaTime::from_secs(3)),
        Err(oryx::controller::PlaybackError::WorkerUnavailable)
    );
    assert!(controller.runtime_status().is_err());
}

#[test]
fn transport_pauses_resumes_and_stops_its_player() {
    let mut t: oryx::worker::WorkerTransport<u8> = oryx::worker::WorkerTransport::new();
    assert!(!t.pause(MediaTime::from_secs(1)));
    assert_eq!(t.start(7, MediaTime::from_secs(5), MediaTime::from_secs(10)), None);
    assert_eq!(t.playback, Some(oryx::controller::PlaybackState::Playing));
    assert!(t.pause(MediaTime::from_secs(12)));
    assert_eq!(t.playback, Some(oryx::controller::PlaybackState::Paused));
    assert_eq!(t.clock.checked_elapsed(MediaTime::from_secs(20)), Some(MediaTime::from_secs(7)));
    assert!(t.clock.can_resume_at(MediaTime::from_secs(15)));
    assert!(t.resume(MediaTime::from_secs(15)));
    assert_eq!(t.clock.checked_elapsed(MediaTime::from_secs(16)), Some(MediaTime::from_secs(8)));
    assert_eq!(t.stop(), Some(7));
    assert_eq!(t.playback, None);
    assert_eq!(t.clock.checked_elapsed(MediaTime::from_secs(16)), None);
}

#[test]
fn only_a_drained_growing_file_buffers_or_fails() {
    let drained = Some(PlayerObservation { empty: true, position: MediaTime::from_secs(3) });
    let growing = Some(SourceObservation::GrowingFile { retrying: true, failed: false, duration_seconds: Some(200) });
    let status = runtime_status_from(worker_observation(true, drained, Some(MediaTime::from_secs(3)), growing));
    assert!(status.buffering && !status.finished && !status.failed);
    let local = Some(SourceObservation::LocalFile { duration_seconds: Some(200) });
    let status = runtime_status_from(worker_observation(true, drained, Some(MediaTime::from_secs(3)), local));
    assert!(!status.buffering && status.finished);
    let idle = runtime_status_from(worker_observation(true, None, None, None));
    assert_eq!(idle.position, None);
    assert!(!idle.buffering && !idle.finished && !idle.failed);
}
