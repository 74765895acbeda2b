use lib::nav::InstallScreenState;
use lib::notices::{NoticeKind, NotificationManager};
use lib::state::{PendingLogDownload, Step2State};
use lib::worker_events::{
    apply_archive_skip_disconnected, apply_archive_skip_event, apply_download_disconnected,
    notify_folder_delete, record_download_done, ArchiveSkipEvent, FolderDeleteOutcome,
};

#[test]
fn archive_check_events_track_progress_and_present_archives() {
    let mut progress = None;
    let mut screen = InstallScreenState::default();
    let mut step2 = Step2State::default();

    assert!(!apply_archive_skip_event(
        ArchiveSkipEvent::CandidateEnumerated { total: 3 },
        &mut progress,
        &mut screen,
        &mut step2
    ));
    assert_eq!(progress, Some((0, 3)));
    assert!(!apply_archive_skip_event(ArchiveSkipEvent::AssetHashStarted, &mut progress, &mut screen, &mut step2));
    assert_eq!(progress, Some((0, 3)));

    let hashed = |index: usize, was_skipped: bool, dest: Option<&str>| ArchiveSkipEvent::AssetHashed {
        index,
        was_skipped,
        label: format!("Mod{index}"),
        dest_display: dest.map(str::to_string),
    };
    apply_archive_skip_event(hashed(2, true, Some("C:/a/mod2.zip")), &mut progress, &mut screen, &mut step2);
    apply_archive_skip_event(hashed(0, false, Some("C:/a/mod0.zip")), &mut progress, &mut screen, &mut step2);
    apply_archive_skip_event(hashed(2, true, None), &mut progress, &mut screen, &mut step2);
    assert_eq!(progress, Some((3, 3)));
    assert_eq!(screen.hashed_indices, vec![2, 0]);
    assert_eq!(step2.update_selected_downloaded_sources, vec!["Mod2 -> C:/a/mod2.zip".to_string()]);

    assert!(apply_archive_skip_event(
        ArchiveSkipEvent::Finished { skipped_indices: vec![2, 1, 2] },
        &mut progress,
        &mut screen,
        &mut step2
    ));
    assert_eq!(screen.skip_indices, vec![2, 1]);
    assert!(screen.pipeline_flags.archive_skip_completed);
}

#[test]
fn a_hash_without_a_count_starts_from_zero() {
    let mut progress = None;
    let mut screen = InstallScreenState::default();
    let mut step2 = Step2State::default();
    apply_archive_skip_event(
        ArchiveSkipEvent::AssetHashed { index: 0, was_skipped: false, label: String::new(), dest_display: None },
        &mut progress,
        &mut screen,
        &mut step2,
    );
    assert_eq!(progress, Some((1, 0)));
}

#[test]
fn a_vanished_archive_check_counts_as_done() {
    let mut screen = InstallScreenState::default();
    apply_archive_skip_disconnected(&mut screen);
    assert!(screen.pipeline_flags.archive_skip_completed);
    assert!(!screen.pipeline_flags.armed);
}

#[test]
fn finished_downloads_are_recorded_under_their_labels() {
    let mut step2 = Step2State::default();
    step2.update_selected_update_assets.push(PendingLogDownload {
        tp_file: "a.tp2".to_string(),
        label: "Alpha".to_string(),
    });
    record_download_done(&mut step2, 0, true, "D:/archives/alpha.zip", &None);
    record_download_done(&mut step2, 0, false, "", &Some("timed out".to_string()));
    record_download_done(&mut step2, 0, false, "", &None);
    record_download_done(&mut step2, 5, true, "D:/x.zip", &None);
    assert_eq!(step2.update_selected_downloaded_sources, vec!["Alpha -> D:/archives/alpha.zip".to_string()]);
    assert_eq!(
        step2.update_selected_download_failed_sources,
        vec!["Alpha: timed out".to_string(), "Alpha: unknown error".to_string()]
    );
}

#[test]
fn a_vanished_download_worker_stops_the_download() {
    let mut step2 = Step2State::default();
    step2.update_selected_download_running = true;
    apply_download_disconnected(&mut step2);
    assert!(!step2.update_selected_download_running);
    assert_eq!(step2.scan_status, "Download updates failed: worker disconnected");
}

#[test]
fn folder_deletions_are_announced() {
    let mut mgr = NotificationManager::new();
    notify_folder_delete(&mut mgr, "My List", FolderDeleteOutcome::Deleted);
    notify_folder_delete(&mut mgr, "My List", FolderDeleteOutcome::Failed { error: "access denied".to_string() });
    notify_folder_delete(&mut mgr, "Other", FolderDeleteOutcome::Disconnected);
    let history: Vec<(NoticeKind, String)> = mgr.history().iter().map(|r| (r.kind, r.text.clone())).collect();
    assert_eq!(
        history,
        vec![
            (NoticeKind::Success, "Deleted \"My List\"".to_string()),
            (NoticeKind::Error, "Couldn't remove install folder for \"My List\": access denied".to_string()),
            (NoticeKind::Error, "Couldn't remove install folder for \"Other\": worker disconnected".to_string()),
        ]
    );
}
