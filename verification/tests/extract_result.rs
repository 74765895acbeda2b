use lib::extract_result::{apply_extract_disconnected, apply_extract_finished};
use lib::state::{PendingLogDownload, WizardState};

fn strings(values: &[&str]) -> Vec<String> {
    values.iter().map(|v| v.to_string()).collect()
}

#[test]
fn drain_extract_parallel_finished_with_results_rearms_saved_log_apply() {
    let mut ws = WizardState::default();
    ws.step2.update_selected_extract_running = true;
    ws.step2.pending_saved_log_apply = false;
    assert!(!ws.step2.pending_saved_log_apply, "precondition: the first apply pass cleared this latch");

    let rescan = apply_extract_finished(
        &mut ws,
        vec!["EEFIXPACK -> C:\\dest\\mods\\eefixpack".to_string()],
        Vec::new(),
    );

    assert!(
        ws.step2.pending_saved_log_apply,
        "extracted > 0 must re-arm pending_saved_log_apply so the next pass writes the imported log's selection"
    );
    assert!(rescan);
    assert!(!ws.step2.update_selected_extract_running);
}

#[test]
fn drain_extract_parallel_finished_with_zero_extracted_does_not_rearm_apply() {
    let mut ws = WizardState::default();
    ws.step2.update_selected_extract_running = true;
    ws.step2.pending_saved_log_apply = false;

    let rescan = apply_extract_finished(&mut ws, Vec::new(), Vec::new());

    assert!(!ws.step2.pending_saved_log_apply, "zero extracted means no scan and no re-arm");
    assert!(!rescan);
}

#[test]
fn extracted_mods_leave_the_missing_and_update_lists() {
    let mut ws = WizardState::default();
    ws.step2.update_selected_missing_sources = strings(&["EEFIXPACK (v2)", "Other (v1)", "EEFIXPACK2 (v1)"]);
    ws.step2.update_selected_update_sources = strings(&["EEFIXPACK (1 -> 2)", "EEFIXPACK"]);
    ws.step2.update_selected_update_assets = vec![
        PendingLogDownload { tp_file: "eefixpack.tp2".to_string(), label: "EEFIXPACK".to_string() },
        PendingLogDownload { tp_file: "other.tp2".to_string(), label: "Other".to_string() },
    ];
    ws.step2.update_selected_extract_failed_sources = strings(&["Old failure"]);
    ws.step2.log_pending_downloads.push(PendingLogDownload {
        tp_file: "x.tp2".to_string(),
        label: "X".to_string(),
    });

    let rescan = apply_extract_finished(
        &mut ws,
        strings(&["  EEFIXPACK  -> C:/mods/eefixpack", "no arrow here", " -> empty label"]),
        strings(&["Broken: bad archive"]),
    );

    assert!(rescan);
    assert_eq!(ws.step2.update_selected_missing_sources, strings(&["Other (v1)", "EEFIXPACK2 (v1)"]));
    assert_eq!(ws.step2.update_selected_update_sources, strings(&["EEFIXPACK"]));
    assert_eq!(ws.step2.update_selected_update_assets.len(), 1);
    assert_eq!(ws.step2.update_selected_update_assets[0].label, "Other");
    assert_eq!(ws.step2.update_selected_extract_failed_sources, strings(&["Old failure", "Broken: bad archive"]));
    assert_eq!(ws.step2.update_selected_extracted_sources.len(), 3);
    assert_eq!(ws.step2.scan_status, "Extracted 3 updates; rescanning Mods Folder");
    assert_eq!(ws.step1_mods_folder_has_tp2, Some(true));
    assert!(ws.step2.log_pending_downloads.is_empty());
}

#[test]
fn a_failed_extraction_reports_the_counts() {
    let mut ws = WizardState::default();
    ws.step2.update_selected_extract_failed_sources = strings(&["A"]);
    let rescan = apply_extract_finished(&mut ws, Vec::new(), strings(&["B", "C"]));
    assert!(!rescan);
    assert_eq!(ws.step2.scan_status, "Extract updates finished: 0 updated, 3 failed");
    assert_eq!(ws.step1_mods_folder_has_tp2, None);
}

#[test]
fn a_vanished_worker_stops_the_extraction() {
    let mut ws = WizardState::default();
    ws.step2.update_selected_extract_running = true;
    apply_extract_disconnected(&mut ws.step2);
    assert!(!ws.step2.update_selected_extract_running);
    assert_eq!(ws.step2.scan_status, "Extract updates failed: worker disconnected");
}
