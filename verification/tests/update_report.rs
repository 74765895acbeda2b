use lib::state::{PendingLogDownload, WizardState};
use lib::update_report::{
    applied_weidu_log_has_pending_downloads, build_popup_report, non_scan_controls_locked,
    pending_log_labels, review_edit_any_log_applied, review_edit_scan_complete,
    review_edit_waiting_for_first_scan,
};

fn strings(values: &[&str]) -> Vec<String> {
    values.iter().map(|v| v.to_string()).collect()
}

#[test]
fn an_empty_update_check_reports_zero_counts_and_no_version_changes() {
    let state = WizardState::default();
    assert_eq!(
        build_popup_report(&state, false, false),
        "Version changes found: 0\nAuto sources checked: 0\nManual sources: 0\nMissing sources: 0\n\nVersion changes\nNone"
    );
}

#[test]
fn a_good_to_go_exact_log_report_is_short() {
    let mut state = WizardState::default();
    state.step2.update_selected_check_running = true;
    state.step2.update_selected_check_done_count = 2;
    state.step2.update_selected_check_total_count = 5;
    assert_eq!(
        build_popup_report(&state, true, true),
        "Checking missing mod sources 2/5\n\nNo missing mods found. Exact-log install is good to go."
    );
}

#[test]
fn an_applied_log_before_its_first_check_lists_the_pending_mods_only() {
    let mut state = WizardState::default();
    state.step2.review_edit_bgee_log_applied = true;
    state.step2.log_pending_downloads.push(PendingLogDownload {
        tp_file: "moda.tp2".to_string(),
        label: "ModA".to_string(),
    });
    state.step2.update_selected_manual_sources = strings(&["ignored"]);
    assert_eq!(
        build_popup_report(&state, false, false),
        "Missing mods from applied log: 1\nNo source check run yet.\n\nMissing Mods From Applied Log\nModA"
    );
    assert_eq!(pending_log_labels(&state), strings(&["ModA"]));
}

#[test]
fn an_exact_log_report_lists_every_source_section() {
    let mut state = WizardState::default();
    state.step2.update_selected_known_sources = strings(&["K"]);
    state.step2.update_selected_unknown_sources = strings(&["U"]);
    state.step2.update_selected_missing_sources = strings(&["M"]);
    state.step2.update_selected_exact_version_failed_sources = strings(&["E"]);
    state.step2.update_selected_failed_sources = strings(&["F"]);
    state.step2.update_selected_download_running = true;
    let expected = [
        "Downloading missing mod archives...",
        "",
        "Missing mods: 2",
        "Downloadable missing mods: 1",
        "Auto sources: 1",
        "Manual sources: 0",
        "No source entries: 1",
        "Exact version not available: 1",
        "",
        "Downloadable Missing Mods",
        "M",
        "",
        "Auto Sources",
        "K",
        "",
        "Manual Sources",
        "None",
        "",
        "No Source Entries",
        "U",
        "",
        "Exact Version Not Available",
        "E",
        "",
        "Source Check Failed",
        "F",
    ]
    .join("\n");
    assert_eq!(build_popup_report(&state, true, false), expected);
}

#[test]
fn review_edit_flags_follow_the_scan_and_the_applied_logs() {
    let mut state = WizardState::default();
    assert!(!review_edit_any_log_applied(&state));
    assert!(!applied_weidu_log_has_pending_downloads(&state));
    assert!(!non_scan_controls_locked(&state));

    state.step1.bootstraps_from_logs = true;
    assert!(review_edit_waiting_for_first_scan(&state));
    assert!(!review_edit_scan_complete(&state));
    assert!(non_scan_controls_locked(&state));

    state.step2.last_scan_report = Some("done".to_string());
    assert!(!review_edit_waiting_for_first_scan(&state));
    assert!(review_edit_scan_complete(&state));
    assert!(!non_scan_controls_locked(&state));

    state.step2.review_edit_bg2ee_log_applied = true;
    assert!(review_edit_any_log_applied(&state));
    assert!(!applied_weidu_log_has_pending_downloads(&state));
    state.step2.log_pending_downloads.push(PendingLogDownload::default());
    assert!(applied_weidu_log_has_pending_downloads(&state));

    state.step2.is_scanning = true;
    assert!(non_scan_controls_locked(&state));
}
