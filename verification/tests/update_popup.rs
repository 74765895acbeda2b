use lib::state::{PendingLogDownload, WizardState};
use lib::update_report::{
    check_action, destination_label, popup_modes, source_edit_row_matches_value, CheckAction,
    ModSourceEditDestination, SourceEditRow,
};

fn row(label: &str) -> SourceEditRow {
    SourceEditRow {
        tp2: "mod.tp2".to_string(),
        label: label.to_string(),
        source_id: "primary".to_string(),
    }
}

#[test]
fn a_source_row_matches_its_label_and_annotated_entries() {
    let r = row("  Sword Coast Stratagems ");
    assert!(source_edit_row_matches_value(&r, "sword coast stratagems"));
    assert!(source_edit_row_matches_value(&r, "Sword Coast Stratagems (v35)"));
    assert!(source_edit_row_matches_value(&r, " SWORD COAST STRATAGEMS: manual "));
    assert!(!source_edit_row_matches_value(&r, "Sword Coast Stratagems v35"));
    assert!(!source_edit_row_matches_value(&r, "Sword Coast"));
}

#[test]
fn destination_labels() {
    assert_eq!(destination_label(ModSourceEditDestination::GlobalDefault), "My default");
    assert_eq!(destination_label(ModSourceEditDestination::ThisModlist), "For this modlist");
}

#[test]
fn a_changed_selection_makes_the_last_check_stale() {
    let mut state = WizardState::default();
    state.step2.update_selected_has_run = true;
    state.step2.update_selected_last_was_full_selection = true;
    state.step2.update_selected_last_selection_signature = Some("a,b".to_string());
    let same = popup_modes(&state, false, &Some("a,b".to_string()), false);
    assert!(same.scanned_mods);
    assert!(!same.selection_stale);
    let changed = popup_modes(&state, false, &Some("a".to_string()), false);
    assert!(changed.selection_stale);
    let single = popup_modes(&state, true, &Some("a".to_string()), false);
    assert!(!single.selection_stale);
    state.step1.uses_source_logs = true;
    let from_logs = popup_modes(&state, false, &Some("a".to_string()), false);
    assert!(!from_logs.scanned_mods);
    assert!(!from_logs.selection_stale);
}

#[test]
fn an_applied_log_with_pending_mods_is_hybrid_until_checked() {
    let mut state = WizardState::default();
    state.step2.review_edit_bgee_log_applied = true;
    state.step2.log_pending_downloads.push(PendingLogDownload {
        tp_file: "a.tp2".to_string(),
        label: "A".to_string(),
    });
    let modes = popup_modes(&state, false, &None, false);
    assert!(modes.pending_missing && modes.hybrid_missing && modes.review_edit);
    assert!(modes.hybrid_source_pending);
    state.step2.update_selected_has_run = true;
    let modes = popup_modes(&state, false, &None, false);
    assert!(!modes.hybrid_source_pending);
}

#[test]
fn exact_log_retry_needs_requests_and_an_idle_pipeline() {
    let mut state = WizardState::default();
    state.step1.installs_exactly_from_logs = true;
    state.step2.update_selected_exact_version_retry_requests.push("a".to_string());
    let modes = popup_modes(&state, false, &None, true);
    assert!(modes.exact_log && modes.retry_latest && modes.good_to_go && !modes.busy);
    state.step2.update_selected_download_running = true;
    let modes = popup_modes(&state, false, &None, true);
    assert!(!modes.retry_latest && modes.busy);
    assert_eq!(check_action(modes, true), CheckAction::CheckExactLogModList);
    state.step1.installs_exactly_from_logs = false;
    let modes = popup_modes(&state, false, &None, true);
    assert_eq!(check_action(modes, true), CheckAction::PreviewUpdatePopupMod);
    assert_eq!(check_action(modes, false), CheckAction::PreviewUpdateSelected);
}
