//! The wizard's state as the library reads it: the settings of step 1, the
//! mod and update-check state of step 2, the install-order lists of step 3
//! and the run flags of step 5.
use vstd::prelude::*;

use crate::items::Step3ItemState;

verus! {

/// Settings and paths (step 1).
#[derive(Debug, Clone, Default)]
pub struct Step1State {
    pub game_install: String,
    pub bootstraps_from_logs: bool,
    pub installs_exactly_from_logs: bool,
    pub uses_source_logs: bool,
    pub bgee_game_folder: String,
    pub bg2ee_game_folder: String,
    pub iwdee_game_folder: String,
    pub eet_bgee_game_folder: String,
    pub eet_bg2ee_game_folder: String,
    pub global_mods_folder: String,
    pub mods_archive_folder: String,
    pub mods_backup_folder: String,
    pub weidu_log_folder: String,
    pub weidu_binary: String,
    pub mod_installer_binary: String,
    pub rust_log_debug: bool,
    pub rust_log_trace: bool,
    pub bio_full_debug: bool,
    pub log_raw_output_dev: bool,
}

impl Step1State {
    /// The mod list is started from existing WeiDU logs and then edited.
    pub fn bootstraps_from_weidu_logs(&self) -> (r: bool)
        ensures
            r == self.bootstraps_from_logs,
    {
        self.bootstraps_from_logs
    }

    /// The install replays existing WeiDU logs exactly.
    pub fn installs_exactly_from_weidu_logs(&self) -> (r: bool)
        ensures
            r == self.installs_exactly_from_logs,
    {
        self.installs_exactly_from_logs
    }

    /// The mod list comes from WeiDU logs rather than a mods-folder scan.
    pub fn uses_source_weidu_logs(&self) -> (r: bool)
        ensures
            r == self.uses_source_logs,
    {
        self.uses_source_logs
    }
}

/// One component of a scanned mod (step 2).
#[derive(Debug, Clone, Default)]
pub struct Step2ComponentState {
    pub component_id: String,
    pub label: String,
    pub checked: bool,
    pub selected_order: Option<usize>,
}

/// One scanned mod (step 2).
#[derive(Debug, Clone, Default)]
pub struct Step2ModState {
    pub name: String,
    pub tp_file: String,
    pub checked: bool,
    pub update_locked: bool,
    pub components: Vec<Step2ComponentState>,
}

/// A mod named in an applied WeiDU log that still has to be downloaded.
#[derive(Debug, Clone, Default)]
pub struct PendingLogDownload {
    pub tp_file: String,
    pub label: String,
}

/// The mods and update-check state of step 2.
#[derive(Debug, Clone, Default)]
pub struct Step2State {
    pub active_game_tab: String,
    pub bgee_mods: Vec<Step2ModState>,
    pub bg2ee_mods: Vec<Step2ModState>,
    pub is_scanning: bool,
    pub scan_status: String,
    pub last_scan_report: Option<String>,
    pub review_edit_bgee_log_applied: bool,
    pub review_edit_bg2ee_log_applied: bool,
    pub log_pending_downloads: Vec<PendingLogDownload>,
    pub update_selected_has_run: bool,
    pub update_selected_last_was_full_selection: bool,
    pub update_selected_last_selection_signature: Option<String>,
    pub update_selected_check_running: bool,
    pub update_selected_check_done_count: usize,
    pub update_selected_check_total_count: usize,
    pub update_selected_download_running: bool,
    pub update_selected_extract_running: bool,
    pub update_selected_update_assets: Vec<PendingLogDownload>,
    pub update_selected_exact_version_retry_requests: Vec<String>,
    pub update_selected_update_sources: Vec<String>,
    pub update_selected_known_sources: Vec<String>,
    pub update_selected_manual_sources: Vec<String>,
    pub update_selected_unknown_sources: Vec<String>,
    pub update_selected_missing_sources: Vec<String>,
    pub update_selected_exact_version_failed_sources: Vec<String>,
    pub update_selected_version_override_warnings: Vec<String>,
    pub update_selected_failed_sources: Vec<String>,
    pub update_selected_downloaded_sources: Vec<String>,
    pub update_selected_download_failed_sources: Vec<String>,
    pub update_selected_extracted_sources: Vec<String>,
    pub update_selected_extract_failed_sources: Vec<String>,
    pub update_selected_target_game_tab: Option<String>,
    pub update_selected_target_tp_file: Option<String>,
    /// The download source chosen per mod, as (download key, source id)
    /// pairs, no key twice.
    pub selected_source_ids: Vec<(String, String)>,
    pub pending_saved_log_apply: bool,
    pub pending_saved_log_update_preview: bool,
    pub pending_saved_log_download: bool,
}

/// The install-order lists of step 3, one per game slot.
#[derive(Debug, Clone, Default)]
pub struct Step3State {
    pub active_game_tab: String,
    pub bgee_items: Vec<Step3ItemState>,
    pub bgee_selected: Vec<usize>,
    pub bgee_anchor: Option<usize>,
    pub bgee_collapsed_blocks: Vec<String>,
    pub bgee_clone_seq: usize,
    pub bgee_locked_blocks: Vec<String>,
    pub bgee_undo_stack: Vec<Vec<Step3ItemState>>,
    pub bgee_redo_stack: Vec<Vec<Step3ItemState>>,
    pub bg2ee_items: Vec<Step3ItemState>,
    pub bg2ee_selected: Vec<usize>,
    pub bg2ee_anchor: Option<usize>,
    pub bg2ee_collapsed_blocks: Vec<String>,
    pub bg2ee_clone_seq: usize,
    pub bg2ee_locked_blocks: Vec<String>,
    pub bg2ee_undo_stack: Vec<Vec<Step3ItemState>>,
    pub bg2ee_redo_stack: Vec<Vec<Step3ItemState>>,
    pub jump_to_selected_requested: bool,
}

/// The install run flags of step 5.
#[derive(Debug, Clone, Default)]
pub struct Step5State {
    pub start_install_requested: bool,
    pub prep_running: bool,
    pub install_running: bool,
    pub cancel_pending: bool,
    pub cancel_requested: bool,
    pub last_exit_code: Option<i32>,
    pub last_install_failed: bool,
    pub last_status_text: String,
}

/// The whole wizard.
#[derive(Debug, Clone, Default)]
pub struct WizardState {
    pub modlist_auto_build_active: bool,
    pub modlist_auto_build_waiting_for_install: bool,
    pub step1_mods_folder_has_tp2: Option<bool>,
    pub step1: Step1State,
    pub step2: Step2State,
    pub step3: Step3State,
    pub step5: Step5State,
}

} // verus!
