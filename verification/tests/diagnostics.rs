use lib::nav::{apply_diagnostic_log_level, diagnostics_export_allowed, record_diagnostics_export};
use lib::state::{Step1State, Step5State};

#[test]
fn apply_diagnostic_log_level_off_clears_both_flags() {
    let mut step1 = Step1State {
        rust_log_debug: true,
        rust_log_trace: true,
        ..Default::default()
    };
    apply_diagnostic_log_level(&mut step1, false, false);
    assert!(!step1.rust_log_debug);
    assert!(!step1.rust_log_trace);
}

#[test]
fn apply_diagnostic_log_level_settings_on_selects_debug() {
    let mut step1 = Step1State::default();
    apply_diagnostic_log_level(&mut step1, true, false);
    assert!(step1.rust_log_debug);
    assert!(!step1.rust_log_trace);
}

#[test]
fn apply_diagnostic_log_level_launched_with_flag_selects_trace() {
    let mut step1 = Step1State::default();
    apply_diagnostic_log_level(&mut step1, false, true);
    assert!(!step1.rust_log_debug);
    assert!(step1.rust_log_trace);
}

#[test]
fn apply_diagnostic_log_level_flag_wins_over_settings() {
    let mut step1 = Step1State::default();
    apply_diagnostic_log_level(&mut step1, true, true);
    assert!(!step1.rust_log_debug);
    assert!(step1.rust_log_trace);
}

#[test]
fn diagnostics_export_needs_diagnostic_mode() {
    assert_eq!(diagnostics_export_allowed(true), Ok(()));
    assert_eq!(
        diagnostics_export_allowed(false),
        Err("Diagnostics export needs diagnostic mode. Turn it on in Settings > General.".to_string())
    );
}

#[test]
fn the_status_line_reports_the_export() {
    let mut step5 = Step5State::default();
    record_diagnostics_export(&mut step5, Ok("C:/diag/bundle.zip".to_string()));
    assert_eq!(step5.last_status_text, "Diagnostics exported: C:/diag/bundle.zip");
    record_diagnostics_export(&mut step5, Err("disk full".to_string()));
    assert_eq!(step5.last_status_text, "Diagnostics export failed: disk full");
}
