use lib::nav::{
    apply_dev_defaults, clean_exit, is_active, clear_pending_reinstall_on_nav_away_from_install,
    compute_path_validation_summary, fork_meta_from_entry, workspace_flush_on_nav_away,
    ForkAncestor, ModlistEntry, NavDestination, PathValidationKind, PathValidationSummary,
    RescanSnapshot, WorkspaceFlush, WorkspaceStep2State,
};
use lib::state::{Step5State, WizardState};

#[test]
fn the_status_summary_counts_the_failed_path_check_lines() {
    let ok = compute_path_validation_summary(true, &None);
    assert_eq!(ok.kind, PathValidationKind::Valid);
    assert_eq!(ok.text, "weidu v\u{2026} \u{00B7} all paths ok");

    let none = compute_path_validation_summary(false, &None);
    assert_eq!(none.kind, PathValidationKind::Invalid(0));
    assert_eq!(none.text, "\u{00D7} paths not configured");

    let one = compute_path_validation_summary(false, &Some((false, vec!["a".to_string()])));
    assert_eq!(one.kind, PathValidationKind::Invalid(1));
    assert_eq!(one.text, "\u{00D7} 1 path issue");

    let three = compute_path_validation_summary(
        false,
        &Some((false, vec!["a".to_string(), "b".to_string(), "c".to_string()])),
    );
    assert_eq!(three.kind, PathValidationKind::Invalid(3));
    assert_eq!(three.text, "\u{00D7} 3 path issues");

    let passed_check = compute_path_validation_summary(false, &Some((true, vec!["x".to_string()])));
    assert_eq!(passed_check.kind, PathValidationKind::Invalid(0));

    let default = PathValidationSummary::default();
    assert_eq!(default.kind, PathValidationKind::Invalid(0));
    assert_eq!(default.text, "paths not configured");
}

#[test]
fn a_clean_exit_needs_code_zero_and_no_failure() {
    let mut w = WizardState::default();
    assert!(!clean_exit(&w));
    w.step5.last_exit_code = Some(0);
    assert!(clean_exit(&w));
    w.step5.last_install_failed = true;
    assert!(!clean_exit(&w));
    w.step5.last_install_failed = false;
    w.step5.last_exit_code = Some(2);
    assert!(!clean_exit(&w));
}

#[test]
fn fork_meta_names_the_direct_parent() {
    let scratch = ModlistEntry {
        name: "Mine".to_string(),
        forked_from: Vec::new(),
        mod_count: 3,
        component_count: 9,
    };
    assert!(fork_meta_from_entry(&scratch).is_none());

    let forked = ModlistEntry {
        forked_from: vec![
            ForkAncestor {
                name: "Root".to_string(),
                author: "a".to_string(),
            },
            ForkAncestor {
                name: "Parent".to_string(),
                author: "b".to_string(),
            },
        ],
        ..scratch
    };
    let meta = fork_meta_from_entry(&forked).unwrap();
    assert_eq!(meta.parent_name, "Parent");
    assert_eq!(meta.parent_author, "b");
    assert_eq!(meta.mods, 3);
    assert_eq!(meta.components, 9);
    assert_eq!(meta.forked_from.len(), 2);
}

#[test]
fn dev_defaults_follow_dev_mode() {
    let mut w = WizardState::default();
    w.step1.rust_log_trace = true;
    apply_dev_defaults(&mut w, true);
    assert!(w.step1.bio_full_debug);
    assert!(w.step1.log_raw_output_dev);
    assert!(w.step1.rust_log_trace);
    apply_dev_defaults(&mut w, false);
    assert!(!w.step1.bio_full_debug);
    assert!(!w.step1.log_raw_output_dev);
}

#[test]
fn leaving_a_workspace_saves_it_unless_a_restore_is_in_flight() {
    let loaded = Some("ws-1".to_string());
    let calm = WorkspaceStep2State::default();
    assert_eq!(
        workspace_flush_on_nav_away(&None, &NavDestination::Home, &calm),
        WorkspaceFlush::Stay
    );
    assert_eq!(
        workspace_flush_on_nav_away(
            &loaded,
            &NavDestination::Workspace {
                modlist_id: Some("ws-1".to_string())
            },
            &calm
        ),
        WorkspaceFlush::Stay
    );
    assert_eq!(
        workspace_flush_on_nav_away(&loaded, &NavDestination::Home, &calm),
        WorkspaceFlush::SaveAndUnload("ws-1".to_string())
    );
    assert_eq!(
        workspace_flush_on_nav_away(
            &loaded,
            &NavDestination::Workspace {
                modlist_id: Some("ws-2".to_string())
            },
            &calm
        ),
        WorkspaceFlush::SaveAndUnload("ws-1".to_string())
    );
    let restoring = WorkspaceStep2State {
        rescan_snapshot: Some(RescanSnapshot {
            bgee: Vec::new(),
            bg2ee: Vec::new(),
        }),
        resume_pending: false,
    };
    assert_eq!(
        workspace_flush_on_nav_away(&loaded, &NavDestination::Settings, &restoring),
        WorkspaceFlush::UnloadWithoutSaving
    );
}

#[test]
fn a_pending_reinstall_is_dropped_only_when_leaving_install_idle() {
    let idle = Step5State::default();
    let mut pending = Some("id".to_string());
    let mut active = Some("id".to_string());
    clear_pending_reinstall_on_nav_away_from_install(&NavDestination::Install, &idle, &mut pending, &mut active);
    assert!(pending.is_some() && active.is_some());

    let running = Step5State {
        prep_running: true,
        ..Default::default()
    };
    clear_pending_reinstall_on_nav_away_from_install(&NavDestination::Home, &running, &mut pending, &mut active);
    assert!(pending.is_some() && active.is_some());

    clear_pending_reinstall_on_nav_away_from_install(&NavDestination::Home, &idle, &mut pending, &mut active);
    assert!(pending.is_none() && active.is_none());
}

#[test]
fn issues_from_the_settings_screen_reach_a_valid_summary() {
    let mut summary = compute_path_validation_summary(true, &None);
    lib::nav::refresh_path_validation_status(&mut summary, 0);
    assert_eq!(summary.kind, PathValidationKind::Valid);
    lib::nav::refresh_path_validation_status(&mut summary, 1);
    assert_eq!(summary.kind, PathValidationKind::Invalid(1));
    assert_eq!(summary.text, "\u{00D7} 1 path issues");
    lib::nav::refresh_path_validation_status(&mut summary, 4);
    assert_eq!(summary.kind, PathValidationKind::Invalid(1));
}

#[test]
fn the_rail_lights_create_for_workspaces() {
    assert!(is_active(&NavDestination::Home, &NavDestination::Home));
    assert!(is_active(
        &NavDestination::Workspace { modlist_id: None },
        &NavDestination::Create
    ));
    assert!(!is_active(&NavDestination::Create, &NavDestination::Install));
    assert!(!is_active(
        &NavDestination::Workspace { modlist_id: None },
        &NavDestination::Workspace { modlist_id: None }
    ));
}
