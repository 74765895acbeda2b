use lib::nav::{
    restore_pending, should_reset_completed_install_route_on_enter_install,
    should_reset_completed_install_route_on_nav_away, InstallScreenState, InstallStage,
    NavDestination, RescanSelection, RescanSnapshot, WorkspaceStep2State,
};
use lib::state::WizardState;

fn snap() -> RescanSnapshot {
    RescanSnapshot {
        bgee: vec![RescanSelection {
            tp2_upper: "BG1UB/BG1UB.TP2".to_string(),
            component_id: "0".to_string(),
            selected_order: Some(1),
        }],
        bg2ee: Vec::new(),
    }
}

#[test]
fn fixrun4_resume_pending_blocks_the_save() {
    let step2 = WorkspaceStep2State {
        rescan_snapshot: Some(snap()),
        resume_pending: true,
        ..Default::default()
    };
    assert!(
        restore_pending(&step2),
        "resume in flight (snapshot + resume_pending) must block extract/save \
         so the empty post-populate order is NOT written over workspace.json"
    );
}

#[test]
fn fixrun4_rescan_snapshot_alone_blocks_the_save() {
    let step2 = WorkspaceStep2State {
        rescan_snapshot: Some(snap()),
        resume_pending: false,
        ..Default::default()
    };
    assert!(
        restore_pending(&step2),
        "a snapshot in flight (rescan, no resume) must also block the save"
    );
}

#[test]
fn fixrun4_resume_pending_without_snapshot_still_blocks() {
    let step2 = WorkspaceStep2State {
        rescan_snapshot: None,
        resume_pending: true,
        ..Default::default()
    };
    assert!(
        restore_pending(&step2),
        "resume_pending set (snapshot taken, reconcile mid-flight) must still block"
    );
}

#[test]
fn fixrun4_no_restore_pending_lets_the_save_proceed() {
    let step2 = WorkspaceStep2State::default();
    assert!(
        step2.rescan_snapshot.is_none() && !step2.resume_pending,
        "precondition: nothing pending"
    );
    assert!(
        !restore_pending(&step2),
        "no restore pending ⇒ guard must NOT fire (a genuine deselect-all \
         edit still persists; the guard must not over-block)"
    );
}

#[test]
fn completed_install_route_resets_only_after_nav_away() {
    let mut install = InstallScreenState {
        stage: InstallStage::InstallingStub,
        ..Default::default()
    };
    let mut wizard = WizardState::default();
    wizard.step5.last_exit_code = Some(0);
    wizard.step5.last_install_failed = false;
    wizard.step5.install_running = false;

    assert!(!should_reset_completed_install_route_on_nav_away(
        &NavDestination::Install,
        &install,
        &wizard,
        false
    ));
    assert!(should_reset_completed_install_route_on_nav_away(
        &NavDestination::Home,
        &install,
        &wizard,
        false
    ));

    install.reset_to_paste();
    assert!(!should_reset_completed_install_route_on_nav_away(
        &NavDestination::Home,
        &install,
        &wizard,
        false
    ));
}

#[test]
fn failed_install_route_does_not_reset_on_nav_away() {
    let install = InstallScreenState {
        stage: InstallStage::InstallingStub,
        ..Default::default()
    };
    let mut wizard = WizardState::default();
    wizard.step5.last_exit_code = Some(1);
    assert!(!should_reset_completed_install_route_on_nav_away(
        &NavDestination::Home,
        &install,
        &wizard,
        false
    ));

    wizard.step5.last_exit_code = Some(0);
    wizard.step5.last_install_failed = true;
    assert!(!should_reset_completed_install_route_on_nav_away(
        &NavDestination::Home,
        &install,
        &wizard,
        false
    ));
}

#[test]
fn unfinished_or_running_install_route_does_not_reset_on_nav_away() {
    let install = InstallScreenState {
        stage: InstallStage::InstallingStub,
        ..Default::default()
    };
    let mut wizard = WizardState::default();
    assert!(!should_reset_completed_install_route_on_nav_away(
        &NavDestination::Home,
        &install,
        &wizard,
        false
    ));

    wizard.step5.last_exit_code = Some(0);
    wizard.step5.install_running = true;
    assert!(!should_reset_completed_install_route_on_nav_away(
        &NavDestination::Home,
        &install,
        &wizard,
        false
    ));
}

#[test]
fn completed_install_route_resets_on_enter_install_from_other_page() {
    let install = InstallScreenState {
        stage: InstallStage::InstallingStub,
        ..Default::default()
    };
    let mut wizard = WizardState::default();
    wizard.step5.last_exit_code = Some(0);

    assert!(should_reset_completed_install_route_on_enter_install(
        &NavDestination::Settings,
        &NavDestination::Install,
        &install,
        &wizard,
        false
    ));
    assert!(should_reset_completed_install_route_on_enter_install(
        &NavDestination::Home,
        &NavDestination::Install,
        &install,
        &wizard,
        false
    ));
    assert!(!should_reset_completed_install_route_on_enter_install(
        &NavDestination::Install,
        &NavDestination::Install,
        &install,
        &wizard,
        false
    ));
    assert!(!should_reset_completed_install_route_on_enter_install(
        &NavDestination::Settings,
        &NavDestination::Create,
        &install,
        &wizard,
        false
    ));
}

#[test]
fn stale_success_does_not_reset_when_new_attempt_is_pending() {
    let install = InstallScreenState {
        stage: InstallStage::InstallingStub,
        ..Default::default()
    };
    let mut wizard = WizardState::default();
    wizard.step5.last_exit_code = Some(0);
    wizard.step5.last_install_failed = false;

    wizard.step5.start_install_requested = true;
    assert!(!should_reset_completed_install_route_on_nav_away(
        &NavDestination::Home,
        &install,
        &wizard,
        false
    ));
    assert!(!should_reset_completed_install_route_on_enter_install(
        &NavDestination::Settings,
        &NavDestination::Install,
        &install,
        &wizard,
        false
    ));

    wizard.step5.start_install_requested = false;
    wizard.step5.prep_running = true;
    assert!(!should_reset_completed_install_route_on_nav_away(
        &NavDestination::Home,
        &install,
        &wizard,
        false
    ));

    wizard.step5.prep_running = false;
    assert!(!should_reset_completed_install_route_on_nav_away(
        &NavDestination::Home,
        &install,
        &wizard,
        true
    ));
    assert!(!should_reset_completed_install_route_on_enter_install(
        &NavDestination::Settings,
        &NavDestination::Install,
        &install,
        &wizard,
        true
    ));
}
