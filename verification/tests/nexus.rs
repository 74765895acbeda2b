use lib::nexus::{
    cancel_nexus_dialog, connect_disabled, disconnect_nexus_state_only, footer_outcome,
    open_nexus_dialog, poll_nexus_validation, submit_nexus_key, NexusAccount,
    NexusConnectDialogState, NexusConnectOutcome, CHECKING_STATUS_TEXT,
};
use lib::notices::{NoticeKind, NotificationManager};

fn account(name: &str, is_premium: bool) -> NexusAccount {
    NexusAccount {
        name: name.to_string(),
        is_premium,
    }
}

#[test]
fn a_successful_result_closes_the_dialog_sets_the_account_and_clears_the_channel() {
    let mut dialog = NexusConnectDialogState {
        open: true,
        validating: true,
        ..Default::default()
    };
    let mut nexus_account = None;

    let mut notices = NotificationManager::new();
    poll_nexus_validation(&mut dialog, &mut nexus_account, &mut notices, Ok(account("Xgatt", true)));

    assert!(!dialog.open);
    assert!(dialog.key_input.is_empty());
    assert!(dialog.status_text.is_empty());
    assert!(!dialog.validating);
    assert_eq!(nexus_account, Some(account("Xgatt", true)));
    let pending = notices.take_pending();
    assert_eq!(pending.len(), 1);
    assert_eq!(pending[0].0, NoticeKind::Success);
    assert_eq!(pending[0].1, "Connected to Nexus Mods as Xgatt");
}

#[test]
fn a_failed_result_keeps_the_dialog_open_with_the_message() {
    let mut dialog = NexusConnectDialogState {
        open: true,
        validating: true,
        ..Default::default()
    };
    let mut nexus_account = None;

    let mut notices = NotificationManager::new();
    poll_nexus_validation(&mut dialog, &mut nexus_account, &mut notices, Err("nope".to_string()));

    assert!(dialog.open);
    assert_eq!(dialog.status_text, "nope");
    assert!(!dialog.validating);
    assert!(nexus_account.is_none());
    assert!(notices.take_pending().is_empty());
    assert!(!notices.has_history());
}

#[test]
fn a_result_after_cancel_still_sets_the_account_but_writes_no_status() {
    let mut dialog = NexusConnectDialogState {
        open: true,
        ..Default::default()
    };
    let mut nexus_account = None;
    cancel_nexus_dialog(&mut dialog);

    let mut notices = NotificationManager::new();
    poll_nexus_validation(&mut dialog, &mut nexus_account, &mut notices, Ok(account("Xgatt", false)));

    assert!(!dialog.open);
    assert!(dialog.status_text.is_empty());
    assert_eq!(nexus_account, Some(account("Xgatt", false)));
}

#[test]
fn submit_ignores_a_blank_key() {
    let mut dialog = NexusConnectDialogState {
        key_input: "   ".to_string(),
        ..Default::default()
    };

    let started = submit_nexus_key(&mut dialog, false);

    assert!(started.is_none());
    assert!(!dialog.validating);
}

#[test]
fn submit_starts_a_check_with_the_trimmed_key_unless_one_runs() {
    let mut dialog = NexusConnectDialogState {
        open: true,
        key_input: "  abc123 ".to_string(),
        ..Default::default()
    };
    assert!(submit_nexus_key(&mut dialog, true).is_none());
    assert!(!dialog.validating);

    let started = submit_nexus_key(&mut dialog, false);
    assert_eq!(started.as_deref(), Some("abc123"));
    assert!(dialog.validating);
    assert_eq!(dialog.status_text, CHECKING_STATUS_TEXT);
    assert_eq!(dialog.key_input, "  abc123 ");
}

#[test]
fn open_while_a_check_runs_shows_the_checking_status_and_asks_for_focus() {
    let mut dialog = NexusConnectDialogState::default();

    open_nexus_dialog(&mut dialog, true);

    assert!(dialog.open);
    assert!(dialog.focus_pending);
    assert!(dialog.validating);
    assert_eq!(dialog.status_text, CHECKING_STATUS_TEXT);
    assert_eq!(CHECKING_STATUS_TEXT, "Checking your key with Nexus Mods\u{2026}");
}

#[test]
fn open_while_already_open_keeps_the_typed_key() {
    let mut dialog = NexusConnectDialogState::default();
    open_nexus_dialog(&mut dialog, false);
    dialog.focus_pending = false;
    dialog.key_input = "typed".to_string();

    open_nexus_dialog(&mut dialog, false);

    assert_eq!(dialog.key_input, "typed");
    assert!(!dialog.focus_pending);
}

#[test]
fn disconnect_clears_the_account_and_the_channel() {
    let mut dialog = NexusConnectDialogState {
        open: true,
        ..Default::default()
    };
    let mut nexus_account = Some(account("Xgatt", true));

    disconnect_nexus_state_only(&mut dialog, &mut nexus_account);

    assert!(nexus_account.is_none());
    assert!(!dialog.open);
}

#[test]
fn connect_is_disabled_while_checking_or_blank() {
    assert!(connect_disabled(true, "key"));
    assert!(connect_disabled(false, " \t "));
    assert!(!connect_disabled(false, " key "));
}

#[test]
fn enter_submits_only_while_connect_is_enabled() {
    assert_eq!(footer_outcome(false, false, true, false, false), NexusConnectOutcome::Submit);
    assert_eq!(footer_outcome(false, false, true, false, true), NexusConnectOutcome::Pending);
    assert_eq!(footer_outcome(false, false, true, true, true), NexusConnectOutcome::Cancel);
    assert_eq!(footer_outcome(true, true, false, true, false), NexusConnectOutcome::Submit);
    assert_eq!(footer_outcome(false, true, false, false, false), NexusConnectOutcome::Cancel);
    assert_eq!(NexusConnectOutcome::default(), NexusConnectOutcome::Pending);
}
