//! Connecting a Nexus Mods account: the dialog's state and what opening,
//! submitting, cancelling, a validation result and a disconnect do to it.
//! The key check itself runs elsewhere; these functions say what to start
//! and what to show.
use vstd::prelude::*;

use crate::notices::{capped_push, NoticeKind, NotificationManager};
use crate::text::{push_str, string_of, trim, trimmed_chars};

verus! {

/// The status line shown while a key is being checked.
pub const CHECKING_STATUS_TEXT: &'static str = "Checking your key with Nexus Mods\u{2026}";

/// The state of the connect dialog.
#[derive(Debug, Clone, Default)]
pub struct NexusConnectDialogState {
    pub open: bool,
    pub focus_pending: bool,
    pub key_input: String,
    pub status_text: String,
    pub validating: bool,
}

/// What the dialog is drawn from, with the two fields it edits.
pub struct NexusConnectDialog<'a> {
    pub key_input: &'a mut String,
    pub focus_pending: &'a mut bool,
    pub status_text: &'a str,
    pub validating: bool,
}

/// What the user did with the dialog in one frame.
#[derive(Debug, Clone, Copy, PartialEq, Eq, Structural)]
pub enum NexusConnectOutcome {
    Pending,
    Submit,
    Cancel,
}

impl Default for NexusConnectOutcome {
    fn default() -> (o: Self)
        ensures
            o == NexusConnectOutcome::Pending,
    {
        NexusConnectOutcome::Pending
    }
}

/// A connected Nexus Mods account.
#[derive(Debug, Clone, PartialEq, Eq)]
pub struct NexusAccount {
    pub name: String,
    pub is_premium: bool,
}

/// The dialog after it was closed and emptied; whether focus is pending
/// stays as it was.
pub open spec fn closed_and_empty(after: NexusConnectDialogState, before: NexusConnectDialogState) -> bool {
    &&& !after.open
    &&& after.key_input@.len() == 0
    &&& after.status_text@.len() == 0
    &&& !after.validating
    &&& after.focus_pending == before.focus_pending
}

/// Opens the dialog with an empty key and asks for focus; while a check is
/// already running it shows that. An open dialog is left as it is, typed
/// key included.
pub fn open_nexus_dialog(dialog: &mut NexusConnectDialogState, check_running: bool)
    ensures
        old(dialog).open ==> *final(dialog) == *old(dialog),
        !old(dialog).open ==> {
            &&& final(dialog).open
            &&& final(dialog).focus_pending
            &&& final(dialog).validating == check_running
            &&& final(dialog).key_input@.len() == 0
            &&& final(dialog).status_text@ == (if check_running {
                CHECKING_STATUS_TEXT@
            } else {
                Seq::<char>::empty()
            })
        },
{
    if dialog.open {
        return;
    }
    dialog.open = true;
    dialog.focus_pending = true;
    dialog.validating = check_running;
    dialog.key_input = String::new();
    dialog.status_text = if check_running {
        String::from_str(CHECKING_STATUS_TEXT)
    } else {
        String::new()
    };
}

/// Submits the typed key: unless a check is running or the key is blank,
/// the dialog shows that the key is being checked and the trimmed key is
/// returned, to be checked; otherwise nothing changes.
pub fn submit_nexus_key(dialog: &mut NexusConnectDialogState, check_running: bool) -> (key: Option<String>)
    ensures
        (check_running || trim(old(dialog).key_input@).len() == 0) ==> key is None && *final(dialog)
            == *old(dialog),
        !(check_running || trim(old(dialog).key_input@).len() == 0) ==> {
            &&& key matches Some(k) && k@ == trim(old(dialog).key_input@)
            &&& final(dialog).validating
            &&& final(dialog).status_text@ == CHECKING_STATUS_TEXT@
            &&& final(dialog).open == old(dialog).open
            &&& final(dialog).focus_pending == old(dialog).focus_pending
            &&& final(dialog).key_input == old(dialog).key_input
        },
{
    if check_running {
        return None;
    }
    let t = trimmed_chars(dialog.key_input.as_str());
    if t.len() == 0 {
        return None;
    }
    dialog.validating = true;
    dialog.status_text = String::from_str(CHECKING_STATUS_TEXT);
    Some(string_of(&t))
}

/// Closes the dialog and forgets what was typed and shown.
pub fn cancel_nexus_dialog(dialog: &mut NexusConnectDialogState)
    ensures
        closed_and_empty(*final(dialog), *old(dialog)),
{
    dialog.open = false;
    dialog.key_input = String::new();
    dialog.status_text = String::new();
    dialog.validating = false;
}

/// The success notice for a connected account.
pub open spec fn connected_notice(a: NexusAccount) -> Seq<char> {
    "Connected to Nexus Mods as "@ + a.name@
}

/// Applies the result of a key check. An accepted key connects the account
/// (also when the dialog was cancelled meanwhile), closes and empties an
/// open dialog and queues a success notification naming the account; a
/// refused key leaves the account and the notifications as they were and
/// shows the reason in a dialog that is still open.
pub fn poll_nexus_validation(
    dialog: &mut NexusConnectDialogState,
    account: &mut Option<NexusAccount>,
    notices: &mut NotificationManager,
    result: Result<NexusAccount, String>,
)
    requires
        old(notices).wf(),
    ensures
        final(notices).wf(),
        final(notices).open_view() == old(notices).open_view(),
        !final(dialog).validating,
        final(dialog).focus_pending == old(dialog).focus_pending,
        match result {
            Ok(a) => {
                &&& *final(account) == Some(a)
                &&& final(notices).pending_view() == old(notices).pending_view().push(
                    (NoticeKind::Success, connected_notice(a), false),
                )
                &&& final(notices).history_view() == capped_push(
                    old(notices).history_view(),
                    (NoticeKind::Success, connected_notice(a)),
                )
                &&& old(dialog).open ==> closed_and_empty(*final(dialog), *old(dialog))
                &&& !old(dialog).open ==> !final(dialog).open && final(dialog).key_input
                    == old(dialog).key_input && final(dialog).status_text == old(
                    dialog,
                ).status_text
            },
            Err(text) => {
                &&& *final(account) == *old(account)
                &&& final(notices).pending_view() == old(notices).pending_view()
                &&& final(notices).history_view() == old(notices).history_view()
                &&& final(dialog).open == old(dialog).open
                &&& final(dialog).key_input == old(dialog).key_input
                &&& final(dialog).status_text@ == (if old(dialog).open {
                    text@
                } else {
                    old(dialog).status_text@
                })
            },
        },
{
    match result {
        Ok(a) => {
            if dialog.open {
                dialog.open = false;
                dialog.key_input = String::new();
                dialog.status_text = String::new();
            }
            dialog.validating = false;
            let mut n = String::from_str("Connected to Nexus Mods as ");
            push_str(&mut n, a.name.as_str());
            notices.success(n);
            *account = Some(a);
        },
        Err(text) => {
            dialog.validating = false;
            if dialog.open {
                dialog.status_text = text;
            }
        },
    }
}

/// Forgets the account and closes and empties the dialog.
pub fn disconnect_nexus_state_only(
    dialog: &mut NexusConnectDialogState,
    account: &mut Option<NexusAccount>,
)
    ensures
        *final(account) is None,
        closed_and_empty(*final(dialog), *old(dialog)),
{
    *account = None;
    cancel_nexus_dialog(dialog);
}

/// The connect button is disabled while a check runs or the key is blank.
pub fn connect_disabled(validating: bool, key_input: &str) -> (r: bool)
    ensures
        r == (validating || trim(key_input@).len() == 0),
{
    if validating {
        return true;
    }
    let t = trimmed_chars(key_input);
    t.len() == 0
}

/// The dialog's outcome for one frame: connecting (button, or Enter while
/// connecting is enabled) wins over cancelling (button or Escape).
pub fn footer_outcome(
    connect_clicked: bool,
    cancel_clicked: bool,
    enter_pressed: bool,
    escape_pressed: bool,
    connect_disabled: bool,
) -> (o: NexusConnectOutcome)
    ensures
        o == (if connect_clicked || (enter_pressed && !connect_disabled) {
            NexusConnectOutcome::Submit
        } else if cancel_clicked || escape_pressed {
            NexusConnectOutcome::Cancel
        } else {
            NexusConnectOutcome::Pending
        }),
{
    if connect_clicked || (enter_pressed && !connect_disabled) {
        NexusConnectOutcome::Submit
    } else if cancel_clicked || escape_pressed {
        NexusConnectOutcome::Cancel
    } else {
        NexusConnectOutcome::Pending
    }
}

} // verus!
