//! Step 3 (install order): the active game tab.
use vstd::prelude::*;

use crate::game::{normalized, normalized_tab};
use crate::state::WizardState;
use crate::text::str_eq;

verus! {

/// Moves the step 3 tab to one the game install shows.
pub fn normalize_active_tab(state: &mut WizardState)
    ensures
        final(state).step3.active_game_tab@ == normalized(
            old(state).step1.game_install@,
            old(state).step3.active_game_tab@,
        ),
        final(state).step1 == old(state).step1,
        final(state).step2 == old(state).step2,
        final(state).step5 == old(state).step5,
        final(state).step3.bgee_items == old(state).step3.bgee_items,
        final(state).step3.bg2ee_items == old(state).step3.bg2ee_items,
{
    let n = normalized_tab(state.step1.game_install.as_str(), state.step3.active_game_tab.as_str());
    if !str_eq(n, state.step3.active_game_tab.as_str()) {
        state.step3.active_game_tab = String::from_str(n);
    }
}

} // verus!
