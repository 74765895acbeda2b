//! The games the installer knows and the tabs they show: which of the two
//! per-game lists a tab uses, and which tabs a game install allows.
use vstd::prelude::*;

use crate::text::str_eq;

verus! {

/// Which of the two per-game lists a game tab uses.
#[derive(Debug, Clone, Copy, PartialEq, Eq, Structural)]
pub enum GameSlot {
    First,
    Second,
}

/// The `BG2EE` tab uses the second list; every other tab the first.
pub open spec fn slot_of(tab: Seq<char>) -> GameSlot {
    if tab == "BG2EE"@ {
        GameSlot::Second
    } else {
        GameSlot::First
    }
}

pub fn slot_for_tab(tab: &str) -> (s: GameSlot)
    ensures
        s == slot_of(tab@),
{
    if str_eq(tab, "BG2EE") {
        GameSlot::Second
    } else {
        GameSlot::First
    }
}

/// The tab shown for a game install: a single-game install shows its own
/// tab only; an EET install shows `BGEE` and `BG2EE`, and keeps the tab
/// asked for when it is one of them.
pub open spec fn normalized(game_install: Seq<char>, tab: Seq<char>) -> Seq<char> {
    if game_install == "BGEE"@ {
        "BGEE"@
    } else if game_install == "BG2EE"@ {
        "BG2EE"@
    } else if game_install == "IWDEE"@ {
        "IWDEE"@
    } else if tab == "BG2EE"@ {
        "BG2EE"@
    } else {
        "BGEE"@
    }
}

pub fn normalized_tab(game_install: &str, tab: &str) -> (r: &'static str)
    ensures
        r@ == normalized(game_install@, tab@),
{
    proof {
        reveal_strlit("BGEE");
        reveal_strlit("BG2EE");
        reveal_strlit("IWDEE");
    }
    if str_eq(game_install, "BGEE") {
        "BGEE"
    } else if str_eq(game_install, "BG2EE") {
        "BG2EE"
    } else if str_eq(game_install, "IWDEE") {
        "IWDEE"
    } else if str_eq(tab, "BG2EE") {
        "BG2EE"
    } else {
        "BGEE"
    }
}

} // verus!
