//! Step 2 (scanned mods): the details pane's model, the active game tab and
//! the mod list it shows.
use vstd::prelude::*;

use crate::game::{normalized, normalized_tab, slot_for_tab, slot_of, GameSlot};
use crate::state::{Step2ModState, Step2State, WizardState};
use crate::text::{
    chars_eq_ignore_ascii_case, chars_of, eq_ignore_ascii_case, push_chars, push_str, str_eq,
    str_eq_ignore_ascii_case, string_of, trim, trimmed_chars,
};

verus! {

/// What the details pane shows of the selected mod or component; every
/// field is absent until something provides it.
#[derive(Debug, Clone, Default)]
pub struct Step2Details {
    pub mod_name: Option<String>,
    pub component_label: Option<String>,
    pub component_id: Option<String>,
    pub shown_component_count: Option<usize>,
    pub hidden_component_count: Option<usize>,
    pub raw_component_count: Option<usize>,
    pub component_lang: Option<String>,
    pub component_version: Option<String>,
    pub selected_order: Option<usize>,
    pub is_checked: Option<bool>,
    pub is_disabled: Option<bool>,
    pub compat_kind: Option<String>,
    pub compat_role: Option<String>,
    pub compat_code: Option<String>,
    pub disabled_reason: Option<String>,
    pub compat_source: Option<String>,
    pub compat_related_target: Option<String>,
    pub compat_graph: Option<String>,
    pub compat_evidence: Option<String>,
    pub compat_component_block: Option<String>,
    pub raw_line: Option<String>,
    pub tp_file: Option<String>,
    pub tp2_folder: Option<String>,
    pub tp2_path: Option<String>,
    pub ini_path: Option<String>,
    pub readme_path: Option<String>,
    pub web_url: Option<String>,
    pub package_installed_source_name: Option<String>,
    pub package_source_status: Option<String>,
    pub package_source_name: Option<String>,
    pub package_latest_version: Option<String>,
    pub package_source_url: Option<String>,
    pub package_source_github: Option<String>,
    pub package_update_locked: Option<bool>,
    pub package_can_check_updates: bool,
}

/// Moves the step 2 tab to one the game install shows.
pub fn normalize_active_tab(state: &mut WizardState)
    ensures
        final(state).step2.active_game_tab@ == normalized(
            old(state).step1.game_install@,
            old(state).step2.active_game_tab@,
        ),
        final(state).step1 == old(state).step1,
        final(state).step3 == old(state).step3,
        final(state).step5 == old(state).step5,
        final(state).step2.bgee_mods == old(state).step2.bgee_mods,
        final(state).step2.bg2ee_mods == old(state).step2.bg2ee_mods,
{
    let n = normalized_tab(state.step1.game_install.as_str(), state.step2.active_game_tab.as_str());
    if !str_eq(n, state.step2.active_game_tab.as_str()) {
        state.step2.active_game_tab = String::from_str(n);
    }
}

/// `s` with its first mod list replaced.
pub open spec fn with_first_mods(s: Step2State, mods: Vec<Step2ModState>) -> Step2State {
    Step2State { bgee_mods: mods, ..s }
}

/// `s` with its second mod list replaced.
pub open spec fn with_second_mods(s: Step2State, mods: Vec<Step2ModState>) -> Step2State {
    Step2State { bg2ee_mods: mods, ..s }
}

/// The mod list of the active tab, to edit in place.
pub fn active_mods_mut(step2: &mut Step2State) -> (mods: &mut Vec<Step2ModState>)
    ensures
        slot_of(old(step2).active_game_tab@) == GameSlot::First ==> *mods == old(step2).bgee_mods
            && *final(step2) == with_first_mods(*old(step2), *final(mods)),
        slot_of(old(step2).active_game_tab@) == GameSlot::Second ==> *mods == old(
            step2,
        ).bg2ee_mods && *final(step2) == with_second_mods(*old(step2), *final(mods)),
{
    match slot_for_tab(step2.active_game_tab.as_str()) {
        GameSlot::First => &mut step2.bgee_mods,
        GameSlot::Second => &mut step2.bg2ee_mods,
    }
}

// ------------------------------------------------ compatibility details

/// The title of the compatibility details: the component's label, else its
/// mod's name, else a placeholder; prefixed with `#id ` when the component
/// id is not blank and the title does not already start (after blanks)
/// with `#`.
pub open spec fn details_title_spec(
    component_label: Option<String>,
    mod_name: Option<String>,
    component_id: Option<String>,
) -> Seq<char> {
    let base = match component_label {
        Some(l) => l@,
        None => match mod_name {
            Some(m) => m@,
            None => "No component selected"@,
        },
    };
    let tagged = trim(base).len() > 0 && trim(base)[0] == '#';
    match component_id {
        Some(id) => if trim(id@).len() > 0 && !tagged {
            "#"@ + trim(id@) + " "@ + base
        } else {
            base
        },
        None => base,
    }
}

pub fn details_title(
    component_label: &Option<String>,
    mod_name: &Option<String>,
    component_id: &Option<String>,
) -> (title: String)
    ensures
        title@ == details_title_spec(*component_label, *mod_name, *component_id),
{
    proof {
        reveal_strlit("#");
        reveal_strlit(" ");
    }
    let base: &str = match component_label {
        Some(l) => l.as_str(),
        None => match mod_name {
            Some(m) => m.as_str(),
            None => "No component selected",
        },
    };
    let bt = trimmed_chars(base);
    let tagged = bt.len() > 0 && bt[0] == '#';
    match component_id {
        Some(id) => {
            let t = trimmed_chars(id.as_str());
            if t.len() > 0 && !tagged {
                let mut s = String::from_str("#");
                push_chars(&mut s, &t);
                push_str(&mut s, " ");
                push_str(&mut s, base);
                return s;
            }
            String::from_str(base)
        },
        None => String::from_str(base),
    }
}

/// The kind shown in the details: the item's own compatibility kind, else
/// the kind of its issue, else `unknown`.
pub fn details_kind<'a>(compat_kind: &'a Option<String>, issue_kind: Option<&'a str>) -> (kind: &'a str)
    ensures
        kind@ == (match *compat_kind {
            Some(k) => k@,
            None => match issue_kind {
                Some(k) => k@,
                None => "unknown"@,
            },
        }),
{
    match compat_kind {
        Some(k) => k.as_str(),
        None => match issue_kind {
            Some(k) => k,
            None => "unknown",
        },
    }
}

/// The status badge is shown for an issue unless its kind is `included`
/// (in any ASCII case).
pub fn details_shows_status(has_issue: bool, kind: &str) -> (r: bool)
    ensures
        r == (has_issue && !eq_ignore_ascii_case(kind@, "included"@)),
{
    has_issue && !str_eq_ignore_ascii_case(kind, "included")
}

/// The disabled reason is shown under an issue's summary when, trimmed, it
/// is not blank, not `unknown` and not the summary itself (both compared
/// trimmed and ignoring ASCII case).
pub fn details_extra_reason(reason: &str, summary: &str) -> (r: Option<String>)
    ensures
        ({
            let t = trim(reason@);
            if t.len() > 0 && !eq_ignore_ascii_case(t, "unknown"@) && !eq_ignore_ascii_case(t, trim(summary@)) {
                r matches Some(x) && x@ == t
            } else {
                r is None
            }
        }),
{
    let t = trimmed_chars(reason);
    let u = chars_of("unknown");
    let sm = trimmed_chars(summary);
    if t.len() > 0 && !chars_eq_ignore_ascii_case(&t, &u) && !chars_eq_ignore_ascii_case(&t, &sm) {
        Some(string_of(&t))
    } else {
        None
    }
}

} // verus!
