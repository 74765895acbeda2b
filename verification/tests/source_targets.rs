use lib::source_targets::{
    add_source_target, collect_source_edit_rows, collect_source_targets, SourceEditKeys, SourceKeys,
};
use lib::state::{PendingLogDownload, Step2ComponentState, Step2ModState, WizardState};

fn pending(tp_file: &str, label: &str) -> PendingLogDownload {
    PendingLogDownload { tp_file: tp_file.to_string(), label: label.to_string() }
}

fn scanned(name: &str, tp_file: &str, checked: bool, component_checked: bool) -> Step2ModState {
    Step2ModState {
        name: name.to_string(),
        tp_file: tp_file.to_string(),
        checked,
        update_locked: false,
        components: vec![Step2ComponentState {
            component_id: "0".to_string(),
            label: String::new(),
            checked: component_checked,
            selected_order: None,
        }],
    }
}

fn pairs(v: &[(&str, &str)]) -> Vec<(String, String)> {
    v.iter().map(|(a, b)| (a.to_string(), b.to_string())).collect()
}

fn strings(v: &[&str]) -> Vec<String> {
    v.iter().map(|s| s.to_string()).collect()
}

#[test]
fn the_popups_single_mod_is_the_only_target() {
    let mut state = WizardState::default();
    state.step2.update_selected_target_game_tab = Some("BGEE".to_string());
    state.step2.update_selected_target_tp_file = Some("setup-a.tp2".to_string());
    state.step2.bgee_mods.push(scanned("B", "b.tp2", true, false));
    let keys = SourceKeys {
        single_target: "a".to_string(),
        pending: Vec::new(),
        first_mods: strings(&["b"]),
        second_mods: Vec::new(),
    };
    assert_eq!(collect_source_targets(&state, &keys), pairs(&[("a", "setup-a.tp2")]));
    let no_key = SourceKeys { single_target: String::new(), ..keys };
    assert!(collect_source_targets(&state, &no_key).is_empty());
}

#[test]
fn an_exact_log_install_offers_the_missing_mods_once() {
    let mut state = WizardState::default();
    state.step1.installs_exactly_from_logs = true;
    state.step2.log_pending_downloads = vec![pending("a.tp2", "A"), pending("A.TP2", "A again"), pending("x", "X")];
    state.step2.bgee_mods.push(scanned("B", "b.tp2", true, false));
    let keys = SourceKeys {
        single_target: String::new(),
        pending: strings(&["a", "a", ""]),
        first_mods: strings(&["b"]),
        second_mods: Vec::new(),
    };
    assert_eq!(collect_source_targets(&state, &keys), pairs(&[("a", "A")]));
}

#[test]
fn a_scanned_list_offers_missing_then_ticked_mods() {
    let mut state = WizardState::default();
    state.step2.review_edit_bgee_log_applied = true;
    state.step2.log_pending_downloads = vec![pending("a.tp2", "A")];
    state.step2.bgee_mods = vec![
        scanned("  ", "b.tp2", false, true),
        scanned("Unticked", "c.tp2", false, false),
        scanned("A twin", "a.tp2", true, false),
    ];
    state.step2.bg2ee_mods = vec![scanned("D", "d.tp2", true, false), scanned("B twin", "b.tp2", true, true)];
    let keys = SourceKeys {
        single_target: String::new(),
        pending: strings(&["a"]),
        first_mods: strings(&["b", "c", "a"]),
        second_mods: strings(&["d", "b"]),
    };
    assert_eq!(
        collect_source_targets(&state, &keys),
        pairs(&[("a", "A"), ("b", "b.tp2"), ("d", "D")])
    );
    state.step2.review_edit_bgee_log_applied = false;
    assert_eq!(
        collect_source_targets(&state, &keys),
        pairs(&[("b", "b.tp2"), ("a", "A twin"), ("d", "D")])
    );
}

#[test]
fn source_edit_rows_list_each_mod_once_with_its_chosen_source() {
    let mut state = WizardState::default();
    state.step2.log_pending_downloads = vec![pending("a.tp2", "A")];
    state.step2.update_selected_update_assets = vec![pending("b.tp2", "B"), pending("A.tp2", "A asset")];
    state.step2.bgee_mods = vec![scanned("", "c.tp2", false, false), scanned("No key", "z.tp2", true, true)];
    state.step2.bg2ee_mods = vec![scanned("B mod", "b.tp2", false, false)];
    state.step2.selected_source_ids = vec![("b".to_string(), "mirror".to_string())];
    let keys = SourceEditKeys {
        pending: strings(&["a"]),
        assets: strings(&["b", "a"]),
        first_mods: strings(&["c", ""]),
        second_mods: strings(&["b"]),
    };
    let rows = collect_source_edit_rows(&state, &keys);
    let view: Vec<(String, String, String)> =
        rows.iter().map(|r| (r.tp2.clone(), r.label.clone(), r.source_id.clone())).collect();
    assert_eq!(
        view,
        vec![
            ("a.tp2".to_string(), "A".to_string(), "primary".to_string()),
            ("b.tp2".to_string(), "B".to_string(), "mirror".to_string()),
            ("c.tp2".to_string(), "c.tp2".to_string(), "primary".to_string()),
        ]
    );
}

#[test]
fn add_source_opens_the_single_mod_or_the_only_choice() {
    let key = "a".to_string();
    let tp = "setup-a.tp2".to_string();
    let two = pairs(&[("x", "X"), ("y", "Y")]);
    assert_eq!(add_source_target(Some((&key, &tp)), &two), Some(("a".to_string(), "setup-a.tp2".to_string())));
    assert_eq!(add_source_target(None, &pairs(&[("x", "X")])), Some(("x".to_string(), "X".to_string())));
    assert_eq!(add_source_target(None, &two), None);
    assert_eq!(add_source_target(None, &Vec::new()), None);
}
