use lib::source_choices::{source_choice_rows, SourceOption, TargetSources};
use lib::source_targets::SourceKeys;
use lib::state::{Step2ModState, WizardState};

fn source(id: &str, label: &str, github: Option<&str>, url: Option<&str>) -> SourceOption {
    SourceOption {
        source_id: id.to_string(),
        label: label.to_string(),
        github: github.map(|s| s.to_string()),
        open_url: url.map(|s| s.to_string()),
    }
}

fn found(sources: Vec<SourceOption>, resolved: Option<SourceOption>) -> TargetSources {
    TargetSources { sources, resolved }
}

fn one_source(id: &str) -> TargetSources {
    found(vec![source(id, id, None, None)], None)
}

fn target(key: &str, label: &str) -> (String, String) {
    (key.to_string(), label.to_string())
}

fn scanned(tp_file: &str, locked: bool) -> Step2ModState {
    Step2ModState {
        name: tp_file.to_string(),
        tp_file: tp_file.to_string(),
        checked: true,
        update_locked: locked,
        components: Vec::new(),
    }
}

fn no_keys() -> SourceKeys {
    SourceKeys { single_target: String::new(), pending: Vec::new(), first_mods: Vec::new(), second_mods: Vec::new() }
}

#[test]
fn source_rows_sort_by_label_ignoring_case_and_skip_mods_without_sources() {
    let state = WizardState::default();
    let targets = vec![
        target("c", "charlie"),
        target("x", "Xenon"),
        target("a", "Alpha"),
        target("b", "beta"),
        target("a2", "alpha"),
    ];
    let looked_up = vec![
        one_source("c1"),
        found(Vec::new(), None),
        one_source("a1"),
        one_source("b1"),
        one_source("a21"),
    ];
    let rows = source_choice_rows(&state, &no_keys(), &targets, &looked_up);
    let keys: Vec<&str> = rows.iter().map(|r| r.tp2_key.as_str()).collect();
    // "Alpha" and "alpha" share a sort key and keep their order
    assert_eq!(keys, vec!["a", "a2", "b", "c"]);
}

#[test]
fn source_rows_take_the_resolved_source_else_the_first() {
    let state = WizardState::default();
    let targets = vec![target("m", "Mod M"), target("n", "Mod N")];
    let looked_up = vec![
        found(
            vec![source("s1", "First", Some("o/first"), Some("https://first")), source("s2", "Second", None, None)],
            Some(source("s2", "Second", Some("o/second"), Some("https://second"))),
        ),
        found(vec![source("t1", "Only", Some("o/only"), None)], None),
    ];
    let rows = source_choice_rows(&state, &no_keys(), &targets, &looked_up);
    assert_eq!(rows.len(), 2);
    assert_eq!(rows[0].tp2_key, "m");
    assert_eq!(rows[0].label, "Mod M");
    assert_eq!(rows[0].selected_source_id, "s2");
    assert_eq!(rows[0].selected_label, "Second");
    assert_eq!(rows[0].selected_source_url, Some("https://second".to_string()));
    assert_eq!(rows[0].selected_source_repo, Some("o/second".to_string()));
    assert_eq!(
        rows[0].options,
        vec![("s1".to_string(), "First".to_string()), ("s2".to_string(), "Second".to_string())]
    );
    assert_eq!(rows[1].selected_source_id, "t1");
    assert_eq!(rows[1].selected_label, "Only");
    assert_eq!(rows[1].selected_source_url, None);
    assert_eq!(rows[1].selected_source_repo, Some("o/only".to_string()));
    assert!(!rows[1].update_locked);
}

#[test]
fn source_rows_take_the_lock_of_the_first_mod_with_the_key() {
    let mut state = WizardState::default();
    state.step2.bgee_mods = vec![scanned("p.tp2", false), scanned("q.tp2", true)];
    state.step2.bg2ee_mods = vec![scanned("P.TP2", true), scanned("r.tp2", true)];
    let keys = SourceKeys {
        single_target: String::new(),
        pending: Vec::new(),
        first_mods: vec!["p".to_string(), "q".to_string()],
        second_mods: vec!["p".to_string(), "r".to_string()],
    };
    let targets = vec![target("p", "P"), target("q", "Q"), target("r", "R"), target("z", "Z")];
    let looked_up = vec![one_source("1"), one_source("2"), one_source("3"), one_source("4")];
    let rows = source_choice_rows(&state, &keys, &targets, &looked_up);
    let locks: Vec<bool> = rows.iter().map(|r| r.update_locked).collect();
    assert_eq!(locks, vec![false, true, true, false]);
}
