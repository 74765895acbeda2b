use lib::install_progress::{mod_progress_for_items, step5_title};
use lib::items::Step3ItemState;

fn row(tp_file: &str, is_parent: bool) -> Step3ItemState {
    Step3ItemState {
        tp_file: tp_file.to_string(),
        component_id: if is_parent { "__PARENT__".to_string() } else { "0".to_string() },
        mod_name: tp_file.to_string(),
        component_label: String::new(),
        raw_line: String::new(),
        prompt_summary: None,
        prompt_events: Vec::new(),
        selected_order: 0,
        block_id: format!("{tp_file}::block0"),
        is_parent,
        parent_placeholder: false,
    }
}

fn list(rows: &[(&str, bool)]) -> (Vec<Step3ItemState>, Vec<String>) {
    let items: Vec<Step3ItemState> = rows.iter().map(|(t, p)| row(t, *p)).collect();
    let tp2s: Vec<String> = rows.iter().map(|(t, _)| t.to_string()).collect();
    (items, tp2s)
}

#[test]
fn progress_counts_each_mod_once_ignoring_case_and_headers() {
    let (items, tp2s) = list(&[
        ("a.tp2", true),
        ("a.tp2", false),
        ("A.TP2", false),
        ("b.tp2", true),
        ("b.tp2", false),
        ("   ", false),
        ("c.tp2", false),
    ]);
    assert_eq!(mod_progress_for_items("a.tp2", &items, &tp2s), Some((1, 3)));
    assert_eq!(mod_progress_for_items("B.Tp2", &items, &tp2s), Some((2, 3)));
    assert_eq!(mod_progress_for_items("c.tp2", &items, &tp2s), Some((3, 3)));
    assert_eq!(mod_progress_for_items("d.tp2", &items, &tp2s), None);
}

#[test]
fn progress_ignores_a_mod_that_only_has_a_header() {
    let (items, tp2s) = list(&[("a.tp2", true), ("b.tp2", false)]);
    assert_eq!(mod_progress_for_items("a.tp2", &items, &tp2s), None);
    assert_eq!(mod_progress_for_items("b.tp2", &items, &tp2s), Some((1, 1)));
}

#[test]
fn title_names_the_mod_of_the_list_that_holds_it() {
    let (first, first_tp2s) = list(&[("a.tp2", false), ("b.tp2", false)]);
    let (second, second_tp2s) = list(&[("c.tp2", false)]);
    let title = step5_title(true, Some("b.tp2"), "BGEE", &first, &first_tp2s, &second, &second_tp2s);
    assert_eq!(title, "Step 5: Install, Logs, Diagnostics \u{2014} Installing BGEE mod 2/2");
    let title = step5_title(true, Some("C.TP2"), "BGEE", &first, &first_tp2s, &second, &second_tp2s);
    assert_eq!(title, "Step 5: Install, Logs, Diagnostics \u{2014} Installing BG2EE mod 1/1");
}

#[test]
fn title_is_plain_when_nothing_or_both_lists_match() {
    let (first, first_tp2s) = list(&[("a.tp2", false)]);
    let (second, second_tp2s) = list(&[("a.tp2", false)]);
    let plain = "Step 5: Install, Logs, Diagnostics";
    assert_eq!(step5_title(false, Some("a.tp2"), "BGEE", &first, &first_tp2s, &second, &second_tp2s), plain);
    assert_eq!(step5_title(true, None, "BGEE", &first, &first_tp2s, &second, &second_tp2s), plain);
    assert_eq!(step5_title(true, Some("  "), "BGEE", &first, &first_tp2s, &second, &second_tp2s), plain);
    assert_eq!(step5_title(true, Some("a.tp2"), "BGEE", &first, &first_tp2s, &second, &second_tp2s), plain);
    assert_eq!(step5_title(true, Some("z.tp2"), "BGEE", &first, &first_tp2s, &second, &second_tp2s), plain);
}
