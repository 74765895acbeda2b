use lib::items::Step3ItemState;
use lib::row_selection::{apply_row_selection, range_selection, RowModifiers};

const SHIFT: RowModifiers = RowModifiers {
    shift: true,
    ctrl: false,
};
const CTRL: RowModifiers = RowModifiers {
    shift: false,
    ctrl: true,
};

fn row(mod_name: &str, component_id: &str, is_parent: bool) -> Step3ItemState {
    Step3ItemState {
        tp_file: format!("{mod_name}.tp2"),
        component_id: component_id.to_string(),
        mod_name: mod_name.to_string(),
        component_label: String::new(),
        raw_line: String::new(),
        prompt_summary: None,
        prompt_events: Vec::new(),
        selected_order: 0,
        block_id: format!("{mod_name}::block0"),
        is_parent,
        parent_placeholder: false,
    }
}

fn three_mods_of_two() -> Vec<Step3ItemState> {
    let mut items = Vec::new();
    for mod_name in ["A", "B", "C"] {
        items.push(row(mod_name, "__PARENT__", true));
        items.push(row(mod_name, "1", false));
        items.push(row(mod_name, "2", false));
    }
    items
}

fn every_row_visible() -> Vec<usize> {
    (0..9).collect()
}

fn with_mod_b_collapsed() -> Vec<usize> {
    vec![0, 1, 2, 3, 6, 7, 8]
}

#[test]
fn shift_click_across_mods_takes_the_components_and_only_fully_covered_headers() {
    let items = three_mods_of_two();
    let mut selected = vec![2];
    let mut anchor = Some(2);

    apply_row_selection(
        &mut selected,
        &mut anchor,
        &items,
        &every_row_visible(),
        7,
        SHIFT,
    );

    assert_eq!(selected, vec![2, 3, 4, 5, 7]);
    assert_eq!(anchor, Some(2));
}

#[test]
fn shift_click_upward_selects_the_same_rows() {
    let items = three_mods_of_two();
    let mut selected = vec![7];
    let mut anchor = Some(7);

    apply_row_selection(
        &mut selected,
        &mut anchor,
        &items,
        &every_row_visible(),
        2,
        SHIFT,
    );

    assert_eq!(selected, vec![2, 3, 4, 5, 7]);
    assert_eq!(anchor, Some(7));
}

#[test]
fn shift_click_inside_one_mod_selects_that_run_without_its_header() {
    let items = three_mods_of_two();
    let mut selected = vec![1];
    let mut anchor = Some(1);

    apply_row_selection(
        &mut selected,
        &mut anchor,
        &items,
        &every_row_visible(),
        2,
        SHIFT,
    );

    assert_eq!(selected, vec![1, 2]);
}

#[test]
fn a_collapsed_mod_inside_the_range_is_taken_whole_with_its_hidden_components() {
    let items = three_mods_of_two();
    let mut selected = vec![1];
    let mut anchor = Some(1);

    apply_row_selection(
        &mut selected,
        &mut anchor,
        &items,
        &with_mod_b_collapsed(),
        7,
        SHIFT,
    );

    assert_eq!(selected, vec![1, 2, 3, 4, 5, 7]);
}

#[test]
fn shift_clicking_a_header_takes_that_whole_mod() {
    let items = three_mods_of_two();
    let mut selected = vec![2];
    let mut anchor = Some(2);

    apply_row_selection(
        &mut selected,
        &mut anchor,
        &items,
        &every_row_visible(),
        6,
        SHIFT,
    );

    assert_eq!(selected, vec![2, 3, 4, 5, 6, 7, 8]);
}

#[test]
fn a_second_shift_click_replaces_the_range_from_the_same_anchor() {
    let items = three_mods_of_two();
    let mut selected = vec![2];
    let mut anchor = Some(2);

    apply_row_selection(
        &mut selected,
        &mut anchor,
        &items,
        &every_row_visible(),
        7,
        SHIFT,
    );
    apply_row_selection(
        &mut selected,
        &mut anchor,
        &items,
        &every_row_visible(),
        4,
        SHIFT,
    );

    assert_eq!(selected, vec![2, 4]);
    assert_eq!(anchor, Some(2));
}

#[test]
fn a_first_shift_click_sets_the_anchor_so_the_next_one_makes_a_range() {
    let items = three_mods_of_two();
    let mut selected = Vec::new();
    let mut anchor = None;

    apply_row_selection(
        &mut selected,
        &mut anchor,
        &items,
        &every_row_visible(),
        5,
        SHIFT,
    );

    assert_eq!(selected, vec![5]);
    assert_eq!(anchor, Some(5));

    apply_row_selection(
        &mut selected,
        &mut anchor,
        &items,
        &every_row_visible(),
        7,
        SHIFT,
    );

    assert_eq!(selected, vec![5, 7]);
}

#[test]
fn a_header_anchor_takes_its_whole_mod_into_the_range() {
    let items = three_mods_of_two();
    let mut selected = vec![3];
    let mut anchor = Some(3);

    apply_row_selection(
        &mut selected,
        &mut anchor,
        &items,
        &every_row_visible(),
        7,
        SHIFT,
    );

    assert_eq!(selected, vec![3, 4, 5, 7]);
}

#[test]
fn shift_click_from_a_hidden_anchor_selects_the_clicked_row() {
    let items = three_mods_of_two();
    let mut selected = vec![4];
    let mut anchor = Some(4);

    apply_row_selection(
        &mut selected,
        &mut anchor,
        &items,
        &with_mod_b_collapsed(),
        7,
        SHIFT,
    );

    assert_eq!(selected, vec![7]);
}

#[test]
fn ctrl_click_after_a_range_adds_and_removes_single_rows() {
    let items = three_mods_of_two();
    let mut selected = vec![2];
    let mut anchor = Some(2);

    apply_row_selection(
        &mut selected,
        &mut anchor,
        &items,
        &every_row_visible(),
        4,
        SHIFT,
    );
    apply_row_selection(
        &mut selected,
        &mut anchor,
        &items,
        &every_row_visible(),
        8,
        CTRL,
    );
    apply_row_selection(
        &mut selected,
        &mut anchor,
        &items,
        &every_row_visible(),
        4,
        CTRL,
    );

    assert_eq!(selected, vec![2, 8]);
    assert_eq!(anchor, Some(4));
}

#[test]
fn plain_click_replaces_the_selection_and_moves_the_anchor() {
    let items = three_mods_of_two();
    let mut selected = vec![1, 2, 3];
    let mut anchor = Some(1);

    apply_row_selection(
        &mut selected,
        &mut anchor,
        &items,
        &every_row_visible(),
        6,
        RowModifiers { shift: false, ctrl: false },
    );

    assert_eq!(selected, vec![6]);
    assert_eq!(anchor, Some(6));
}

#[test]
fn an_empty_range_selects_nothing() {
    let items = vec![row("A", "__PARENT__", true), row("A", "1", false)];
    let visible = vec![0, 1];
    assert!(range_selection(&items, &visible, 2, 1, (0, 1)).is_empty());
    assert_eq!(range_selection(&items, &visible, 1, 1, (1, 1)), vec![1]);
}
