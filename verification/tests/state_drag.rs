use lib::drag::resolve_insert_at;
use lib::items::Step3ItemState;
fn row(
    mod_name: &str,
    component_id: &str,
    is_parent: bool,
    block_id: &str,
) -> Step3ItemState {
    Step3ItemState {
        tp_file: format!("{mod_name}.tp2"),
        component_id: component_id.to_string(),
        mod_name: mod_name.to_string(),
        component_label: String::new(),
        raw_line: String::new(),
        prompt_summary: None,
        prompt_events: Vec::new(),
        selected_order: 0,
        block_id: block_id.to_string(),
        is_parent,
        parent_placeholder: false,
    }
}

fn default_remaining() -> Vec<Step3ItemState> {
    vec![
        row("B", "__PARENT__", true, "B::b0"),
        row("B", "1", false, "B::b0"),
        row("B", "2", false, "B::b0"),
        row("B", "3", false, "B::b0"),
        row("C", "__PARENT__", true, "C::b0"),
        row("C", "1", false, "C::b0"),
    ]
}

#[test]
fn foreign_components_land_between_two_components_of_another_mod() {
    let remaining = default_remaining();
    let moving = vec![row("A", "1", false, "A::b0")];
    assert_eq!(resolve_insert_at(&remaining, 2, &moving, &[]), 2);
    assert_eq!(resolve_insert_at(&remaining, 3, &moving, &[]), 3);
}

#[test]
fn a_whole_mod_lands_between_two_components_of_another_mod() {
    let remaining = default_remaining();
    let moving = vec![
        row("A", "__PARENT__", true, "A::b0"),
        row("A", "1", false, "A::b0"),
    ];
    assert_eq!(resolve_insert_at(&remaining, 2, &moving, &[]), 2);
}

#[test]
fn a_mixed_selection_lands_between_two_components_of_another_mod() {
    let remaining = default_remaining();
    let moving = vec![row("A", "1", false, "A::b0"), row("D", "1", false, "D::b0")];
    assert_eq!(resolve_insert_at(&remaining, 3, &moving, &[]), 3);
}

#[test]
fn directly_under_a_foreign_header_snaps_above_it() {
    let remaining = default_remaining();
    let moving = vec![row("A", "1", false, "A::b0")];
    assert_eq!(resolve_insert_at(&remaining, 1, &moving, &[]), 0);

    let moving = vec![
        row("A", "__PARENT__", true, "A::b0"),
        row("A", "1", false, "A::b0"),
    ];
    assert_eq!(resolve_insert_at(&remaining, 5, &moving, &[]), 4);
}

#[test]
fn a_locked_block_keeps_the_snap_to_its_nearer_edge() {
    let remaining = default_remaining();
    let moving = vec![row("A", "1", false, "A::b0")];
    let locked = vec!["B::b0".to_string()];
    assert_eq!(resolve_insert_at(&remaining, 2, &moving, &locked), 0);
    assert_eq!(resolve_insert_at(&remaining, 3, &moving, &locked), 4);

    let locked = vec!["C::b0".to_string()];
    assert_eq!(resolve_insert_at(&remaining, 2, &moving, &locked), 2);
}

#[test]
fn components_still_join_their_own_mod_anywhere() {
    let remaining = default_remaining();
    let moving = vec![row("B", "9", false, "B::b0")];
    assert_eq!(resolve_insert_at(&remaining, 1, &moving, &[]), 1);
    assert_eq!(resolve_insert_at(&remaining, 2, &moving, &[]), 2);

    let locked = vec!["B::b0".to_string()];
    assert_eq!(resolve_insert_at(&remaining, 1, &moving, &locked), 1);
    assert_eq!(resolve_insert_at(&remaining, 2, &moving, &locked), 2);
}

#[test]
fn edges_and_header_boundaries_are_left_alone() {
    let remaining = default_remaining();
    let moving = vec![row("A", "1", false, "A::b0")];
    assert_eq!(resolve_insert_at(&remaining, 0, &moving, &[]), 0);
    assert_eq!(resolve_insert_at(&remaining, 4, &moving, &[]), 4);
    assert_eq!(resolve_insert_at(&remaining, 6, &moving, &[]), 6);
    assert_eq!(resolve_insert_at(&remaining, 99, &moving, &[]), 6);
    assert_eq!(resolve_insert_at(&remaining, 3, &[], &[]), 3);
}

// The pointer's row is found by the caller from the rows' rectangles: with
// rows 24 pixels high stacked from 0, a pointer at 3 * 24 + 5 is on row 3.

fn six_collapsed_headers() -> Vec<usize> {
    vec![0, 11, 22, 33, 44, 55]
}

fn c_d_e_block() -> Vec<usize> {
    (22..=54).collect()
}

#[test]
fn start_is_clamped_to_valid_range() {
    let n = 10;
    let k = 4;
    assert_eq!(lib::drag::block_start_for(-48, n, k), 0);
    assert_eq!(lib::drag::block_start_for(4160, n, k), n - k);
    assert_eq!(lib::drag::block_start_for(3, n, k), 3);
    assert_eq!(lib::drag::block_start_for(3, 2, k), 0);
}

#[test]
fn grabbing_a_lower_collapsed_header_keeps_the_slab_where_it_is() {
    let visible_rows = six_collapsed_headers();
    let block = c_d_e_block();
    let slot = lib::drag::pointer_row_to_visible_slot(&visible_rows, &block, 33, 3);
    assert_eq!(slot, 2);
}

#[test]
fn one_visible_row_down_moves_the_slab_one_slot() {
    let visible_rows = six_collapsed_headers();
    let block: Vec<usize> = (22..=43).collect();
    let slot = lib::drag::pointer_row_to_visible_slot(&visible_rows, &block, 33, 4);
    assert_eq!(slot, 3);
}

#[test]
fn the_slot_is_clamped_to_the_list() {
    let visible_rows = six_collapsed_headers();
    let block = c_d_e_block();
    let above = lib::drag::pointer_row_to_visible_slot(&visible_rows, &block, 33, 0);
    let below = lib::drag::pointer_row_to_visible_slot(&visible_rows, &block, 33, 5);
    assert_eq!(above, 0);
    assert_eq!(below, 3);
}

#[test]
fn expanded_rows_count_one_each() {
    let visible_rows = vec![0, 1, 2, 3, 4];
    let block = vec![2, 3];
    let slot = lib::drag::pointer_row_to_visible_slot(&visible_rows, &block, 3, 3);
    assert_eq!(slot, 2);
}

#[test]
fn a_visible_slot_maps_to_the_remaining_rows() {
    let remaining = default_remaining();
    let mut items = remaining.clone();
    items.insert(1, row("A", "1", false, "A::b0"));
    let block = vec![1];
    let visible_rows: Vec<usize> = (0..items.len()).collect();
    assert_eq!(lib::drag::visible_slot_to_insert_at(&items, &block, &visible_rows, 0, remaining.len()), 0);
    assert_eq!(lib::drag::visible_slot_to_insert_at(&items, &block, &visible_rows, 2, remaining.len()), 2);
    assert_eq!(lib::drag::visible_slot_to_insert_at(&items, &block, &visible_rows, 99, remaining.len()), remaining.len());
}
