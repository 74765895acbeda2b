use lib::blocks::{block_indices, count_children_in_block, remove_row_and_fix_selection, visible_indices};
use lib::history::push_undo_snapshot;
use lib::items::{step3_item_key, Step3ItemState};
use lib::lines::{join, push_count_line, push_line, push_progress_line};
use lib::row_selection::{
    active_history_status, parent_row_title, reselect_after_cleanup, sorted_dedup,
    update_locked_blocks,
};
use lib::state::{Step2ComponentState, Step2ModState, WizardState};
use lib::uncheck::{apply_component_unchecks, remove_component_from_step3_items, uncheck_component_in_step2};

fn row(mod_name: &str, component_id: &str, is_parent: bool, block_id: &str) -> Step3ItemState {
    Step3ItemState {
        tp_file: format!("{mod_name}.tp2"),
        component_id: component_id.to_string(),
        mod_name: mod_name.to_string(),
        component_label: String::new(),
        raw_line: String::new(),
        prompt_summary: None,
        prompt_events: Vec::new(),
        selected_order: 0,
        block_id: block_id.to_string(),
        is_parent,
        parent_placeholder: false,
    }
}

fn two_mods() -> Vec<Step3ItemState> {
    vec![
        row("A", "__PARENT__", true, "A::b0"),
        row("A", "1", false, "A::b0"),
        row("A", "2", false, "A::b0"),
        row("B", "__PARENT__", true, "B::b0"),
        row("B", "1", false, "B::b0"),
    ]
}

#[test]
fn collapsed_blocks_hide_their_components_only() {
    let items = two_mods();
    assert_eq!(visible_indices(&items, &[]), vec![0, 1, 2, 3, 4]);
    assert_eq!(visible_indices(&items, &["A::b0".to_string()]), vec![0, 3, 4]);
    assert_eq!(count_children_in_block(&items, 0), 2);
    assert_eq!(count_children_in_block(&items, 3), 1);
    assert_eq!(block_indices(&items, 0), vec![0, 1, 2]);
    assert_eq!(block_indices(&items, 4), vec![3, 4]);
}

#[test]
fn removing_a_row_keeps_the_selection_on_the_same_rows() {
    let mut items = two_mods();
    let mut selected = vec![0, 2, 4];
    remove_row_and_fix_selection(&mut items, &mut selected, 1);
    assert_eq!(items.len(), 4);
    assert_eq!(selected, vec![0, 1, 3]);
    remove_row_and_fix_selection(&mut items, &mut selected, 1);
    assert_eq!(selected, vec![0, 2]);
}

#[test]
fn an_undo_snapshot_copies_the_list_and_clears_redo() {
    let items = two_mods();
    let mut undo: Vec<Vec<Step3ItemState>> = vec![Vec::new()];
    let mut redo: Vec<Vec<Step3ItemState>> = vec![Vec::new(), Vec::new()];
    push_undo_snapshot(&items, &mut undo, &mut redo);
    assert_eq!(undo.len(), 2);
    assert_eq!(undo[1], items);
    assert!(redo.is_empty());
}

#[test]
fn item_keys_join_the_identity_fields() {
    let key = step3_item_key(&row("A", "7", false, "A::b0"));
    assert!(key.contains("A.tp2"));
    assert!(key.contains('7'));
    assert_ne!(key, step3_item_key(&row("A", "8", false, "A::b0")));
}

#[test]
fn report_lines_join_with_newlines() {
    let mut lines: Vec<String> = Vec::new();
    push_line(&mut lines, "Title");
    push_count_line(&mut lines, "Missing mods: ", 12);
    push_progress_line(&mut lines, "Checking ", 3, 40);
    assert_eq!(join(&lines), "Title\nMissing mods: 12\nChecking 3/40");
    assert_eq!(join(&Vec::new()), "");
}

#[test]
fn locking_toggles_the_block_in_the_list() {
    let mut locked = vec!["X".to_string(), "A::b0".to_string(), "A::b0".to_string()];
    let mut is_locked = true;
    update_locked_blocks(&mut locked, "A::b0", &mut is_locked);
    assert_eq!(locked, vec!["X".to_string()]);
    assert!(!is_locked);
    update_locked_blocks(&mut locked, "B::b0", &mut is_locked);
    assert_eq!(locked, vec!["X".to_string(), "B::b0".to_string()]);
    assert!(is_locked);
}

#[test]
fn header_titles_show_counts_placeholders_and_locks() {
    assert_eq!(parent_row_title("Mod", false, 3, false), "Mod (3)");
    assert_eq!(parent_row_title("Mod", true, 3, false), "Mod (split target)");
    assert_eq!(parent_row_title("Mod", false, 0, true), "Mod (0) [locked]");
}

#[test]
fn sorted_dedup_orders_and_removes_repeats() {
    assert_eq!(sorted_dedup(&vec![5, 1, 5, 3, 1]), vec![1, 3, 5]);
    assert_eq!(sorted_dedup(&vec![]), Vec::<usize>::new());
}

#[test]
fn history_status_follows_the_active_tab() {
    let mut state = WizardState::default();
    state.step3.active_game_tab = "BGEE".to_string();
    state.step3.bgee_undo_stack.push(Vec::new());
    assert_eq!(active_history_status(&state), (true, false));
    state.step3.active_game_tab = "BG2EE".to_string();
    state.step3.bg2ee_redo_stack.push(Vec::new());
    assert_eq!(active_history_status(&state), (false, true));
}

#[test]
fn reselecting_finds_headers_by_block_and_components_by_key() {
    let items = two_mods();
    let keys = vec![step3_item_key(&items[4])];
    let headers = vec!["A::b0".to_string()];
    assert_eq!(reselect_after_cleanup(&items, &keys, &headers), vec![0, 4]);
}

fn component(id: &str, checked: bool) -> Step2ComponentState {
    Step2ComponentState {
        component_id: id.to_string(),
        label: String::new(),
        checked,
        selected_order: if checked { Some(1) } else { None },
    }
}

#[test]
fn unticking_the_last_component_unticks_its_mod() {
    let mut mods = vec![Step2ModState {
        name: "A".to_string(),
        tp_file: "A.TP2".to_string(),
        checked: true,
        update_locked: false,
        components: vec![component("1", true), component("2", false)],
    }];
    uncheck_component_in_step2(&mut mods, " a.tp2 ", " 1 ");
    assert!(!mods[0].components[0].checked);
    assert_eq!(mods[0].components[0].selected_order, None);
    assert!(!mods[0].checked);
}

#[test]
fn removing_a_blocks_last_component_takes_its_header_too() {
    let mut items = two_mods();
    let mut selected = vec![4];
    remove_component_from_step3_items(&mut items, &mut selected, "b.tp2", "1");
    assert_eq!(items.len(), 3);
    assert!(selected.is_empty());
    remove_component_from_step3_items(&mut items, &mut selected, "A.tp2", "1");
    assert_eq!(items.len(), 2);
    assert_eq!(items[0].block_id, "A::b0");
}

#[test]
fn unchecks_apply_to_the_slot_of_the_tab_only() {
    let mut state = WizardState::default();
    state.step3.bgee_items = two_mods();
    state.step3.bg2ee_items = two_mods();
    let requests = vec![("A.tp2".to_string(), "2".to_string())];
    apply_component_unchecks(&mut state, "BG2EE", &requests);
    assert_eq!(state.step3.bg2ee_items.len(), 4);
    assert_eq!(state.step3.bgee_items.len(), 5);
}
