use std::collections::HashSet;

use lib::items::{step3_item_key, Step3ItemState};
use lib::move_selection::{
    move_selection, moving_set, rebuild_items, MoveSelectionContext, MoveSelectionOutcome,
    MoveSelectionTarget,
};
fn parent(mod_name: &str, block_id: &str) -> Step3ItemState {
    Step3ItemState {
        tp_file: format!("{mod_name}.tp2"),
        component_id: "__PARENT__".to_string(),
        mod_name: mod_name.to_string(),
        component_label: String::new(),
        raw_line: String::new(),
        prompt_summary: None,
        prompt_events: Vec::new(),
        selected_order: usize::MAX,
        block_id: block_id.to_string(),
        is_parent: true,
        parent_placeholder: false,
    }
}

fn child(
    mod_name: &str,
    block_id: &str,
    component_id: &str,
    selected_order: usize,
) -> Step3ItemState {
    Step3ItemState {
        tp_file: format!("{mod_name}.tp2"),
        component_id: component_id.to_string(),
        mod_name: mod_name.to_string(),
        component_label: format!("Component {component_id}"),
        raw_line: String::new(),
        prompt_summary: None,
        prompt_events: Vec::new(),
        selected_order,
        block_id: block_id.to_string(),
        is_parent: false,
        parent_placeholder: false,
    }
}

fn run(
    items: &mut Vec<Step3ItemState>,
    selected: &mut Vec<usize>,
    locked_blocks: &[String],
    clicked_idx: usize,
    target: MoveSelectionTarget,
) -> (
    MoveSelectionOutcome,
    Vec<Vec<Step3ItemState>>,
    Vec<Vec<Step3ItemState>>,
) {
    let mut anchor: Option<usize> = None;
    let mut clone_seq = 0usize;
    let mut undo_stack: Vec<Vec<Step3ItemState>> = Vec::new();
    let mut redo_stack: Vec<Vec<Step3ItemState>> = Vec::new();
    let outcome = {
        let mut ctx = MoveSelectionContext {
            items,
            selected,
            anchor: &mut anchor,
            clone_seq: &mut clone_seq,
            locked_blocks,
            undo_stack: &mut undo_stack,
            redo_stack: &mut redo_stack,
        };
        move_selection(&mut ctx, clicked_idx, target)
    };
    (outcome, undo_stack, redo_stack)
}

#[test]
fn whole_block_moves_to_top_with_its_children() {
    let mut items = vec![
        parent("A", "A::b0"),
        child("A", "A::b0", "1", 1),
        parent("B", "B::b0"),
        child("B", "B::b0", "1", 2),
    ];
    let mut selected = vec![2, 3];
    let (outcome, ..) = run(&mut items, &mut selected, &[], 2, MoveSelectionTarget::Top);
    assert_eq!(outcome, MoveSelectionOutcome::Moved);
    assert_eq!(items[0].mod_name, "B");
    assert_eq!(items[1].mod_name, "B");
    assert_eq!(items[2].mod_name, "A");
    assert_eq!(items[3].mod_name, "A");
}

#[test]
fn whole_block_moves_to_bottom_with_its_children() {
    let mut items = vec![
        parent("A", "A::b0"),
        child("A", "A::b0", "1", 1),
        parent("B", "B::b0"),
        child("B", "B::b0", "1", 2),
    ];
    let mut selected = vec![0, 1];
    let (outcome, ..) = run(
        &mut items,
        &mut selected,
        &[],
        0,
        MoveSelectionTarget::Bottom,
    );
    assert_eq!(outcome, MoveSelectionOutcome::Moved);
    assert_eq!(items[0].mod_name, "B");
    assert_eq!(items[1].mod_name, "B");
    assert_eq!(items[2].mod_name, "A");
    assert_eq!(items[3].mod_name, "A");
}

#[test]
fn selected_children_move_to_top_under_a_split_parent() {
    let mut items = vec![
        parent("A", "A::b0"),
        child("A", "A::b0", "1", 1),
        parent("B", "B::b0"),
        child("B", "B::b0", "1", 2),
        child("B", "B::b0", "2", 3),
        child("B", "B::b0", "3", 4),
    ];
    let mut selected = vec![3, 4];
    let (outcome, ..) = run(&mut items, &mut selected, &[], 3, MoveSelectionTarget::Top);
    assert_eq!(outcome, MoveSelectionOutcome::Moved);
    assert!(items[0].is_parent);
    assert_eq!(items[0].mod_name, "B");
    assert!(items[0].block_id.contains("::split"));
    assert!(items[0].parent_placeholder);
    assert!(!items[1].is_parent);
    assert_eq!(items[1].component_id, "1");
    assert!(!items[2].is_parent);
    assert_eq!(items[2].component_id, "2");
    let remaining_block: Vec<&Step3ItemState> = items
        .iter()
        .filter(|item| !item.is_parent && item.mod_name == "B" && item.component_id == "3")
        .collect();
    assert_eq!(remaining_block.len(), 1);
    assert_eq!(remaining_block[0].block_id, "B::b0");
}

#[test]
fn every_child_selected_takes_the_parent_along() {
    let mut items = vec![
        parent("A", "A::b0"),
        child("A", "A::b0", "1", 1),
        parent("B", "B::b0"),
        child("B", "B::b0", "1", 2),
        child("B", "B::b0", "2", 3),
    ];
    let mut selected = vec![3, 4];
    let (outcome, ..) = run(&mut items, &mut selected, &[], 3, MoveSelectionTarget::Top);
    assert_eq!(outcome, MoveSelectionOutcome::Moved);
    assert!(items[0].is_parent);
    assert!(!items[0].parent_placeholder);
    assert_eq!(items[0].mod_name, "B");
    assert_eq!(
        items
            .iter()
            .filter(|item| item.is_parent && item.mod_name == "B")
            .count(),
        1
    );
    assert!(
        !items
            .iter()
            .any(|item| item.is_parent && item.parent_placeholder && item.mod_name == "B")
    );
}

#[test]
fn child_of_the_last_block_moved_to_bottom_stays_in_its_block() {
    let mut items = vec![
        parent("A", "A::b0"),
        child("A", "A::b0", "1", 1),
        parent("B", "B::b0"),
        child("B", "B::b0", "1", 2),
        child("B", "B::b0", "2", 3),
    ];
    let mut selected = vec![3];
    let (outcome, ..) = run(
        &mut items,
        &mut selected,
        &[],
        3,
        MoveSelectionTarget::Bottom,
    );
    assert_eq!(outcome, MoveSelectionOutcome::Moved);
    assert_eq!(items.len(), 5);
    assert!(items[2].is_parent);
    assert_eq!(items[2].mod_name, "B");
    assert_eq!(items[3].component_id, "2");
    assert_eq!(items[4].component_id, "1");
    assert_eq!(items[3].block_id, items[4].block_id);
    assert_eq!(items[3].block_id, "B::b0");
}

#[test]
fn relative_order_follows_the_list_not_the_click_order() {
    let mut items = vec![
        parent("A", "A::b0"),
        child("A", "A::b0", "1", 1),
        child("A", "A::b0", "2", 2),
        parent("C", "C::b0"),
        child("C", "C::b0", "1", 3),
        child("C", "C::b0", "2", 4),
    ];
    let mut selected = vec![4, 1];
    let (outcome, ..) = run(&mut items, &mut selected, &[], 4, MoveSelectionTarget::Top);
    assert_eq!(outcome, MoveSelectionOutcome::Moved);
    let a_pos = items
        .iter()
        .position(|item| item.mod_name == "A" && !item.is_parent)
        .unwrap();
    let c_pos = items
        .iter()
        .position(|item| item.mod_name == "C" && !item.is_parent)
        .unwrap();
    assert!(a_pos < c_pos);
}

#[test]
fn locked_block_refuses_the_whole_move() {
    let mut items = vec![
        parent("A", "A::b0"),
        child("A", "A::b0", "1", 1),
        parent("B", "B::b0"),
        child("B", "B::b0", "1", 2),
    ];
    let before = items.clone();
    let mut selected = vec![1, 3];
    let (outcome, undo_stack, _) = run(
        &mut items,
        &mut selected,
        &["A::b0".to_string()],
        1,
        MoveSelectionTarget::Top,
    );
    assert_eq!(outcome, MoveSelectionOutcome::RefusedLocked);
    assert_eq!(items, before);
    assert!(undo_stack.is_empty());
}

#[test]
fn row_outside_the_selection_moves_alone() {
    let mut items = vec![
        parent("A", "A::b0"),
        child("A", "A::b0", "1", 1),
        parent("B", "B::b0"),
        child("B", "B::b0", "1", 2),
        child("B", "B::b0", "2", 3),
        child("B", "B::b0", "3", 4),
    ];
    let mut selected = vec![1];
    let (outcome, ..) = run(
        &mut items,
        &mut selected,
        &[],
        3,
        MoveSelectionTarget::Bottom,
    );
    assert_eq!(outcome, MoveSelectionOutcome::Moved);
    assert_eq!(selected, vec![5]);
    assert_eq!(items[5].component_id, "1");
}

#[test]
fn already_at_the_top_is_nothing_to_move() {
    let mut items = vec![
        parent("A", "A::b0"),
        child("A", "A::b0", "1", 1),
        parent("B", "B::b0"),
        child("B", "B::b0", "1", 2),
    ];
    let mut selected = vec![0, 1];
    let (outcome, undo_stack, _) =
        run(&mut items, &mut selected, &[], 0, MoveSelectionTarget::Top);
    assert_eq!(outcome, MoveSelectionOutcome::NothingToMove);
    assert!(undo_stack.is_empty());

    let mut items2 = vec![
        parent("A", "A::b0"),
        child("A", "A::b0", "1", 1),
        parent("B", "B::b0"),
        child("B", "B::b0", "1", 2),
    ];
    let mut selected2 = vec![2, 3];
    let (outcome2, undo_stack2, _) = run(
        &mut items2,
        &mut selected2,
        &[],
        2,
        MoveSelectionTarget::Bottom,
    );
    assert_eq!(outcome2, MoveSelectionOutcome::NothingToMove);
    assert!(undo_stack2.is_empty());
}

#[test]
fn one_undo_snapshot_per_move() {
    let mut items = vec![
        parent("A", "A::b0"),
        child("A", "A::b0", "1", 1),
        parent("B", "B::b0"),
        child("B", "B::b0", "1", 2),
    ];
    let before = items.clone();
    let mut selected = vec![2, 3];
    let mut anchor: Option<usize> = None;
    let mut clone_seq = 0usize;
    let mut undo_stack: Vec<Vec<Step3ItemState>> = Vec::new();
    let mut redo_stack: Vec<Vec<Step3ItemState>> = vec![before.clone()];
    let outcome = {
        let mut ctx = MoveSelectionContext {
            items: &mut items,
            selected: &mut selected,
            anchor: &mut anchor,
            clone_seq: &mut clone_seq,
            locked_blocks: &[],
            undo_stack: &mut undo_stack,
            redo_stack: &mut redo_stack,
        };
        move_selection(&mut ctx, 2, MoveSelectionTarget::Top)
    };
    assert_eq!(outcome, MoveSelectionOutcome::Moved);
    assert_eq!(undo_stack.len(), 1);
    assert_eq!(undo_stack[0], before);
    assert!(redo_stack.is_empty());
}

#[test]
fn moved_rows_stay_selected() {
    let mut items = vec![
        parent("A", "A::b0"),
        child("A", "A::b0", "1", 1),
        parent("B", "B::b0"),
        child("B", "B::b0", "1", 2),
        child("B", "B::b0", "2", 3),
        child("B", "B::b0", "3", 4),
    ];
    let mut selected = vec![3, 4];
    let (outcome, ..) = run(&mut items, &mut selected, &[], 3, MoveSelectionTarget::Top);
    assert_eq!(outcome, MoveSelectionOutcome::Moved);
    let moved_keys: HashSet<String> = vec![
        step3_item_key(&child("B", "B::b0", "1", 2)),
        step3_item_key(&child("B", "B::b0", "2", 3)),
    ]
    .into_iter()
    .collect();
    assert_eq!(selected.len(), 2);
    for idx in &selected {
        let item = &items[*idx];
        assert!(!item.is_parent);
        assert!(moved_keys.contains(&step3_item_key(item)));
    }
}

#[test]
fn grabbing_the_header_of_a_fully_selected_mod_carries_the_whole_selection() {
    let items = vec![
        parent("A", "A::b0"),
        child("A", "A::b0", "1", 1),
        child("A", "A::b0", "2", 2),
        parent("B", "B::b0"),
        child("B", "B::b0", "1", 3),
        parent("C", "C::b0"),
        child("C", "C::b0", "1", 4),
        child("C", "C::b0", "2", 5),
    ];
    let components_only = vec![2, 4, 6, 7];

    assert_eq!(
        moving_set(&items, &components_only, 3),
        vec![2, 3, 4, 5, 6, 7]
    );
    assert_eq!(moving_set(&items, &components_only, 0), vec![0, 1, 2]);
}

#[test]
fn rebuilding_for_a_move_keeps_every_row() {
    let original = vec![
        parent("A", "A::b0"),
        child("A", "A::b0", "1", 1),
        parent("B", "B::b0"),
        child("B", "B::b0", "1", 2),
        child("B", "B::b0", "2", 3),
    ];
    for target in [MoveSelectionTarget::Top, MoveSelectionTarget::Bottom] {
        let mut items = original.clone();
        rebuild_items(&mut items, &vec![3, 1], target);
        let mut after: Vec<String> = items.iter().map(step3_item_key).collect();
        let mut before: Vec<String> = original.iter().map(step3_item_key).collect();
        after.sort();
        before.sort();
        assert_eq!(after, before);
    }
    let mut items = original.clone();
    rebuild_items(&mut items, &vec![3, 1], MoveSelectionTarget::Top);
    assert_eq!(items[0], original[1]);
    assert_eq!(items[1], original[3]);
}
