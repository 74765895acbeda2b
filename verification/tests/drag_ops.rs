use lib::drag_ops::{apply_live_reorder, finalize_on_release, DragFinalizeContext, LiveReorderContext};
use lib::items::Step3ItemState;

fn row(mod_name: &str, component_id: &str, is_parent: bool) -> Step3ItemState {
    Step3ItemState {
        tp_file: format!("{mod_name}.tp2"),
        component_id: component_id.to_string(),
        mod_name: mod_name.to_string(),
        component_label: String::new(),
        raw_line: String::new(),
        prompt_summary: None,
        prompt_events: Vec::new(),
        selected_order: 0,
        block_id: format!("{mod_name}::block0"),
        is_parent,
        parent_placeholder: false,
    }
}

fn two_mods() -> Vec<Step3ItemState> {
    vec![
        row("A", "__PARENT__", true),
        row("A", "1", false),
        row("A", "2", false),
        row("B", "__PARENT__", true),
        row("B", "1", false),
    ]
}

/// A release with no drag under way.
fn selection_after_a_click_release(items: &mut Vec<Step3ItemState>, selected: &mut Vec<usize>) -> bool {
    let mut drag_from = None;
    let mut drag_over = None;
    let mut drag_indices = Vec::new();
    let mut drag_grab_pos_in_block = 0;
    let mut last_insert_at = None;
    let mut clone_seq = 0;
    let mut ctx = DragFinalizeContext {
        items,
        selected,
        drag_from: &mut drag_from,
        drag_over: &mut drag_over,
        drag_indices: &mut drag_indices,
        drag_grab_pos_in_block: &mut drag_grab_pos_in_block,
        last_insert_at: &mut last_insert_at,
        clone_seq: &mut clone_seq,
    };
    finalize_on_release(&mut ctx)
}

fn assert_every_component_sits_under_its_own_header(items: &[Step3ItemState]) {
    for (idx, item) in items.iter().enumerate() {
        if item.is_parent {
            continue;
        }
        let parent = items[..idx]
            .iter()
            .rev()
            .find(|i| i.is_parent)
            .unwrap_or_else(|| panic!("component at {idx} has no header above it"));
        assert_eq!(parent.block_id, item.block_id);
        assert_eq!(parent.mod_name, item.mod_name);
    }
}

#[test]
fn a_click_release_keeps_selected_headers_selected() {
    let mut items = two_mods();
    let mut selected = vec![0, 1, 2, 3, 4];
    assert!(!selection_after_a_click_release(&mut items, &mut selected));
    assert_eq!(selected, vec![0, 1, 2, 3, 4]);
}

#[test]
fn a_click_release_keeps_a_components_only_selection_as_it_was() {
    let mut items = two_mods();
    let mut selected = vec![2, 4];
    selection_after_a_click_release(&mut items, &mut selected);
    assert_eq!(selected, vec![2, 4]);
}

#[test]
fn a_click_release_keeps_a_header_only_selection() {
    let mut items = two_mods();
    let mut selected = vec![3];
    selection_after_a_click_release(&mut items, &mut selected);
    assert_eq!(selected, vec![3]);
}

#[test]
fn a_release_gives_the_stranded_half_its_own_split_header() {
    let mut items = vec![
        row("B", "__PARENT__", true),
        row("B", "1", false),
        row("A", "__PARENT__", true),
        row("A", "1", false),
        row("B", "2", false),
    ];
    let mut selected = vec![2, 3];
    selection_after_a_click_release(&mut items, &mut selected);
    assert_eq!(items.len(), 6);
    assert!(items[4].is_parent);
    assert!(items[4].parent_placeholder);
    assert_eq!(items[4].mod_name, "B");
    assert_eq!(selected, vec![2, 3]);
    assert_every_component_sits_under_its_own_header(&items);
}

#[test]
fn a_header_released_with_some_components_leaves_the_rest_a_split_header() {
    let mut items = vec![
        row("B", "__PARENT__", true),
        row("B", "1", false),
        row("A", "__PARENT__", true),
        row("A", "1", false),
        row("B", "2", false),
        row("B", "3", false),
    ];
    let mut selected = vec![0, 1];
    selection_after_a_click_release(&mut items, &mut selected);
    assert_every_component_sits_under_its_own_header(&items);
    assert_eq!(selected, vec![0, 1]);
    assert!(items[0].is_parent);
    assert!(!items[0].parent_placeholder);
    let placeholder = items
        .iter()
        .find(|item| item.is_parent && item.parent_placeholder)
        .expect("the left-behind components get a split header");
    assert_eq!(placeholder.mod_name, "B");
}

#[test]
fn a_release_after_a_drag_clears_the_drag_state() {
    let mut items = two_mods();
    let mut selected = vec![1];
    let mut drag_from = Some(1);
    let mut drag_over = Some(3);
    let mut drag_indices = vec![1];
    let mut drag_grab_pos_in_block = 0;
    let mut last_insert_at = Some(2);
    let mut clone_seq = 0;
    let mut ctx = DragFinalizeContext {
        items: &mut items,
        selected: &mut selected,
        drag_from: &mut drag_from,
        drag_over: &mut drag_over,
        drag_indices: &mut drag_indices,
        drag_grab_pos_in_block: &mut drag_grab_pos_in_block,
        last_insert_at: &mut last_insert_at,
        clone_seq: &mut clone_seq,
    };
    assert!(finalize_on_release(&mut ctx));
    assert!(drag_from.is_none() && drag_over.is_none() && last_insert_at.is_none());
    assert!(drag_indices.is_empty());
    assert_eq!(selected, vec![1]);
}

fn reorder(
    items: &mut Vec<Step3ItemState>,
    selected: &mut Vec<usize>,
    drag_indices: &mut Vec<usize>,
    mut drag_from: Option<usize>,
    drag_over: Option<usize>,
    locked_blocks: &[String],
    visible_rows: &[usize],
) -> (Option<usize>, Option<usize>) {
    let mut last_insert_at = None;
    let mut ctx = LiveReorderContext {
        items,
        selected,
        drag_from: &mut drag_from,
        drag_over,
        drag_indices,
        drag_grab_pos_in_block: 0,
        last_insert_at: &mut last_insert_at,
        locked_blocks,
        visible_rows,
    };
    apply_live_reorder(&mut ctx);
    (drag_from, last_insert_at)
}

#[test]
fn a_live_reorder_lands_a_foreign_mod_between_two_components() {
    let base_items = || {
        vec![
            row("A", "__PARENT__", true),
            row("A", "1", false),
            row("B", "__PARENT__", true),
            row("B", "1", false),
            row("B", "2", false),
        ]
    };
    let visible_rows: Vec<usize> = (0..5).collect();

    let mut items = base_items();
    let mut selected = Vec::new();
    let mut drag_indices = vec![0, 1];
    let (drag_from, last) = reorder(&mut items, &mut selected, &mut drag_indices, Some(0), Some(2), &[], &visible_rows);
    assert_eq!(
        items.iter().map(|i| i.mod_name.clone()).collect::<Vec<_>>(),
        vec!["B", "B", "A", "A", "B"]
    );
    assert_eq!(selected, vec![2, 3]);
    assert_eq!(drag_indices, vec![2, 3]);
    assert_eq!(drag_from, Some(2));
    assert_eq!(last, Some(2));

    let mut items = base_items();
    let mut selected = Vec::new();
    let mut drag_indices = vec![0, 1];
    let locked_blocks = vec!["B::block0".to_string()];
    reorder(&mut items, &mut selected, &mut drag_indices, Some(0), Some(2), &locked_blocks, &visible_rows);
    assert_eq!(
        items.iter().map(|i| i.mod_name.clone()).collect::<Vec<_>>(),
        vec!["B", "B", "B", "A", "A"]
    );
}

#[test]
fn a_reorder_into_a_locked_block_or_without_a_drag_does_nothing() {
    let visible_rows: Vec<usize> = (0..5).collect();
    let mut items = two_mods();
    let before = items.clone();
    let mut selected = vec![4];
    let mut drag_indices = vec![4];
    let locked = vec!["B::block0".to_string()];
    let (_, last) = reorder(&mut items, &mut selected, &mut drag_indices, Some(4), Some(0), &locked, &visible_rows);
    assert_eq!(items, before);
    assert_eq!(last, None);

    let (_, last) = reorder(&mut items, &mut selected, &mut drag_indices, None, Some(0), &[], &visible_rows);
    assert_eq!(items, before);
    assert_eq!(last, None);
}

#[test]
fn a_live_reorder_keeps_every_row_once() {
    let visible_rows: Vec<usize> = (0..5).collect();
    for slot in 0..6 {
        let mut items = two_mods();
        let mut selected = Vec::new();
        let mut drag_indices = vec![3, 4];
        reorder(&mut items, &mut selected, &mut drag_indices, Some(3), Some(slot), &[], &visible_rows);
        let key = |i: &Step3ItemState| (i.mod_name.clone(), i.component_id.clone());
        let mut after: Vec<_> = items.iter().map(key).collect();
        let mut before: Vec<_> = two_mods().iter().map(key).collect();
        after.sort();
        before.sort();
        assert_eq!(after, before);
    }
}
