use lib::blocks::{count_children_in_block, prune_empty_parent_blocks};
use lib::items::Step3ItemState;
use lib::merge::merge_adjacent_same_mod_blocks;
use lib::repair::repair_orphan_children;

fn row(mod_name: &str, component_id: &str, is_parent: bool, block_id: &str) -> Step3ItemState {
    Step3ItemState {
        tp_file: format!("{mod_name}.tp2"),
        component_id: component_id.to_string(),
        mod_name: mod_name.to_string(),
        component_label: String::new(),
        raw_line: String::new(),
        prompt_summary: None,
        prompt_events: Vec::new(),
        selected_order: 0,
        block_id: block_id.to_string(),
        is_parent,
        parent_placeholder: is_parent && block_id.contains("::split"),
    }
}

fn assert_every_component_sits_under_its_own_header(items: &[Step3ItemState]) {
    for (idx, item) in items.iter().enumerate() {
        if item.is_parent {
            continue;
        }
        let nearest_parent = items[..idx].iter().rev().find(|i| i.is_parent);
        let parent = nearest_parent
            .unwrap_or_else(|| panic!("component at {idx} has no header above it"));
        assert_eq!(parent.block_id, item.block_id);
        assert_eq!(parent.mod_name, item.mod_name);
    }
}

fn tidy(items: &mut Vec<Step3ItemState>, clone_seq: &mut usize, selected: &mut Vec<usize>) {
    repair_orphan_children(items, clone_seq);
    merge_adjacent_same_mod_blocks(items, selected);
    prune_empty_parent_blocks(items, selected);
}

#[test]
fn the_stranded_lower_half_gets_its_own_split_header() {
    let mut items = vec![
        row("B", "__PARENT__", true, "B::b0"),
        row("B", "1", false, "B::b0"),
        row("A", "__PARENT__", true, "A::b0"),
        row("A", "1", false, "A::b0"),
        row("B", "2", false, "B::b0"),
    ];
    let mut clone_seq = 1usize;
    let mut selected = Vec::new();

    tidy(&mut items, &mut clone_seq, &mut selected);

    assert_eq!(items.len(), 6);
    assert!(items[4].is_parent);
    assert!(items[4].parent_placeholder);
    assert!(items[4].block_id.contains("::split"));
    assert_eq!(items[5].component_id, "2");
    assert_eq!(items[5].block_id, items[4].block_id);
    assert_eq!(items[1].block_id, "B::b0");
    assert_eq!(count_children_in_block(&items, 0), 1);
    assert_eq!(count_children_in_block(&items, 4), 1);
    assert_every_component_sits_under_its_own_header(&items);
}

#[test]
fn loose_intruders_and_the_stranded_half_each_get_a_header() {
    let mut items = vec![
        row("A", "__PARENT__", true, "A::b0"),
        row("A", "9", false, "A::b0"),
        row("B", "__PARENT__", true, "B::b0"),
        row("B", "1", false, "B::b0"),
        row("A", "1", false, "A::b0"),
        row("B", "2", false, "B::b0"),
    ];
    let mut clone_seq = 1usize;
    let mut selected = Vec::new();

    tidy(&mut items, &mut clone_seq, &mut selected);

    assert_every_component_sits_under_its_own_header(&items);
    let a1_block = items
        .iter()
        .find(|i| i.mod_name == "A" && i.component_id == "1")
        .unwrap()
        .block_id
        .clone();
    let b2_block = items
        .iter()
        .find(|i| i.mod_name == "B" && i.component_id == "2")
        .unwrap()
        .block_id
        .clone();
    assert_ne!(a1_block, "A::b0");
    assert_ne!(b2_block, "B::b0");
    assert_ne!(a1_block, b2_block);
    let a1_header = items
        .iter()
        .find(|i| i.is_parent && i.block_id == a1_block)
        .unwrap();
    let b2_header = items
        .iter()
        .find(|i| i.is_parent && i.block_id == b2_block)
        .unwrap();
    assert!(a1_header.parent_placeholder);
    assert!(b2_header.parent_placeholder);
}

#[test]
fn a_stranded_row_adopts_a_same_mod_header_even_across_a_third_mod() {
    let mut items = vec![
        row("A", "__PARENT__", true, "A::b0"),
        row("A", "1", false, "A::b0"),
        row("C", "__PARENT__", true, "C::b0"),
        row("C", "1", false, "C::b0"),
        row("A", "__PARENT__", true, "A::b0::split7"),
        row("A", "2", false, "A::b0::split7"),
        row("A", "3", false, "A::b0"),
    ];
    let mut clone_seq = 1usize;
    let mut selected = Vec::new();

    tidy(&mut items, &mut clone_seq, &mut selected);

    assert_eq!(items.len(), 7);
    let a3 = items
        .iter()
        .find(|i| i.mod_name == "A" && i.component_id == "3")
        .unwrap();
    assert_eq!(a3.block_id, "A::b0::split7");
    assert_every_component_sits_under_its_own_header(&items);
}

#[test]
fn dragging_the_intruder_out_rejoins_the_halves() {
    let mut items = vec![
        row("B", "__PARENT__", true, "B::b0"),
        row("B", "1", false, "B::b0"),
        row("B", "__PARENT__", true, "B::b0::split1"),
        row("B", "2", false, "B::b0::split1"),
        row("A", "__PARENT__", true, "A::b0"),
        row("A", "1", false, "A::b0"),
    ];
    let mut clone_seq = 1usize;
    let mut selected = Vec::new();

    tidy(&mut items, &mut clone_seq, &mut selected);

    assert_eq!(items.len(), 5);
    assert!(items[0].is_parent);
    assert_eq!(items[0].block_id, "B::b0");
    assert_eq!(items[1].component_id, "1");
    assert_eq!(items[1].block_id, "B::b0");
    assert_eq!(items[2].component_id, "2");
    assert_eq!(items[2].block_id, "B::b0");
    assert!(items[3].is_parent);
    assert_eq!(items[3].mod_name, "A");
    assert_eq!(items[4].component_id, "1");
    assert_every_component_sits_under_its_own_header(&items);
}

#[test]
fn a_tidy_list_is_left_exactly_as_it_was() {
    let mut items = vec![
        row("A", "__PARENT__", true, "A::b0"),
        row("A", "1", false, "A::b0"),
        row("A", "2", false, "A::b0"),
        row("B", "__PARENT__", true, "B::b0"),
        row("B", "1", false, "B::b0"),
    ];
    let before = items.clone();
    let mut clone_seq = 1usize;
    let mut selected = Vec::new();

    tidy(&mut items, &mut clone_seq, &mut selected);

    assert_eq!(items, before);
    assert_every_component_sits_under_its_own_header(&items);
}

#[test]
fn repair_keeps_the_components_and_counts_the_headers_it_adds() {
    let original = vec![
        row("A", "__PARENT__", true, "A::b0"),
        row("A", "9", false, "A::b0"),
        row("B", "__PARENT__", true, "B::b0"),
        row("B", "1", false, "B::b0"),
        row("A", "1", false, "A::b0"),
        row("B", "2", false, "B::b0"),
    ];
    let mut items = original.clone();
    let mut clone_seq = 4usize;
    repair_orphan_children(&mut items, &mut clone_seq);
    assert_eq!(clone_seq - 4, items.len() - original.len());
    assert!(items.len() > original.len());
    let components = |v: &[Step3ItemState]| -> Vec<(String, String)> {
        v.iter()
            .filter(|i| !i.is_parent)
            .map(|i| (i.mod_name.clone(), i.component_id.clone()))
            .collect()
    };
    assert_eq!(components(&items), components(&original));
    for added in items.iter().filter(|i| i.parent_placeholder) {
        assert!(added.is_parent);
        assert_eq!(added.selected_order, usize::MAX);
    }
}

#[test]
fn merging_moves_the_selection_up_past_the_removed_header() {
    let mut items = vec![
        row("A", "__PARENT__", true, "A::b0"),
        row("A", "1", false, "A::b0"),
        row("A", "__PARENT__", true, "A::b1"),
        row("A", "2", false, "A::b1"),
        row("B", "__PARENT__", true, "B::b0"),
        row("B", "1", false, "B::b0"),
    ];
    let mut selected = vec![2, 3, 5];
    merge_adjacent_same_mod_blocks(&mut items, &mut selected);
    assert_eq!(items.len(), 5);
    assert_eq!(selected, vec![2, 4]);
    assert!(items.iter().filter(|i| !i.is_parent).all(|i| i.mod_name != "A" || i.block_id == "A::b0"));
}
