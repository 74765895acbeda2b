use lib::nav::lineage_line_prefix;
use lib::ui_kit::{indent_generations, SelfNode, MAX_INDENT_GENERATIONS};

#[test]
fn indent_caps_for_deep_lineages() {
    let at_cap = indent_generations(6);
    let way_past = indent_generations(40);
    assert_eq!(usize::from(at_cap), MAX_INDENT_GENERATIONS);
    assert_eq!(usize::from(way_past), MAX_INDENT_GENERATIONS);
    assert!(indent_generations(5) < at_cap);
}

#[test]
fn self_node_author_absence_is_representable() {
    let s = SelfNode {
        name: "X",
        author: "",
    };
    assert!(s.author.trim().is_empty());
    assert_eq!(s.name, "X");
}

#[test]
fn lineage_prefix_adds_the_at_sign() {
    assert_eq!(lineage_line_prefix("b2bs"), Some("@b2bs/".to_string()));
}

#[test]
fn lineage_prefix_keeps_an_existing_at_sign() {
    assert_eq!(lineage_line_prefix("@b2bs"), Some("@b2bs/".to_string()));
}

#[test]
fn lineage_prefix_is_absent_for_an_empty_author() {
    assert_eq!(lineage_line_prefix("  "), None);
}
