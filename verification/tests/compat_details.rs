use lib::step2::{details_extra_reason, details_kind, details_shows_status, details_title};

fn some(s: &str) -> Option<String> {
    Some(s.to_string())
}

#[test]
fn the_details_title_carries_the_component_id_once() {
    assert_eq!(details_title(&some("Tweaks"), &some("Mod"), &some(" 12 ")), "#12 Tweaks");
    assert_eq!(details_title(&some("  #12 Tweaks"), &None, &some("12")), "  #12 Tweaks");
    assert_eq!(details_title(&None, &some("Mod"), &some("  ")), "Mod");
    assert_eq!(details_title(&None, &None, &None), "No component selected");
    assert_eq!(details_title(&None, &None, &some("3")), "#3 No component selected");
}

#[test]
fn the_details_kind_falls_back_to_the_issue_then_unknown() {
    let own = some("conflict");
    assert_eq!(details_kind(&own, Some("mismatch")), "conflict");
    assert_eq!(details_kind(&None, Some("mismatch")), "mismatch");
    assert_eq!(details_kind(&None, None), "unknown");
    assert!(details_shows_status(true, "conflict"));
    assert!(!details_shows_status(true, "Included"));
    assert!(!details_shows_status(false, "conflict"));
}

#[test]
fn a_disabled_reason_is_shown_only_when_it_adds_something() {
    assert_eq!(details_extra_reason("  needs EET ", "Conflicts with X"), Some("needs EET".to_string()));
    assert_eq!(details_extra_reason("Unknown", "x"), None);
    assert_eq!(details_extra_reason("   ", "x"), None);
    assert_eq!(details_extra_reason("conflicts with x", " Conflicts with X "), None);
}
