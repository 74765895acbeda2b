use lib::game::{normalized_tab, slot_for_tab, GameSlot};
use lib::items::Step3ItemState;
use lib::state::{Step2ModState, WizardState};

#[test]
fn iwdee_step3_tab_normalises_and_reads_the_first_container() {
    let mut state = WizardState::default();
    state.step1.game_install = "IWDEE".to_string();

    state.step3.active_game_tab = "BG2EE".to_string();
    lib::step3::normalize_active_tab(&mut state);
    assert_eq!(state.step3.active_game_tab, "IWDEE");

    state.step3.bgee_items.push(Step3ItemState {
        tp_file: "MOD.TP2".to_string(),
        component_id: "0".to_string(),
        mod_name: "MOD".to_string(),
        component_label: "Component".to_string(),
        raw_line: String::new(),
        prompt_summary: None,
        prompt_events: Vec::new(),
        selected_order: 0,
        block_id: "0".to_string(),
        is_parent: false,
        parent_placeholder: false,
    });
    assert_eq!(slot_for_tab(&state.step3.active_game_tab), GameSlot::First);
    assert_eq!(state.step3.bgee_items.len(), 1);
}

#[test]
fn eet_keeps_either_tab_and_single_games_force_their_own() {
    assert_eq!(normalized_tab("EET", "BG2EE"), "BG2EE");
    assert_eq!(normalized_tab("EET", "BGEE"), "BGEE");
    assert_eq!(normalized_tab("EET", "IWDEE"), "BGEE");
    assert_eq!(normalized_tab("BGEE", "BG2EE"), "BGEE");
    assert_eq!(normalized_tab("BG2EE", "BGEE"), "BG2EE");
    assert_eq!(slot_for_tab("BG2EE"), GameSlot::Second);
}

#[test]
fn step2_tab_normalises_and_the_active_list_follows_it() {
    let mut state = WizardState::default();
    state.step1.game_install = "BG2EE".to_string();
    state.step2.active_game_tab = "BGEE".to_string();
    lib::step2::normalize_active_tab(&mut state);
    assert_eq!(state.step2.active_game_tab, "BG2EE");

    lib::step2::active_mods_mut(&mut state.step2).push(Step2ModState {
        name: "Mod".to_string(),
        ..Default::default()
    });
    assert_eq!(state.step2.bg2ee_mods.len(), 1);
    assert!(state.step2.bgee_mods.is_empty());
}
