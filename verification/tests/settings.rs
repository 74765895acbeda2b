use lib::settings::{
    check_binary, check_path, check_working_folder, debounce_tick, field_role,
    is_game_folder_field, next_debounce_due_in, run_for_field, run_now, validation_report,
    FieldRole, PathFacts, PathStatus, PathStatusTone, SettingsScreenState, SettingsTab,
    DEBOUNCE_MS, FIELD_BG2EE_GAME_FOLDER, FIELD_BGEE_GAME_FOLDER, FIELD_EET_BG2EE_GAME_FOLDER,
    FIELD_EET_BGEE_GAME_FOLDER, FIELD_GLOBAL_MODS_FOLDER, FIELD_MOD_INSTALLER_BINARY,
    FIELD_WEIDU_BINARY, FIELD_WEIDU_LOG_FOLDER,
};
use lib::settings::{keep_queued, mark_dirty, settings_save_step, SettingsSaveStep};
use lib::state::Step1State;

fn game_install_facts(residue_clean: bool) -> PathFacts {
    PathFacts {
        exists: true,
        is_dir: true,
        has_chitin_key: true,
        has_lang_dir: true,
        sod_description: "SoD not found".to_string(),
        residue_clean,
        residue_description: "WeiDU.log present".to_string(),
        ..Default::default()
    }
}

#[test]
fn modded_bgee_folder_reports_modded_status() {
    let status = check_path(FIELD_BGEE_GAME_FOLDER, "C:/Games/BGEE", &game_install_facts(false));
    assert!(matches!(status, PathStatus::Modded { .. }));
    assert_eq!(
        status,
        PathStatus::Modded {
            detail: "WeiDU.log present \u{00B7} SoD not found".to_string()
        }
    );
}

#[test]
fn clean_bgee_folder_reports_ok_with_sod_absent() {
    let status = check_path(FIELD_BGEE_GAME_FOLDER, "C:/Games/BGEE", &game_install_facts(true));
    assert_eq!(
        status,
        PathStatus::Good {
            detail: Some("clean install \u{00B7} SoD not found".to_string())
        }
    );
}

#[test]
fn hidden_eet_fields_never_count_as_issues() {
    let step1 = Step1State {
        eet_bg2ee_game_folder: "/tmp/missing_eet_bg2ee".to_string(),
        weidu_binary: String::new(),
        mod_installer_binary: String::new(),
        ..Step1State::default()
    };
    let facts = vec![PathFacts::default(); 8];
    let report = run_now(&step1, &facts, false);
    assert_eq!(report.issue_count, 0);
    assert!(!report.fields.iter().any(|(f, _)| *f == FIELD_EET_BGEE_GAME_FOLDER));
    assert!(!report.fields.iter().any(|(f, _)| *f == FIELD_EET_BG2EE_GAME_FOLDER));
    assert_eq!(report.fields.len(), 8);
    assert!(report.fields.iter().all(|(_, s)| *s == PathStatus::Empty));
}

#[test]
fn game_folders_without_chitin_or_missing_are_flagged() {
    let missing = PathFacts::default();
    assert_eq!(
        check_path(FIELD_BG2EE_GAME_FOLDER, "X:/nowhere", &missing),
        PathStatus::Error {
            reason: "path does not exist".to_string()
        }
    );
    let file = PathFacts {
        exists: true,
        ..Default::default()
    };
    assert_eq!(
        check_path(FIELD_BG2EE_GAME_FOLDER, "X:/file", &file),
        PathStatus::Error {
            reason: "not a folder".to_string()
        }
    );
    let bare = PathFacts {
        exists: true,
        is_dir: true,
        has_lang_dir: true,
        ..Default::default()
    };
    assert_eq!(
        check_path(FIELD_BGEE_GAME_FOLDER, "X:/dir", &bare),
        PathStatus::Warning {
            reason: "no chitin.key/lang \u{2014} not a recognizable game install".to_string()
        }
    );
    let clean_no_sod = PathFacts {
        sod_description: String::new(),
        ..game_install_facts(true)
    };
    assert_eq!(
        check_path(FIELD_BGEE_GAME_FOLDER, "X:/dir", &clean_no_sod),
        PathStatus::Good {
            detail: Some("clean install".to_string())
        }
    );
}

#[test]
fn working_folders_and_binaries() {
    assert_eq!(
        check_working_folder(&PathFacts::default()),
        PathStatus::Warning {
            reason: "will be created on first install".to_string()
        }
    );
    let game_like = PathFacts {
        exists: true,
        is_dir: true,
        has_chitin_key: true,
        ..Default::default()
    };
    assert_eq!(
        check_working_folder(&game_like),
        PathStatus::Warning {
            reason: "looks like a game install \u{2014} pick an empty folder".to_string()
        }
    );
    let empty_dir = PathFacts {
        exists: true,
        is_dir: true,
        ..Default::default()
    };
    assert_eq!(check_working_folder(&empty_dir), PathStatus::Good { detail: None });

    let absolute_missing = PathFacts {
        is_absolute: true,
        ..Default::default()
    };
    assert_eq!(
        check_binary(&absolute_missing),
        PathStatus::Error {
            reason: "binary not found at that path".to_string()
        }
    );
    let on_path = PathFacts {
        resolved_on_path: Some("/usr/bin/weidu".to_string()),
        ..Default::default()
    };
    assert_eq!(
        check_binary(&on_path),
        PathStatus::Good {
            detail: Some("/usr/bin/weidu".to_string())
        }
    );
    assert_eq!(
        check_binary(&PathFacts::default()),
        PathStatus::Error {
            reason: "not on $PATH \u{2014} install or specify the full path".to_string()
        }
    );
}

#[test]
fn blank_values_are_empty_and_roles_follow_the_field() {
    assert_eq!(check_path(FIELD_WEIDU_BINARY, "  \t", &PathFacts::default()), PathStatus::Empty);
    assert!(matches!(field_role(FIELD_EET_BGEE_GAME_FOLDER), FieldRole::Game));
    assert!(matches!(field_role(FIELD_MOD_INSTALLER_BINARY), FieldRole::Binary));
    assert!(matches!(field_role(FIELD_WEIDU_LOG_FOLDER), FieldRole::Working));
    assert!(matches!(field_role("anything"), FieldRole::Working));
    assert!(is_game_folder_field(FIELD_EET_BG2EE_GAME_FOLDER));
    assert!(!is_game_folder_field(FIELD_GLOBAL_MODS_FOLDER));
}

#[test]
fn run_for_field_reads_the_configured_path() {
    let step1 = Step1State {
        global_mods_folder: "D:/mods".to_string(),
        ..Default::default()
    };
    let exists_dir = PathFacts {
        exists: true,
        is_dir: true,
        ..Default::default()
    };
    assert_eq!(
        run_for_field(&step1, FIELD_GLOBAL_MODS_FOLDER, &exists_dir),
        PathStatus::Good { detail: None }
    );
    assert_eq!(run_for_field(&step1, "unknown_field", &exists_dir), PathStatus::Empty);
    assert_eq!(run_for_field(&step1, FIELD_WEIDU_LOG_FOLDER, &exists_dir), PathStatus::Empty);
}

#[test]
fn hints_and_tones_of_each_status() {
    assert_eq!(PathStatus::Empty.hint_text(), "");
    assert_eq!(PathStatus::Good { detail: None }.hint_text(), "ok");
    assert_eq!(
        PathStatus::Good {
            detail: Some("x".to_string())
        }
        .hint_text(),
        "ok \u{00B7} x"
    );
    assert_eq!(
        PathStatus::Modded {
            detail: "d".to_string()
        }
        .hint_text(),
        "! modded \u{00B7} d"
    );
    assert_eq!(
        PathStatus::Warning {
            reason: "r".to_string()
        }
        .hint_text(),
        "! r"
    );
    assert_eq!(
        PathStatus::Error {
            reason: "e".to_string()
        }
        .hint_text(),
        "\u{00D7} e"
    );
    assert_eq!(PathStatus::Empty.tone(), PathStatusTone::Neutral);
    assert_eq!(
        PathStatus::Modded {
            detail: String::new()
        }
        .tone(),
        PathStatusTone::Warning
    );
    assert_eq!(
        PathStatus::Error {
            reason: String::new()
        }
        .tone(),
        PathStatusTone::Error
    );
}

#[test]
fn reports_count_warnings_and_errors() {
    let report = validation_report(
        vec![
            (FIELD_BGEE_GAME_FOLDER, PathStatus::Empty),
            (
                FIELD_WEIDU_BINARY,
                PathStatus::Error {
                    reason: "x".to_string(),
                },
            ),
            (
                FIELD_GLOBAL_MODS_FOLDER,
                PathStatus::Modded {
                    detail: "y".to_string(),
                },
            ),
            (
                FIELD_MOD_INSTALLER_BINARY,
                PathStatus::Warning {
                    reason: "z".to_string(),
                },
            ),
        ],
        true,
    );
    assert_eq!(report.issue_count, 2);
    assert!(report.overall_ok);
    assert_eq!(report.fields.len(), 4);
}

#[test]
fn tabs_and_screen_defaults() {
    assert_eq!(SettingsTab::all().len(), 5);
    assert_eq!(SettingsTab::all()[3].label(), "Accounts");
    assert_eq!(SettingsTab::default(), SettingsTab::General);
    let screen = SettingsScreenState::default();
    assert_eq!(screen.active_tab, SettingsTab::General);
    assert!(screen.path_edit_debounce.is_empty());
    assert_eq!(screen.path_validation_results.issue_count, 0);
    assert!(!screen.nexus_dialog.open);
}

#[test]
fn a_settled_game_folder_edit_invalidates_the_source_probes() {
    let edits = vec![(FIELD_BGEE_GAME_FOLDER, DEBOUNCE_MS * 10)];
    let tick = debounce_tick(&edits);
    assert!(tick.due);
    assert!(tick.game_folder_due);
    assert!(tick.still_pending.is_empty());
}

#[test]
fn a_settled_edit_to_another_path_keeps_the_source_probes() {
    let edits = vec![
        (FIELD_GLOBAL_MODS_FOLDER, DEBOUNCE_MS * 10),
        (FIELD_BGEE_GAME_FOLDER, DEBOUNCE_MS - 1),
    ];
    let tick = debounce_tick(&edits);
    assert!(tick.due);
    assert!(!tick.game_folder_due);
    assert_eq!(tick.still_pending, vec![1]);

    let quiet = debounce_tick(&vec![(FIELD_BGEE_GAME_FOLDER, 5)]);
    assert!(!quiet.due);
    assert_eq!(quiet.still_pending, vec![0]);
}

#[test]
fn the_next_due_time_is_the_least_remaining_wait() {
    assert_eq!(next_debounce_due_in(&vec![]), None);
    assert_eq!(next_debounce_due_in(&vec![50, 150]), Some(50));
    assert_eq!(next_debounce_due_in(&vec![10, 500]), Some(0));
}

#[test]
fn changed_settings_are_saved_after_a_second_unchanged_ones_clear_the_timer() {
    assert_eq!(settings_save_step(false, Some(5000)), SettingsSaveStep::ClearTimer);
    assert_eq!(settings_save_step(false, None), SettingsSaveStep::ClearTimer);
    assert_eq!(settings_save_step(true, None), SettingsSaveStep::StartTimer);
    assert_eq!(settings_save_step(true, Some(999)), SettingsSaveStep::Wait);
    assert_eq!(settings_save_step(true, Some(1000)), SettingsSaveStep::Save);
}

#[test]
fn an_edit_refreshes_its_field_once_in_the_debounce_queue() {
    let mut queue: Vec<(&'static str, u64)> = Vec::new();
    mark_dirty(&mut queue, FIELD_WEIDU_BINARY, 1);
    mark_dirty(&mut queue, FIELD_BGEE_GAME_FOLDER, 2);
    mark_dirty(&mut queue, FIELD_WEIDU_BINARY, 3);
    assert_eq!(queue, vec![(FIELD_WEIDU_BINARY, 3), (FIELD_BGEE_GAME_FOLDER, 2)]);
    keep_queued(&mut queue, &vec![1]);
    assert_eq!(queue, vec![(FIELD_BGEE_GAME_FOLDER, 2)]);
}
