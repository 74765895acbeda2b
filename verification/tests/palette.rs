use lib::palette::{
    redesign_accent_comment,
    redesign_accent_hover,
    redesign_accent_numbers,
    redesign_accent_path,
    redesign_conditional,
    redesign_conditional_fill,
    redesign_conflict,
    redesign_conflict_fill,
    redesign_conflict_parent,
    redesign_dot,
    redesign_error,
    redesign_error_emphasis,
    redesign_game_mismatch,
    redesign_game_mismatch_fill,
    redesign_included,
    redesign_included_fill,
    redesign_info,
    redesign_info_fill,
    redesign_pill_danger,
    redesign_pill_info,
    redesign_pill_neutral,
    redesign_pill_text,
    redesign_pill_warn,
    redesign_prompt_fill,
    redesign_prompt_stroke,
    redesign_prompt_text,
    redesign_shell_bg,
    redesign_status_idle,
    redesign_status_preparing,
    redesign_status_running,
    redesign_success_bright,
    redesign_terminal_amber,
    redesign_terminal_debug,
    redesign_terminal_default,
    redesign_terminal_dim,
    redesign_terminal_error,
    redesign_terminal_info,
    redesign_terminal_sand,
    redesign_terminal_sent,
    redesign_text_disabled,
    redesign_warning,
    redesign_warning_emphasis,
    redesign_warning_fill,
    redesign_warning_parent,
};
use lib::ui_kit::ThemePalette;

#[test]
fn light_shell_bg_matches_spec() {
    let c = redesign_shell_bg(ThemePalette::Light);
    assert_eq!((c.r, c.g, c.b), (0xf5, 0xf8, 0xfc));
}

#[test]
fn dark_shell_bg_matches_spec() {
    let c = redesign_shell_bg(ThemePalette::Dark);
    assert_eq!((c.r, c.g, c.b), (0x11, 0x1A, 0x21));
}

#[test]
fn dark_accent_hover_matches_spec() {
    let c = redesign_accent_hover(ThemePalette::Dark);
    assert_eq!((c.r, c.g, c.b), (0x2D, 0xD4, 0xBF));
}

#[test]
fn pill_tones_are_palette_invariant() {
    assert_eq!(
        redesign_pill_danger(ThemePalette::Light),
        redesign_pill_danger(ThemePalette::Dark)
    );
    assert_eq!(
        redesign_pill_warn(ThemePalette::Light),
        redesign_pill_warn(ThemePalette::Dark)
    );
    assert_eq!(
        redesign_pill_info(ThemePalette::Light),
        redesign_pill_info(ThemePalette::Dark)
    );
    assert_eq!(
        redesign_pill_neutral(ThemePalette::Light),
        redesign_pill_neutral(ThemePalette::Dark)
    );
    assert_eq!(
        redesign_pill_text(ThemePalette::Light),
        redesign_pill_text(ThemePalette::Dark)
    );
}

#[test]
fn dot_bg_differs_between_palettes() {
    assert_ne!(
        redesign_dot(ThemePalette::Light),
        redesign_dot(ThemePalette::Dark)
    );
}

#[test]
fn redesign_text_disabled_light_differs_from_dark() {
    assert_ne!(
        redesign_text_disabled(ThemePalette::Light),
        redesign_text_disabled(ThemePalette::Dark)
    );
}

#[test]
fn redesign_success_bright_light_differs_from_dark() {
    assert_ne!(
        redesign_success_bright(ThemePalette::Light),
        redesign_success_bright(ThemePalette::Dark)
    );
}

#[test]
fn redesign_warning_light_differs_from_dark() {
    assert_ne!(
        redesign_warning(ThemePalette::Light),
        redesign_warning(ThemePalette::Dark)
    );
}

#[test]
fn redesign_warning_emphasis_light_differs_from_dark() {
    assert_ne!(
        redesign_warning_emphasis(ThemePalette::Light),
        redesign_warning_emphasis(ThemePalette::Dark)
    );
}

#[test]
fn redesign_warning_fill_light_differs_from_dark() {
    assert_ne!(
        redesign_warning_fill(ThemePalette::Light),
        redesign_warning_fill(ThemePalette::Dark)
    );
}

#[test]
fn redesign_warning_parent_light_differs_from_dark() {
    assert_ne!(
        redesign_warning_parent(ThemePalette::Light),
        redesign_warning_parent(ThemePalette::Dark)
    );
}

#[test]
fn redesign_error_light_differs_from_dark() {
    assert_ne!(
        redesign_error(ThemePalette::Light),
        redesign_error(ThemePalette::Dark)
    );
}

#[test]
fn redesign_error_emphasis_light_differs_from_dark() {
    assert_ne!(
        redesign_error_emphasis(ThemePalette::Light),
        redesign_error_emphasis(ThemePalette::Dark)
    );
}

#[test]
fn redesign_conflict_light_differs_from_dark() {
    assert_ne!(
        redesign_conflict(ThemePalette::Light),
        redesign_conflict(ThemePalette::Dark)
    );
}

#[test]
fn redesign_conflict_fill_light_differs_from_dark() {
    assert_ne!(
        redesign_conflict_fill(ThemePalette::Light),
        redesign_conflict_fill(ThemePalette::Dark)
    );
}

#[test]
fn redesign_conflict_parent_light_differs_from_dark() {
    assert_ne!(
        redesign_conflict_parent(ThemePalette::Light),
        redesign_conflict_parent(ThemePalette::Dark)
    );
}

#[test]
fn redesign_included_light_differs_from_dark() {
    assert_ne!(
        redesign_included(ThemePalette::Light),
        redesign_included(ThemePalette::Dark)
    );
}

#[test]
fn redesign_included_fill_light_differs_from_dark() {
    assert_ne!(
        redesign_included_fill(ThemePalette::Light),
        redesign_included_fill(ThemePalette::Dark)
    );
}

#[test]
fn redesign_info_light_differs_from_dark() {
    assert_ne!(
        redesign_info(ThemePalette::Light),
        redesign_info(ThemePalette::Dark)
    );
}

#[test]
fn redesign_info_fill_light_differs_from_dark() {
    assert_ne!(
        redesign_info_fill(ThemePalette::Light),
        redesign_info_fill(ThemePalette::Dark)
    );
}

#[test]
fn redesign_game_mismatch_light_differs_from_dark() {
    assert_ne!(
        redesign_game_mismatch(ThemePalette::Light),
        redesign_game_mismatch(ThemePalette::Dark)
    );
}

#[test]
fn redesign_game_mismatch_fill_light_differs_from_dark() {
    assert_ne!(
        redesign_game_mismatch_fill(ThemePalette::Light),
        redesign_game_mismatch_fill(ThemePalette::Dark)
    );
}

#[test]
fn redesign_conditional_light_differs_from_dark() {
    assert_ne!(
        redesign_conditional(ThemePalette::Light),
        redesign_conditional(ThemePalette::Dark)
    );
}

#[test]
fn redesign_conditional_fill_light_differs_from_dark() {
    assert_ne!(
        redesign_conditional_fill(ThemePalette::Light),
        redesign_conditional_fill(ThemePalette::Dark)
    );
}

#[test]
fn redesign_accent_path_light_differs_from_dark() {
    assert_ne!(
        redesign_accent_path(ThemePalette::Light),
        redesign_accent_path(ThemePalette::Dark)
    );
}

#[test]
fn redesign_accent_numbers_light_differs_from_dark() {
    assert_ne!(
        redesign_accent_numbers(ThemePalette::Light),
        redesign_accent_numbers(ThemePalette::Dark)
    );
}

#[test]
fn redesign_accent_comment_light_differs_from_dark() {
    assert_ne!(
        redesign_accent_comment(ThemePalette::Light),
        redesign_accent_comment(ThemePalette::Dark)
    );
}

#[test]
fn redesign_prompt_text_light_differs_from_dark() {
    assert_ne!(
        redesign_prompt_text(ThemePalette::Light),
        redesign_prompt_text(ThemePalette::Dark)
    );
}

#[test]
fn redesign_prompt_fill_light_differs_from_dark() {
    assert_ne!(
        redesign_prompt_fill(ThemePalette::Light),
        redesign_prompt_fill(ThemePalette::Dark)
    );
}

#[test]
fn redesign_prompt_stroke_light_differs_from_dark() {
    assert_ne!(
        redesign_prompt_stroke(ThemePalette::Light),
        redesign_prompt_stroke(ThemePalette::Dark)
    );
}

#[test]
fn redesign_status_running_light_differs_from_dark() {
    assert_ne!(
        redesign_status_running(ThemePalette::Light),
        redesign_status_running(ThemePalette::Dark)
    );
}

#[test]
fn redesign_status_preparing_light_differs_from_dark() {
    assert_ne!(
        redesign_status_preparing(ThemePalette::Light),
        redesign_status_preparing(ThemePalette::Dark)
    );
}

#[test]
fn redesign_status_idle_light_differs_from_dark() {
    assert_ne!(
        redesign_status_idle(ThemePalette::Light),
        redesign_status_idle(ThemePalette::Dark)
    );
}

#[test]
fn redesign_terminal_default_light_differs_from_dark() {
    assert_ne!(
        redesign_terminal_default(ThemePalette::Light),
        redesign_terminal_default(ThemePalette::Dark)
    );
}

#[test]
fn redesign_terminal_error_light_differs_from_dark() {
    assert_ne!(
        redesign_terminal_error(ThemePalette::Light),
        redesign_terminal_error(ThemePalette::Dark)
    );
}

#[test]
fn redesign_terminal_debug_light_differs_from_dark() {
    assert_ne!(
        redesign_terminal_debug(ThemePalette::Light),
        redesign_terminal_debug(ThemePalette::Dark)
    );
}

#[test]
fn redesign_terminal_sent_light_differs_from_dark() {
    assert_ne!(
        redesign_terminal_sent(ThemePalette::Light),
        redesign_terminal_sent(ThemePalette::Dark)
    );
}

#[test]
fn redesign_terminal_info_light_differs_from_dark() {
    assert_ne!(
        redesign_terminal_info(ThemePalette::Light),
        redesign_terminal_info(ThemePalette::Dark)
    );
}

#[test]
fn redesign_terminal_amber_light_differs_from_dark() {
    assert_ne!(
        redesign_terminal_amber(ThemePalette::Light),
        redesign_terminal_amber(ThemePalette::Dark)
    );
}

#[test]
fn redesign_terminal_sand_light_differs_from_dark() {
    assert_ne!(
        redesign_terminal_sand(ThemePalette::Light),
        redesign_terminal_sand(ThemePalette::Dark)
    );
}

#[test]
fn redesign_terminal_dim_light_differs_from_dark() {
    assert_ne!(
        redesign_terminal_dim(ThemePalette::Light),
        redesign_terminal_dim(ThemePalette::Dark)
    );
}

#[test]
fn scaled_alpha_fades_and_clamps() {
    assert_eq!(lib::palette::scaled_alpha(255, 1, 2), 127);
    assert_eq!(lib::palette::scaled_alpha(200, 1, 1), 200);
    assert_eq!(lib::palette::scaled_alpha(200, 5, 2), 200);
    assert_eq!(lib::palette::scaled_alpha(200, 1, 0), 200);
    assert_eq!(lib::palette::scaled_alpha(200, 0, 3), 0);
}

#[test]
fn older_screen_colours_are_opaque_greys_and_tints() {
    let c = lib::palette::text_primary();
    assert_eq!((c.r, c.g, c.b, c.a), (224, 224, 224, 255));
    let c = lib::palette::bg_panel();
    assert_eq!((c.r, c.g, c.b, c.a), (30, 32, 36, 255));
    assert_eq!(lib::palette::success(), lib::palette::accent_comment());
}
