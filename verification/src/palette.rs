//! The colours of the two palettes, one value per token, and the
//! palette-independent colours of the older screens. A colour is held as
//! its four bytes, as the drawing layer stores it (alpha premultiplied).
use vstd::prelude::*;

use crate::console_text::TokenTone;
use crate::ui_kit::ThemePalette;

verus! {

/// A colour: red, green, blue and (premultiplied) alpha bytes.
#[derive(Debug, Clone, Copy, PartialEq, Eq, Structural)]
pub struct Rgba {
    pub r: u8,
    pub g: u8,
    pub b: u8,
    pub a: u8,
}

/// The colour of every token of a palette.
#[derive(Debug, Clone, Copy, PartialEq, Eq, Structural)]
pub struct PaletteValues {
    pub page_bg: Rgba,
    pub shell_bg: Rgba,
    pub chrome_bg: Rgba,
    pub rail_bg: Rgba,
    pub input_bg: Rgba,
    pub border_strong: Rgba,
    pub border_soft: Rgba,
    pub text_primary: Rgba,
    pub text_muted: Rgba,
    pub text_faint: Rgba,
    pub text_fainter: Rgba,
    pub text_disabled: Rgba,
    pub success: Rgba,
    pub success_bright: Rgba,
    pub status_dot: Rgba,
    pub accent: Rgba,
    pub accent_hover: Rgba,
    pub accent_deep: Rgba,
    pub accent_path: Rgba,
    pub accent_numbers: Rgba,
    pub accent_comment: Rgba,
    pub pill_danger: Rgba,
    pub pill_warn: Rgba,
    pub pill_info: Rgba,
    pub pill_neutral: Rgba,
    pub pill_text: Rgba,
    pub warning: Rgba,
    pub warning_soft: Rgba,
    pub warning_emphasis: Rgba,
    pub warning_fill: Rgba,
    pub warning_parent: Rgba,
    pub success_soft: Rgba,
    pub error: Rgba,
    pub error_emphasis: Rgba,
    pub conflict: Rgba,
    pub conflict_fill: Rgba,
    pub conflict_parent: Rgba,
    pub included: Rgba,
    pub included_fill: Rgba,
    pub info: Rgba,
    pub info_fill: Rgba,
    pub game_mismatch: Rgba,
    pub game_mismatch_fill: Rgba,
    pub conditional: Rgba,
    pub conditional_fill: Rgba,
    pub prompt_text: Rgba,
    pub prompt_fill: Rgba,
    pub prompt_stroke: Rgba,
    pub status_running: Rgba,
    pub status_preparing: Rgba,
    pub status_idle: Rgba,
    pub terminal_default: Rgba,
    pub terminal_error: Rgba,
    pub terminal_debug: Rgba,
    pub terminal_sent: Rgba,
    pub terminal_info: Rgba,
    pub terminal_amber: Rgba,
    pub terminal_sand: Rgba,
    pub terminal_dim: Rgba,
    pub selection_highlight: Rgba,
    pub selection_highlight_hover: Rgba,
    pub hover_overlay: Rgba,
    pub dot_bg: Rgba,
}

/// The light palette.
pub open spec fn light_values() -> PaletteValues {
    PaletteValues {
        page_bg: Rgba { r: 0xe8, g: 0xee, b: 0xf5, a: 255 },
        shell_bg: Rgba { r: 0xf5, g: 0xf8, b: 0xfc, a: 255 },
        chrome_bg: Rgba { r: 0xcf, g: 0xdc, b: 0xe8, a: 255 },
        rail_bg: Rgba { r: 0xdd, g: 0xe6, b: 0xf0, a: 255 },
        input_bg: Rgba { r: 0xff, g: 0xff, b: 0xff, a: 255 },
        border_strong: Rgba { r: 0x1a, g: 0x26, b: 0x38, a: 255 },
        border_soft: Rgba { r: 0xa5, g: 0xb4, b: 0xc7, a: 255 },
        text_primary: Rgba { r: 0x1a, g: 0x26, b: 0x38, a: 255 },
        text_muted: Rgba { r: 0x5c, g: 0x6a, b: 0x7a, a: 255 },
        text_faint: Rgba { r: 0x88, g: 0x96, b: 0xa8, a: 255 },
        text_fainter: Rgba { r: 0xae, g: 0xbb, b: 0xcb, a: 255 },
        text_disabled: Rgba { r: 0x78, g: 0x78, b: 0x78, a: 255 },
        success: Rgba { r: 0x5f, g: 0xa8, b: 0x6a, a: 255 },
        success_bright: Rgba { r: 0x50, g: 0xa0, b: 0x58, a: 255 },
        status_dot: Rgba { r: 0x6f, g: 0xb8, b: 0x7a, a: 255 },
        accent: Rgba { r: 0x14, g: 0xB8, b: 0xA6, a: 255 },
        accent_hover: Rgba { r: 0x14, g: 0xB8, b: 0xA6, a: 255 },
        accent_deep: Rgba { r: 0x0C, g: 0x6E, b: 0x64, a: 255 },
        accent_path: Rgba { r: 0x7a, g: 0x56, b: 0x28, a: 255 },
        accent_numbers: Rgba { r: 0x28, g: 0x4e, b: 0x9a, a: 255 },
        accent_comment: Rgba { r: 0x3a, g: 0x7a, b: 0x3a, a: 255 },
        pill_danger: Rgba { r: 0xe6, g: 0x9a, b: 0x96, a: 255 },
        pill_warn: Rgba { r: 0xe8, g: 0xc4, b: 0x41, a: 255 },
        pill_info: Rgba { r: 0xa8, g: 0xd2, b: 0xcc, a: 255 },
        pill_neutral: Rgba { r: 0xc4, g: 0xca, b: 0xd1, a: 255 },
        pill_text: Rgba { r: 0x1a, g: 0x26, b: 0x38, a: 255 },
        warning: Rgba { r: 0x9a, g: 0x6a, b: 0x18, a: 255 },
        warning_soft: Rgba { r: 0xb8, g: 0x82, b: 0x36, a: 255 },
        warning_emphasis: Rgba { r: 0x9a, g: 0x68, b: 0x18, a: 255 },
        warning_fill: Rgba { r: 0xe0, g: 0xcc, b: 0xa0, a: 255 },
        warning_parent: Rgba { r: 0x9e, g: 0x70, b: 0x1c, a: 255 },
        success_soft: Rgba { r: 0x4d, g: 0x80, b: 0x55, a: 255 },
        error: Rgba { r: 0xc0, g: 0x30, b: 0x30, a: 255 },
        error_emphasis: Rgba { r: 0xc0, g: 0x28, b: 0x28, a: 255 },
        conflict: Rgba { r: 0xb0, g: 0x28, b: 0x28, a: 255 },
        conflict_fill: Rgba { r: 0xf0, g: 0xcc, b: 0xcc, a: 255 },
        conflict_parent: Rgba { r: 0xb8, g: 0x38, b: 0x38, a: 255 },
        included: Rgba { r: 0x60, g: 0x60, b: 0x60, a: 255 },
        included_fill: Rgba { r: 0xc8, g: 0xd4, b: 0xc8, a: 255 },
        info: Rgba { r: 0x28, g: 0x6a, b: 0x9e, a: 255 },
        info_fill: Rgba { r: 0xc0, g: 0xd8, b: 0xee, a: 255 },
        game_mismatch: Rgba { r: 0x7a, g: 0x28, b: 0x78, a: 255 },
        game_mismatch_fill: Rgba { r: 0xe0, g: 0xc0, b: 0xde, a: 255 },
        conditional: Rgba { r: 0x44, g: 0x5e, b: 0x78, a: 255 },
        conditional_fill: Rgba { r: 0xcc, g: 0xd8, b: 0xe4, a: 255 },
        prompt_text: Rgba { r: 0x20, g: 0x10, b: 0x00, a: 255 },
        prompt_fill: Rgba { r: 0xf8, g: 0xcc, b: 0x68, a: 255 },
        prompt_stroke: Rgba { r: 0xd8, g: 0xa8, b: 0x50, a: 255 },
        status_running: Rgba { r: 0x4a, g: 0x78, b: 0x20, a: 255 },
        status_preparing: Rgba { r: 0x50, g: 0x48, b: 0x88, a: 255 },
        status_idle: Rgba { r: 0x6a, g: 0x6a, b: 0x6a, a: 255 },
        terminal_default: Rgba { r: 0x28, g: 0x28, b: 0x28, a: 255 },
        terminal_error: Rgba { r: 0xb8, g: 0x28, b: 0x28, a: 255 },
        terminal_debug: Rgba { r: 0x28, g: 0x50, b: 0xaa, a: 255 },
        terminal_sent: Rgba { r: 0x28, g: 0x68, b: 0xaa, a: 255 },
        terminal_info: Rgba { r: 0x4a, g: 0x78, b: 0x20, a: 255 },
        terminal_amber: Rgba { r: 0x9a, g: 0x6a, b: 0x18, a: 255 },
        terminal_sand: Rgba { r: 0x7e, g: 0x60, b: 0x38, a: 255 },
        terminal_dim: Rgba { r: 0x68, g: 0x68, b: 0x68, a: 255 },
        selection_highlight: Rgba { r: 9, g: 84, b: 75, a: 46 },
        selection_highlight_hover: Rgba { r: 11, g: 103, b: 92, a: 56 },
        hover_overlay: Rgba { r: 2, g: 3, b: 5, a: 13 },
        dot_bg: Rgba { r: 2, g: 3, b: 4, a: 20 },
    }
}

/// The dark palette.
pub open spec fn dark_values() -> PaletteValues {
    PaletteValues {
        page_bg: Rgba { r: 0x0B, g: 0x11, b: 0x16, a: 255 },
        shell_bg: Rgba { r: 0x11, g: 0x1A, b: 0x21, a: 255 },
        chrome_bg: Rgba { r: 0x15, g: 0x22, b: 0x2B, a: 255 },
        rail_bg: Rgba { r: 0x15, g: 0x22, b: 0x2B, a: 255 },
        input_bg: Rgba { r: 0x0B, g: 0x11, b: 0x16, a: 255 },
        border_strong: Rgba { r: 0x24, g: 0x33, b: 0x3D, a: 255 },
        border_soft: Rgba { r: 0x24, g: 0x33, b: 0x3D, a: 255 },
        text_primary: Rgba { r: 0xE6, g: 0xED, b: 0xF3, a: 255 },
        text_muted: Rgba { r: 0xA7, g: 0xB3, b: 0xBD, a: 255 },
        text_faint: Rgba { r: 0x6B, g: 0x77, b: 0x85, a: 255 },
        text_fainter: Rgba { r: 0x4d, g: 0x55, b: 0x60, a: 255 },
        text_disabled: Rgba { r: 0x82, g: 0x82, b: 0x82, a: 255 },
        success: Rgba { r: 0x4A, g: 0xDE, b: 0x80, a: 255 },
        success_bright: Rgba { r: 0x78, g: 0xC8, b: 0x78, a: 255 },
        status_dot: Rgba { r: 0x4A, g: 0xDE, b: 0x80, a: 255 },
        accent: Rgba { r: 0x14, g: 0xB8, b: 0xA6, a: 255 },
        accent_hover: Rgba { r: 0x2D, g: 0xD4, b: 0xBF, a: 255 },
        accent_deep: Rgba { r: 0x0C, g: 0x6E, b: 0x64, a: 255 },
        accent_path: Rgba { r: 0xE0, g: 0xC4, b: 0x9C, a: 255 },
        accent_numbers: Rgba { r: 0x88, g: 0xB0, b: 0xFF, a: 255 },
        accent_comment: Rgba { r: 0x7C, g: 0xC4, b: 0x7C, a: 255 },
        pill_danger: Rgba { r: 0xe6, g: 0x9a, b: 0x96, a: 255 },
        pill_warn: Rgba { r: 0xe8, g: 0xc4, b: 0x41, a: 255 },
        pill_info: Rgba { r: 0xa8, g: 0xd2, b: 0xcc, a: 255 },
        pill_neutral: Rgba { r: 0xc4, g: 0xca, b: 0xd1, a: 255 },
        pill_text: Rgba { r: 0x1a, g: 0x26, b: 0x38, a: 255 },
        warning: Rgba { r: 0xD6, g: 0xA8, b: 0x60, a: 255 },
        warning_soft: Rgba { r: 0xa8, g: 0x8a, b: 0x4a, a: 255 },
        warning_emphasis: Rgba { r: 0xD6, g: 0xAE, b: 0x54, a: 255 },
        warning_fill: Rgba { r: 0x4E, g: 0x3E, b: 0x22, a: 255 },
        warning_parent: Rgba { r: 0xDE, g: 0xB6, b: 0x5C, a: 255 },
        success_soft: Rgba { r: 0x5a, g: 0x90, b: 0x70, a: 255 },
        error: Rgba { r: 0xDC, g: 0x64, b: 0x64, a: 255 },
        error_emphasis: Rgba { r: 0xDC, g: 0x60, b: 0x60, a: 255 },
        conflict: Rgba { r: 0xD0, g: 0x60, b: 0x60, a: 255 },
        conflict_fill: Rgba { r: 0x58, g: 0x2C, b: 0x2C, a: 255 },
        conflict_parent: Rgba { r: 0xDC, g: 0x7A, b: 0x7A, a: 255 },
        included: Rgba { r: 0x96, g: 0x96, b: 0x96, a: 255 },
        included_fill: Rgba { r: 0x38, g: 0x48, b: 0x38, a: 255 },
        info: Rgba { r: 0x78, g: 0xBA, b: 0xE6, a: 255 },
        info_fill: Rgba { r: 0x2A, g: 0x42, b: 0x56, a: 255 },
        game_mismatch: Rgba { r: 0xCB, g: 0x6E, b: 0xBC, a: 255 },
        game_mismatch_fill: Rgba { r: 0x4E, g: 0x2C, b: 0x54, a: 255 },
        conditional: Rgba { r: 0xA4, g: 0xBE, b: 0xD0, a: 255 },
        conditional_fill: Rgba { r: 0x34, g: 0x42, b: 0x4E, a: 255 },
        prompt_text: Rgba { r: 0x28, g: 0x14, b: 0x00, a: 255 },
        prompt_fill: Rgba { r: 0xF5, g: 0xC3, b: 0x5F, a: 255 },
        prompt_stroke: Rgba { r: 0xD2, g: 0xA0, b: 0x46, a: 255 },
        status_running: Rgba { r: 0xA8, g: 0xCC, b: 0x62, a: 255 },
        status_preparing: Rgba { r: 0xB4, g: 0xAA, b: 0xDC, a: 255 },
        status_idle: Rgba { r: 0xAA, g: 0xAA, b: 0xAA, a: 255 },
        terminal_default: Rgba { r: 0xD2, g: 0xD2, b: 0xD2, a: 255 },
        terminal_error: Rgba { r: 0xE6, g: 0x60, b: 0x60, a: 255 },
        terminal_debug: Rgba { r: 0x46, g: 0x6E, b: 0xB4, a: 255 },
        terminal_sent: Rgba { r: 0x6E, g: 0xBE, b: 0xFF, a: 255 },
        terminal_info: Rgba { r: 0xA8, g: 0xCC, b: 0x62, a: 255 },
        terminal_amber: Rgba { r: 0xD6, g: 0xA8, b: 0x60, a: 255 },
        terminal_sand: Rgba { r: 0xD6, g: 0xB6, b: 0x92, a: 255 },
        terminal_dim: Rgba { r: 0x96, g: 0x96, b: 0x96, a: 255 },
        selection_highlight: Rgba { r: 9, g: 84, b: 75, a: 46 },
        selection_highlight_hover: Rgba { r: 11, g: 103, b: 92, a: 56 },
        hover_overlay: Rgba { r: 9, g: 9, b: 10, a: 10 },
        dot_bg: Rgba { r: 12, g: 12, b: 12, a: 13 },
    }
}

/// The colours of a palette.
pub open spec fn palette_values(palette: ThemePalette) -> PaletteValues {
    match palette {
        ThemePalette::Light => light_values(),
        ThemePalette::Dark => dark_values(),
    }
}

/// The colours of a palette.
pub fn values(palette: ThemePalette) -> (v: PaletteValues)
    ensures
        v == palette_values(palette),
{
    match palette {
        ThemePalette::Light => PaletteValues {
            page_bg: Rgba { r: 0xe8, g: 0xee, b: 0xf5, a: 255 },
            shell_bg: Rgba { r: 0xf5, g: 0xf8, b: 0xfc, a: 255 },
            chrome_bg: Rgba { r: 0xcf, g: 0xdc, b: 0xe8, a: 255 },
            rail_bg: Rgba { r: 0xdd, g: 0xe6, b: 0xf0, a: 255 },
            input_bg: Rgba { r: 0xff, g: 0xff, b: 0xff, a: 255 },
            border_strong: Rgba { r: 0x1a, g: 0x26, b: 0x38, a: 255 },
            border_soft: Rgba { r: 0xa5, g: 0xb4, b: 0xc7, a: 255 },
            text_primary: Rgba { r: 0x1a, g: 0x26, b: 0x38, a: 255 },
            text_muted: Rgba { r: 0x5c, g: 0x6a, b: 0x7a, a: 255 },
            text_faint: Rgba { r: 0x88, g: 0x96, b: 0xa8, a: 255 },
            text_fainter: Rgba { r: 0xae, g: 0xbb, b: 0xcb, a: 255 },
            text_disabled: Rgba { r: 0x78, g: 0x78, b: 0x78, a: 255 },
            success: Rgba { r: 0x5f, g: 0xa8, b: 0x6a, a: 255 },
            success_bright: Rgba { r: 0x50, g: 0xa0, b: 0x58, a: 255 },
            status_dot: Rgba { r: 0x6f, g: 0xb8, b: 0x7a, a: 255 },
            accent: Rgba { r: 0x14, g: 0xB8, b: 0xA6, a: 255 },
            accent_hover: Rgba { r: 0x14, g: 0xB8, b: 0xA6, a: 255 },
            accent_deep: Rgba { r: 0x0C, g: 0x6E, b: 0x64, a: 255 },
            accent_path: Rgba { r: 0x7a, g: 0x56, b: 0x28, a: 255 },
            accent_numbers: Rgba { r: 0x28, g: 0x4e, b: 0x9a, a: 255 },
            accent_comment: Rgba { r: 0x3a, g: 0x7a, b: 0x3a, a: 255 },
            pill_danger: Rgba { r: 0xe6, g: 0x9a, b: 0x96, a: 255 },
            pill_warn: Rgba { r: 0xe8, g: 0xc4, b: 0x41, a: 255 },
            pill_info: Rgba { r: 0xa8, g: 0xd2, b: 0xcc, a: 255 },
            pill_neutral: Rgba { r: 0xc4, g: 0xca, b: 0xd1, a: 255 },
            pill_text: Rgba { r: 0x1a, g: 0x26, b: 0x38, a: 255 },
            warning: Rgba { r: 0x9a, g: 0x6a, b: 0x18, a: 255 },
            warning_soft: Rgba { r: 0xb8, g: 0x82, b: 0x36, a: 255 },
            warning_emphasis: Rgba { r: 0x9a, g: 0x68, b: 0x18, a: 255 },
            warning_fill: Rgba { r: 0xe0, g: 0xcc, b: 0xa0, a: 255 },
            warning_parent: Rgba { r: 0x9e, g: 0x70, b: 0x1c, a: 255 },
            success_soft: Rgba { r: 0x4d, g: 0x80, b: 0x55, a: 255 },
            error: Rgba { r: 0xc0, g: 0x30, b: 0x30, a: 255 },
            error_emphasis: Rgba { r: 0xc0, g: 0x28, b: 0x28, a: 255 },
            conflict: Rgba { r: 0xb0, g: 0x28, b: 0x28, a: 255 },
            conflict_fill: Rgba { r: 0xf0, g: 0xcc, b: 0xcc, a: 255 },
            conflict_parent: Rgba { r: 0xb8, g: 0x38, b: 0x38, a: 255 },
            included: Rgba { r: 0x60, g: 0x60, b: 0x60, a: 255 },
            included_fill: Rgba { r: 0xc8, g: 0xd4, b: 0xc8, a: 255 },
            info: Rgba { r: 0x28, g: 0x6a, b: 0x9e, a: 255 },
            info_fill: Rgba { r: 0xc0, g: 0xd8, b: 0xee, a: 255 },
            game_mismatch: Rgba { r: 0x7a, g: 0x28, b: 0x78, a: 255 },
            game_mismatch_fill: Rgba { r: 0xe0, g: 0xc0, b: 0xde, a: 255 },
            conditional: Rgba { r: 0x44, g: 0x5e, b: 0x78, a: 255 },
            conditional_fill: Rgba { r: 0xcc, g: 0xd8, b: 0xe4, a: 255 },
            prompt_text: Rgba { r: 0x20, g: 0x10, b: 0x00, a: 255 },
            prompt_fill: Rgba { r: 0xf8, g: 0xcc, b: 0x68, a: 255 },
            prompt_stroke: Rgba { r: 0xd8, g: 0xa8, b: 0x50, a: 255 },
            status_running: Rgba { r: 0x4a, g: 0x78, b: 0x20, a: 255 },
            status_preparing: Rgba { r: 0x50, g: 0x48, b: 0x88, a: 255 },
            status_idle: Rgba { r: 0x6a, g: 0x6a, b: 0x6a, a: 255 },
            terminal_default: Rgba { r: 0x28, g: 0x28, b: 0x28, a: 255 },
            terminal_error: Rgba { r: 0xb8, g: 0x28, b: 0x28, a: 255 },
            terminal_debug: Rgba { r: 0x28, g: 0x50, b: 0xaa, a: 255 },
            terminal_sent: Rgba { r: 0x28, g: 0x68, b: 0xaa, a: 255 },
            terminal_info: Rgba { r: 0x4a, g: 0x78, b: 0x20, a: 255 },
            terminal_amber: Rgba { r: 0x9a, g: 0x6a, b: 0x18, a: 255 },
            terminal_sand: Rgba { r: 0x7e, g: 0x60, b: 0x38, a: 255 },
            terminal_dim: Rgba { r: 0x68, g: 0x68, b: 0x68, a: 255 },
            selection_highlight: Rgba { r: 9, g: 84, b: 75, a: 46 },
            selection_highlight_hover: Rgba { r: 11, g: 103, b: 92, a: 56 },
            hover_overlay: Rgba { r: 2, g: 3, b: 5, a: 13 },
            dot_bg: Rgba { r: 2, g: 3, b: 4, a: 20 },
        },
        ThemePalette::Dark => PaletteValues {
            page_bg: Rgba { r: 0x0B, g: 0x11, b: 0x16, a: 255 },
            shell_bg: Rgba { r: 0x11, g: 0x1A, b: 0x21, a: 255 },
            chrome_bg: Rgba { r: 0x15, g: 0x22, b: 0x2B, a: 255 },
            rail_bg: Rgba { r: 0x15, g: 0x22, b: 0x2B, a: 255 },
            input_bg: Rgba { r: 0x0B, g: 0x11, b: 0x16, a: 255 },
            border_strong: Rgba { r: 0x24, g: 0x33, b: 0x3D, a: 255 },
            border_soft: Rgba { r: 0x24, g: 0x33, b: 0x3D, a: 255 },
            text_primary: Rgba { r: 0xE6, g: 0xED, b: 0xF3, a: 255 },
            text_muted: Rgba { r: 0xA7, g: 0xB3, b: 0xBD, a: 255 },
            text_faint: Rgba { r: 0x6B, g: 0x77, b: 0x85, a: 255 },
            text_fainter: Rgba { r: 0x4d, g: 0x55, b: 0x60, a: 255 },
            text_disabled: Rgba { r: 0x82, g: 0x82, b: 0x82, a: 255 },
            success: Rgba { r: 0x4A, g: 0xDE, b: 0x80, a: 255 },
            success_bright: Rgba { r: 0x78, g: 0xC8, b: 0x78, a: 255 },
            status_dot: Rgba { r: 0x4A, g: 0xDE, b: 0x80, a: 255 },
            accent: Rgba { r: 0x14, g: 0xB8, b: 0xA6, a: 255 },
            accent_hover: Rgba { r: 0x2D, g: 0xD4, b: 0xBF, a: 255 },
            accent_deep: Rgba { r: 0x0C, g: 0x6E, b: 0x64, a: 255 },
            accent_path: Rgba { r: 0xE0, g: 0xC4, b: 0x9C, a: 255 },
            accent_numbers: Rgba { r: 0x88, g: 0xB0, b: 0xFF, a: 255 },
            accent_comment: Rgba { r: 0x7C, g: 0xC4, b: 0x7C, a: 255 },
            pill_danger: Rgba { r: 0xe6, g: 0x9a, b: 0x96, a: 255 },
            pill_warn: Rgba { r: 0xe8, g: 0xc4, b: 0x41, a: 255 },
            pill_info: Rgba { r: 0xa8, g: 0xd2, b: 0xcc, a: 255 },
            pill_neutral: Rgba { r: 0xc4, g: 0xca, b: 0xd1, a: 255 },
            pill_text: Rgba { r: 0x1a, g: 0x26, b: 0x38, a: 255 },
            warning: Rgba { r: 0xD6, g: 0xA8, b: 0x60, a: 255 },
            warning_soft: Rgba { r: 0xa8, g: 0x8a, b: 0x4a, a: 255 },
            warning_emphasis: Rgba { r: 0xD6, g: 0xAE, b: 0x54, a: 255 },
            warning_fill: Rgba { r: 0x4E, g: 0x3E, b: 0x22, a: 255 },
            warning_parent: Rgba { r: 0xDE, g: 0xB6, b: 0x5C, a: 255 },
            success_soft: Rgba { r: 0x5a, g: 0x90, b: 0x70, a: 255 },
            error: Rgba { r: 0xDC, g: 0x64, b: 0x64, a: 255 },
            error_emphasis: Rgba { r: 0xDC, g: 0x60, b: 0x60, a: 255 },
            conflict: Rgba { r: 0xD0, g: 0x60, b: 0x60, a: 255 },
            conflict_fill: Rgba { r: 0x58, g: 0x2C, b: 0x2C, a: 255 },
            conflict_parent: Rgba { r: 0xDC, g: 0x7A, b: 0x7A, a: 255 },
            included: Rgba { r: 0x96, g: 0x96, b: 0x96, a: 255 },
            included_fill: Rgba { r: 0x38, g: 0x48, b: 0x38, a: 255 },
            info: Rgba { r: 0x78, g: 0xBA, b: 0xE6, a: 255 },
            info_fill: Rgba { r: 0x2A, g: 0x42, b: 0x56, a: 255 },
            game_mismatch: Rgba { r: 0xCB, g: 0x6E, b: 0xBC, a: 255 },
            game_mismatch_fill: Rgba { r: 0x4E, g: 0x2C, b: 0x54, a: 255 },
            conditional: Rgba { r: 0xA4, g: 0xBE, b: 0xD0, a: 255 },
            conditional_fill: Rgba { r: 0x34, g: 0x42, b: 0x4E, a: 255 },
            prompt_text: Rgba { r: 0x28, g: 0x14, b: 0x00, a: 255 },
            prompt_fill: Rgba { r: 0xF5, g: 0xC3, b: 0x5F, a: 255 },
            prompt_stroke: Rgba { r: 0xD2, g: 0xA0, b: 0x46, a: 255 },
            status_running: Rgba { r: 0xA8, g: 0xCC, b: 0x62, a: 255 },
            status_preparing: Rgba { r: 0xB4, g: 0xAA, b: 0xDC, a: 255 },
            status_idle: Rgba { r: 0xAA, g: 0xAA, b: 0xAA, a: 255 },
            terminal_default: Rgba { r: 0xD2, g: 0xD2, b: 0xD2, a: 255 },
            terminal_error: Rgba { r: 0xE6, g: 0x60, b: 0x60, a: 255 },
            terminal_debug: Rgba { r: 0x46, g: 0x6E, b: 0xB4, a: 255 },
            terminal_sent: Rgba { r: 0x6E, g: 0xBE, b: 0xFF, a: 255 },
            terminal_info: Rgba { r: 0xA8, g: 0xCC, b: 0x62, a: 255 },
            terminal_amber: Rgba { r: 0xD6, g: 0xA8, b: 0x60, a: 255 },
            terminal_sand: Rgba { r: 0xD6, g: 0xB6, b: 0x92, a: 255 },
            terminal_dim: Rgba { r: 0x96, g: 0x96, b: 0x96, a: 255 },
            selection_highlight: Rgba { r: 9, g: 84, b: 75, a: 46 },
            selection_highlight_hover: Rgba { r: 11, g: 103, b: 92, a: 56 },
            hover_overlay: Rgba { r: 9, g: 9, b: 10, a: 10 },
            dot_bg: Rgba { r: 12, g: 12, b: 12, a: 13 },
        },
    }
}

pub fn redesign_page_bg(palette: ThemePalette) -> (c: Rgba)
    ensures
        c == palette_values(palette).page_bg,
{
    values(palette).page_bg
}

pub fn redesign_shell_bg(palette: ThemePalette) -> (c: Rgba)
    ensures
        c == palette_values(palette).shell_bg,
{
    values(palette).shell_bg
}

pub fn redesign_chrome_bg(palette: ThemePalette) -> (c: Rgba)
    ensures
        c == palette_values(palette).chrome_bg,
{
    values(palette).chrome_bg
}

pub fn redesign_rail_bg(palette: ThemePalette) -> (c: Rgba)
    ensures
        c == palette_values(palette).rail_bg,
{
    values(palette).rail_bg
}

pub fn redesign_input_bg(palette: ThemePalette) -> (c: Rgba)
    ensures
        c == palette_values(palette).input_bg,
{
    values(palette).input_bg
}

pub fn redesign_border_strong(palette: ThemePalette) -> (c: Rgba)
    ensures
        c == palette_values(palette).border_strong,
{
    values(palette).border_strong
}

pub fn redesign_border_soft(palette: ThemePalette) -> (c: Rgba)
    ensures
        c == palette_values(palette).border_soft,
{
    values(palette).border_soft
}

pub fn redesign_text_primary(palette: ThemePalette) -> (c: Rgba)
    ensures
        c == palette_values(palette).text_primary,
{
    values(palette).text_primary
}

pub fn redesign_text_muted(palette: ThemePalette) -> (c: Rgba)
    ensures
        c == palette_values(palette).text_muted,
{
    values(palette).text_muted
}

pub fn redesign_text_faint(palette: ThemePalette) -> (c: Rgba)
    ensures
        c == palette_values(palette).text_faint,
{
    values(palette).text_faint
}

pub fn redesign_text_fainter(palette: ThemePalette) -> (c: Rgba)
    ensures
        c == palette_values(palette).text_fainter,
{
    values(palette).text_fainter
}

pub fn redesign_success(palette: ThemePalette) -> (c: Rgba)
    ensures
        c == palette_values(palette).success,
{
    values(palette).success
}

pub fn redesign_status_dot(palette: ThemePalette) -> (c: Rgba)
    ensures
        c == palette_values(palette).status_dot,
{
    values(palette).status_dot
}

pub fn redesign_accent(palette: ThemePalette) -> (c: Rgba)
    ensures
        c == palette_values(palette).accent,
{
    values(palette).accent
}

pub fn redesign_accent_hover(palette: ThemePalette) -> (c: Rgba)
    ensures
        c == palette_values(palette).accent_hover,
{
    values(palette).accent_hover
}

pub fn redesign_accent_deep(palette: ThemePalette) -> (c: Rgba)
    ensures
        c == palette_values(palette).accent_deep,
{
    values(palette).accent_deep
}

pub fn redesign_pill_danger(palette: ThemePalette) -> (c: Rgba)
    ensures
        c == palette_values(palette).pill_danger,
{
    values(palette).pill_danger
}

pub fn redesign_pill_warn(palette: ThemePalette) -> (c: Rgba)
    ensures
        c == palette_values(palette).pill_warn,
{
    values(palette).pill_warn
}

pub fn redesign_warning_soft(palette: ThemePalette) -> (c: Rgba)
    ensures
        c == palette_values(palette).warning_soft,
{
    values(palette).warning_soft
}

pub fn redesign_success_soft(palette: ThemePalette) -> (c: Rgba)
    ensures
        c == palette_values(palette).success_soft,
{
    values(palette).success_soft
}

pub fn redesign_pill_info(palette: ThemePalette) -> (c: Rgba)
    ensures
        c == palette_values(palette).pill_info,
{
    values(palette).pill_info
}

pub fn redesign_pill_neutral(palette: ThemePalette) -> (c: Rgba)
    ensures
        c == palette_values(palette).pill_neutral,
{
    values(palette).pill_neutral
}

pub fn redesign_pill_text(palette: ThemePalette) -> (c: Rgba)
    ensures
        c == palette_values(palette).pill_text,
{
    values(palette).pill_text
}

pub fn redesign_selection_highlight(palette: ThemePalette) -> (c: Rgba)
    ensures
        c == palette_values(palette).selection_highlight,
{
    values(palette).selection_highlight
}

pub fn redesign_selection_highlight_hover(palette: ThemePalette) -> (c: Rgba)
    ensures
        c == palette_values(palette).selection_highlight_hover,
{
    values(palette).selection_highlight_hover
}

pub fn redesign_hover_overlay(palette: ThemePalette) -> (c: Rgba)
    ensures
        c == palette_values(palette).hover_overlay,
{
    values(palette).hover_overlay
}

pub fn redesign_dot(palette: ThemePalette) -> (c: Rgba)
    ensures
        c == palette_values(palette).dot_bg,
{
    values(palette).dot_bg
}

pub fn redesign_text_disabled(palette: ThemePalette) -> (c: Rgba)
    ensures
        c == palette_values(palette).text_disabled,
{
    values(palette).text_disabled
}

pub fn redesign_success_bright(palette: ThemePalette) -> (c: Rgba)
    ensures
        c == palette_values(palette).success_bright,
{
    values(palette).success_bright
}

pub fn redesign_warning(palette: ThemePalette) -> (c: Rgba)
    ensures
        c == palette_values(palette).warning,
{
    values(palette).warning
}

pub fn redesign_warning_emphasis(palette: ThemePalette) -> (c: Rgba)
    ensures
        c == palette_values(palette).warning_emphasis,
{
    values(palette).warning_emphasis
}

pub fn redesign_warning_fill(palette: ThemePalette) -> (c: Rgba)
    ensures
        c == palette_values(palette).warning_fill,
{
    values(palette).warning_fill
}

pub fn redesign_warning_parent(palette: ThemePalette) -> (c: Rgba)
    ensures
        c == palette_values(palette).warning_parent,
{
    values(palette).warning_parent
}

pub fn redesign_error(palette: ThemePalette) -> (c: Rgba)
    ensures
        c == palette_values(palette).error,
{
    values(palette).error
}

pub fn redesign_error_emphasis(palette: ThemePalette) -> (c: Rgba)
    ensures
        c == palette_values(palette).error_emphasis,
{
    values(palette).error_emphasis
}

pub fn redesign_conflict(palette: ThemePalette) -> (c: Rgba)
    ensures
        c == palette_values(palette).conflict,
{
    values(palette).conflict
}

pub fn redesign_conflict_fill(palette: ThemePalette) -> (c: Rgba)
    ensures
        c == palette_values(palette).conflict_fill,
{
    values(palette).conflict_fill
}

pub fn redesign_conflict_parent(palette: ThemePalette) -> (c: Rgba)
    ensures
        c == palette_values(palette).conflict_parent,
{
    values(palette).conflict_parent
}

pub fn redesign_included(palette: ThemePalette) -> (c: Rgba)
    ensures
        c == palette_values(palette).included,
{
    values(palette).included
}

pub fn redesign_included_fill(palette: ThemePalette) -> (c: Rgba)
    ensures
        c == palette_values(palette).included_fill,
{
    values(palette).included_fill
}

pub fn redesign_info(palette: ThemePalette) -> (c: Rgba)
    ensures
        c == palette_values(palette).info,
{
    values(palette).info
}

pub fn redesign_info_fill(palette: ThemePalette) -> (c: Rgba)
    ensures
        c == palette_values(palette).info_fill,
{
    values(palette).info_fill
}

pub fn redesign_game_mismatch(palette: ThemePalette) -> (c: Rgba)
    ensures
        c == palette_values(palette).game_mismatch,
{
    values(palette).game_mismatch
}

pub fn redesign_game_mismatch_fill(palette: ThemePalette) -> (c: Rgba)
    ensures
        c == palette_values(palette).game_mismatch_fill,
{
    values(palette).game_mismatch_fill
}

pub fn redesign_conditional(palette: ThemePalette) -> (c: Rgba)
    ensures
        c == palette_values(palette).conditional,
{
    values(palette).conditional
}

pub fn redesign_conditional_fill(palette: ThemePalette) -> (c: Rgba)
    ensures
        c == palette_values(palette).conditional_fill,
{
    values(palette).conditional_fill
}

pub fn redesign_accent_path(palette: ThemePalette) -> (c: Rgba)
    ensures
        c == palette_values(palette).accent_path,
{
    values(palette).accent_path
}

pub fn redesign_accent_numbers(palette: ThemePalette) -> (c: Rgba)
    ensures
        c == palette_values(palette).accent_numbers,
{
    values(palette).accent_numbers
}

pub fn redesign_accent_comment(palette: ThemePalette) -> (c: Rgba)
    ensures
        c == palette_values(palette).accent_comment,
{
    values(palette).accent_comment
}

pub fn redesign_prompt_text(palette: ThemePalette) -> (c: Rgba)
    ensures
        c == palette_values(palette).prompt_text,
{
    values(palette).prompt_text
}

pub fn redesign_prompt_fill(palette: ThemePalette) -> (c: Rgba)
    ensures
        c == palette_values(palette).prompt_fill,
{
    values(palette).prompt_fill
}

pub fn redesign_prompt_stroke(palette: ThemePalette) -> (c: Rgba)
    ensures
        c == palette_values(palette).prompt_stroke,
{
    values(palette).prompt_stroke
}

pub fn redesign_status_running(palette: ThemePalette) -> (c: Rgba)
    ensures
        c == palette_values(palette).status_running,
{
    values(palette).status_running
}

pub fn redesign_status_preparing(palette: ThemePalette) -> (c: Rgba)
    ensures
        c == palette_values(palette).status_preparing,
{
    values(palette).status_preparing
}

pub fn redesign_status_idle(palette: ThemePalette) -> (c: Rgba)
    ensures
        c == palette_values(palette).status_idle,
{
    values(palette).status_idle
}

pub fn redesign_terminal_default(palette: ThemePalette) -> (c: Rgba)
    ensures
        c == palette_values(palette).terminal_default,
{
    values(palette).terminal_default
}

pub fn redesign_terminal_error(palette: ThemePalette) -> (c: Rgba)
    ensures
        c == palette_values(palette).terminal_error,
{
    values(palette).terminal_error
}

pub fn redesign_terminal_debug(palette: ThemePalette) -> (c: Rgba)
    ensures
        c == palette_values(palette).terminal_debug,
{
    values(palette).terminal_debug
}

pub fn redesign_terminal_sent(palette: ThemePalette) -> (c: Rgba)
    ensures
        c == palette_values(palette).terminal_sent,
{
    values(palette).terminal_sent
}

pub fn redesign_terminal_info(palette: ThemePalette) -> (c: Rgba)
    ensures
        c == palette_values(palette).terminal_info,
{
    values(palette).terminal_info
}

pub fn redesign_terminal_amber(palette: ThemePalette) -> (c: Rgba)
    ensures
        c == palette_values(palette).terminal_amber,
{
    values(palette).terminal_amber
}

pub fn redesign_terminal_sand(palette: ThemePalette) -> (c: Rgba)
    ensures
        c == palette_values(palette).terminal_sand,
{
    values(palette).terminal_sand
}

pub fn redesign_terminal_dim(palette: ThemePalette) -> (c: Rgba)
    ensures
        c == palette_values(palette).terminal_dim,
{
    values(palette).terminal_dim
}


/// How many of `numerator / denominator` of an alpha byte remain: the
/// denominator is at least one and the fraction at most one.
pub open spec fn scaled_alpha_spec(alpha: u8, numerator: u16, denominator: u16) -> int {
    let d: int = if denominator == 0 { 1 } else { denominator as int };
    let n: int = if (numerator as int) < d { numerator as int } else { d };
    (alpha as int * n) / d
}

/// The alpha byte of a colour faded to `numerator / denominator` of its
/// opacity.
pub fn scaled_alpha(alpha: u8, numerator: u16, denominator: u16) -> (a: u8)
    ensures
        a as int == scaled_alpha_spec(alpha, numerator, denominator),
        a <= alpha,
{
    let d: u16 = if denominator == 0 { 1 } else { denominator };
    let n: u16 = if numerator < d { numerator } else { d };
    assert((alpha as int) * (n as int) <= 255 * 65535) by (nonlinear_arith)
        requires alpha <= 255, n <= 65535;
    let wide: u32 = (alpha as u32) * (n as u32);
    let q: u32 = wide / (d as u32);
    proof {
        assert((alpha as int) * (n as int) <= (alpha as int) * (d as int)) by (nonlinear_arith)
            requires n <= d;
        assert(q <= alpha) by (nonlinear_arith)
            requires
                q == (alpha as int * n as int) / (d as int),
                (alpha as int) * (n as int) <= (alpha as int) * (d as int),
                d >= 1;
    }
    q as u8
}

// ------------------------------------------------------ the older screens

pub fn text_primary() -> (c: Rgba)
    ensures
        c == (Rgba { r: 224, g: 224, b: 224, a: 255 }),
{
    Rgba { r: 224, g: 224, b: 224, a: 255 }
}

pub fn text_muted() -> (c: Rgba)
    ensures
        c == (Rgba { r: 190, g: 190, b: 190, a: 255 }),
{
    Rgba { r: 190, g: 190, b: 190, a: 255 }
}

pub fn text_disabled() -> (c: Rgba)
    ensures
        c == (Rgba { r: 130, g: 130, b: 130, a: 255 }),
{
    Rgba { r: 130, g: 130, b: 130, a: 255 }
}

pub fn bg_panel() -> (c: Rgba)
    ensures
        c == (Rgba { r: 30, g: 32, b: 36, a: 255 }),
{
    Rgba { r: 30, g: 32, b: 36, a: 255 }
}

pub fn bg_extreme() -> (c: Rgba)
    ensures
        c == (Rgba { r: 20, g: 22, b: 26, a: 255 }),
{
    Rgba { r: 20, g: 22, b: 26, a: 255 }
}

pub fn accent_path() -> (c: Rgba)
    ensures
        c == (Rgba { r: 224, g: 196, b: 156, a: 255 }),
{
    Rgba { r: 224, g: 196, b: 156, a: 255 }
}

pub fn accent_numbers() -> (c: Rgba)
    ensures
        c == (Rgba { r: 136, g: 176, b: 255, a: 255 }),
{
    Rgba { r: 136, g: 176, b: 255, a: 255 }
}

pub fn accent_comment() -> (c: Rgba)
    ensures
        c == (Rgba { r: 124, g: 196, b: 124, a: 255 }),
{
    Rgba { r: 124, g: 196, b: 124, a: 255 }
}

pub fn success() -> (c: Rgba)
    ensures
        c == (Rgba { r: 124, g: 196, b: 124, a: 255 }),
{
    Rgba { r: 124, g: 196, b: 124, a: 255 }
}

pub fn success_bright() -> (c: Rgba)
    ensures
        c == (Rgba { r: 120, g: 200, b: 120, a: 255 }),
{
    Rgba { r: 120, g: 200, b: 120, a: 255 }
}

pub fn warning() -> (c: Rgba)
    ensures
        c == (Rgba { r: 214, g: 168, b: 96, a: 255 }),
{
    Rgba { r: 214, g: 168, b: 96, a: 255 }
}

pub fn warning_soft() -> (c: Rgba)
    ensures
        c == (Rgba { r: 220, g: 180, b: 100, a: 255 }),
{
    Rgba { r: 220, g: 180, b: 100, a: 255 }
}

pub fn warning_emphasis() -> (c: Rgba)
    ensures
        c == (Rgba { r: 214, g: 174, b: 84, a: 255 }),
{
    Rgba { r: 214, g: 174, b: 84, a: 255 }
}

pub fn error() -> (c: Rgba)
    ensures
        c == (Rgba { r: 220, g: 100, b: 100, a: 255 }),
{
    Rgba { r: 220, g: 100, b: 100, a: 255 }
}

pub fn error_emphasis() -> (c: Rgba)
    ensures
        c == (Rgba { r: 220, g: 96, b: 96, a: 255 }),
{
    Rgba { r: 220, g: 96, b: 96, a: 255 }
}

pub fn prompt_text() -> (c: Rgba)
    ensures
        c == (Rgba { r: 40, g: 20, b: 0, a: 255 }),
{
    Rgba { r: 40, g: 20, b: 0, a: 255 }
}

pub fn prompt_fill() -> (c: Rgba)
    ensures
        c == (Rgba { r: 245, g: 195, b: 95, a: 255 }),
{
    Rgba { r: 245, g: 195, b: 95, a: 255 }
}

pub fn prompt_stroke() -> (c: Rgba)
    ensures
        c == (Rgba { r: 210, g: 160, b: 70, a: 255 }),
{
    Rgba { r: 210, g: 160, b: 70, a: 255 }
}

pub fn conflict_fill() -> (c: Rgba)
    ensures
        c == (Rgba { r: 88, g: 44, b: 44, a: 255 }),
{
    Rgba { r: 88, g: 44, b: 44, a: 255 }
}

pub fn info() -> (c: Rgba)
    ensures
        c == (Rgba { r: 120, g: 186, b: 230, a: 255 }),
{
    Rgba { r: 120, g: 186, b: 230, a: 255 }
}

pub fn info_fill() -> (c: Rgba)
    ensures
        c == (Rgba { r: 42, g: 66, b: 86, a: 255 }),
{
    Rgba { r: 42, g: 66, b: 86, a: 255 }
}

pub fn game_mismatch() -> (c: Rgba)
    ensures
        c == (Rgba { r: 203, g: 110, b: 188, a: 255 }),
{
    Rgba { r: 203, g: 110, b: 188, a: 255 }
}

pub fn game_mismatch_fill() -> (c: Rgba)
    ensures
        c == (Rgba { r: 78, g: 44, b: 84, a: 255 }),
{
    Rgba { r: 78, g: 44, b: 84, a: 255 }
}

pub fn conditional() -> (c: Rgba)
    ensures
        c == (Rgba { r: 164, g: 190, b: 208, a: 255 }),
{
    Rgba { r: 164, g: 190, b: 208, a: 255 }
}

pub fn conditional_fill() -> (c: Rgba)
    ensures
        c == (Rgba { r: 52, g: 66, b: 78, a: 255 }),
{
    Rgba { r: 52, g: 66, b: 78, a: 255 }
}

pub fn warning_fill() -> (c: Rgba)
    ensures
        c == (Rgba { r: 78, g: 62, b: 34, a: 255 }),
{
    Rgba { r: 78, g: 62, b: 34, a: 255 }
}

pub fn included() -> (c: Rgba)
    ensures
        c == (Rgba { r: 150, g: 150, b: 150, a: 255 }),
{
    Rgba { r: 150, g: 150, b: 150, a: 255 }
}

pub fn included_fill() -> (c: Rgba)
    ensures
        c == (Rgba { r: 56, g: 72, b: 56, a: 255 }),
{
    Rgba { r: 56, g: 72, b: 56, a: 255 }
}

pub fn conflict() -> (c: Rgba)
    ensures
        c == (Rgba { r: 208, g: 96, b: 96, a: 255 }),
{
    Rgba { r: 208, g: 96, b: 96, a: 255 }
}

pub fn conflict_parent() -> (c: Rgba)
    ensures
        c == (Rgba { r: 220, g: 122, b: 122, a: 255 }),
{
    Rgba { r: 220, g: 122, b: 122, a: 255 }
}

pub fn warning_parent() -> (c: Rgba)
    ensures
        c == (Rgba { r: 222, g: 182, b: 92, a: 255 }),
{
    Rgba { r: 222, g: 182, b: 92, a: 255 }
}

pub fn status_running() -> (c: Rgba)
    ensures
        c == (Rgba { r: 168, g: 204, b: 98, a: 255 }),
{
    Rgba { r: 168, g: 204, b: 98, a: 255 }
}

pub fn status_preparing() -> (c: Rgba)
    ensures
        c == (Rgba { r: 180, g: 170, b: 220, a: 255 }),
{
    Rgba { r: 180, g: 170, b: 220, a: 255 }
}

pub fn status_idle() -> (c: Rgba)
    ensures
        c == (Rgba { r: 170, g: 170, b: 170, a: 255 }),
{
    Rgba { r: 170, g: 170, b: 170, a: 255 }
}

pub fn nav_disabled_text() -> (c: Rgba)
    ensures
        c == (Rgba { r: 120, g: 120, b: 120, a: 255 }),
{
    Rgba { r: 120, g: 120, b: 120, a: 255 }
}

pub fn nav_disabled_fill() -> (c: Rgba)
    ensures
        c == (Rgba { r: 45, g: 45, b: 45, a: 255 }),
{
    Rgba { r: 45, g: 45, b: 45, a: 255 }
}

pub fn nav_disabled_stroke() -> (c: Rgba)
    ensures
        c == (Rgba { r: 70, g: 70, b: 70, a: 255 }),
{
    Rgba { r: 70, g: 70, b: 70, a: 255 }
}

pub fn terminal_default() -> (c: Rgba)
    ensures
        c == (Rgba { r: 210, g: 210, b: 210, a: 255 }),
{
    Rgba { r: 210, g: 210, b: 210, a: 255 }
}

pub fn terminal_error() -> (c: Rgba)
    ensures
        c == (Rgba { r: 230, g: 96, b: 96, a: 255 }),
{
    Rgba { r: 230, g: 96, b: 96, a: 255 }
}

pub fn terminal_debug() -> (c: Rgba)
    ensures
        c == (Rgba { r: 70, g: 110, b: 180, a: 255 }),
{
    Rgba { r: 70, g: 110, b: 180, a: 255 }
}

pub fn terminal_sent() -> (c: Rgba)
    ensures
        c == (Rgba { r: 110, g: 190, b: 255, a: 255 }),
{
    Rgba { r: 110, g: 190, b: 255, a: 255 }
}

pub fn terminal_info() -> (c: Rgba)
    ensures
        c == (Rgba { r: 168, g: 204, b: 98, a: 255 }),
{
    Rgba { r: 168, g: 204, b: 98, a: 255 }
}

pub fn terminal_amber() -> (c: Rgba)
    ensures
        c == (Rgba { r: 214, g: 168, b: 96, a: 255 }),
{
    Rgba { r: 214, g: 168, b: 96, a: 255 }
}

pub fn terminal_sand() -> (c: Rgba)
    ensures
        c == (Rgba { r: 214, g: 182, b: 146, a: 255 }),
{
    Rgba { r: 214, g: 182, b: 146, a: 255 }
}

pub fn terminal_dim() -> (c: Rgba)
    ensures
        c == (Rgba { r: 150, g: 150, b: 150, a: 255 }),
{
    Rgba { r: 150, g: 150, b: 150, a: 255 }
}

/// The colour of a console token class.
pub fn tone_color(tone: TokenTone) -> (c: Rgba)
    ensures
        c == (match tone {
            TokenTone::Default => Rgba { r: 210, g: 210, b: 210, a: 255 },
            TokenTone::Error => Rgba { r: 230, g: 96, b: 96, a: 255 },
            TokenTone::Warning => Rgba { r: 214, g: 168, b: 96, a: 255 },
            TokenTone::Debug => Rgba { r: 70, g: 110, b: 180, a: 255 },
            TokenTone::Info => Rgba { r: 168, g: 204, b: 98, a: 255 },
            TokenTone::Sent => Rgba { r: 110, g: 190, b: 255, a: 255 },
            TokenTone::Sand => Rgba { r: 214, g: 182, b: 146, a: 255 },
            TokenTone::Dim => Rgba { r: 150, g: 150, b: 150, a: 255 },
            TokenTone::Success => Rgba { r: 124, g: 196, b: 124, a: 255 },
        }),
{
    match tone {
        TokenTone::Default => terminal_default(),
        TokenTone::Error => terminal_error(),
        TokenTone::Warning => terminal_amber(),
        TokenTone::Debug => terminal_debug(),
        TokenTone::Info => terminal_info(),
        TokenTone::Sent => terminal_sent(),
        TokenTone::Sand => terminal_sand(),
        TokenTone::Dim => terminal_dim(),
        TokenTone::Success => success(),
    }
}

} // verus!
