use lib::ui_kit::{
    account_card_view, brand_asset_size, btn_style, share_outcome, AccountCard, BtnFill, BtnOpts,
    BtnText, CardState, ConfirmOutcome, ShareOutcome, ThemePalette,
};

#[test]
fn theme_palette_default_is_dark() {
    assert_eq!(ThemePalette::default(), ThemePalette::Dark);
}

#[test]
fn source_picks_the_smallest_asset_that_covers_the_bucket() {
    assert_eq!(brand_asset_size(50), brand_asset_size(64));
    assert_ne!(brand_asset_size(64), brand_asset_size(100));
    assert_ne!(brand_asset_size(128), brand_asset_size(200));
}

#[test]
fn brand_asset_sizes_are_exact() {
    assert_eq!(brand_asset_size(0), 64);
    assert_eq!(brand_asset_size(64), 64);
    assert_eq!(brand_asset_size(65), 128);
    assert_eq!(brand_asset_size(128), 128);
    assert_eq!(brand_asset_size(129), 256);
    assert_eq!(brand_asset_size(u32::MAX), 256);
}

#[test]
fn danger_wins_over_primary_and_disabled_halves_the_alpha() {
    let s = btn_style(BtnOpts {
        primary: true,
        danger: true,
        disabled: true,
        ..Default::default()
    });
    assert_eq!(s.fill, BtnFill::Danger);
    assert_eq!(s.text, BtnText::OnFill);
    assert!(!s.clickable);
    assert_eq!((s.alpha_num, s.alpha_den), (1, 2));

    let plain = btn_style(BtnOpts::default());
    assert_eq!(plain.fill, BtnFill::Shell);
    assert_eq!(plain.text, BtnText::Primary);
    assert!(plain.clickable);
    assert!(!plain.full_width);
    assert_eq!((plain.alpha_num, plain.alpha_den), (1, 1));

    let block = btn_style(BtnOpts {
        primary: true,
        block: true,
        ..Default::default()
    });
    assert_eq!(block.fill, BtnFill::Accent);
    assert!(block.full_width);
}

#[test]
fn dialog_outcomes_start_pending() {
    assert_eq!(ConfirmOutcome::default(), ConfirmOutcome::Pending);
    assert_eq!(ShareOutcome::default(), ShareOutcome::Pending);
}

#[test]
fn share_choices_need_a_code_and_closing_wins() {
    assert_eq!(share_outcome(false, true, true, false, false), ShareOutcome::Pending);
    assert_eq!(share_outcome(true, true, false, false, false), ShareOutcome::ExportFile);
    assert_eq!(share_outcome(true, false, true, false, false), ShareOutcome::CopyCode);
    assert_eq!(share_outcome(true, true, true, false, true), ShareOutcome::Closed);
    assert_eq!(share_outcome(false, false, false, true, false), ShareOutcome::Closed);
}

#[test]
fn a_connected_card_names_the_handle_once_and_offers_to_disconnect() {
    let card = AccountCard {
        initials: "GH",
        service_name: "GitHub",
        state: CardState::Connected { user_label: "@@b2bs" },
        connect_label: "Connect",
        disconnect_label: "Disconnect",
        disabled: false,
    };
    let v = account_card_view(&card);
    assert_eq!(v.handle_line.as_deref(), Some("as @b2bs"));
    assert_eq!(v.button_label, "Disconnect");
    assert!(!v.button_primary);
    assert_eq!(v.pill_text, "connected");

    let card = AccountCard {
        state: CardState::NotConnected,
        ..card
    };
    let v = account_card_view(&card);
    assert_eq!(v.handle_line, None);
    assert_eq!(v.button_label, "Connect");
    assert!(v.button_primary);
    assert_eq!(v.pill_text, "not connected");
}
