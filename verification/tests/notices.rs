use lib::notices::{
    accent_color_for, text_color_for, toast_timing, NoticeKind, NotificationManager, ToastTiming, HISTORY_CAP,
};
use lib::palette::{redesign_error, redesign_success};
use lib::ui_kit::ThemePalette;

#[test]
fn history_caps_at_five_with_fifo_eviction() {
    let mut mgr = NotificationManager::new();
    for i in 0..7_usize {
        mgr.success(format!("msg{i}"));
    }
    assert_eq!(mgr.history().len(), HISTORY_CAP);
    assert_eq!(mgr.history().front().unwrap().text, "msg2");
    assert_eq!(mgr.history().back().unwrap().text, "msg6");
}

#[test]
fn warn_persistent_queues_warning_kind_with_infinite_ttl() {
    let mut mgr = NotificationManager::new();
    mgr.warn_persistent("test persistent warning".to_string());
    let pending = mgr.take_pending();
    let (kind, text, persistent) = &pending[0];
    assert_eq!(*kind, NoticeKind::Warning);
    assert_eq!(text, "test persistent warning");
    assert!(*persistent, "warn_persistent must set persistent flag");
    assert_eq!(
        toast_timing(*kind, *persistent),
        ToastTiming {
            ttl_secs: None,
            show_progress: false
        }
    );
    assert!(mgr.take_pending().is_empty());
    assert!(mgr.has_history());
}

#[test]
fn error_ttl_infinite_progress_is_zero() {
    let t = toast_timing(NoticeKind::Error, false);
    assert_eq!(t.ttl_secs, None);
    assert!(!t.show_progress);
}

#[test]
fn timed_severities_have_nonzero_progress() {
    assert_eq!(toast_timing(NoticeKind::Success, false).ttl_secs, Some(3));
    assert_eq!(toast_timing(NoticeKind::Info, false).ttl_secs, Some(3));
    assert_eq!(toast_timing(NoticeKind::Warning, false).ttl_secs, Some(4));
    assert!(toast_timing(NoticeKind::Success, false).show_progress);
}

#[test]
fn every_kind_is_queued_in_order_and_history_starts_empty() {
    let mut mgr = NotificationManager::new();
    assert!(!mgr.has_history());
    assert!(!mgr.history_open);
    mgr.info("i".to_string());
    mgr.warn("w".to_string());
    mgr.error("e".to_string());
    let kinds: Vec<NoticeKind> = mgr.take_pending().into_iter().map(|(k, _, _)| k).collect();
    assert_eq!(kinds, vec![NoticeKind::Info, NoticeKind::Warning, NoticeKind::Error]);
    assert_eq!(mgr.history().len(), 3);
}

#[test]
fn success_color_differs_from_error_across_palettes() {
    for palette in [ThemePalette::Dark, ThemePalette::Light] {
        let s = accent_color_for(NoticeKind::Success, palette);
        let e = accent_color_for(NoticeKind::Error, palette);
        assert_ne!(s, e, "success and error must differ for {palette:?}");
    }
}

#[test]
fn info_color_differs_from_warning_across_palettes() {
    for palette in [ThemePalette::Dark, ThemePalette::Light] {
        let i = accent_color_for(NoticeKind::Info, palette);
        let w = accent_color_for(NoticeKind::Warning, palette);
        assert_ne!(i, w, "info and warning must differ for {palette:?}");
    }
}

fn assert_severities_distinct(p: ThemePalette) {
    let colors = [
        accent_color_for(NoticeKind::Success, p),
        accent_color_for(NoticeKind::Info, p),
        accent_color_for(NoticeKind::Warning, p),
        accent_color_for(NoticeKind::Error, p),
    ];
    for i in 0..colors.len() {
        for j in (i + 1)..colors.len() {
            assert_ne!(colors[i], colors[j], "severity colors[{i}] and [{j}] must differ");
        }
    }
}

#[test]
fn all_four_severities_distinct_dark() {
    assert_severities_distinct(ThemePalette::Dark);
}

#[test]
fn all_four_severities_distinct_light() {
    assert_severities_distinct(ThemePalette::Light);
}

#[test]
fn toast_text_uses_the_plain_error_colour() {
    for palette in [ThemePalette::Dark, ThemePalette::Light] {
        assert_eq!(text_color_for(NoticeKind::Error, palette), redesign_error(palette));
        assert_eq!(text_color_for(NoticeKind::Success, palette), redesign_success(palette));
        assert_eq!(accent_color_for(NoticeKind::Success, palette), redesign_success(palette));
    }
}
