//! The notifications of the orchestrator: the toasts waiting to be shown and
//! a short history of the latest ones.
use vstd::prelude::*;

use crate::palette::{
    palette_values, redesign_error, redesign_error_emphasis, redesign_info, redesign_success,
    redesign_warning, Rgba,
};
use crate::ui_kit::ThemePalette;

verus! {

/// How many notifications the history keeps.
pub const HISTORY_CAP: usize = 5;

/// The severity of a notification.
#[derive(Debug, Clone, Copy, PartialEq, Eq, Structural)]
pub enum NoticeKind {
    Success,
    Info,
    Warning,
    Error,
}

/// A notification kept in the history.
#[derive(Debug)]
pub struct NotificationRecord {
    pub kind: NoticeKind,
    pub text: String,
    pub added_at: std::time::Instant,
}

/// The current moment of the monotonic clock (`std::time::Instant::now`);
/// nothing is promised of the value.
#[verifier::external_body]
fn now() -> std::time::Instant {
    std::time::Instant::now()
}

/// The toasts waiting to be shown, and the latest notifications.
pub struct NotificationManager {
    pending: Vec<(NoticeKind, String, bool)>,
    history: std::collections::VecDeque<NotificationRecord>,
    pub history_open: bool,
}

/// The history after one more notification: the oldest goes first once the
/// cap is reached.
pub open spec fn capped_push(h: Seq<(NoticeKind, Seq<char>)>, n: (NoticeKind, Seq<char>)) -> Seq<
    (NoticeKind, Seq<char>),
> {
    if h.len() >= HISTORY_CAP {
        h.drop_first().push(n)
    } else {
        h.push(n)
    }
}

impl NotificationManager {
    /// The toasts waiting to be shown: kind, text and whether it stays until
    /// closed.
    pub closed spec fn pending_view(&self) -> Seq<(NoticeKind, Seq<char>, bool)> {
        Seq::new(
            self.pending@.len(),
            |i: int| (self.pending@[i].0, self.pending@[i].1@, self.pending@[i].2),
        )
    }

    /// The kept notifications, oldest first: kind and text.
    pub closed spec fn history_view(&self) -> Seq<(NoticeKind, Seq<char>)> {
        Seq::new(self.history@.len(), |i: int| (self.history@[i].kind, self.history@[i].text@))
    }

    /// The history panel is open.
    pub closed spec fn open_view(&self) -> bool {
        self.history_open
    }

    /// The history holds at most `HISTORY_CAP` notifications.
    pub closed spec fn wf(&self) -> bool {
        self.history@.len() <= HISTORY_CAP
    }

    pub fn new() -> (m: Self)
        ensures
            m.wf(),
            m.pending_view().len() == 0,
            m.history_view().len() == 0,
            !m.open_view(),
    {
        NotificationManager { pending: Vec::new(), history: std::collections::VecDeque::new(), history_open: false }
    }

    /// Queues a toast and records it in the history.
    fn push(&mut self, kind: NoticeKind, text: String, persistent: bool)
        requires
            old(self).wf(),
        ensures
            final(self).wf(),
            final(self).pending_view() == old(self).pending_view().push((kind, text@, persistent)),
            final(self).history_view() == capped_push(old(self).history_view(), (kind, text@)),
            final(self).open_view() == old(self).open_view(),
    {
        let ghost old_pending = self.pending_view();
        let ghost old_history = self.history_view();
        let copy = text.clone();
        self.pending.push((kind, copy, persistent));
        assert(self.pending_view() =~= old_pending.push((kind, text@, persistent)));
        if self.history.len() == HISTORY_CAP {
            let ghost before = self.history@;
            let _ = self.history.pop_front();
            assert(self.history@ =~= before.drop_first());
        }
        let ghost mid = self.history@;
        self.history.push_back(NotificationRecord { kind, text, added_at: now() });
        assert(self.history@ == mid.push(self.history@.last()));
        assert(self.history_view() =~= capped_push(old_history, (kind, text@)));
    }

    pub fn success(&mut self, text: String)
        requires
            old(self).wf(),
        ensures
            final(self).wf(),
            final(self).pending_view() == old(self).pending_view().push(
                (NoticeKind::Success, text@, false),
            ),
            final(self).history_view() == capped_push(
                old(self).history_view(),
                (NoticeKind::Success, text@),
            ),
            final(self).open_view() == old(self).open_view(),
    {
        self.push(NoticeKind::Success, text, false);
    }

    pub fn info(&mut self, text: String)
        requires
            old(self).wf(),
        ensures
            final(self).wf(),
            final(self).pending_view() == old(self).pending_view().push(
                (NoticeKind::Info, text@, false),
            ),
            final(self).history_view() == capped_push(
                old(self).history_view(),
                (NoticeKind::Info, text@),
            ),
            final(self).open_view() == old(self).open_view(),
    {
        self.push(NoticeKind::Info, text, false);
    }

    pub fn warn(&mut self, text: String)
        requires
            old(self).wf(),
        ensures
            final(self).wf(),
            final(self).pending_view() == old(self).pending_view().push(
                (NoticeKind::Warning, text@, false),
            ),
            final(self).history_view() == capped_push(
                old(self).history_view(),
                (NoticeKind::Warning, text@),
            ),
            final(self).open_view() == old(self).open_view(),
    {
        self.push(NoticeKind::Warning, text, false);
    }

    /// A warning that stays until it is closed.
    pub fn warn_persistent(&mut self, text: String)
        requires
            old(self).wf(),
        ensures
            final(self).wf(),
            final(self).pending_view() == old(self).pending_view().push(
                (NoticeKind::Warning, text@, true),
            ),
            final(self).history_view() == capped_push(
                old(self).history_view(),
                (NoticeKind::Warning, text@),
            ),
            final(self).open_view() == old(self).open_view(),
    {
        self.push(NoticeKind::Warning, text, true);
    }

    pub fn error(&mut self, text: String)
        requires
            old(self).wf(),
        ensures
            final(self).wf(),
            final(self).pending_view() == old(self).pending_view().push(
                (NoticeKind::Error, text@, false),
            ),
            final(self).history_view() == capped_push(
                old(self).history_view(),
                (NoticeKind::Error, text@),
            ),
            final(self).open_view() == old(self).open_view(),
    {
        self.push(NoticeKind::Error, text, false);
    }

    /// The kept notifications, oldest first.
    pub fn history(&self) -> (h: &std::collections::VecDeque<NotificationRecord>)
        ensures
            h@.len() == self.history_view().len(),
            forall|i: int|
                0 <= i < h@.len() ==> (#[trigger] h@[i]).kind == self.history_view()[i].0
                    && h@[i].text@ == self.history_view()[i].1,
    {
        &self.history
    }

    pub fn has_history(&self) -> (r: bool)
        ensures
            r == (self.history_view().len() > 0),
    {
        self.history.len() > 0
    }

    /// Hands out the toasts waiting to be shown, in order, and forgets them.
    pub fn take_pending(&mut self) -> (p: Vec<(NoticeKind, String, bool)>)
        requires
            old(self).wf(),
        ensures
            final(self).wf(),
            Seq::new(p@.len(), |i: int| (p@[i].0, p@[i].1@, p@[i].2)) == old(self).pending_view(),
            final(self).pending_view().len() == 0,
            final(self).history_view() == old(self).history_view(),
            final(self).open_view() == old(self).open_view(),
    {
        let mut taken: Vec<(NoticeKind, String, bool)> = Vec::new();
        std::mem::swap(&mut taken, &mut self.pending);
        assert(Seq::new(taken@.len(), |i: int| (taken@[i].0, taken@[i].1@, taken@[i].2))
            =~= old(self).pending_view());
        assert(self.pending_view() =~= Seq::empty());
        taken
    }
}

/// How long a toast stays.
#[derive(Debug, Clone, Copy, PartialEq, Eq, Structural)]
pub struct ToastTiming {
    /// seconds before it goes; `None` keeps it until closed
    pub ttl_secs: Option<u32>,
    /// a countdown bar is drawn
    pub show_progress: bool,
}

/// Successes and infos stay three seconds, warnings four, with a countdown;
/// errors and persistent toasts stay until closed, without one.
pub open spec fn toast_timing_spec(kind: NoticeKind, persistent: bool) -> ToastTiming {
    if persistent {
        ToastTiming { ttl_secs: None, show_progress: false }
    } else {
        match kind {
            NoticeKind::Success => ToastTiming { ttl_secs: Some(3), show_progress: true },
            NoticeKind::Info => ToastTiming { ttl_secs: Some(3), show_progress: true },
            NoticeKind::Warning => ToastTiming { ttl_secs: Some(4), show_progress: true },
            NoticeKind::Error => ToastTiming { ttl_secs: None, show_progress: false },
        }
    }
}

pub fn toast_timing(kind: NoticeKind, persistent: bool) -> (t: ToastTiming)
    ensures
        t == toast_timing_spec(kind, persistent),
{
    if persistent {
        ToastTiming { ttl_secs: None, show_progress: false }
    } else {
        match kind {
            NoticeKind::Success => ToastTiming { ttl_secs: Some(3), show_progress: true },
            NoticeKind::Info => ToastTiming { ttl_secs: Some(3), show_progress: true },
            NoticeKind::Warning => ToastTiming { ttl_secs: Some(4), show_progress: true },
            NoticeKind::Error => ToastTiming { ttl_secs: None, show_progress: false },
        }
    }
}

// ------------------------------------------------------------- toast colours

/// The accent colour of a toast of `kind` (its border mark and icon).
pub open spec fn accent_spec(kind: NoticeKind, palette: ThemePalette) -> Rgba {
    let v = palette_values(palette);
    match kind {
        NoticeKind::Success => v.success,
        NoticeKind::Info => v.info,
        NoticeKind::Warning => v.warning,
        NoticeKind::Error => v.error_emphasis,
    }
}

/// The accent colour of a toast of `kind`.
pub fn accent_color_for(kind: NoticeKind, palette: ThemePalette) -> (c: Rgba)
    ensures
        c == accent_spec(kind, palette),
{
    match kind {
        NoticeKind::Success => redesign_success(palette),
        NoticeKind::Info => redesign_info(palette),
        NoticeKind::Warning => redesign_warning(palette),
        NoticeKind::Error => redesign_error_emphasis(palette),
    }
}

/// The text colour of a toast of `kind`.
pub fn text_color_for(kind: NoticeKind, palette: ThemePalette) -> (c: Rgba)
    ensures
        c == (match kind {
            NoticeKind::Success => palette_values(palette).success,
            NoticeKind::Info => palette_values(palette).info,
            NoticeKind::Warning => palette_values(palette).warning,
            NoticeKind::Error => palette_values(palette).error,
        }),
{
    match kind {
        NoticeKind::Success => redesign_success(palette),
        NoticeKind::Info => redesign_info(palette),
        NoticeKind::Warning => redesign_warning(palette),
        NoticeKind::Error => redesign_error(palette),
    }
}

/// In either palette, toasts of two different severities have different
/// accent colours.
pub proof fn law_severity_accents_differ(a: NoticeKind, b: NoticeKind, palette: ThemePalette)
    requires
        a != b,
    ensures
        accent_spec(a, palette) != accent_spec(b, palette),
{
}

} // verus!
