//! Navigation decisions of the orchestrator: the path-validation summary in
//! the status bar, when a finished install's screen is reset, when a
//! workspace save must wait, and the fork lineage of a modlist.
use vstd::prelude::*;

use crate::state::{Step5State, WizardState};
use crate::text::{decimal, push_decimal, push_str, trim, trimmed_chars};

verus! {

/// Whether the configured paths are valid, or how many issues they have.
#[derive(Debug, Clone, PartialEq, Eq, Structural)]
pub enum PathValidationKind {
    Valid,
    Invalid(usize),
}

/// The status-bar summary of the path validation.
#[derive(Debug, Clone)]
pub struct PathValidationSummary {
    pub kind: PathValidationKind,
    pub text: String,
}

impl Default for PathValidationSummary {
    /// Nothing validated yet: no issue counted, "paths not configured".
    fn default() -> (s: Self)
        ensures
            s.kind == PathValidationKind::Invalid(0),
            s.text@ == "paths not configured"@,
    {
        PathValidationSummary {
            kind: PathValidationKind::Invalid(0),
            text: String::from_str("paths not configured"),
        }
    }
}

/// The summary text for a number of path issues.
pub open spec fn issue_text(n: nat) -> Seq<char> {
    if n == 0 {
        "\u{00D7} paths not configured"@
    } else if n == 1 {
        "\u{00D7} 1 path issue"@
    } else {
        "\u{00D7} "@ + decimal(n) + " path issues"@
    }
}

/// The number of issues a failed path check reported.
pub open spec fn issue_count_of(path_check: Option<(bool, Vec<String>)>) -> nat {
    match path_check {
        Some((ok, lines)) => if !ok { lines@.len() } else { 0 },
        None => 0,
    }
}

/// The status-bar summary: all paths ok, or the number of issues of the
/// last failed path check (`path_check` holds its outcome and its message
/// split into lines).
pub fn compute_path_validation_summary(
    paths_ok: bool,
    path_check: &Option<(bool, Vec<String>)>,
) -> (s: PathValidationSummary)
    ensures
        paths_ok ==> s.kind == PathValidationKind::Valid && s.text@
            == "weidu v\u{2026} \u{00B7} all paths ok"@,
        !paths_ok ==> s.kind == PathValidationKind::Invalid(issue_count_of(*path_check) as usize)
            && s.text@ == issue_text(issue_count_of(*path_check)),
{
    if paths_ok {
        return PathValidationSummary {
            kind: PathValidationKind::Valid,
            text: String::from_str("weidu v\u{2026} \u{00B7} all paths ok"),
        };
    }
    let issue_count: usize = match path_check {
        Some((ok, lines)) => if !*ok {
            lines.len()
        } else {
            0
        },
        None => 0,
    };
    let text = if issue_count == 0 {
        String::from_str("\u{00D7} paths not configured")
    } else if issue_count == 1 {
        String::from_str("\u{00D7} 1 path issue")
    } else {
        let mut t = String::from_str("\u{00D7} ");
        push_decimal(&mut t, issue_count);
        push_str(&mut t, " path issues");
        t
    };
    PathValidationSummary { kind: PathValidationKind::Invalid(issue_count), text }
}

/// The summary text of a count of issues found by the settings screen.
pub open spec fn issues_found_text(n: nat) -> Seq<char> {
    "\u{00D7} "@ + decimal(n) + " path issues"@
}

/// The settings screen found issues that the status bar does not show
/// yet: the summary turns to that count. Otherwise it stays.
pub fn refresh_path_validation_status(summary: &mut PathValidationSummary, issue_count: usize)
    ensures
        issue_count > 0 && old(summary).kind == PathValidationKind::Valid ==> final(summary).kind
            == PathValidationKind::Invalid(issue_count) && final(summary).text@ == issues_found_text(
            issue_count as nat,
        ),
        !(issue_count > 0 && old(summary).kind == PathValidationKind::Valid) ==> *final(summary)
            == *old(summary),
{
    let valid = match summary.kind {
        PathValidationKind::Valid => true,
        PathValidationKind::Invalid(_) => false,
    };
    if issue_count > 0 && valid {
        let mut text = String::from_str("\u{00D7} ");
        push_decimal(&mut text, issue_count);
        push_str(&mut text, " path issues");
        proof {
            reveal_strlit("\u{00D7} ");
            reveal_strlit(" path issues");
        }
        summary.kind = PathValidationKind::Invalid(issue_count);
        summary.text = text;
    }
}

// ------------------------------------------------------------ page router

/// The pages of the orchestrator.
#[derive(Debug, Clone, PartialEq, Eq)]
pub enum NavDestination {
    Home,
    Install,
    Create,
    Settings,
    Workspace { modlist_id: Option<String> },
}

/// The stages of the install screen.
#[derive(Debug, Clone, Copy, PartialEq, Eq, Structural)]
pub enum InstallStage {
    Paste,
    Gallery,
    Downloading,
    InstallingStub,
}

/// What the install pipeline is run for.
#[derive(Debug, Clone, Copy, PartialEq, Eq, Structural)]
pub enum PipelineKind {
    Install,
    Fork,
}

/// The latches of a running install pipeline.
#[derive(Debug, Clone, Copy, PartialEq, Eq, Structural)]
pub struct PipelineFlags {
    pub armed: bool,
    pub archives_staged: bool,
    pub archive_skip_completed: bool,
    pub download_phase_started: bool,
    pub archives_verified: bool,
}

impl PipelineFlags {
    /// No latch set.
    pub open spec fn is_clear(self) -> bool {
        !self.armed && !self.archives_staged && !self.archive_skip_completed
            && !self.download_phase_started && !self.archives_verified
    }

    /// Every latch down.
    pub fn cleared() -> (f: PipelineFlags)
        ensures
            f.is_clear(),
    {
        PipelineFlags {
            armed: false,
            archives_staged: false,
            archive_skip_completed: false,
            download_phase_started: false,
            archives_verified: false,
        }
    }
}

/// Progress of the hashing and extraction passes: (done, total).
#[derive(Debug, Clone, Copy)]
pub struct DownloadProgress {
    pub hash_progress: Option<(usize, usize)>,
    pub extract_progress: Option<(usize, usize)>,
}

/// The install screen.
#[derive(Debug, Clone)]
pub struct InstallScreenState {
    pub stage: InstallStage,
    pub pipeline_kind: PipelineKind,
    pub pipeline_flags: PipelineFlags,
    pub download_progress: DownloadProgress,
    /// Indices of the archives already hashed.
    pub hashed_indices: Vec<usize>,
    /// Indices of the archives the archive check found already present.
    pub skip_indices: Vec<usize>,
}

impl Default for InstallScreenState {
    fn default() -> (s: Self)
        ensures
            s.stage == InstallStage::Paste,
            s.pipeline_kind == PipelineKind::Install,
            s.pipeline_flags.is_clear(),
            s.download_progress.hash_progress is None,
            s.download_progress.extract_progress is None,
            s.hashed_indices@.len() == 0,
            s.skip_indices@.len() == 0,
    {
        InstallScreenState {
            stage: InstallStage::Paste,
            pipeline_kind: PipelineKind::Install,
            pipeline_flags: PipelineFlags::cleared(),
            download_progress: DownloadProgress { hash_progress: None, extract_progress: None },
            hashed_indices: Vec::new(),
            skip_indices: Vec::new(),
        }
    }
}

impl InstallScreenState {
    /// The screen holds a route into an install run.
    pub fn has_route_context(&self) -> (r: bool)
        ensures
            r == (self.stage == InstallStage::InstallingStub),
    {
        match self.stage {
            InstallStage::InstallingStub => true,
            _ => false,
        }
    }

    /// Back to pasting a modlist code.
    pub fn reset_to_paste(&mut self)
        ensures
            final(self).stage == InstallStage::Paste,
            final(self).pipeline_kind == old(self).pipeline_kind,
            final(self).pipeline_flags == old(self).pipeline_flags,
            final(self).download_progress == old(self).download_progress,
            final(self).hashed_indices@ == old(self).hashed_indices@,
            final(self).skip_indices@ == old(self).skip_indices@,
    {
        self.stage = InstallStage::Paste;
    }

    /// Drops what a previewed or running pipeline left on the screen: the
    /// latches, the progress counters, the hashed archives and the archives
    /// found present.
    pub fn clear_preview(&mut self)
        ensures
            final(self).stage == old(self).stage,
            final(self).pipeline_kind == old(self).pipeline_kind,
            final(self).pipeline_flags.is_clear(),
            final(self).download_progress.hash_progress is None,
            final(self).download_progress.extract_progress is None,
            final(self).hashed_indices@.len() == 0,
            final(self).skip_indices@.len() == 0,
    {
        self.pipeline_flags = PipelineFlags::cleared();
        self.download_progress = DownloadProgress { hash_progress: None, extract_progress: None };
        self.hashed_indices = Vec::new();
        self.skip_indices = Vec::new();
    }
}

pub open spec fn is_install(nav: NavDestination) -> bool {
    nav matches NavDestination::Install
}

fn nav_is_install(nav: &NavDestination) -> (r: bool)
    ensures
        r == is_install(*nav),
{
    match nav {
        NavDestination::Install => true,
        _ => false,
    }
}

/// The last install run ended cleanly: exit code 0 and not marked failed.
pub open spec fn clean_exit_spec(s: Step5State) -> bool {
    s.last_exit_code == Some(0i32) && !s.last_install_failed
}

pub fn clean_exit(wizard_state: &WizardState) -> (r: bool)
    ensures
        r == clean_exit_spec(wizard_state.step5),
{
    match wizard_state.step5.last_exit_code {
        Some(code) => code == 0 && !wizard_state.step5.last_install_failed,
        None => false,
    }
}

/// An install attempt is under way: requested, preparing, running, being
/// cancelled, or waiting to start.
pub open spec fn attempt_in_progress(s: Step5State, has_pending_step5_start: bool) -> bool {
    s.start_install_requested || s.prep_running || s.install_running || s.cancel_pending
        || s.cancel_requested || has_pending_step5_start
}

pub fn step5_attempt_in_progress(wizard_state: &WizardState, has_pending_step5_start: bool) -> (r: bool)
    ensures
        r == attempt_in_progress(wizard_state.step5, has_pending_step5_start),
{
    let s = &wizard_state.step5;
    s.start_install_requested || s.prep_running || s.install_running || s.cancel_pending
        || s.cancel_requested || has_pending_step5_start
}

/// A finished install route should be reset: the screen holds a route, no
/// attempt is under way, and the last run ended cleanly.
pub open spec fn should_reset_spec(
    iss: InstallScreenState,
    w: WizardState,
    has_pending_step5_start: bool,
) -> bool {
    iss.stage == InstallStage::InstallingStub && !attempt_in_progress(w.step5, has_pending_step5_start)
        && clean_exit_spec(w.step5)
}

pub fn should_reset_completed_install_route(
    install_screen_state: &InstallScreenState,
    wizard_state: &WizardState,
    has_pending_step5_start: bool,
) -> (r: bool)
    ensures
        r == should_reset_spec(*install_screen_state, *wizard_state, has_pending_step5_start),
{
    install_screen_state.has_route_context() && !step5_attempt_in_progress(
        wizard_state,
        has_pending_step5_start,
    ) && clean_exit(wizard_state)
}

/// Reset the finished route when the user is away from the install page.
pub fn should_reset_completed_install_route_on_nav_away(
    nav: &NavDestination,
    install_screen_state: &InstallScreenState,
    wizard_state: &WizardState,
    has_pending_step5_start: bool,
) -> (r: bool)
    ensures
        r == (!is_install(*nav) && should_reset_spec(
            *install_screen_state,
            *wizard_state,
            has_pending_step5_start,
        )),
{
    !nav_is_install(nav) && should_reset_completed_install_route(
        install_screen_state,
        wizard_state,
        has_pending_step5_start,
    )
}

/// Reset the finished route when the user comes to the install page from
/// another page.
pub fn should_reset_completed_install_route_on_enter_install(
    previous_nav: &NavDestination,
    current_nav: &NavDestination,
    install_screen_state: &InstallScreenState,
    wizard_state: &WizardState,
    has_pending_step5_start: bool,
) -> (r: bool)
    ensures
        r == (is_install(*current_nav) && !is_install(*previous_nav) && should_reset_spec(
            *install_screen_state,
            *wizard_state,
            has_pending_step5_start,
        )),
{
    nav_is_install(current_nav) && !nav_is_install(previous_nav)
        && should_reset_completed_install_route(
        install_screen_state,
        wizard_state,
        has_pending_step5_start,
    )
}

/// One ticked component remembered across a rescan.
#[derive(Debug, Clone, PartialEq, Eq)]
pub struct RescanSelection {
    pub tp2_upper: String,
    pub component_id: String,
    pub selected_order: Option<usize>,
}

/// The ticked components of both games, taken before a rescan.
#[derive(Debug, Clone, PartialEq, Eq)]
pub struct RescanSnapshot {
    pub bgee: Vec<RescanSelection>,
    pub bg2ee: Vec<RescanSelection>,
}

/// The workspace's step 2 restore state.
#[derive(Debug, Clone, Default)]
pub struct WorkspaceStep2State {
    pub rescan_snapshot: Option<RescanSnapshot>,
    pub resume_pending: bool,
}

/// A restore is in flight (a snapshot is held or a resume is pending), so
/// the workspace must not be saved yet.
pub fn restore_pending(step2: &WorkspaceStep2State) -> (r: bool)
    ensures
        r == (step2.rescan_snapshot is Some || step2.resume_pending),
{
    step2.rescan_snapshot.is_some() || step2.resume_pending
}

/// What leaving a loaded workspace asks for.
#[derive(Debug, Clone, PartialEq, Eq)]
pub enum WorkspaceFlush {
    /// No workspace is loaded, or the page still shows it.
    Stay,
    /// A restore is in flight: unload without saving, so the half-restored
    /// order does not overwrite the saved one.
    UnloadWithoutSaving,
    /// Save the workspace with this id, then unload it.
    SaveAndUnload(String),
}

/// The page shows the workspace with this id.
pub open spec fn shows_workspace(nav: NavDestination, id: Seq<char>) -> bool {
    match nav {
        NavDestination::Workspace { modlist_id: Some(cur) } => cur@ == id,
        _ => false,
    }
}

/// What to do with the loaded workspace (`loaded_workspace_id`) now that
/// the page is `nav`.
pub fn workspace_flush_on_nav_away(
    loaded_workspace_id: &Option<String>,
    nav: &NavDestination,
    step2: &WorkspaceStep2State,
) -> (f: WorkspaceFlush)
    ensures
        match *loaded_workspace_id {
            None => f == WorkspaceFlush::Stay,
            Some(id) => if shows_workspace(*nav, id@) {
                f == WorkspaceFlush::Stay
            } else if step2.rescan_snapshot is Some || step2.resume_pending {
                f == WorkspaceFlush::UnloadWithoutSaving
            } else {
                f matches WorkspaceFlush::SaveAndUnload(saved) && saved@ == id@
            },
        },
{
    let id = match loaded_workspace_id {
        Some(id) => id,
        None => {
            return WorkspaceFlush::Stay;
        },
    };
    if let NavDestination::Workspace { modlist_id: Some(cur) } = nav {
        if crate::text::str_eq(cur.as_str(), id.as_str()) {
            return WorkspaceFlush::Stay;
        }
    }
    if restore_pending(step2) {
        return WorkspaceFlush::UnloadWithoutSaving;
    }
    WorkspaceFlush::SaveAndUnload(id.clone())
}

/// Leaving the install page before an install started drops the pending
/// reinstall and the install's modlist id; nothing is dropped while on the
/// install page or while an install is requested, preparing or running.
pub fn clear_pending_reinstall_on_nav_away_from_install(
    nav: &NavDestination,
    step5: &Step5State,
    pending_reinstall_id: &mut Option<String>,
    active_install_modlist_id: &mut Option<String>,
)
    ensures
        ({
            let keep = is_install(*nav) || step5.install_running || step5.start_install_requested
                || step5.prep_running;
            &&& keep ==> *final(pending_reinstall_id) == *old(pending_reinstall_id)
                && *final(active_install_modlist_id) == *old(active_install_modlist_id)
            &&& !keep ==> *final(pending_reinstall_id) is None
            &&& !keep ==> *final(active_install_modlist_id) is None
        }),
{
    if pending_reinstall_id.is_none() && active_install_modlist_id.is_none() {
        return;
    }
    if nav_is_install(nav) {
        return;
    }
    if step5.install_running || step5.start_install_requested || step5.prep_running {
        return;
    }
    *pending_reinstall_id = None;
    *active_install_modlist_id = None;
}

// ------------------------------------------------------------ fork lineage

/// A modlist this one was forked from.
#[derive(Debug, Clone, PartialEq, Eq)]
pub struct ForkAncestor {
    pub name: String,
    pub author: String,
}

/// A registered modlist.
#[derive(Debug, Clone)]
pub struct ModlistEntry {
    pub name: String,
    pub forked_from: Vec<ForkAncestor>,
    pub mod_count: usize,
    pub component_count: usize,
}

/// What the workspace shows about the fork a modlist came from.
#[derive(Debug, Clone)]
pub struct ForkMeta {
    pub parent_name: String,
    pub parent_author: String,
    pub mods: usize,
    pub components: usize,
    pub forked_from: Vec<ForkAncestor>,
}

/// The fork information of a modlist: none for a modlist made from
/// scratch, else its direct parent (the last ancestor), its counts and its
/// whole lineage.
pub fn fork_meta_from_entry(entry: &ModlistEntry) -> (r: Option<ForkMeta>)
    ensures
        entry.forked_from@.len() == 0 <==> r is None,
        r matches Some(m) ==> {
            let last = entry.forked_from@.last();
            &&& m.parent_name@ == last.name@
            &&& m.parent_author@ == last.author@
            &&& m.mods == entry.mod_count
            &&& m.components == entry.component_count
            &&& m.forked_from@ == entry.forked_from@
        },
{
    let n = entry.forked_from.len();
    if n == 0 {
        return None;
    }
    let parent = &entry.forked_from[n - 1];
    let mut lineage: Vec<ForkAncestor> = Vec::new();
    let mut i: usize = 0;
    while i < n
        invariant
            i <= n,
            n == entry.forked_from@.len(),
            lineage@ == entry.forked_from@.take(i as int),
        decreases n - i,
    {
        let a = &entry.forked_from[i];
        lineage.push(ForkAncestor { name: a.name.clone(), author: a.author.clone() });
        i += 1;
        assert(lineage@ =~= entry.forked_from@.take(i as int));
    }
    assert(entry.forked_from@.take(n as int) =~= entry.forked_from@);
    Some(ForkMeta {
        parent_name: parent.name.clone(),
        parent_author: parent.author.clone(),
        mods: entry.mod_count,
        components: entry.component_count,
        forked_from: lineage,
    })
}

/// The `@author/` prefix of a lineage line: none for a blank author, the
/// trimmed author followed by `/`, with `@` added in front unless present.
pub open spec fn lineage_prefix(author: Seq<char>) -> Option<Seq<char>> {
    let t = trim(author);
    if t.len() == 0 {
        None
    } else if t[0] == '@' {
        Some(t.push('/'))
    } else {
        Some(seq!['@'] + t.push('/'))
    }
}

pub fn lineage_line_prefix(author: &str) -> (r: Option<String>)
    ensures
        match (r, lineage_prefix(author@)) {
            (Some(s), Some(p)) => s@ == p,
            (None, None) => true,
            _ => false,
        },
{
    let t = trimmed_chars(author);
    if t.len() == 0 {
        return None;
    }
    let mut s = String::new();
    if t[0] != '@' {
        crate::text::push_char(&mut s, '@');
    }
    crate::text::push_chars(&mut s, &t);
    crate::text::push_char(&mut s, '/');
    assert(s@ =~= lineage_prefix(author@)->0);
    Some(s)
}

// ------------------------------------------------------------ diagnostics

/// Diagnostic mode turns on verbose logging; a developer launch flag turns
/// on trace logging, which replaces debug logging.
pub fn apply_diagnostic_log_level(
    step1: &mut crate::state::Step1State,
    diagnostic_mode: bool,
    launched_with_dev_flag: bool,
)
    ensures
        final(step1).rust_log_trace == launched_with_dev_flag,
        final(step1).rust_log_debug == (diagnostic_mode && !launched_with_dev_flag),
        *final(step1) == (crate::state::Step1State {
            rust_log_trace: final(step1).rust_log_trace,
            rust_log_debug: final(step1).rust_log_debug,
            ..*old(step1)
        }),
{
    step1.rust_log_trace = launched_with_dev_flag;
    step1.rust_log_debug = diagnostic_mode && !launched_with_dev_flag;
}

/// Developer mode turns full debug output and raw output logging on, and
/// their absence turns them off.
pub fn apply_dev_defaults(state: &mut WizardState, dev_mode: bool)
    ensures
        final(state).step1.bio_full_debug == dev_mode,
        final(state).step1.log_raw_output_dev == dev_mode,
        *final(state) == (WizardState {
            step1: crate::state::Step1State {
                bio_full_debug: dev_mode,
                log_raw_output_dev: dev_mode,
                ..old(state).step1
            },
            ..*old(state)
        }),
{
    if dev_mode {
        state.step1.bio_full_debug = true;
        state.step1.log_raw_output_dev = true;
    } else {
        state.step1.bio_full_debug = false;
        state.step1.log_raw_output_dev = false;
    }
}

/// Why a diagnostics export is refused outside diagnostic mode.
pub open spec fn export_needs_dev_mode_text() -> Seq<char> {
    "Diagnostics export needs diagnostic mode. Turn it on in Settings > General."@
}

/// A diagnostics export may only run in diagnostic mode; otherwise it is
/// refused with the reason.
pub fn diagnostics_export_allowed(dev_mode: bool) -> (r: Result<(), String>)
    ensures
        dev_mode ==> r is Ok,
        !dev_mode ==> (r matches Err(e) && e@ == export_needs_dev_mode_text()),
{
    if dev_mode {
        Ok(())
    } else {
        Err(String::from_str("Diagnostics export needs diagnostic mode. Turn it on in Settings > General."))
    }
}

/// Step 5's status line after a diagnostics export: the file written, or
/// why it failed.
pub fn record_diagnostics_export(step5: &mut crate::state::Step5State, outcome: Result<String, String>)
    ensures
        final(step5).last_status_text@ == (match outcome {
            Ok(path) => "Diagnostics exported: "@ + path@,
            Err(err) => "Diagnostics export failed: "@ + err@,
        }),
        *final(step5) == (crate::state::Step5State {
            last_status_text: final(step5).last_status_text,
            ..*old(step5)
        }),
{
    proof {
        reveal_strlit("Diagnostics exported: ");
        reveal_strlit("Diagnostics export failed: ");
    }
    let mut text = match &outcome {
        Ok(_) => String::from_str("Diagnostics exported: "),
        Err(_) => String::from_str("Diagnostics export failed: "),
    };
    match &outcome {
        Ok(path) => crate::text::push_str(&mut text, path.as_str()),
        Err(err) => crate::text::push_str(&mut text, err.as_str()),
    }
    step5.last_status_text = text;
}

/// The rail item for `dest` is lit on page `current`; a workspace lights
/// the Create item.
pub open spec fn lights(current: NavDestination, dest: NavDestination) -> bool {
    match (current, dest) {
        (NavDestination::Home, NavDestination::Home) => true,
        (NavDestination::Install, NavDestination::Install) => true,
        (NavDestination::Create, NavDestination::Create) => true,
        (NavDestination::Workspace { .. }, NavDestination::Create) => true,
        (NavDestination::Settings, NavDestination::Settings) => true,
        _ => false,
    }
}

pub fn is_active(current: &NavDestination, dest: &NavDestination) -> (r: bool)
    ensures
        r == lights(*current, *dest),
{
    match (current, dest) {
        (NavDestination::Home, NavDestination::Home) => true,
        (NavDestination::Install, NavDestination::Install) => true,
        (NavDestination::Create, NavDestination::Create) => true,
        (NavDestination::Workspace { .. }, NavDestination::Create) => true,
        (NavDestination::Settings, NavDestination::Settings) => true,
        _ => false,
    }
}

} // verus!
