//! The text report of the update / missing-mod check (the "copy report"
//! text of step 2's check popup), and the small decisions of that popup.
use vstd::prelude::*;

use crate::items::names;
use crate::lines::{
    count_line, extend_lines, join, join_lines, progress_line, push_count_line, push_line,
    push_progress_line,
};
use crate::state::{PendingLogDownload, Step2ModState, Step2State, WizardState};
use crate::text::{
    ascii_lower, chars_eq_ignore_ascii_case, chars_have_prefix, decimal, eq_ignore_ascii_case,
    has_prefix, lower_chars, trim, trimmed_chars,
};

verus! {

/// Which report the popup shows.
#[derive(Debug, Clone, Copy, PartialEq, Eq, Structural)]
pub struct PopupReportModes {
    pub exact_log: bool,
    pub good_to_go: bool,
    pub hybrid_missing: bool,
    pub hybrid_source_pending: bool,
}

// ------------------------------------------------------------ step 2 flags

/// A WeiDU log was applied for at least one game.
pub fn review_edit_any_log_applied(state: &WizardState) -> (r: bool)
    ensures
        r == (state.step2.review_edit_bgee_log_applied || state.step2.review_edit_bg2ee_log_applied),
{
    state.step2.review_edit_bgee_log_applied || state.step2.review_edit_bg2ee_log_applied
}

/// A WeiDU log was applied and some of its mods still have to be downloaded.
pub fn applied_weidu_log_has_pending_downloads(state: &WizardState) -> (r: bool)
    ensures
        r == ((state.step2.review_edit_bgee_log_applied || state.step2.review_edit_bg2ee_log_applied)
            && state.step2.log_pending_downloads@.len() > 0),
{
    review_edit_any_log_applied(state) && !state.step2.log_pending_downloads.is_empty()
}

/// The list is started from WeiDU logs and no scan has finished yet.
pub fn review_edit_waiting_for_first_scan(state: &WizardState) -> (r: bool)
    ensures
        r == (state.step1.bootstraps_from_logs && state.step2.last_scan_report is None),
{
    state.step1.bootstraps_from_weidu_logs() && state.step2.last_scan_report.is_none()
}

/// The list is started from WeiDU logs and a scan has finished.
pub fn review_edit_scan_complete(state: &WizardState) -> (r: bool)
    ensures
        r == (state.step1.bootstraps_from_logs && state.step2.last_scan_report is Some),
{
    state.step1.bootstraps_from_weidu_logs() && state.step2.last_scan_report.is_some()
}

/// The controls other than scanning are locked: a scan runs, or the first
/// scan of a log-started list has not finished.
pub fn non_scan_controls_locked(state: &WizardState) -> (r: bool)
    ensures
        r == (state.step2.is_scanning || (state.step1.bootstraps_from_logs
            && state.step2.last_scan_report is None)),
{
    state.step2.is_scanning || review_edit_waiting_for_first_scan(state)
}

/// The report modes for the given exact-log flags.
pub fn popup_report_modes(state: &WizardState, exact_log: bool, good_to_go: bool) -> (m: PopupReportModes)
    ensures
        m.exact_log == exact_log,
        m.good_to_go == good_to_go,
        m.hybrid_missing == ((state.step2.review_edit_bgee_log_applied
            || state.step2.review_edit_bg2ee_log_applied) && state.step2.log_pending_downloads@.len() > 0),
        m.hybrid_source_pending == (m.hybrid_missing && !state.step2.update_selected_has_run),
{
    let hybrid_missing_mode = applied_weidu_log_has_pending_downloads(state);
    PopupReportModes {
        exact_log,
        good_to_go,
        hybrid_missing: hybrid_missing_mode,
        hybrid_source_pending: hybrid_missing_mode && !state.step2.update_selected_has_run,
    }
}

// ---------------------------------------------------------------- specs

pub open spec fn l(s: &str) -> Seq<char> {
    s@
}

/// The progress lines of a running check, download and extraction.
pub open spec fn running_lines(st: Step2State, m: PopupReportModes) -> Seq<Seq<char>> {
    let check = if st.update_selected_check_running {
        seq![
            progress_line(
                if m.exact_log {
                    l("Checking missing mod sources ")
                } else if m.hybrid_missing {
                    l("Checking updates / missing mod sources ")
                } else {
                    l("Checking ")
                },
                st.update_selected_check_done_count as nat,
                st.update_selected_check_total_count as nat,
            ),
        ]
    } else {
        seq![]
    };
    let has_updates = st.update_selected_update_sources@.len() > 0;
    let download = if st.update_selected_download_running {
        seq![
            if m.exact_log {
                l("Downloading missing mod archives...")
            } else if m.hybrid_missing && has_updates {
                l("Downloading missing mod / update archives...")
            } else if m.hybrid_missing {
                l("Downloading missing mod archives...")
            } else {
                l("Downloading version archives...")
            },
        ]
    } else {
        seq![]
    };
    let extract = if st.update_selected_extract_running {
        seq![
            if m.exact_log {
                l("Extracting downloaded missing mods...")
            } else if m.hybrid_missing && has_updates {
                l("Extracting downloaded missing mods / updates...")
            } else if m.hybrid_missing {
                l("Extracting downloaded missing mods...")
            } else {
                l("Extracting downloaded versions...")
            },
        ]
    } else {
        seq![]
    };
    check + download + extract
}

/// The count lines of the report.
pub open spec fn summary_lines(st: Step2State, m: PopupReportModes) -> Seq<Seq<char>> {
    let known = st.update_selected_known_sources@.len();
    let manual = st.update_selected_manual_sources@.len();
    let unknown = st.update_selected_unknown_sources@.len();
    let missing = st.update_selected_missing_sources@.len();
    let exact_failed = st.update_selected_exact_version_failed_sources@.len();
    let updates = st.update_selected_update_sources@.len();
    let pending = st.log_pending_downloads@.len();
    if m.exact_log {
        seq![
            count_line(l("Missing mods: "), known + manual + unknown),
            count_line(l("Downloadable missing mods: "), missing),
            count_line(l("Auto sources: "), known),
            count_line(l("Manual sources: "), manual),
            count_line(l("No source entries: "), unknown),
            count_line(l("Exact version not available: "), exact_failed),
        ]
    } else if m.hybrid_source_pending {
        seq![
            count_line(l("Missing mods from applied log: "), pending),
            l("No source check run yet."),
        ]
    } else if m.hybrid_missing {
        seq![
            count_line(l("Version changes found: "), updates),
            count_line(l("Missing mods: "), pending),
            count_line(l("Downloadable missing mods: "), missing),
            count_line(l("Auto sources checked: "), known),
            count_line(l("Manual sources: "), manual),
            count_line(l("No source entries: "), unknown),
            count_line(l("Exact version not available: "), exact_failed),
        ]
    } else {
        seq![
            count_line(l("Version changes found: "), updates),
            count_line(l("Auto sources checked: "), known),
            count_line(l("Manual sources: "), manual),
            count_line(l("Missing sources: "), unknown),
        ]
    }
}

/// A titled section: the title, then the values or `None`.
pub open spec fn report_section(title: Seq<char>, values: Seq<Seq<char>>) -> Seq<Seq<char>> {
    seq![title] + if values.len() == 0 {
        seq![l("None")]
    } else {
        values
    }
}

/// A titled section after a blank line.
pub open spec fn spaced_section(title: Seq<char>, values: Seq<Seq<char>>) -> Seq<Seq<char>> {
    seq![Seq::<char>::empty()] + report_section(title, values)
}

/// A spaced section only when it has values.
pub open spec fn spaced_if_any(title: Seq<char>, values: Seq<Seq<char>>) -> Seq<Seq<char>> {
    if values.len() == 0 {
        seq![]
    } else {
        spaced_section(title, values)
    }
}

/// The labels of the mods still to download from the applied log.
pub open spec fn pending_labels(st: Step2State) -> Seq<Seq<char>> {
    Seq::new(st.log_pending_downloads@.len(), |i: int| st.log_pending_downloads@[i].label@)
}

/// The first section: its title and values.
pub open spec fn primary_section(st: Step2State, m: PopupReportModes) -> (Seq<char>, Seq<Seq<char>>) {
    if m.hybrid_source_pending {
        (l("Missing Mods From Applied Log"), pending_labels(st))
    } else if m.exact_log || m.hybrid_missing {
        (l("Downloadable Missing Mods"), names(st.update_selected_missing_sources@))
    } else {
        (l("Version changes"), names(st.update_selected_update_sources@))
    }
}

/// The source sections, which depend on the mode.
pub open spec fn mode_sections(st: Step2State, m: PopupReportModes) -> Seq<Seq<char>> {
    let known = names(st.update_selected_known_sources@);
    let manual = names(st.update_selected_manual_sources@);
    let unknown = names(st.update_selected_unknown_sources@);
    let updates = names(st.update_selected_update_sources@);
    if m.exact_log {
        spaced_section(l("Auto Sources"), known) + spaced_section(l("Manual Sources"), manual)
            + spaced_section(l("No Source Entries"), unknown)
    } else if m.hybrid_missing {
        spaced_if_any(l("Version changes"), updates) + spaced_if_any(l("Manual Sources"), manual)
            + spaced_if_any(l("No Source Entries"), unknown)
    } else {
        spaced_if_any(l("Manual"), manual) + spaced_if_any(l("Missing"), unknown)
    }
}

/// The result sections: warnings, failures, downloads and extractions.
pub open spec fn result_sections(st: Step2State, m: PopupReportModes) -> Seq<Seq<char>> {
    let missing_mode = m.exact_log || m.hybrid_missing;
    spaced_if_any(
        l("Pinned versions of the following mods not available. Latest will be installed:"),
        names(st.update_selected_version_override_warnings@),
    ) + (if missing_mode {
        spaced_if_any(
            l("Exact Version Not Available"),
            names(st.update_selected_exact_version_failed_sources@),
        )
    } else {
        seq![]
    }) + spaced_if_any(
        if missing_mode {
            l("Source Check Failed")
        } else {
            l("Failed")
        },
        names(st.update_selected_failed_sources@),
    ) + spaced_if_any(l("Downloaded"), names(st.update_selected_downloaded_sources@))
        + spaced_if_any(l("Download Failed"), names(st.update_selected_download_failed_sources@))
        + spaced_if_any(l("Extracted"), names(st.update_selected_extracted_sources@))
        + spaced_if_any(l("Extract Failed"), names(st.update_selected_extract_failed_sources@))
}

/// A blank line when there are lines already.
pub open spec fn blank_if_needed(lines: Seq<Seq<char>>) -> Seq<Seq<char>> {
    if lines.len() > 0 {
        lines.push(Seq::<char>::empty())
    } else {
        lines
    }
}

/// The lines of the whole report.
pub open spec fn report_lines(st: Step2State, m: PopupReportModes) -> Seq<Seq<char>> {
    let running = running_lines(st, m);
    if m.good_to_go {
        blank_if_needed(running).push(l("No missing mods found. Exact-log install is good to go."))
    } else {
        let (title, values) = primary_section(st, m);
        let head = blank_if_needed(running) + summary_lines(st, m) + seq![Seq::<char>::empty()]
            + report_section(title, values);
        if m.hybrid_source_pending {
            head
        } else {
            head + mode_sections(st, m) + result_sections(st, m)
        }
    }
}

// ------------------------------------------------------------- building

fn append_running_lines(lines: &mut Vec<String>, state: &WizardState, modes: PopupReportModes)
    ensures
        names(final(lines)@) == names(old(lines)@) + running_lines(state.step2, modes),
{
    let st = &state.step2;
    let ghost start = names(lines@);
    if st.update_selected_check_running {
        let label = if modes.exact_log {
            "Checking missing mod sources "
        } else if modes.hybrid_missing {
            "Checking updates / missing mod sources "
        } else {
            "Checking "
        };
        push_progress_line(
            lines,
            label,
            st.update_selected_check_done_count,
            st.update_selected_check_total_count,
        );
    }
    let ghost after_check = names(lines@);
    if st.update_selected_download_running {
        let text = if modes.exact_log {
            "Downloading missing mod archives..."
        } else if modes.hybrid_missing && !st.update_selected_update_sources.is_empty() {
            "Downloading missing mod / update archives..."
        } else if modes.hybrid_missing {
            "Downloading missing mod archives..."
        } else {
            "Downloading version archives..."
        };
        push_line(lines, text);
    }
    let ghost after_download = names(lines@);
    if st.update_selected_extract_running {
        let text = if modes.exact_log {
            "Extracting downloaded missing mods..."
        } else if modes.hybrid_missing && !st.update_selected_update_sources.is_empty() {
            "Extracting downloaded missing mods / updates..."
        } else if modes.hybrid_missing {
            "Extracting downloaded missing mods..."
        } else {
            "Extracting downloaded versions..."
        };
        push_line(lines, text);
    }
    assert(names(lines@) =~= start + running_lines(state.step2, modes));
}

fn append_blank_if_needed(lines: &mut Vec<String>)
    ensures
        names(final(lines)@) == blank_if_needed(names(old(lines)@)),
{
    if !lines.is_empty() {
        lines.push(String::new());
        assert(names(lines@) =~= names(old(lines)@).push(Seq::<char>::empty()));
    }
}

fn append_summary_lines(lines: &mut Vec<String>, state: &WizardState, modes: PopupReportModes)
    requires
        state.step2.update_selected_known_sources@.len() + state.step2.update_selected_manual_sources@.len()
            + state.step2.update_selected_unknown_sources@.len() <= usize::MAX,
    ensures
        names(final(lines)@) == names(old(lines)@) + summary_lines(state.step2, modes),
{
    let st = &state.step2;
    let known = st.update_selected_known_sources.len();
    let manual = st.update_selected_manual_sources.len();
    let unknown = st.update_selected_unknown_sources.len();
    let missing = st.update_selected_missing_sources.len();
    let exact_failed = st.update_selected_exact_version_failed_sources.len();
    let updates = st.update_selected_update_sources.len();
    let pending = st.log_pending_downloads.len();
    if modes.exact_log {
        push_count_line(lines, "Missing mods: ", known + manual + unknown);
        push_count_line(lines, "Downloadable missing mods: ", missing);
        push_count_line(lines, "Auto sources: ", known);
        push_count_line(lines, "Manual sources: ", manual);
        push_count_line(lines, "No source entries: ", unknown);
        push_count_line(lines, "Exact version not available: ", exact_failed);
    } else if modes.hybrid_source_pending {
        push_count_line(lines, "Missing mods from applied log: ", pending);
        push_line(lines, "No source check run yet.");
    } else if modes.hybrid_missing {
        push_count_line(lines, "Version changes found: ", updates);
        push_count_line(lines, "Missing mods: ", pending);
        push_count_line(lines, "Downloadable missing mods: ", missing);
        push_count_line(lines, "Auto sources checked: ", known);
        push_count_line(lines, "Manual sources: ", manual);
        push_count_line(lines, "No source entries: ", unknown);
        push_count_line(lines, "Exact version not available: ", exact_failed);
    } else {
        push_count_line(lines, "Version changes found: ", updates);
        push_count_line(lines, "Auto sources checked: ", known);
        push_count_line(lines, "Manual sources: ", manual);
        push_count_line(lines, "Missing sources: ", unknown);
    }
    assert(names(lines@) =~= names(old(lines)@) + summary_lines(state.step2, modes));
}

fn append_report_section(lines: &mut Vec<String>, title: &str, values: &Vec<String>)
    ensures
        names(final(lines)@) == names(old(lines)@) + report_section(title@, names(values@)),
{
    push_line(lines, title);
    if values.is_empty() {
        push_line(lines, "None");
    } else {
        extend_lines(lines, values);
    }
    assert(names(lines@) =~= names(old(lines)@) + report_section(title@, names(values@)));
}

fn append_spaced_report_section(lines: &mut Vec<String>, title: &str, values: &Vec<String>)
    ensures
        names(final(lines)@) == names(old(lines)@) + spaced_section(title@, names(values@)),
{
    lines.push(String::new());
    let ghost mid = names(lines@);
    assert(mid =~= names(old(lines)@).push(Seq::<char>::empty()));
    append_report_section(lines, title, values);
    assert(names(lines@) =~= names(old(lines)@) + spaced_section(title@, names(values@)));
}

fn append_spaced_if_any(lines: &mut Vec<String>, title: &str, values: &Vec<String>)
    ensures
        names(final(lines)@) == names(old(lines)@) + spaced_if_any(title@, names(values@)),
{
    if !values.is_empty() {
        append_spaced_report_section(lines, title, values);
    } else {
        assert(names(lines@) =~= names(old(lines)@) + spaced_if_any(title@, names(values@)));
    }
}

fn append_mode_sections(lines: &mut Vec<String>, state: &WizardState, modes: PopupReportModes)
    ensures
        names(final(lines)@) == names(old(lines)@) + mode_sections(state.step2, modes),
{
    let st = &state.step2;
    let ghost start = names(lines@);
    if modes.exact_log {
        append_spaced_report_section(lines, "Auto Sources", &st.update_selected_known_sources);
        append_spaced_report_section(lines, "Manual Sources", &st.update_selected_manual_sources);
        append_spaced_report_section(lines, "No Source Entries", &st.update_selected_unknown_sources);
    } else if modes.hybrid_missing {
        append_spaced_if_any(lines, "Version changes", &st.update_selected_update_sources);
        append_spaced_if_any(lines, "Manual Sources", &st.update_selected_manual_sources);
        append_spaced_if_any(lines, "No Source Entries", &st.update_selected_unknown_sources);
    } else {
        append_spaced_if_any(lines, "Manual", &st.update_selected_manual_sources);
        append_spaced_if_any(lines, "Missing", &st.update_selected_unknown_sources);
    }
    assert(names(lines@) =~= start + mode_sections(state.step2, modes));
}

fn append_result_sections(lines: &mut Vec<String>, state: &WizardState, modes: PopupReportModes)
    ensures
        names(final(lines)@) == names(old(lines)@) + result_sections(state.step2, modes),
{
    let st = &state.step2;
    let ghost start = names(lines@);
    let missing_mode = modes.exact_log || modes.hybrid_missing;
    append_spaced_if_any(
        lines,
        "Pinned versions of the following mods not available. Latest will be installed:",
        &st.update_selected_version_override_warnings,
    );
    let ghost a1 = names(lines@);
    if missing_mode {
        append_spaced_if_any(lines, "Exact Version Not Available", &st.update_selected_exact_version_failed_sources);
    }
    let ghost a2 = names(lines@);
    let failed_title = if missing_mode {
        "Source Check Failed"
    } else {
        "Failed"
    };
    append_spaced_if_any(lines, failed_title, &st.update_selected_failed_sources);
    append_spaced_if_any(lines, "Downloaded", &st.update_selected_downloaded_sources);
    append_spaced_if_any(lines, "Download Failed", &st.update_selected_download_failed_sources);
    append_spaced_if_any(lines, "Extracted", &st.update_selected_extracted_sources);
    append_spaced_if_any(lines, "Extract Failed", &st.update_selected_extract_failed_sources);
    assert(names(lines@) =~= start + result_sections(state.step2, modes));
}

/// The labels of the mods still to download from the applied log.
pub fn pending_log_labels(state: &WizardState) -> (labels: Vec<String>)
    ensures
        names(labels@) == pending_labels(state.step2),
{
    let v = &state.step2.log_pending_downloads;
    let mut labels: Vec<String> = Vec::new();
    let mut i: usize = 0;
    while i < v.len()
        invariant
            i <= v@.len(),
            labels@.len() == i,
            forall|k: int| 0 <= k < i ==> labels@[k]@ == v@[k].label@,
        decreases v@.len() - i,
    {
        labels.push(v[i].label.clone());
        i += 1;
    }
    assert(names(labels@) =~= pending_labels(state.step2));
    labels
}

/// The title and values of the report's first section.
fn primary_report_section<'a>(
    state: &'a WizardState,
    modes: PopupReportModes,
    pending: &'a Vec<String>,
) -> (r: (&'static str, &'a Vec<String>))
    requires
        names(pending@) == pending_labels(state.step2),
    ensures
        (r.0@, names(r.1@)) == primary_section(state.step2, modes),
{
    proof {
        reveal_strlit("Missing Mods From Applied Log");
        reveal_strlit("Downloadable Missing Mods");
        reveal_strlit("Version changes");
    }
    if modes.hybrid_source_pending {
        ("Missing Mods From Applied Log", pending)
    } else if modes.exact_log || modes.hybrid_missing {
        ("Downloadable Missing Mods", &state.step2.update_selected_missing_sources)
    } else {
        ("Version changes", &state.step2.update_selected_update_sources)
    }
}

/// The check report as one text: progress lines, then either the exact-log
/// all-clear or the counts, the first section and (unless the applied log's
/// sources are still unchecked) the source and result sections.
pub fn build_popup_report(state: &WizardState, exact_log_mode: bool, exact_log_good_to_go: bool) -> (report: String)
    requires
        state.step2.update_selected_known_sources@.len() + state.step2.update_selected_manual_sources@.len()
            + state.step2.update_selected_unknown_sources@.len() <= usize::MAX,
    ensures
        report@ == join_lines(
            report_lines(state.step2, popup_report_modes_spec(state.step2, exact_log_mode, exact_log_good_to_go)),
        ),
{
    let mut lines: Vec<String> = Vec::new();
    let modes = popup_report_modes(state, exact_log_mode, exact_log_good_to_go);
    assert(modes == popup_report_modes_spec(state.step2, exact_log_mode, exact_log_good_to_go));
    append_running_lines(&mut lines, state, modes);
    let ghost running = names(lines@);
    assert(running =~= running_lines(state.step2, modes));
    if modes.good_to_go {
        append_blank_if_needed(&mut lines);
        push_line(&mut lines, "No missing mods found. Exact-log install is good to go.");
        return join(&lines);
    }
    append_blank_if_needed(&mut lines);
    append_summary_lines(&mut lines, state, modes);
    lines.push(String::new());
    let ghost before_primary = names(lines@);
    let pending = pending_log_labels(state);
    let (title, values) = primary_report_section(state, modes, &pending);
    append_report_section(&mut lines, title, values);
    let ghost head = names(lines@);
    proof {
        let (title, values) = primary_section(state.step2, modes);
        assert(head =~= blank_if_needed(running) + summary_lines(state.step2, modes) + seq![Seq::<char>::empty()]
            + report_section(title, values));
    }
    if modes.hybrid_source_pending {
        return join(&lines);
    }
    append_mode_sections(&mut lines, state, modes);
    append_result_sections(&mut lines, state, modes);
    assert(names(lines@) =~= head + mode_sections(state.step2, modes) + result_sections(state.step2, modes));
    join(&lines)
}

/// The report modes, as `popup_report_modes` computes them.
pub open spec fn popup_report_modes_spec(st: Step2State, exact_log: bool, good_to_go: bool) -> PopupReportModes {
    let hybrid = (st.review_edit_bgee_log_applied || st.review_edit_bg2ee_log_applied)
        && st.log_pending_downloads@.len() > 0;
    PopupReportModes {
        exact_log,
        good_to_go,
        hybrid_missing: hybrid,
        hybrid_source_pending: hybrid && !st.update_selected_has_run,
    }
}


/// The count lines of a report that is not the exact-log all-clear come
/// right after the progress lines (and a blank line when there are any),
/// each label followed by its count:
/// - exact-log install: the missing mods (auto + manual + no-source
///   entries), the downloadable ones, the auto, manual and no-source
///   entries, and the mods whose exact version is not available;
/// - applied log with missing mods, sources not checked yet: the missing
///   mods of the log, then a line saying no source check ran;
/// - applied log with missing mods, sources checked: the version changes,
///   the missing mods of the log, the downloadable ones, the auto sources
///   checked, the manual and no-source entries, the exact versions not
///   available;
/// - plain version check: the version changes, the auto sources checked,
///   the manual sources and the missing sources.
/// A blank line follows them.
pub proof fn law_report_counts(st: Step2State, exact_log: bool)
    ensures
        ({
            let m = popup_report_modes_spec(st, exact_log, false);
            let lines = report_lines(st, m);
            let p = blank_if_needed(running_lines(st, m)).len() as int;
            let known = st.update_selected_known_sources@.len();
            let manual = st.update_selected_manual_sources@.len();
            let unknown = st.update_selected_unknown_sources@.len();
            let missing = st.update_selected_missing_sources@.len();
            let exact_failed = st.update_selected_exact_version_failed_sources@.len();
            let updates = st.update_selected_update_sources@.len();
            let pending = st.log_pending_downloads@.len();
            let applied = (st.review_edit_bgee_log_applied || st.review_edit_bg2ee_log_applied) && pending > 0;
            if exact_log {
                &&& lines.len() > p + 6
                &&& lines[p] == "Missing mods: "@ + decimal(known + manual + unknown)
                &&& lines[p + 1] == "Downloadable missing mods: "@ + decimal(missing)
                &&& lines[p + 2] == "Auto sources: "@ + decimal(known)
                &&& lines[p + 3] == "Manual sources: "@ + decimal(manual)
                &&& lines[p + 4] == "No source entries: "@ + decimal(unknown)
                &&& lines[p + 5] == "Exact version not available: "@ + decimal(exact_failed)
                &&& lines[p + 6] == Seq::<char>::empty()
            } else if applied && !st.update_selected_has_run {
                &&& lines.len() > p + 2
                &&& lines[p] == "Missing mods from applied log: "@ + decimal(pending)
                &&& lines[p + 1] == "No source check run yet."@
                &&& lines[p + 2] == Seq::<char>::empty()
            } else if applied {
                &&& lines.len() > p + 7
                &&& lines[p] == "Version changes found: "@ + decimal(updates)
                &&& lines[p + 1] == "Missing mods: "@ + decimal(pending)
                &&& lines[p + 2] == "Downloadable missing mods: "@ + decimal(missing)
                &&& lines[p + 3] == "Auto sources checked: "@ + decimal(known)
                &&& lines[p + 4] == "Manual sources: "@ + decimal(manual)
                &&& lines[p + 5] == "No source entries: "@ + decimal(unknown)
                &&& lines[p + 6] == "Exact version not available: "@ + decimal(exact_failed)
                &&& lines[p + 7] == Seq::<char>::empty()
            } else {
                &&& lines.len() > p + 4
                &&& lines[p] == "Version changes found: "@ + decimal(updates)
                &&& lines[p + 1] == "Auto sources checked: "@ + decimal(known)
                &&& lines[p + 2] == "Manual sources: "@ + decimal(manual)
                &&& lines[p + 3] == "Missing sources: "@ + decimal(unknown)
                &&& lines[p + 4] == Seq::<char>::empty()
            }
        }),
{
    let m = popup_report_modes_spec(st, exact_log, false);
    let lines = report_lines(st, m);
    let b = blank_if_needed(running_lines(st, m));
    let sum = summary_lines(st, m);
    let (title, values) = primary_section(st, m);
    let head = b + sum + seq![Seq::<char>::empty()] + report_section(title, values);
    assert(lines.len() >= head.len());
    assert forall|k: int| 0 <= k < head.len() implies lines[k] == head[k] by {}
    assert forall|k: int| 0 <= k < sum.len() implies head[b.len() + k] == sum[k] by {}
    assert(head[b.len() + sum.len() as int] == Seq::<char>::empty());
}

// ------------------------------------------------------- popup decisions

/// The situation the check popup is in.
#[derive(Debug, Clone, Copy, PartialEq, Eq, Structural)]
pub struct PopupModes {
    pub exact_log: bool,
    pub review_edit: bool,
    pub scanned_mods: bool,
    pub pending_missing: bool,
    pub hybrid_missing: bool,
    pub hybrid_source_pending: bool,
    pub selection_stale: bool,
    pub good_to_go: bool,
    pub retry_latest: bool,
    pub busy: bool,
}

/// A check, download or extraction is running.
pub fn update_pipeline_busy(state: &WizardState) -> (r: bool)
    ensures
        r == (state.step2.update_selected_check_running || state.step2.update_selected_download_running
            || state.step2.update_selected_extract_running),
{
    state.step2.update_selected_check_running || state.step2.update_selected_download_running
        || state.step2.update_selected_extract_running
}

/// A scan or the update pipeline is running.
pub fn popup_busy(state: &WizardState) -> (r: bool)
    ensures
        r == (state.step2.is_scanning || state.step2.update_selected_check_running
            || state.step2.update_selected_download_running || state.step2.update_selected_extract_running),
{
    state.step2.is_scanning || update_pipeline_busy(state)
}

/// The exact-log check may fall back to the latest versions: there are
/// retry requests and nothing runs.
pub fn can_retry_latest(state: &WizardState, exact_log: bool) -> (r: bool)
    ensures
        r == (exact_log && state.step2.update_selected_exact_version_retry_requests@.len() > 0
            && !(state.step2.update_selected_check_running || state.step2.update_selected_download_running
            || state.step2.update_selected_extract_running)),
{
    exact_log && !state.step2.update_selected_exact_version_retry_requests.is_empty()
        && !update_pipeline_busy(state)
}

/// Two optional strings hold the same text (or are both absent).
pub open spec fn same_opt_text(a: Option<String>, b: Option<String>) -> bool {
    match (a, b) {
        (Some(x), Some(y)) => x@ == y@,
        (None, None) => true,
        _ => false,
    }
}

fn opt_text_eq(a: &Option<String>, b: &Option<String>) -> (r: bool)
    ensures
        r == same_opt_text(*a, *b),
{
    match (a, b) {
        (Some(x), Some(y)) => crate::text::str_eq(x.as_str(), y.as_str()),
        (None, None) => true,
        _ => false,
    }
}

/// The popup's modes. `current_selection_signature` is the signature of the
/// current step 2 selection and `good_to_go` whether an exact-log install is
/// ready; both are computed by the caller.
pub open spec fn popup_modes_spec(
    state: WizardState,
    has_single_mod_target: bool,
    current_selection_signature: Option<String>,
    good_to_go: bool,
) -> PopupModes {
    let st = state.step2;
    let exact_log = state.step1.installs_exactly_from_logs;
    let pending_missing = (st.review_edit_bgee_log_applied || st.review_edit_bg2ee_log_applied)
        && st.log_pending_downloads@.len() > 0;
    let scanned_mods = !state.step1.uses_source_logs;
    let busy_pipeline = st.update_selected_check_running || st.update_selected_download_running
        || st.update_selected_extract_running;
    PopupModes {
        exact_log,
        review_edit: state.step1.bootstraps_from_logs || pending_missing,
        scanned_mods,
        pending_missing,
        hybrid_missing: pending_missing,
        hybrid_source_pending: pending_missing && !st.update_selected_has_run,
        selection_stale: scanned_mods && !has_single_mod_target && st.update_selected_has_run && (
        !st.update_selected_last_was_full_selection || !same_opt_text(
            st.update_selected_last_selection_signature,
            current_selection_signature,
        )),
        good_to_go,
        retry_latest: exact_log && st.update_selected_exact_version_retry_requests@.len() > 0 && !busy_pipeline,
        busy: st.is_scanning || busy_pipeline,
    }
}

/// The modes the check popup is in: which pipeline the mod list comes
/// from, whether the last check's selection is out of date, and what runs.
pub fn popup_modes(
    state: &WizardState,
    has_single_mod_target: bool,
    current_selection_signature: &Option<String>,
    good_to_go: bool,
) -> (m: PopupModes)
    ensures
        m == popup_modes_spec(*state, has_single_mod_target, *current_selection_signature, good_to_go),
{
    let st = &state.step2;
    let exact_log = state.step1.installs_exactly_from_weidu_logs();
    let pending_missing = applied_weidu_log_has_pending_downloads(state);
    let review_edit = state.step1.bootstraps_from_weidu_logs() || pending_missing;
    let scanned_mods = !state.step1.uses_source_weidu_logs();
    let hybrid_missing = pending_missing;
    let selection_stale = scanned_mods && !has_single_mod_target && st.update_selected_has_run && (
    !st.update_selected_last_was_full_selection || !opt_text_eq(
        &st.update_selected_last_selection_signature,
        current_selection_signature,
    ));
    PopupModes {
        exact_log,
        review_edit,
        scanned_mods,
        pending_missing,
        hybrid_missing,
        hybrid_source_pending: hybrid_missing && !st.update_selected_has_run,
        selection_stale,
        good_to_go,
        retry_latest: can_retry_latest(state, exact_log),
        busy: popup_busy(state),
    }
}

/// What the popup's check button asks for.
#[derive(Debug, Clone, Copy, PartialEq, Eq, Structural)]
pub enum CheckAction {
    CheckExactLogModList,
    PreviewUpdatePopupMod,
    PreviewUpdateSelected,
}

/// The check button checks the exact-log mod list, the popup's single mod,
/// or the whole selection.
pub fn check_action(modes: PopupModes, has_single_mod_target: bool) -> (a: CheckAction)
    ensures
        a == (if modes.exact_log {
            CheckAction::CheckExactLogModList
        } else if has_single_mod_target {
            CheckAction::PreviewUpdatePopupMod
        } else {
            CheckAction::PreviewUpdateSelected
        }),
{
    if modes.exact_log {
        CheckAction::CheckExactLogModList
    } else if has_single_mod_target {
        CheckAction::PreviewUpdatePopupMod
    } else {
        CheckAction::PreviewUpdateSelected
    }
}

/// A mod whose download source can be edited from the popup.
#[derive(Debug, Clone)]
pub struct SourceEditRow {
    pub tp2: String,
    pub label: String,
    pub source_id: String,
}

/// Whether a list entry `value` names the mod labelled `label`: equal to it
/// ignoring ASCII case, or starting with it followed by ` (` or `:` (both
/// sides trimmed, compared in ASCII lower case).
pub open spec fn names_source_row(label: Seq<char>, value: Seq<char>) -> bool {
    let v = trim(value);
    let lb = trim(label);
    ||| eq_ignore_ascii_case(v, lb)
    ||| has_prefix(ascii_lower(v), ascii_lower(lb) + " ("@)
    ||| has_prefix(ascii_lower(v), ascii_lower(lb) + ":"@)
}

/// Whether the list entry `value` belongs to `row`.
pub fn source_edit_row_matches_value(row: &SourceEditRow, value: &str) -> (r: bool)
    ensures
        r == names_source_row(row.label@, value@),
{
    let v = trimmed_chars(value);
    let lb = trimmed_chars(row.label.as_str());
    if chars_eq_ignore_ascii_case(&v, &lb) {
        return true;
    }
    let lv = lower_chars(&v);
    let mut paren = lower_chars(&lb);
    paren.push(' ');
    paren.push('(');
    assert(paren@ =~= ascii_lower(lb@) + " ("@) by {
        reveal_strlit(" (");
    }
    if chars_have_prefix(&lv, &paren) {
        return true;
    }
    let mut colon = lower_chars(&lb);
    colon.push(':');
    assert(colon@ =~= ascii_lower(lb@) + ":"@) by {
        reveal_strlit(":");
    }
    chars_have_prefix(&lv, &colon)
}

/// Where an edited download source is saved.
#[derive(Debug, Clone, Copy, PartialEq, Eq, Structural)]
pub enum ModSourceEditDestination {
    GlobalDefault,
    ThisModlist,
}

/// The label of a save destination.
pub fn destination_label(dest: ModSourceEditDestination) -> (r: &'static str)
    ensures
        r@ == (match dest {
            ModSourceEditDestination::GlobalDefault => l("My default"),
            ModSourceEditDestination::ThisModlist => l("For this modlist"),
        }),
{
    match dest {
        ModSourceEditDestination::GlobalDefault => "My default",
        ModSourceEditDestination::ThisModlist => "For this modlist",
    }
}

/// The popup's title.
pub fn popup_title(modes: PopupModes) -> (r: &'static str)
    ensures
        r@ == (if modes.exact_log { l("Check Mod List") } else { l("Compare Versions") }),
{
    if modes.exact_log {
        "Check Mod List"
    } else {
        "Compare Versions"
    }
}

/// The status line shown while archives download.
pub fn download_status_label(state: &WizardState, modes: PopupModes) -> (r: &'static str)
    ensures
        r@ == (if modes.exact_log {
            l("Downloading missing mod archives...")
        } else if modes.hybrid_missing && state.step2.update_selected_update_sources@.len() > 0 {
            l("Downloading missing mod / update archives...")
        } else if modes.hybrid_missing {
            l("Downloading missing mod archives...")
        } else {
            l("Downloading version archives...")
        }),
{
    if modes.exact_log {
        "Downloading missing mod archives..."
    } else if modes.hybrid_missing && !state.step2.update_selected_update_sources.is_empty() {
        "Downloading missing mod / update archives..."
    } else if modes.hybrid_missing {
        "Downloading missing mod archives..."
    } else {
        "Downloading version archives..."
    }
}

/// The status line shown while archives are extracted.
pub fn extract_status_label(state: &WizardState, modes: PopupModes) -> (r: &'static str)
    ensures
        r@ == (if modes.exact_log {
            l("Extracting downloaded missing mods...")
        } else if modes.hybrid_missing && state.step2.update_selected_update_sources@.len() > 0 {
            l("Extracting downloaded missing mods / updates...")
        } else if modes.hybrid_missing {
            l("Extracting downloaded missing mods...")
        } else {
            l("Extracting downloaded versions...")
        }),
{
    if modes.exact_log {
        "Extracting downloaded missing mods..."
    } else if modes.hybrid_missing && !state.step2.update_selected_update_sources.is_empty() {
        "Extracting downloaded missing mods / updates..."
    } else if modes.hybrid_missing {
        "Extracting downloaded missing mods..."
    } else {
        "Extracting downloaded versions..."
    }
}

/// The title and values of the popup's first list.
pub fn primary_list_values<'a>(
    state: &'a WizardState,
    modes: PopupModes,
    pending_labels: &'a Vec<String>,
) -> (r: (&'static str, &'a Vec<String>))
    ensures
        modes.hybrid_source_pending ==> r.0@ == l("Missing Mods From Applied Log") && r.1 == pending_labels,
        !modes.hybrid_source_pending && (modes.exact_log || modes.hybrid_missing) ==> r.0@ == l(
            "Downloadable Missing Mods",
        ) && r.1 == &state.step2.update_selected_missing_sources,
        !modes.hybrid_source_pending && !(modes.exact_log || modes.hybrid_missing) ==> r.0@ == l(
            "Version changes",
        ) && r.1 == &state.step2.update_selected_update_sources,
{
    if modes.hybrid_source_pending {
        ("Missing Mods From Applied Log", pending_labels)
    } else if modes.exact_log || modes.hybrid_missing {
        ("Downloadable Missing Mods", &state.step2.update_selected_missing_sources)
    } else {
        ("Version changes", &state.step2.update_selected_update_sources)
    }
}

/// A mod is ticked, itself or through one of its components.
pub open spec fn mod_has_check(m: Step2ModState) -> bool {
    m.checked || exists|j: int| 0 <= j < m.components@.len() && (#[trigger] m.components@[j]).checked
}

/// Some mod of either game is ticked.
pub open spec fn any_checked(st: Step2State) -> bool {
    (exists|i: int| 0 <= i < st.bgee_mods@.len() && mod_has_check(#[trigger] st.bgee_mods@[i]))
        || (exists|i: int| 0 <= i < st.bg2ee_mods@.len() && mod_has_check(#[trigger] st.bg2ee_mods@[i]))
}

pub(crate) fn mod_is_checked(m: &Step2ModState) -> (r: bool)
    ensures
        r == mod_has_check(*m),
{
    if m.checked {
        return true;
    }
    let mut j: usize = 0;
    while j < m.components.len()
        invariant
            j <= m.components@.len(),
            forall|k: int| 0 <= k < j ==> !(#[trigger] m.components@[k]).checked,
        decreases m.components@.len() - j,
    {
        if m.components[j].checked {
            return true;
        }
        j += 1;
    }
    false
}

fn any_mod_checked(mods: &Vec<Step2ModState>) -> (r: bool)
    ensures
        r == exists|i: int| 0 <= i < mods@.len() && mod_has_check(#[trigger] mods@[i]),
{
    let mut i: usize = 0;
    while i < mods.len()
        invariant
            i <= mods@.len(),
            forall|k: int| 0 <= k < i ==> !mod_has_check(#[trigger] mods@[k]),
        decreases mods@.len() - i,
    {
        if mod_is_checked(&mods[i]) {
            return true;
        }
        i += 1;
    }
    false
}

/// Whether any mod or component of either game is ticked.
pub fn has_any_checked(state: &WizardState) -> (r: bool)
    ensures
        r == any_checked(state.step2),
{
    any_mod_checked(&state.step2.bgee_mods) || any_mod_checked(&state.step2.bg2ee_mods)
}

/// Whether the check button is enabled.
pub fn can_check_updates(state: &WizardState, modes: PopupModes) -> (r: bool)
    ensures
        r == (if modes.exact_log {
            !modes.busy
        } else if modes.review_edit {
            (state.step2.review_edit_bgee_log_applied || state.step2.review_edit_bg2ee_log_applied)
                && (any_checked(state.step2) || modes.pending_missing) && !modes.busy
        } else {
            modes.scanned_mods && any_checked(state.step2) && !modes.busy
        }),
{
    let has_any = has_any_checked(state);
    if modes.exact_log {
        !modes.busy
    } else if modes.review_edit {
        review_edit_any_log_applied(state) && (has_any || modes.pending_missing) && !modes.busy
    } else {
        modes.scanned_mods && has_any && !modes.busy
    }
}

/// Whether the download button is enabled: there are archives to fetch and
/// nothing runs.
pub fn can_download_updates(state: &WizardState) -> (r: bool)
    ensures
        r == (state.step2.update_selected_update_assets@.len() > 0 && !(
        state.step2.update_selected_check_running || state.step2.update_selected_download_running
            || state.step2.update_selected_extract_running)),
{
    !state.step2.update_selected_update_assets.is_empty() && !update_pipeline_busy(state)
}

/// The download button's label.
pub fn download_button_label(state: &WizardState, modes: PopupModes) -> (r: &'static str)
    ensures
        r@ == (if modes.exact_log {
            l("Download Missing Mods")
        } else if modes.hybrid_missing && state.step2.update_selected_missing_sources@.len() > 0
            && state.step2.update_selected_update_sources@.len() > 0 {
            l("Download Missing Mods / Updates")
        } else if modes.hybrid_missing && state.step2.update_selected_missing_sources@.len() > 0 {
            l("Download Missing Mods")
        } else {
            l("Fetch Versions")
        }),
{
    if modes.exact_log {
        "Download Missing Mods"
    } else if modes.hybrid_missing && !state.step2.update_selected_missing_sources.is_empty()
        && !state.step2.update_selected_update_sources.is_empty() {
        "Download Missing Mods / Updates"
    } else if modes.hybrid_missing && !state.step2.update_selected_missing_sources.is_empty() {
        "Download Missing Mods"
    } else {
        "Fetch Versions"
    }
}

/// The single mod the popup was opened for, when both its game tab and its
/// tp2 file are given and not blank.
pub fn single_mod_popup_target(state: &WizardState) -> (r: Option<(String, String)>)
    ensures
        r == (match (state.step2.update_selected_target_game_tab, state.step2.update_selected_target_tp_file) {
            (Some(g), Some(t)) => if !crate::text::is_blank(g@) && !crate::text::is_blank(t@) {
                Some((g, t))
            } else {
                None
            },
            _ => None,
        }),
{
    match (&state.step2.update_selected_target_game_tab, &state.step2.update_selected_target_tp_file) {
        (Some(game_tab), Some(tp_file)) => {
            if !crate::text::is_blank_exec(game_tab.as_str()) && !crate::text::is_blank_exec(tp_file.as_str()) {
                Some((game_tab.clone(), tp_file.clone()))
            } else {
                None
            }
        },
        _ => None,
    }
}

/// The summary has six lines for an exact-log check, two while an applied
/// log's sources are still unchecked, seven for a mixed list with missing
/// mods, and four otherwise.
pub proof fn law_summary_line_count(st: Step2State, m: PopupReportModes)
    ensures
        summary_lines(st, m).len() == (if m.exact_log {
            6int
        } else if m.hybrid_source_pending {
            2int
        } else if m.hybrid_missing {
            7int
        } else {
            4int
        }),
{
}

} // verus!
