//! The install pipeline of the orchestrator: the keys and tokens that tie a
//! destination-preparation worker to the request that started it, and the
//! reset that drops every channel and latch of a cancelled or finished run.
use vstd::prelude::*;

use crate::nav::{InstallScreenState, InstallStage, PipelineKind};
use crate::state::WizardState;
use crate::text::{ascii_lower, chars_eq, chars_of, lower_of, string_of, trim, trimmed_chars};

verus! {

/// A receiving end of a worker's event channel.
#[verifier::external_type_specification]
#[verifier::external_body]
#[verifier::reject_recursive_types(T)]
pub struct ExReceiver<T>(std::sync::mpsc::Receiver<T>);

/// The games an install can target.
#[derive(Debug, Clone, Copy, PartialEq, Eq, Structural)]
pub enum Game {
    BGEE,
    BG2EE,
    EET,
    IWDEE,
}

/// How an install was started.
#[derive(Debug, Clone, Copy, PartialEq, Eq, Structural)]
pub enum InstallWorkflow {
    PasteAndInstall,
}

/// Which flow asked for a destination to be prepared.
#[derive(Debug, Clone, Copy, PartialEq, Eq, Structural)]
pub enum DestinationPrepFlow {
    CreateScratch,
    InstallPipeline,
    CreateForkDownload,
    WorkspaceStep5,
}

/// Bytes of the UTF-8 encoding of a character.
pub open spec fn utf8_width(c: char) -> nat {
    if (c as u32) < 0x80 {
        1
    } else if (c as u32) < 0x800 {
        2
    } else if (c as u32) < 0x10000 {
        3
    } else {
        4
    }
}

/// Bytes of the UTF-8 encoding of a text.
pub open spec fn utf8_len(s: Seq<char>) -> nat
    decreases s.len(),
{
    if s.len() == 0 { 0 } else { utf8_len(s.drop_last()) + utf8_width(s.last()) }
}

/// `s` with every `/` turned into `\`.
pub open spec fn backslashed(s: Seq<char>) -> Seq<char> {
    Seq::new(s.len(), |i: int| if s[i] == '/' { '\\' } else { s[i] })
}

/// `s` without trailing `\`, stopping once it is three bytes long.
pub open spec fn without_trailing_seps(s: Seq<char>) -> Seq<char>
    decreases s.len(),
{
    if utf8_len(s) > 3 && s.len() > 0 && s.last() == '\\' {
        without_trailing_seps(s.drop_last())
    } else {
        s
    }
}

/// The key under which a destination is compared: trimmed, with `\` as the
/// only separator, no trailing separator past a drive root, and ASCII
/// lower-cased where the file system ignores case (`fold_case`).
pub open spec fn prep_key(destination: Seq<char>, fold_case: bool) -> Seq<char> {
    let k = without_trailing_seps(backslashed(trim(destination)));
    if fold_case { ascii_lower(k) } else { k }
}

fn char_width(c: char) -> (w: usize)
    ensures
        w == utf8_width(c),
{
    if (c as u32) < 0x80 {
        1
    } else if (c as u32) < 0x800 {
        2
    } else if (c as u32) < 0x10000 {
        3
    } else {
        4
    }
}

proof fn lemma_utf8_len_at_least(s: Seq<char>)
    ensures
        utf8_len(s) >= s.len(),
    decreases s.len(),
{
    if s.len() > 0 {
        lemma_utf8_len_at_least(s.drop_last());
    }
}

/// Whether the UTF-8 encoding of `k` is longer than three bytes.
fn over_three_bytes(k: &Vec<char>) -> (r: bool)
    ensures
        r == (utf8_len(k@) > 3),
{
    proof {
        lemma_utf8_len_at_least(k@);
    }
    if k.len() > 3 {
        return true;
    }
    let mut bytes: usize = 0;
    let mut j: usize = 0;
    while j < k.len()
        invariant
            j <= k@.len() <= 3,
            bytes == utf8_len(k@.take(j as int)),
            bytes <= 4 * j,
        decreases k@.len() - j,
    {
        assert(k@.take(j + 1).drop_last() =~= k@.take(j as int));
        bytes = bytes + char_width(k[j]);
        j += 1;
    }
    assert(k@.take(k@.len() as int) =~= k@);
    bytes > 3
}

/// The comparison key of a destination folder; `fold_case` is set on
/// platforms whose paths ignore case.
pub fn destination_prep_key(destination: &str, fold_case: bool) -> (key: String)
    ensures
        key@ == prep_key(destination@, fold_case),
{
    let t = trimmed_chars(destination);
    let mut k: Vec<char> = Vec::new();
    let mut i: usize = 0;
    while i < t.len()
        invariant
            i <= t@.len(),
            k@ == backslashed(t@).take(i as int),
        decreases t@.len() - i,
    {
        let c = t[i];
        k.push(if c == '/' { '\\' } else { c });
        i += 1;
        assert(k@ =~= backslashed(t@).take(i as int));
    }
    assert(k@ =~= backslashed(t@));
    let ghost full = k@;
    while over_three_bytes(&k) && k.len() > 0 && k[k.len() - 1] == '\\'
        invariant
            without_trailing_seps(k@) == without_trailing_seps(full),
        decreases k@.len(),
    {
        let ghost before = k@;
        k.pop();
        assert(k@ =~= before.drop_last());
    }
    if fold_case {
        let mut r: Vec<char> = Vec::new();
        let mut m: usize = 0;
        while m < k.len()
            invariant
                m <= k@.len(),
                r@ == ascii_lower(k@).take(m as int),
            decreases k@.len() - m,
        {
            r.push(lower_of(k[m]));
            m += 1;
            assert(r@ =~= ascii_lower(k@).take(m as int));
        }
        assert(r@ =~= ascii_lower(k@));
        string_of(&r)
    } else {
        string_of(&k)
    }
}

/// A recorded identity of one destination-preparation request.
#[derive(Debug, Clone)]
pub struct DestinationPrepToken {
    pub generation: u64,
    pub flow: DestinationPrepFlow,
    pub destination_key: String,
    pub modlist_id: Option<String>,
}

/// A recorded modlist id is the one asked about.
pub open spec fn same_modlist(recorded: Option<String>, asked: Option<&str>) -> bool {
    match (recorded, asked) {
        (Some(a), Some(b)) => a@ == b@,
        (None, None) => true,
        _ => false,
    }
}

impl DestinationPrepToken {
    pub fn new(
        generation: u64,
        flow: DestinationPrepFlow,
        destination: &str,
        modlist_id: Option<String>,
        fold_case: bool,
    ) -> (t: Self)
        ensures
            t.generation == generation,
            t.flow == flow,
            t.destination_key@ == prep_key(destination@, fold_case),
            t.modlist_id == modlist_id,
    {
        DestinationPrepToken {
            generation,
            flow,
            destination_key: destination_prep_key(destination, fold_case),
            modlist_id,
        }
    }

    /// The token belongs to the request described: same generation, flow,
    /// destination (by key) and modlist.
    pub fn matches_context(
        &self,
        current_generation: u64,
        flow: DestinationPrepFlow,
        destination: &str,
        modlist_id: Option<&str>,
        fold_case: bool,
    ) -> (r: bool)
        ensures
            r == (self.generation == current_generation && self.flow == flow && self.destination_key@
                == prep_key(destination@, fold_case) && same_modlist(self.modlist_id, modlist_id)),
    {
        if self.generation != current_generation || self.flow != flow {
            return false;
        }
        let key = destination_prep_key(destination, fold_case);
        let a = chars_of(self.destination_key.as_str());
        let b = chars_of(key.as_str());
        if !chars_eq(&a, &b) {
            return false;
        }
        match (&self.modlist_id, modlist_id) {
            (Some(x), Some(y)) => {
                let cx = chars_of(x.as_str());
                let cy = chars_of(y);
                chars_eq(&cx, &cy)
            },
            (None, None) => true,
            _ => false,
        }
    }
}

/// A destination being prepared for an install; `W` is the worker doing it.
pub struct PendingInstallDestinationPrep<W> {
    pub token: DestinationPrepToken,
    pub destination: String,
    pub game: Game,
    pub workflow: InstallWorkflow,
    pub code: String,
    pub worker: W,
}

impl<W> PendingInstallDestinationPrep<W> {
    /// The preparation belongs to the install described; the code is
    /// compared without surrounding whitespace.
    pub fn matches_context(
        &self,
        current_generation: u64,
        flow: DestinationPrepFlow,
        destination: &str,
        game: Game,
        workflow: InstallWorkflow,
        code: &str,
        fold_case: bool,
    ) -> (r: bool)
        ensures
            r == (self.token.generation == current_generation && self.token.flow == flow
                && self.token.destination_key@ == prep_key(destination@, fold_case) && self.token.modlist_id
                is None && self.game == game && self.workflow == workflow && self.code@ == trim(
                code@,
            )),
    {
        if !self.token.matches_context(current_generation, flow, destination, None, fold_case) {
            return false;
        }
        if self.game != game || self.workflow != workflow {
            return false;
        }
        let mine = chars_of(self.code.as_str());
        let theirs = trimmed_chars(code);
        chars_eq(&mine, &theirs)
    }
}

/// Whether the screen reset after a finished install is still owed.
#[derive(Debug, Clone, Copy, PartialEq, Eq, Structural)]
pub enum PostInstallResetGate {
    Idle,
    Pending,
}

impl Default for PostInstallResetGate {
    fn default() -> (g: Self)
        ensures
            g == PostInstallResetGate::Idle,
    {
        PostInstallResetGate::Idle
    }
}

impl PostInstallResetGate {
    pub fn is_pending(self) -> (r: bool)
        ensures
            r == (self == PostInstallResetGate::Pending),
    {
        match self {
            PostInstallResetGate::Pending => true,
            PostInstallResetGate::Idle => false,
        }
    }
}

/// The versions the external tools reported, once asked.
#[derive(Debug, Clone, Default)]
pub struct ToolVersionCache {
    pub weidu_version: Option<String>,
    pub mod_installer_version: Option<String>,
}

/// The workspace holds edits not yet written; `!flag` says it is clean.
#[derive(Debug, Clone, Copy)]
pub struct DirtyFlag(bool);

impl Default for DirtyFlag {
    fn default() -> (f: Self)
        ensures
            !f.is_set(),
    {
        DirtyFlag(false)
    }
}

impl DirtyFlag {
    pub closed spec fn is_set(self) -> bool {
        self.0
    }

    /// A flag that is set.
    pub fn marked() -> (f: Self)
        ensures
            f.is_set(),
    {
        DirtyFlag(true)
    }
}

impl std::ops::Not for DirtyFlag {
    type Output = bool;

    fn not(self) -> (r: bool) {
        !self.0
    }
}

impl vstd::std_specs::ops::NotSpecImpl for DirtyFlag {
    open spec fn obeys_not_spec() -> bool {
        true
    }

    open spec fn not_req(self) -> bool {
        true
    }

    open spec fn not_spec(self) -> bool {
        !self.is_set()
    }
}

/// Everything a reset of the install pipeline clears. The event channels of
/// the download (`D`), archive-skip (`A`) and extraction (`X`) workers are
/// dropped; a destination preparation still running (its worker `W`) is
/// parked with the background workers, to be joined at shutdown.
#[verifier::reject_recursive_types(D)]
#[verifier::reject_recursive_types(A)]
#[verifier::reject_recursive_types(X)]
pub struct InstallPipelineResetSet<'a, D, A, X, W> {
    pub stream_download_rx: &'a mut Option<std::sync::mpsc::Receiver<D>>,
    pub archive_skip_rx: &'a mut Option<std::sync::mpsc::Receiver<A>>,
    pub extract_parallel_rx: &'a mut Option<std::sync::mpsc::Receiver<X>>,
    pub install_destination_prep_rx: &'a mut Option<PendingInstallDestinationPrep<W>>,
    pub background_destination_prep_workers: &'a mut Vec<W>,
    pub wizard_state: &'a mut WizardState,
    pub install_screen_state: &'a mut InstallScreenState,
    /// The hashing progress shared with the worker (held under its lock).
    pub hash_progress: &'a mut Option<(usize, usize)>,
    /// The extraction progress shared with the worker (held under its lock).
    pub extract_progress: &'a mut Option<(usize, usize)>,
    pub pending_reinstall_id: &'a mut Option<String>,
    pub active_install_modlist_id: &'a mut Option<String>,
}

/// The latches of the wizard that a pipeline run raises are all down.
pub open spec fn wizard_latches_down(w: WizardState) -> bool {
    &&& !w.modlist_auto_build_active
    &&& !w.modlist_auto_build_waiting_for_install
    &&& !w.step2.pending_saved_log_apply
    &&& !w.step2.pending_saved_log_update_preview
    &&& !w.step2.pending_saved_log_download
    &&& !w.step2.update_selected_download_running
    &&& !w.step2.update_selected_extract_running
}

/// The wizard states agree on everything a pipeline reset leaves alone.
pub open spec fn same_but_latches(a: WizardState, b: WizardState) -> bool {
    &&& a.step1 == b.step1
    &&& a.step3 == b.step3
    &&& a.step5 == b.step5
    &&& a.step2.update_selected_has_run == b.step2.update_selected_has_run
    &&& a.step2.update_selected_check_running == b.step2.update_selected_check_running
    &&& a.step2.is_scanning == b.step2.is_scanning
    &&& a.step2.active_game_tab == b.step2.active_game_tab
}

/// Keeps a destination preparation worker for the join at shutdown while
/// it still runs; a worker that has already finished (`finished`, as the
/// caller sees its thread) is handed back to be joined at once and the
/// list stays as it was.
pub fn hold_destination_prep_worker_for_shutdown<W>(workers: &mut Vec<W>, worker: W, finished: bool) -> (to_join:
    Option<W>)
    ensures
        finished ==> final(workers)@ == old(workers)@ && to_join == Some(worker),
        !finished ==> final(workers)@ == old(workers)@.push(worker) && to_join is None,
{
    if finished {
        Some(worker)
    } else {
        workers.push(worker);
        None
    }
}

/// Drops the channels of a cancelled or finished install run, lowers every
/// latch the run raised, sends the install screen back to the gallery as a
/// plain install, blanks the shared progress counters and forgets the
/// modlist ids of the run. A destination preparation still in flight is
/// kept for the join at shutdown when its worker still runs; when it has
/// finished (`pending_worker_finished`, as the caller sees its thread) its
/// worker is handed back to be joined at once.
pub fn reset_install_pipeline_state<D, A, X, W>(
    set: &mut InstallPipelineResetSet<'_, D, A, X, W>,
    pending_worker_finished: bool,
) -> (to_join: Option<W>)
    ensures
        *final(set).stream_download_rx is None,
        *final(set).archive_skip_rx is None,
        *final(set).extract_parallel_rx is None,
        *final(set).install_destination_prep_rx is None,
        match *old(set).install_destination_prep_rx {
            Some(p) => if pending_worker_finished {
                &&& final(set).background_destination_prep_workers@ == old(
                    set,
                ).background_destination_prep_workers@
                &&& to_join == Some(p.worker)
            } else {
                &&& final(set).background_destination_prep_workers@ == old(
                    set,
                ).background_destination_prep_workers@.push(p.worker)
                &&& to_join is None
            },
            None => final(set).background_destination_prep_workers@ == old(
                set,
            ).background_destination_prep_workers@ && to_join is None,
        },
        wizard_latches_down(*final(set).wizard_state),
        same_but_latches(*final(set).wizard_state, *old(set).wizard_state),
        final(set).install_screen_state.stage == InstallStage::Gallery,
        final(set).install_screen_state.pipeline_kind == PipelineKind::Install,
        final(set).install_screen_state.pipeline_flags.is_clear(),
        final(set).install_screen_state.download_progress.hash_progress is None,
        final(set).install_screen_state.download_progress.extract_progress is None,
        final(set).install_screen_state.hashed_indices@.len() == 0,
        final(set).install_screen_state.skip_indices@.len() == 0,
        *final(set).hash_progress is None,
        *final(set).extract_progress is None,
        *final(set).pending_reinstall_id is None,
        *final(set).active_install_modlist_id is None,
{
    *set.stream_download_rx = None;
    *set.archive_skip_rx = None;
    *set.extract_parallel_rx = None;
    let pending = set.install_destination_prep_rx.take();
    let to_join = match pending {
        Some(p) => hold_destination_prep_worker_for_shutdown(
            set.background_destination_prep_workers,
            p.worker,
            pending_worker_finished,
        ),
        None => None,
    };
    set.wizard_state.modlist_auto_build_active = false;
    set.wizard_state.modlist_auto_build_waiting_for_install = false;
    set.wizard_state.step2.pending_saved_log_apply = false;
    set.wizard_state.step2.pending_saved_log_update_preview = false;
    set.wizard_state.step2.pending_saved_log_download = false;
    set.wizard_state.step2.update_selected_download_running = false;
    set.wizard_state.step2.update_selected_extract_running = false;

    set.install_screen_state.clear_preview();
    set.install_screen_state.pipeline_kind = PipelineKind::Install;
    set.install_screen_state.stage = InstallStage::Gallery;

    *set.hash_progress = None;
    *set.extract_progress = None;
    *set.pending_reinstall_id = None;
    *set.active_install_modlist_id = None;
    to_join
}

/// The next generation of destination preparation: one more, wrapping
/// round past zero to one (zero is never used).
pub open spec fn next_generation(g: u64) -> u64 {
    if g == u64::MAX { 1 } else { (g + 1) as u64 }
}

/// Starts a new generation of destination preparation and returns the
/// token of the request.
pub fn next_destination_prep_token(
    generation: &mut u64,
    flow: DestinationPrepFlow,
    destination: &str,
    modlist_id: Option<String>,
    fold_case: bool,
) -> (t: DestinationPrepToken)
    ensures
        *final(generation) == next_generation(*old(generation)),
        t.generation == *final(generation),
        t.flow == flow,
        t.destination_key@ == prep_key(destination@, fold_case),
        t.modlist_id == modlist_id,
{
    *generation = generation.wrapping_add(1);
    if *generation == 0 {
        *generation = 1;
    }
    DestinationPrepToken::new(*generation, flow, destination, modlist_id, fold_case)
}

/// How soon the interface asks to be drawn again, in milliseconds: at frame
/// rate (16) while step 5 needs it, four times a second (250) while a slow
/// background worker runs, and not at all otherwise.
pub fn repaint_delay_ms(step5_repaint: bool, step5_needs: bool, slow_worker_active: bool) -> (r: Option<u64>)
    ensures
        r == (if step5_repaint || step5_needs {
            Some(16u64)
        } else if slow_worker_active {
            Some(250u64)
        } else {
            None
        }),
{
    if step5_repaint || step5_needs {
        Some(16)
    } else if slow_worker_active {
        Some(250)
    } else {
        None
    }
}

/// Once the next destination preparation starts, the token of the one
/// before it matches no request any more, whatever flow, destination and
/// modlist are asked: the next generation always differs from the current
/// one (and is never zero).
pub proof fn law_token_of_the_previous_request_is_stale(
    t: DestinationPrepToken,
    flow: DestinationPrepFlow,
    destination: Seq<char>,
    asked: Option<&str>,
    fold_case: bool,
)
    ensures
        !(t.generation == next_generation(t.generation) && t.flow == flow && t.destination_key@ == prep_key(
            destination,
            fold_case,
        ) && same_modlist(t.modlist_id, asked)),
        next_generation(t.generation) != 0,
{
}

// ------------------------------------------------------ after a clean run

/// Which modlist a clean install run marks installed, and whether it was
/// started from a loaded workspace.
#[derive(Debug, Clone, PartialEq, Eq)]
pub struct FlipToInstalled {
    pub modlist_id: String,
    pub from_workspace: bool,
}

/// The modlist to mark installed after the last run: only after a clean
/// exit, and then the loaded workspace's modlist, else the one the install
/// screen started; `None` when the run failed or neither is known.
pub fn flip_to_installed_target(
    state: &WizardState,
    loaded_workspace_id: &Option<String>,
    active_install_modlist_id: &Option<String>,
) -> (r: Option<FlipToInstalled>)
    ensures
        !crate::nav::clean_exit_spec(state.step5) ==> r is None,
        crate::nav::clean_exit_spec(state.step5) ==> match (*loaded_workspace_id, *active_install_modlist_id) {
            (Some(w), _) => r matches Some(f) && f.modlist_id@ == w@ && f.from_workspace,
            (None, Some(a)) => r matches Some(f) && f.modlist_id@ == a@ && !f.from_workspace,
            (None, None) => r is None,
        },
{
    if !crate::nav::clean_exit(state) {
        return None;
    }
    match (loaded_workspace_id, active_install_modlist_id) {
        (Some(w), _) => Some(FlipToInstalled { modlist_id: w.clone(), from_workspace: true }),
        (None, Some(a)) => Some(FlipToInstalled { modlist_id: a.clone(), from_workspace: false }),
        (None, None) => None,
    }
}

/// The share code to record with the installed modlist: none for a loaded
/// workspace (it keeps its own), else the registry entry's latest code when
/// it is not blank.
pub fn share_code_override(target: &FlipToInstalled, latest_share_code: Option<String>) -> (r: Option<String>)
    ensures
        target.from_workspace ==> r is None,
        !target.from_workspace ==> match latest_share_code {
            Some(c) => if crate::text::is_blank(c@) {
                r is None
            } else {
                r == Some(c)
            },
            None => r is None,
        },
{
    if target.from_workspace {
        return None;
    }
    match latest_share_code {
        Some(c) => if crate::text::is_blank_exec(c.as_str()) {
            None
        } else {
            Some(c)
        },
        None => None,
    }
}

/// After marking a modlist installed: a run started from the install
/// screen forgets its modlist and arms the post-install reset; a workspace
/// run changes neither.
pub fn after_flip_to_installed(
    target: &FlipToInstalled,
    active_install_modlist_id: &mut Option<String>,
    gate: &mut PostInstallResetGate,
)
    ensures
        target.from_workspace ==> *final(active_install_modlist_id) == *old(active_install_modlist_id)
            && *final(gate) == *old(gate),
        !target.from_workspace ==> *final(active_install_modlist_id) is None && *final(gate)
            == PostInstallResetGate::Pending,
{
    if !target.from_workspace {
        *active_install_modlist_id = None;
        *gate = PostInstallResetGate::Pending;
    }
}

/// Starting step 5 asks for the console's input focus when the install
/// was not running before and runs now.
pub fn console_focus_requested(was_running: bool, running_now: bool) -> (r: bool)
    ensures
        r == (!was_running && running_now),
{
    !was_running && running_now
}

} // verus!
