//! The settings screen: its tabs, the status of each configured path, and
//! the validation of the paths (the decisions; the file-system facts they
//! rest on are gathered by the caller).
use vstd::prelude::*;

use crate::nexus::NexusConnectDialogState;
use crate::state::Step1State;
use crate::text::{is_blank_exec, push_str, str_eq, trim};

verus! {

/// The tabs of the settings screen.
#[derive(Debug, Clone, Copy, PartialEq, Eq, Structural)]
pub enum SettingsTab {
    General,
    Paths,
    Tools,
    Accounts,
    Advanced,
}

impl Default for SettingsTab {
    fn default() -> (t: Self)
        ensures
            t == SettingsTab::General,
    {
        SettingsTab::General
    }
}

impl SettingsTab {
    /// Every tab, in display order.
    pub fn all() -> (tabs: Vec<SettingsTab>)
        ensures
            tabs@ == seq![
                SettingsTab::General,
                SettingsTab::Paths,
                SettingsTab::Tools,
                SettingsTab::Accounts,
                SettingsTab::Advanced,
            ],
    {
        let mut v = Vec::new();
        v.push(SettingsTab::General);
        v.push(SettingsTab::Paths);
        v.push(SettingsTab::Tools);
        v.push(SettingsTab::Accounts);
        v.push(SettingsTab::Advanced);
        assert(v@ =~= seq![
            SettingsTab::General,
            SettingsTab::Paths,
            SettingsTab::Tools,
            SettingsTab::Accounts,
            SettingsTab::Advanced,
        ]);
        v
    }

    /// The tab's label.
    pub fn label(self) -> (r: &'static str)
        ensures
            r@ == match self {
                SettingsTab::General => "General"@,
                SettingsTab::Paths => "Paths"@,
                SettingsTab::Tools => "Tools"@,
                SettingsTab::Accounts => "Accounts"@,
                SettingsTab::Advanced => "Advanced"@,
            },
    {
        match self {
            SettingsTab::General => "General",
            SettingsTab::Paths => "Paths",
            SettingsTab::Tools => "Tools",
            SettingsTab::Accounts => "Accounts",
            SettingsTab::Advanced => "Advanced",
        }
    }
}

/// The status of one configured path.
#[derive(Debug, Clone, PartialEq, Eq)]
pub enum PathStatus {
    Empty,
    Good { detail: Option<String> },
    Modded { detail: String },
    Warning { reason: String },
    Error { reason: String },
}

/// How a status is coloured.
#[derive(Debug, Clone, Copy, PartialEq, Eq, Structural)]
pub enum PathStatusTone {
    Neutral,
    Success,
    Warning,
    Error,
}

pub open spec fn middle_dot_sep() -> Seq<char> {
    seq![' ', '\u{00B7}', ' ']
}

/// The hint shown next to a path for each status.
pub open spec fn hint_of(s: PathStatus) -> Seq<char> {
    match s {
        PathStatus::Empty => seq![],
        PathStatus::Good { detail: Some(d) } => seq!['o', 'k'] + middle_dot_sep() + d@,
        PathStatus::Good { detail: None } => seq!['o', 'k'],
        PathStatus::Modded { detail } => seq!['!', ' ', 'm', 'o', 'd', 'd', 'e', 'd'] + middle_dot_sep() + detail@,
        PathStatus::Warning { reason } => seq!['!', ' '] + reason@,
        PathStatus::Error { reason } => seq!['\u{00D7}', ' '] + reason@,
    }
}

impl PathStatus {
    /// The hint text: nothing, `ok`, `ok · detail`, `! modded · detail`,
    /// `! reason` or `× reason`.
    pub fn hint_text(&self) -> (r: String)
        ensures
            r@ == hint_of(*self),
    {
        let mut r = String::new();
        match self {
            PathStatus::Empty => {},
            PathStatus::Good { detail: Some(d) } => {
                push_str(&mut r, "ok \u{00B7} ");
                push_str(&mut r, d.as_str());
                proof {
                    reveal_strlit("ok \u{00B7} ");
                }
            },
            PathStatus::Good { detail: None } => {
                push_str(&mut r, "ok");
                proof {
                    reveal_strlit("ok");
                }
            },
            PathStatus::Modded { detail } => {
                push_str(&mut r, "! modded \u{00B7} ");
                push_str(&mut r, detail.as_str());
                proof {
                    reveal_strlit("! modded \u{00B7} ");
                }
            },
            PathStatus::Warning { reason } => {
                push_str(&mut r, "! ");
                push_str(&mut r, reason.as_str());
                proof {
                    reveal_strlit("! ");
                }
            },
            PathStatus::Error { reason } => {
                push_str(&mut r, "\u{00D7} ");
                push_str(&mut r, reason.as_str());
                proof {
                    reveal_strlit("\u{00D7} ");
                }
            },
        }
        assert(r@ =~= hint_of(*self));
        r
    }

    /// The colour of the status: neutral when empty, success when ok,
    /// warning when modded or a warning, error on an error.
    pub fn tone(&self) -> (t: PathStatusTone)
        ensures
            t == match *self {
                PathStatus::Empty => PathStatusTone::Neutral,
                PathStatus::Good { .. } => PathStatusTone::Success,
                PathStatus::Modded { .. } => PathStatusTone::Warning,
                PathStatus::Warning { .. } => PathStatusTone::Warning,
                PathStatus::Error { .. } => PathStatusTone::Error,
            },
    {
        match self {
            PathStatus::Empty => PathStatusTone::Neutral,
            PathStatus::Good { .. } => PathStatusTone::Success,
            PathStatus::Modded { .. } | PathStatus::Warning { .. } => PathStatusTone::Warning,
            PathStatus::Error { .. } => PathStatusTone::Error,
        }
    }
}

/// A status counts as an issue when it is a warning or an error.
pub open spec fn is_issue(s: PathStatus) -> bool {
    s is Warning || s is Error
}

// ---------------------------------------------------------------- fields

pub const FIELD_BGEE_GAME_FOLDER: &'static str = "bgee_game_folder";
pub const FIELD_BG2EE_GAME_FOLDER: &'static str = "bg2ee_game_folder";
pub const FIELD_IWDEE_GAME_FOLDER: &'static str = "iwdee_game_folder";
pub const FIELD_EET_BGEE_GAME_FOLDER: &'static str = "eet_bgee_game_folder";
pub const FIELD_EET_BG2EE_GAME_FOLDER: &'static str = "eet_bg2ee_game_folder";
pub const FIELD_GLOBAL_MODS_FOLDER: &'static str = "global_mods_folder";
pub const FIELD_MODS_ARCHIVE_FOLDER: &'static str = "mods_archive_folder";
pub const FIELD_MODS_BACKUP_FOLDER: &'static str = "mods_backup_folder";
pub const FIELD_WEIDU_LOG_FOLDER: &'static str = "weidu_log_folder";
pub const FIELD_WEIDU_BINARY: &'static str = "weidu_binary";
pub const FIELD_MOD_INSTALLER_BINARY: &'static str = "mod_installer_binary";

/// The fields that hold a game folder.
pub open spec fn game_folder_fields() -> Seq<Seq<char>> {
    seq![
        FIELD_BGEE_GAME_FOLDER@,
        FIELD_EET_BGEE_GAME_FOLDER@,
        FIELD_BG2EE_GAME_FOLDER@,
        FIELD_EET_BG2EE_GAME_FOLDER@,
        FIELD_IWDEE_GAME_FOLDER@,
    ]
}

/// Whether `field` names a game folder.
pub fn is_game_folder_field(field: &str) -> (r: bool)
    ensures
        r == game_folder_fields().contains(field@),
{
    let r = crate::text::str_eq(field, FIELD_BGEE_GAME_FOLDER) || crate::text::str_eq(field, FIELD_EET_BGEE_GAME_FOLDER)
        || crate::text::str_eq(field, FIELD_BG2EE_GAME_FOLDER) || crate::text::str_eq(field, FIELD_EET_BG2EE_GAME_FOLDER)
        || crate::text::str_eq(field, FIELD_IWDEE_GAME_FOLDER);
    proof {
        if r {
            if field@ == FIELD_BGEE_GAME_FOLDER@ {
                assert(game_folder_fields()[0] == field@);
            } else if field@ == FIELD_EET_BGEE_GAME_FOLDER@ {
                assert(game_folder_fields()[1] == field@);
            } else if field@ == FIELD_BG2EE_GAME_FOLDER@ {
                assert(game_folder_fields()[2] == field@);
            } else if field@ == FIELD_EET_BG2EE_GAME_FOLDER@ {
                assert(game_folder_fields()[3] == field@);
            } else {
                assert(game_folder_fields()[4] == field@);
            }
        }
    }
    r
}

/// What kind of path a field holds.
#[derive(Debug, Clone, Copy, PartialEq, Eq, Structural)]
pub enum FieldRole {
    Game,
    Working,
    Binary,
}

/// The role of each field: game folders, the two binaries, and working
/// folders for everything else.
pub open spec fn role_of(field: Seq<char>) -> FieldRole {
    if game_folder_fields().contains(field) {
        FieldRole::Game
    } else if field == FIELD_WEIDU_BINARY@ || field == FIELD_MOD_INSTALLER_BINARY@ {
        FieldRole::Binary
    } else {
        FieldRole::Working
    }
}

pub fn field_role(field: &str) -> (r: FieldRole)
    ensures
        r == role_of(field@),
{
    if is_game_folder_field(field) {
        FieldRole::Game
    } else if crate::text::str_eq(field, FIELD_WEIDU_BINARY) || crate::text::str_eq(field, FIELD_MOD_INSTALLER_BINARY) {
        FieldRole::Binary
    } else {
        FieldRole::Working
    }
}

// ----------------------------------------------------------- path checks

/// What the file system says about a path, gathered by the caller.
#[derive(Debug, Clone, Default)]
pub struct PathFacts {
    /// The path exists.
    pub exists: bool,
    /// The path is a folder.
    pub is_dir: bool,
    /// The path is a file.
    pub is_file: bool,
    /// The path is absolute.
    pub is_absolute: bool,
    /// The folder holds a `chitin.key` file.
    pub has_chitin_key: bool,
    /// The folder holds a `lang` folder.
    pub has_lang_dir: bool,
    /// What the game-install inspection says about Siege of Dragonspear
    /// (empty when there is nothing to say).
    pub sod_description: String,
    /// The game install carries no mod residue.
    pub residue_clean: bool,
    /// What the game-install inspection says about mod residue.
    pub residue_description: String,
    /// Where a bare binary name was found on `$PATH`.
    pub resolved_on_path: Option<String>,
}

pub open spec fn sep_join(a: Seq<char>, b: Seq<char>) -> Seq<char> {
    a + middle_dot_sep() + b
}

/// The model of a path status.
pub enum StatusView {
    Empty,
    Good(Option<Seq<char>>),
    Modded(Seq<char>),
    Warning(Seq<char>),
    Error(Seq<char>),
}

impl View for PathStatus {
    type V = StatusView;

    open spec fn view(&self) -> StatusView {
        match *self {
            PathStatus::Empty => StatusView::Empty,
            PathStatus::Good { detail: Some(d) } => StatusView::Good(Some(d@)),
            PathStatus::Good { detail: None } => StatusView::Good(None),
            PathStatus::Modded { detail } => StatusView::Modded(detail@),
            PathStatus::Warning { reason } => StatusView::Warning(reason@),
            PathStatus::Error { reason } => StatusView::Error(reason@),
        }
    }
}

/// The status of a game folder.
pub open spec fn game_folder_status(f: PathFacts) -> StatusView {
    if !f.exists {
        StatusView::Error("path does not exist"@)
    } else if !f.is_dir {
        StatusView::Error("not a folder"@)
    } else if !f.has_chitin_key || !f.has_lang_dir {
        StatusView::Warning("no chitin.key/lang \u{2014} not a recognizable game install"@)
    } else if f.residue_clean {
        StatusView::Good(Some(if f.sod_description@.len() == 0 {
            "clean install"@
        } else {
            sep_join("clean install"@, f.sod_description@)
        }))
    } else {
        StatusView::Modded(if f.sod_description@.len() == 0 {
            f.residue_description@
        } else {
            sep_join(f.residue_description@, f.sod_description@)
        })
    }
}

/// `a · b` as a `String`.
fn joined_with_dot(a: &str, b: &str) -> (r: String)
    ensures
        r@ == sep_join(a@, b@),
{
    let mut r = String::from_str(a);
    push_str(&mut r, " \u{00B7} ");
    push_str(&mut r, b);
    proof {
        reveal_strlit(" \u{00B7} ");
    }
    assert(r@ =~= sep_join(a@, b@));
    r
}

/// The status of a game folder, from the facts about it.
pub fn check_game_folder(facts: &PathFacts) -> (st: PathStatus)
    ensures
        st@ == game_folder_status(*facts),
{
    if !facts.exists {
        return PathStatus::Error { reason: String::from_str("path does not exist") };
    }
    if !facts.is_dir {
        return PathStatus::Error { reason: String::from_str("not a folder") };
    }
    if !facts.has_chitin_key || !facts.has_lang_dir {
        return PathStatus::Warning {
            reason: String::from_str("no chitin.key/lang \u{2014} not a recognizable game install"),
        };
    }
    let sod_empty = facts.sod_description.as_str().is_empty();
    if facts.residue_clean {
        PathStatus::Good {
            detail: Some(if sod_empty {
                String::from_str("clean install")
            } else {
                joined_with_dot("clean install", facts.sod_description.as_str())
            }),
        }
    } else {
        PathStatus::Modded {
            detail: if sod_empty {
                facts.residue_description.clone()
            } else {
                joined_with_dot(facts.residue_description.as_str(), facts.sod_description.as_str())
            },
        }
    }
}

/// The status of a working folder (mods, archives, backups, logs).
pub open spec fn working_folder_status(f: PathFacts) -> StatusView {
    if !f.exists {
        StatusView::Warning("will be created on first install"@)
    } else if !f.is_dir {
        StatusView::Error("not a folder"@)
    } else if f.has_chitin_key {
        StatusView::Warning("looks like a game install \u{2014} pick an empty folder"@)
    } else {
        StatusView::Good(None)
    }
}

/// The status of a working folder, from the facts about it.
pub fn check_working_folder(facts: &PathFacts) -> (st: PathStatus)
    ensures
        st@ == working_folder_status(*facts),
{
    if !facts.exists {
        return PathStatus::Warning { reason: String::from_str("will be created on first install") };
    }
    if !facts.is_dir {
        return PathStatus::Error { reason: String::from_str("not a folder") };
    }
    if facts.has_chitin_key {
        return PathStatus::Warning {
            reason: String::from_str("looks like a game install \u{2014} pick an empty folder"),
        };
    }
    PathStatus::Good { detail: None }
}

/// The status of a binary: an absolute path must be a file, a bare name
/// must be found on `$PATH`.
pub open spec fn binary_status(f: PathFacts) -> StatusView {
    if f.is_absolute {
        if f.is_file {
            StatusView::Good(None)
        } else {
            StatusView::Error("binary not found at that path"@)
        }
    } else {
        match f.resolved_on_path {
            Some(r) => StatusView::Good(Some(r@)),
            None => StatusView::Error("not on $PATH — install or specify the full path"@),
        }
    }
}

/// The status of a binary, from the facts about it.
pub fn check_binary(facts: &PathFacts) -> (st: PathStatus)
    ensures
        st@ == binary_status(*facts),
{
    if facts.is_absolute {
        if facts.is_file {
            PathStatus::Good { detail: None }
        } else {
            PathStatus::Error { reason: String::from_str("binary not found at that path") }
        }
    } else {
        match &facts.resolved_on_path {
            Some(resolved) => PathStatus::Good { detail: Some(resolved.clone()) },
            None => PathStatus::Error {
                reason: String::from_str("not on $PATH — install or specify the full path"),
            },
        }
    }
}

/// The status of the path `value` of `field`: empty when blank, else by the
/// field's role, from the facts about the trimmed path.
pub open spec fn path_status(field: Seq<char>, value: Seq<char>, f: PathFacts) -> StatusView {
    if trim(value).len() == 0 {
        StatusView::Empty
    } else {
        match role_of(field) {
            FieldRole::Game => game_folder_status(f),
            FieldRole::Working => working_folder_status(f),
            FieldRole::Binary => binary_status(f),
        }
    }
}

/// The game whose install a game folder is inspected as.
#[derive(Debug, Clone, Copy, PartialEq, Eq, Structural)]
pub enum SourceGame {
    Bgee,
    Bg2ee,
    Iwdee,
}

/// The game of a game-folder field: the BGEE folders (own and EET) are
/// BGEE, the BG2EE folders (own and EET) are BG2EE, any other is IWDEE.
pub open spec fn source_game_of(field: Seq<char>) -> SourceGame {
    if field == FIELD_BGEE_GAME_FOLDER@ || field == FIELD_EET_BGEE_GAME_FOLDER@ {
        SourceGame::Bgee
    } else if field == FIELD_BG2EE_GAME_FOLDER@ || field == FIELD_EET_BG2EE_GAME_FOLDER@ {
        SourceGame::Bg2ee
    } else {
        SourceGame::Iwdee
    }
}

pub fn source_game_for_field(field: &str) -> (g: SourceGame)
    ensures
        g == source_game_of(field@),
{
    if crate::text::str_eq(field, FIELD_BGEE_GAME_FOLDER) || crate::text::str_eq(field, FIELD_EET_BGEE_GAME_FOLDER) {
        SourceGame::Bgee
    } else if crate::text::str_eq(field, FIELD_BG2EE_GAME_FOLDER) || crate::text::str_eq(
        field,
        FIELD_EET_BG2EE_GAME_FOLDER,
    ) {
        SourceGame::Bg2ee
    } else {
        SourceGame::Iwdee
    }
}

/// Only a game folder is ever reported as modded.
pub proof fn law_only_game_folders_are_modded(field: Seq<char>, value: Seq<char>, f: PathFacts)
    ensures
        path_status(field, value, f) is Modded ==> game_folder_fields().contains(field),
{
}

/// The status of the path `value` of `field`; `facts` describe the path
/// with surrounding whitespace removed.
pub fn check_path(field: &str, value: &str, facts: &PathFacts) -> (st: PathStatus)
    ensures
        st@ == path_status(field@, value@, *facts),
{
    if is_blank_exec(value) {
        return PathStatus::Empty;
    }
    match field_role(field) {
        FieldRole::Game => check_game_folder(facts),
        FieldRole::Working => check_working_folder(facts),
        FieldRole::Binary => check_binary(facts),
    }
}

/// The configured value of a field, when the field is known.
pub open spec fn field_value(step1: Step1State, field: Seq<char>) -> Option<Seq<char>> {
    if field == FIELD_BGEE_GAME_FOLDER@ {
        Some(step1.bgee_game_folder@)
    } else if field == FIELD_BG2EE_GAME_FOLDER@ {
        Some(step1.bg2ee_game_folder@)
    } else if field == FIELD_IWDEE_GAME_FOLDER@ {
        Some(step1.iwdee_game_folder@)
    } else if field == FIELD_EET_BGEE_GAME_FOLDER@ {
        Some(step1.eet_bgee_game_folder@)
    } else if field == FIELD_EET_BG2EE_GAME_FOLDER@ {
        Some(step1.eet_bg2ee_game_folder@)
    } else if field == FIELD_GLOBAL_MODS_FOLDER@ {
        Some(step1.global_mods_folder@)
    } else if field == FIELD_MODS_ARCHIVE_FOLDER@ {
        Some(step1.mods_archive_folder@)
    } else if field == FIELD_MODS_BACKUP_FOLDER@ {
        Some(step1.mods_backup_folder@)
    } else if field == FIELD_WEIDU_LOG_FOLDER@ {
        Some(step1.weidu_log_folder@)
    } else if field == FIELD_WEIDU_BINARY@ {
        Some(step1.weidu_binary@)
    } else if field == FIELD_MOD_INSTALLER_BINARY@ {
        Some(step1.mod_installer_binary@)
    } else {
        None
    }
}

/// The configured value of a field.
pub fn value_for_field<'a>(step1: &'a Step1State, field: &str) -> (r: Option<&'a String>)
    ensures
        match (r, field_value(*step1, field@)) {
            (Some(v), Some(w)) => v@ == w,
            (None, None) => true,
            _ => false,
        },
{
    if str_eq(field, FIELD_BGEE_GAME_FOLDER) {
        Some(&step1.bgee_game_folder)
    } else if str_eq(field, FIELD_BG2EE_GAME_FOLDER) {
        Some(&step1.bg2ee_game_folder)
    } else if str_eq(field, FIELD_IWDEE_GAME_FOLDER) {
        Some(&step1.iwdee_game_folder)
    } else if str_eq(field, FIELD_EET_BGEE_GAME_FOLDER) {
        Some(&step1.eet_bgee_game_folder)
    } else if str_eq(field, FIELD_EET_BG2EE_GAME_FOLDER) {
        Some(&step1.eet_bg2ee_game_folder)
    } else if str_eq(field, FIELD_GLOBAL_MODS_FOLDER) {
        Some(&step1.global_mods_folder)
    } else if str_eq(field, FIELD_MODS_ARCHIVE_FOLDER) {
        Some(&step1.mods_archive_folder)
    } else if str_eq(field, FIELD_MODS_BACKUP_FOLDER) {
        Some(&step1.mods_backup_folder)
    } else if str_eq(field, FIELD_WEIDU_LOG_FOLDER) {
        Some(&step1.weidu_log_folder)
    } else if str_eq(field, FIELD_WEIDU_BINARY) {
        Some(&step1.weidu_binary)
    } else if str_eq(field, FIELD_MOD_INSTALLER_BINARY) {
        Some(&step1.mod_installer_binary)
    } else {
        None
    }
}

/// The status of one field: empty for an unknown field, else the status of
/// its configured path; `facts` describe that path, trimmed.
pub fn run_for_field(step1: &Step1State, field: &str, facts: &PathFacts) -> (st: PathStatus)
    ensures
        st@ == match field_value(*step1, field@) {
            Some(v) => path_status(field@, v, *facts),
            None => StatusView::Empty,
        },
{
    match value_for_field(step1, field) {
        Some(value) => check_path(field, value.as_str(), facts),
        None => PathStatus::Empty,
    }
}

/// The result of validating every path.
#[derive(Debug, Clone, PartialEq, Eq)]
pub struct ValidationReport {
    /// Each checked field with its status, each field once.
    pub fields: Vec<(&'static str, PathStatus)>,
    pub overall_ok: bool,
    pub issue_count: usize,
}

impl Default for ValidationReport {
    /// Nothing checked yet.
    fn default() -> (r: Self)
        ensures
            r.fields@.len() == 0,
            !r.overall_ok,
            r.issue_count == 0,
    {
        ValidationReport { fields: Vec::new(), overall_ok: false, issue_count: 0 }
    }
}

/// A moment of the monotonic clock.
#[verifier::external_type_specification]
#[verifier::external_body]
pub struct ExInstant(std::time::Instant);

/// The state of the settings screen.
#[derive(Debug, Clone, Default)]
pub struct SettingsScreenState {
    pub active_tab: SettingsTab,
    pub name_row_editing: bool,
    pub name_row_buffer: String,
    pub oauth_popup_open: bool,
    pub validate_now_in_flight: bool,
    /// The path fields edited recently, with the time of their last edit;
    /// each field at most once (see `fields_distinct`, kept by `mark_dirty`
    /// and `keep_queued`).
    pub path_edit_debounce: Vec<(&'static str, std::time::Instant)>,
    pub path_validation_results: ValidationReport,
    pub nexus_dialog: NexusConnectDialogState,
}

/// The fields a full validation checks, in order: the three game folders,
/// the three working folders and the two binaries (the EET game folders
/// and the log folder are not checked).
pub open spec fn checked_fields() -> Seq<&'static str> {
    seq![
        FIELD_BGEE_GAME_FOLDER,
        FIELD_BG2EE_GAME_FOLDER,
        FIELD_IWDEE_GAME_FOLDER,
        FIELD_GLOBAL_MODS_FOLDER,
        FIELD_MODS_ARCHIVE_FOLDER,
        FIELD_MODS_BACKUP_FOLDER,
        FIELD_WEIDU_BINARY,
        FIELD_MOD_INSTALLER_BINARY,
    ]
}

/// The configured paths of the checked fields, in the same order.
pub open spec fn checked_values(step1: Step1State) -> Seq<Seq<char>> {
    seq![
        step1.bgee_game_folder@,
        step1.bg2ee_game_folder@,
        step1.iwdee_game_folder@,
        step1.global_mods_folder@,
        step1.mods_archive_folder@,
        step1.mods_backup_folder@,
        step1.weidu_binary@,
        step1.mod_installer_binary@,
    ]
}

/// A full validation checks each field against its own configured value:
/// the `i`-th checked field's value is the one `field_value` gives for it.
pub proof fn law_each_checked_field_holds_its_own_value(step1: Step1State)
    ensures
        forall|i: int|
            0 <= i < checked_fields().len() ==> field_value(step1, (#[trigger] checked_fields()[i])@) == Some(
                checked_values(step1)[i],
            ),
{
    reveal_strlit("bgee_game_folder");
    reveal_strlit("bg2ee_game_folder");
    reveal_strlit("iwdee_game_folder");
    reveal_strlit("eet_bgee_game_folder");
    reveal_strlit("eet_bg2ee_game_folder");
    reveal_strlit("global_mods_folder");
    reveal_strlit("mods_archive_folder");
    reveal_strlit("mods_backup_folder");
    reveal_strlit("weidu_log_folder");
    reveal_strlit("weidu_binary");
    reveal_strlit("mod_installer_binary");
    assert(FIELD_BG2EE_GAME_FOLDER@[2] != FIELD_BGEE_GAME_FOLDER@[2]);
    assert(FIELD_IWDEE_GAME_FOLDER@[0] != FIELD_BGEE_GAME_FOLDER@[0]);
    assert(FIELD_IWDEE_GAME_FOLDER@[0] != FIELD_BG2EE_GAME_FOLDER@[0]);
    assert(FIELD_GLOBAL_MODS_FOLDER@[0] != FIELD_BGEE_GAME_FOLDER@[0]);
    assert(FIELD_MODS_ARCHIVE_FOLDER@[0] != FIELD_BGEE_GAME_FOLDER@[0]);
    assert(FIELD_MODS_BACKUP_FOLDER@[0] != FIELD_BGEE_GAME_FOLDER@[0]);
    assert(FIELD_MODS_BACKUP_FOLDER@[0] != FIELD_GLOBAL_MODS_FOLDER@[0]);
    assert(FIELD_MODS_BACKUP_FOLDER@[5] != FIELD_MODS_ARCHIVE_FOLDER@[5]);
    assert(FIELD_WEIDU_BINARY@[0] != FIELD_BGEE_GAME_FOLDER@[0]);
    assert(FIELD_MOD_INSTALLER_BINARY@[0] != FIELD_BGEE_GAME_FOLDER@[0]);
    assert(FIELD_MOD_INSTALLER_BINARY@[0] != FIELD_EET_BGEE_GAME_FOLDER@[0]);
    assert(FIELD_MOD_INSTALLER_BINARY@[3] != FIELD_MODS_ARCHIVE_FOLDER@[3]);
    assert(FIELD_MOD_INSTALLER_BINARY@[3] != FIELD_MODS_BACKUP_FOLDER@[3]);
    assert(FIELD_WEIDU_BINARY@[0] != FIELD_WEIDU_LOG_FOLDER@[0] || FIELD_WEIDU_BINARY@[6] != FIELD_WEIDU_LOG_FOLDER@[6]);
    assert(field_value(step1, FIELD_BGEE_GAME_FOLDER@) == Some(step1.bgee_game_folder@));
    assert(field_value(step1, FIELD_BG2EE_GAME_FOLDER@) == Some(step1.bg2ee_game_folder@));
    assert(field_value(step1, FIELD_IWDEE_GAME_FOLDER@) == Some(step1.iwdee_game_folder@));
    assert(field_value(step1, FIELD_GLOBAL_MODS_FOLDER@) == Some(step1.global_mods_folder@));
    assert(field_value(step1, FIELD_MODS_ARCHIVE_FOLDER@) == Some(step1.mods_archive_folder@));
    assert(field_value(step1, FIELD_MODS_BACKUP_FOLDER@) == Some(step1.mods_backup_folder@));
    assert(field_value(step1, FIELD_WEIDU_BINARY@) == Some(step1.weidu_binary@));
    assert(field_value(step1, FIELD_MOD_INSTALLER_BINARY@) == Some(step1.mod_installer_binary@));
    let f = checked_fields();
    let v = checked_values(step1);
    assert(f[0] == FIELD_BGEE_GAME_FOLDER && v[0] == step1.bgee_game_folder@);
    assert(f[1] == FIELD_BG2EE_GAME_FOLDER && v[1] == step1.bg2ee_game_folder@);
    assert(f[2] == FIELD_IWDEE_GAME_FOLDER && v[2] == step1.iwdee_game_folder@);
    assert(f[3] == FIELD_GLOBAL_MODS_FOLDER && v[3] == step1.global_mods_folder@);
    assert(f[4] == FIELD_MODS_ARCHIVE_FOLDER && v[4] == step1.mods_archive_folder@);
    assert(f[5] == FIELD_MODS_BACKUP_FOLDER && v[5] == step1.mods_backup_folder@);
    assert(f[6] == FIELD_WEIDU_BINARY && v[6] == step1.weidu_binary@);
    assert(f[7] == FIELD_MOD_INSTALLER_BINARY && v[7] == step1.mod_installer_binary@);
}

/// The fields a full validation checks, with their configured paths.
pub fn run_now_fields(step1: &Step1State) -> (fields: Vec<(&'static str, String)>)
    ensures
        fields@.len() == checked_fields().len(),
        forall|i: int| 0 <= i < fields@.len() ==> (#[trigger] fields@[i]).0 == checked_fields()[i]
            && fields@[i].1@ == checked_values(*step1)[i],
        forall|i: int| 0 <= i < fields@.len() ==> field_value(*step1, (#[trigger] fields@[i]).0@) == Some(fields@[i].1@),
{
    proof {
        law_each_checked_field_holds_its_own_value(*step1);
    }
    let mut v: Vec<(&'static str, String)> = Vec::new();
    v.push((FIELD_BGEE_GAME_FOLDER, step1.bgee_game_folder.clone()));
    v.push((FIELD_BG2EE_GAME_FOLDER, step1.bg2ee_game_folder.clone()));
    v.push((FIELD_IWDEE_GAME_FOLDER, step1.iwdee_game_folder.clone()));
    v.push((FIELD_GLOBAL_MODS_FOLDER, step1.global_mods_folder.clone()));
    v.push((FIELD_MODS_ARCHIVE_FOLDER, step1.mods_archive_folder.clone()));
    v.push((FIELD_MODS_BACKUP_FOLDER, step1.mods_backup_folder.clone()));
    v.push((FIELD_WEIDU_BINARY, step1.weidu_binary.clone()));
    v.push((FIELD_MOD_INSTALLER_BINARY, step1.mod_installer_binary.clone()));
    v
}

/// How many statuses are issues.
pub open spec fn issue_total(entries: Seq<(&'static str, PathStatus)>) -> nat
    decreases entries.len(),
{
    if entries.len() == 0 {
        0
    } else {
        issue_total(entries.drop_last()) + if is_issue(entries.last().1) { 1nat } else { 0nat }
    }
}

/// The report of a full validation: the checked fields with their statuses,
/// whether the settings are valid as a whole, and how many statuses are
/// warnings or errors.
pub fn validation_report(entries: Vec<(&'static str, PathStatus)>, overall_ok: bool) -> (r: ValidationReport)
    ensures
        r.fields@ == entries@,
        r.overall_ok == overall_ok,
        r.issue_count == issue_total(entries@),
{
    let mut count: usize = 0;
    let mut i: usize = 0;
    while i < entries.len()
        invariant
            i <= entries@.len(),
            count == issue_total(entries@.take(i as int)),
            count <= i,
        decreases entries@.len() - i,
    {
        assert(entries@.take(i + 1).drop_last() =~= entries@.take(i as int));
        match &entries[i].1 {
            PathStatus::Warning { .. } | PathStatus::Error { .. } => {
                count += 1;
            },
            _ => {},
        }
        i += 1;
    }
    assert(entries@.take(entries@.len() as int) =~= entries@);
    ValidationReport { fields: entries, overall_ok, issue_count: count }
}

/// The full validation: each checked field with the status of its
/// configured path (`facts[i]` describes the path of the `i`-th checked
/// field, trimmed), whether the settings are valid as a whole
/// (`overall_ok`, decided by the caller's validity rules), and how many
/// statuses are warnings or errors.
pub fn run_now(step1: &Step1State, facts: &Vec<PathFacts>, overall_ok: bool) -> (r: ValidationReport)
    requires
        facts@.len() == checked_fields().len(),
    ensures
        r.fields@.len() == checked_fields().len(),
        forall|i: int|
            0 <= i < r.fields@.len() ==> (#[trigger] r.fields@[i]).0 == checked_fields()[i]
                && r.fields@[i].1@ == path_status(
                checked_fields()[i]@,
                checked_values(*step1)[i],
                facts@[i],
            ),
        forall|i: int|
            0 <= i < r.fields@.len() ==> field_value(*step1, (#[trigger] r.fields@[i]).0@) == Some(
                checked_values(*step1)[i],
            ),
        r.overall_ok == overall_ok,
        r.issue_count == issue_total(r.fields@),
{
    proof {
        law_each_checked_field_holds_its_own_value(*step1);
    }
    let named = run_now_fields(step1);
    let mut entries: Vec<(&'static str, PathStatus)> = Vec::new();
    let mut i: usize = 0;
    while i < named.len()
        invariant
            i <= named@.len(),
            named@.len() == checked_fields().len(),
            facts@.len() == checked_fields().len(),
            forall|k: int| 0 <= k < named@.len() ==> (#[trigger] named@[k]).0 == checked_fields()[k]
                && named@[k].1@ == checked_values(*step1)[k],
            entries@.len() == i,
            forall|k: int|
                0 <= k < i ==> (#[trigger] entries@[k]).0 == checked_fields()[k]
                    && entries@[k].1@ == path_status(
                    checked_fields()[k]@,
                    checked_values(*step1)[k],
                    facts@[k],
                ),
        decreases named@.len() - i,
    {
        let name = named[i].0;
        let st = check_path(name, named[i].1.as_str(), &facts[i]);
        entries.push((name, st));
        i += 1;
    }
    validation_report(entries, overall_ok)
}

// ------------------------------------------------------------- debounce

/// Milliseconds a path edit must settle before it is validated.
pub const DEBOUNCE_MS: u64 = 200;

/// What one tick of the edit debounce asks for.
pub struct DebounceTick {
    /// Some edit has settled: validate every path now.
    pub due: bool,
    /// A settled edit is of a game folder: the game-source probes are stale.
    pub game_folder_due: bool,
    /// The positions of the edits still settling, which stay queued.
    pub still_pending: Vec<usize>,
}

/// An edit that has settled.
pub open spec fn settled_edit(e: (&'static str, u64)) -> bool {
    e.1 >= DEBOUNCE_MS
}

/// One tick of the debounce, given each edited field with the milliseconds
/// since its last edit.
pub fn debounce_tick(edits: &Vec<(&'static str, u64)>) -> (t: DebounceTick)
    ensures
        t.due == exists|i: int| 0 <= i < edits@.len() && settled_edit(#[trigger] edits@[i]),
        t.game_folder_due == exists|i: int|
            0 <= i < edits@.len() && settled_edit(#[trigger] edits@[i])
                && game_folder_fields().contains(edits@[i].0@),
        t.still_pending@ == crate::seqs::indices_where(
            edits@.len(),
            |i: int| !settled_edit(edits@[i]),
        ),
{
    let mut due = false;
    let mut game_folder_due = false;
    let mut still: Vec<usize> = Vec::new();
    let mut i: usize = 0;
    while i < edits.len()
        invariant
            i <= edits@.len(),
            due == exists|k: int| 0 <= k < i && settled_edit(#[trigger] edits@[k]),
            game_folder_due == exists|k: int|
                0 <= k < i && settled_edit(#[trigger] edits@[k])
                    && game_folder_fields().contains(edits@[k].0@),
            still@ == crate::seqs::indices_where(i as nat, |k: int| !settled_edit(edits@[k])),
        decreases edits@.len() - i,
    {
        let (field, elapsed) = edits[i];
        if elapsed >= DEBOUNCE_MS {
            due = true;
            if is_game_folder_field(field) {
                game_folder_due = true;
            }
        } else {
            still.push(i);
        }
        proof {
            crate::seqs::lemma_indices_where_step(i as nat, |k: int| !settled_edit(edits@[k]));
        }
        i += 1;
    }
    DebounceTick { due, game_folder_due, still_pending: still }
}

/// The queued edits name each field at most once (the queue is a map from
/// field to the time of its last edit).
pub open spec fn fields_distinct<T>(pending: Seq<(&'static str, T)>) -> bool {
    forall|i: int, j: int| 0 <= i < j < pending.len() ==> (#[trigger] pending[i]).0@ != (#[trigger] pending[j]).0@
}

/// The queue after an edit of `field` at `at`: that field's entry gets the
/// new time, or a new entry is added at the end.
pub open spec fn marked<T>(pending: Seq<(&'static str, T)>, field: &'static str, at: T) -> Seq<(&'static str, T)> {
    if exists|k: int| 0 <= k < pending.len() && (#[trigger] pending[k]).0@ == field@ {
        let k = choose|k: int| 0 <= k < pending.len() && (#[trigger] pending[k]).0@ == field@;
        pending.update(k, (pending[k].0, at))
    } else {
        pending.push((field, at))
    }
}

/// Records an edit of `field` at `at` in the debounce queue: the field's
/// entry gets the new time, or a new entry is added; no field is queued
/// twice.
pub fn mark_dirty<T>(pending: &mut Vec<(&'static str, T)>, field: &'static str, at: T)
    requires
        fields_distinct(old(pending)@),
    ensures
        fields_distinct(final(pending)@),
        final(pending)@ == marked(old(pending)@, field, at),
{
    let ghost before = pending@;
    let mut k: usize = 0;
    while k < pending.len()
        invariant
            k <= pending@.len(),
            pending@ == before,
            before == old(pending)@,
            fields_distinct(before),
            forall|j: int| 0 <= j < k ==> (#[trigger] before[j]).0@ != field@,
        decreases pending@.len() - k,
    {
        if crate::text::str_eq(pending[k].0, field) {
            let name = pending[k].0;
            pending.set(k, (name, at));
            proof {
                assert(before[k as int].0@ == field@);
                let c = choose|c: int| 0 <= c < before.len() && (#[trigger] before[c]).0@ == field@;
                assert(c == k as int) by {
                    if c < k as int {
                        assert(before[c].0@ != field@);
                    } else if c > k as int {
                        assert(before[k as int].0@ != before[c].0@);
                    }
                }
                assert(pending@ =~= before.update(k as int, (before[k as int].0, at)));
                assert(exists|m: int| 0 <= m < before.len() && (#[trigger] before[m]).0@ == field@);
                assert(pending@ == marked(before, field, at));
                assert forall|i: int, j: int| 0 <= i < j < pending@.len() implies (#[trigger] pending@[i]).0@
                    != (#[trigger] pending@[j]).0@ by {
                    assert(pending@[i].0 == before[i].0 && pending@[j].0 == before[j].0);
                }
            }
            return;
        }
        k += 1;
    }
    pending.push((field, at));
    proof {
        assert forall|i: int, j: int| 0 <= i < j < pending@.len() implies (#[trigger] pending@[i]).0@
            != (#[trigger] pending@[j]).0@ by {
            if j < before.len() {
                assert(pending@[i] == before[i] && pending@[j] == before[j]);
            } else {
                assert(pending@[i] == before[i]);
            }
        }
    }
}

/// Keeps the queued edits at the positions `keep` (increasing, each in
/// range), in order; the others are dropped. No field comes to be queued
/// twice.
pub fn keep_queued<T: Copy>(pending: &mut Vec<(&'static str, T)>, keep: &Vec<usize>)
    requires
        crate::seqs::strictly_increasing(keep@),
        forall|i: int| 0 <= i < keep@.len() ==> #[trigger] keep@[i] < old(pending)@.len(),
        fields_distinct(old(pending)@),
    ensures
        final(pending)@ == keep@.map_values(|i: usize| old(pending)@[i as int]),
        fields_distinct(final(pending)@),
{
    let ghost before = pending@;
    let mut kept: Vec<(&'static str, T)> = Vec::new();
    let mut i: usize = 0;
    while i < keep.len()
        invariant
            i <= keep@.len(),
            pending@ == before,
            forall|m: int| 0 <= m < keep@.len() ==> #[trigger] keep@[m] < before.len(),
            kept@ == keep@.take(i as int).map_values(|x: usize| before[x as int]),
        decreases keep@.len() - i,
    {
        kept.push(pending[keep[i]]);
        i += 1;
        assert(kept@ =~= keep@.take(i as int).map_values(|x: usize| before[x as int]));
    }
    assert(keep@.take(keep@.len() as int) =~= keep@);
    *pending = kept;
    proof {
        assert forall|a: int, b: int| 0 <= a < b < pending@.len() implies (#[trigger] pending@[a]).0@
            != (#[trigger] pending@[b]).0@ by {
            assert(keep@[a] < keep@[b]);
            assert(pending@[a] == before[keep@[a] as int]);
            assert(pending@[b] == before[keep@[b] as int]);
        }
    }
}

/// The least of the times still to wait, in milliseconds.
pub open spec fn least_wait(elapsed: Seq<u64>) -> Option<nat>
    decreases elapsed.len(),
{
    if elapsed.len() == 0 {
        None
    } else {
        let w: nat = if elapsed.last() >= DEBOUNCE_MS { 0 } else { (DEBOUNCE_MS - elapsed.last()) as nat };
        match least_wait(elapsed.drop_last()) {
            None => Some(w),
            Some(m) => Some(if w < m { w } else { m }),
        }
    }
}

/// How long until the next edit settles (zero for one already settled);
/// nothing when no edit is queued.
pub fn next_debounce_due_in(elapsed_ms: &Vec<u64>) -> (r: Option<u64>)
    ensures
        match (r, least_wait(elapsed_ms@)) {
            (Some(a), Some(b)) => a == b,
            (None, None) => true,
            _ => false,
        },
{
    let mut best: Option<u64> = None;
    let mut i: usize = 0;
    while i < elapsed_ms.len()
        invariant
            i <= elapsed_ms@.len(),
            match (best, least_wait(elapsed_ms@.take(i as int))) {
                (Some(a), Some(b)) => a == b,
                (None, None) => true,
                _ => false,
            },
        decreases elapsed_ms@.len() - i,
    {
        assert(elapsed_ms@.take(i + 1).drop_last() =~= elapsed_ms@.take(i as int));
        let e = elapsed_ms[i];
        let w: u64 = if e >= DEBOUNCE_MS { 0 } else { DEBOUNCE_MS - e };
        best = match best {
            None => Some(w),
            Some(m) => Some(if w < m { w } else { m }),
        };
        i += 1;
    }
    assert(elapsed_ms@.take(elapsed_ms@.len() as int) =~= elapsed_ms@);
    best
}

// ------------------------------------------------------- saving settings

/// How long changed settings wait unsaved before they are written, in
/// milliseconds.
pub const SETTINGS_SAVE_DEBOUNCE_MS: u64 = 1000;

/// What one persistence tick does with the settings.
#[derive(Debug, Clone, Copy, PartialEq, Eq, Structural)]
pub enum SettingsSaveStep {
    /// Nothing differs from what was saved: forget any waiting change.
    ClearTimer,
    /// A change was just seen: start timing it, save nothing yet.
    StartTimer,
    /// The change is still settling.
    Wait,
    /// The change has waited long enough: write it (and, once written,
    /// clear the timer).
    Save,
}

/// The persistence step for the settings: `changed` when they differ from
/// what was last saved, `dirty_for_ms` how long the change has been timed
/// (`None` when no timer runs).
pub fn settings_save_step(changed: bool, dirty_for_ms: Option<u64>) -> (step: SettingsSaveStep)
    ensures
        step == (if !changed {
            SettingsSaveStep::ClearTimer
        } else {
            match dirty_for_ms {
                None => SettingsSaveStep::StartTimer,
                Some(ms) => if ms >= SETTINGS_SAVE_DEBOUNCE_MS {
                    SettingsSaveStep::Save
                } else {
                    SettingsSaveStep::Wait
                },
            }
        }),
{
    if !changed {
        return SettingsSaveStep::ClearTimer;
    }
    match dirty_for_ms {
        None => SettingsSaveStep::StartTimer,
        Some(ms) => if ms >= SETTINGS_SAVE_DEBOUNCE_MS {
            SettingsSaveStep::Save
        } else {
            SettingsSaveStep::Wait
        },
    }
}

} // verus!
