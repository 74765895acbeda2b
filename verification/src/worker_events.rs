//! What the orchestrator does with the reports of its background workers:
//! the archive check, the download stream and the folder deletions. Each
//! report is applied to the state here; reading the channels is the
//! caller's.
use vstd::prelude::*;

use crate::items::names;
use crate::nav::InstallScreenState;
use crate::notices::{capped_push, NoticeKind, NotificationManager};
use crate::state::Step2State;
use crate::text::push_str;

verus! {

/// A report of the archive check, which hashes the archives already on
/// disk to skip downloading them again.
pub enum ArchiveSkipEvent {
    /// The number of archives to hash is known.
    CandidateEnumerated { total: usize },
    /// Hashing of an archive started.
    AssetHashStarted,
    /// An archive was hashed; `was_skipped` when it needs no download, with
    /// where it lies.
    AssetHashed { index: usize, was_skipped: bool, label: String, dest_display: Option<String> },
    /// The check is over; these archives need no download.
    Finished { skipped_indices: Vec<usize> },
}

/// `v` with `x` added when it is not in it yet.
pub open spec fn set_insert(v: Seq<usize>, x: usize) -> Seq<usize> {
    if v.contains(x) {
        v
    } else {
        v.push(x)
    }
}

/// The entries of `v`, each once, in order of first appearance.
pub open spec fn distinct(v: Seq<usize>) -> Seq<usize>
    decreases v.len(),
{
    if v.len() == 0 {
        seq![]
    } else {
        set_insert(distinct(v.drop_last()), v.last())
    }
}

/// Whether `v` holds `x`.
fn holds(v: &Vec<usize>, x: usize) -> (r: bool)
    ensures
        r == v@.contains(x),
{
    let mut i: usize = 0;
    while i < v.len()
        invariant
            i <= v@.len(),
            forall|k: int| 0 <= k < i ==> v@[k] != x,
        decreases v@.len() - i,
    {
        if v[i] == x {
            assert(v@[i as int] == x);
            return true;
        }
        i += 1;
    }
    false
}

/// Adds `x` to the set `v`.
fn insert_index(v: &mut Vec<usize>, x: usize)
    ensures
        final(v)@ == set_insert(old(v)@, x),
{
    if !holds(v, x) {
        v.push(x);
    }
}

/// The entries of `v`, each once.
fn distinct_of(v: &Vec<usize>) -> (r: Vec<usize>)
    ensures
        r@ == distinct(v@),
{
    let mut r: Vec<usize> = Vec::new();
    let mut i: usize = 0;
    while i < v.len()
        invariant
            i <= v@.len(),
            r@ == distinct(v@.take(i as int)),
        decreases v@.len() - i,
    {
        assert(v@.take(i + 1).drop_last() =~= v@.take(i as int));
        insert_index(&mut r, v[i]);
        i += 1;
    }
    assert(v@.take(v@.len() as int) =~= v@);
    r
}

/// `label -> dest`: where a mod's archive lies.
pub open spec fn arrow_entry(label: Seq<char>, dest: Seq<char>) -> Seq<char> {
    label + " -> "@ + dest
}

fn arrow_line(label: &str, dest: &str) -> (s: String)
    ensures
        s@ == arrow_entry(label@, dest@),
{
    proof {
        reveal_strlit(" -> ");
    }
    let mut s = String::from_str(label);
    push_str(&mut s, " -> ");
    push_str(&mut s, dest);
    s
}

/// The hash progress after one more archive: one more done, of the total
/// known (none known counts as zero of zero).
pub open spec fn hashed_one_more(p: Option<(usize, usize)>) -> Option<(usize, usize)> {
    match p {
        Some((c, t)) => Some(((c + 1) as usize, t)),
        None => Some((1, 0)),
    }
}

/// Applies a report of the archive check. Returns whether the check is
/// over (its channel can be closed).
pub fn apply_archive_skip_event(
    event: ArchiveSkipEvent,
    hash_progress: &mut Option<(usize, usize)>,
    screen: &mut InstallScreenState,
    step2: &mut Step2State,
) -> (done: bool)
    requires
        old(hash_progress).is_some() ==> old(hash_progress).unwrap().0 < usize::MAX,
    ensures
        match event {
            ArchiveSkipEvent::CandidateEnumerated { total } => {
                &&& !done
                &&& *final(hash_progress) == Some((0usize, total))
                &&& *final(screen) == *old(screen)
                &&& *final(step2) == *old(step2)
            },
            ArchiveSkipEvent::AssetHashStarted => {
                &&& !done
                &&& *final(hash_progress) == *old(hash_progress)
                &&& *final(screen) == *old(screen)
                &&& *final(step2) == *old(step2)
            },
            ArchiveSkipEvent::AssetHashed { index, was_skipped, label, dest_display } => {
                &&& !done
                &&& *final(hash_progress) == hashed_one_more(*old(hash_progress))
                &&& final(screen).hashed_indices@ == set_insert(old(screen).hashed_indices@, index)
                &&& final(screen).stage == old(screen).stage
                &&& final(screen).pipeline_kind == old(screen).pipeline_kind
                &&& final(screen).pipeline_flags == old(screen).pipeline_flags
                &&& final(screen).skip_indices == old(screen).skip_indices
                &&& names(final(step2).update_selected_downloaded_sources@) == (match dest_display {
                    Some(dest) => if was_skipped {
                        names(old(step2).update_selected_downloaded_sources@).push(arrow_entry(label@, dest@))
                    } else {
                        names(old(step2).update_selected_downloaded_sources@)
                    },
                    None => names(old(step2).update_selected_downloaded_sources@),
                })
                &&& *final(step2) == (Step2State {
                    update_selected_downloaded_sources: final(step2).update_selected_downloaded_sources,
                    ..*old(step2)
                })
            },
            ArchiveSkipEvent::Finished { skipped_indices } => {
                &&& done
                &&& *final(hash_progress) == *old(hash_progress)
                &&& final(screen).skip_indices@ == distinct(skipped_indices@)
                &&& final(screen).pipeline_flags.archive_skip_completed
                &&& final(screen).pipeline_flags.armed == old(screen).pipeline_flags.armed
                &&& final(screen).pipeline_flags.archives_staged == old(screen).pipeline_flags.archives_staged
                &&& final(screen).pipeline_flags.download_phase_started
                    == old(screen).pipeline_flags.download_phase_started
                &&& final(screen).pipeline_flags.archives_verified == old(screen).pipeline_flags.archives_verified
                &&& final(screen).stage == old(screen).stage
                &&& final(screen).pipeline_kind == old(screen).pipeline_kind
                &&& final(screen).hashed_indices == old(screen).hashed_indices
                &&& *final(step2) == *old(step2)
            },
        },
{
    match event {
        ArchiveSkipEvent::CandidateEnumerated { total } => {
            *hash_progress = Some((0, total));
            false
        },
        ArchiveSkipEvent::AssetHashStarted => false,
        ArchiveSkipEvent::AssetHashed { index, was_skipped, label, dest_display } => {
            *hash_progress = match *hash_progress {
                Some((c, t)) => Some((c + 1, t)),
                None => Some((1, 0)),
            };
            insert_index(&mut screen.hashed_indices, index);
            if was_skipped {
                if let Some(dest) = dest_display {
                    let line = arrow_line(label.as_str(), dest.as_str());
                    step2.update_selected_downloaded_sources.push(line);
                    assert(names(step2.update_selected_downloaded_sources@) =~= names(
                        old(step2).update_selected_downloaded_sources@,
                    ).push(arrow_entry(label@, dest@)));
                }
            }
            false
        },
        ArchiveSkipEvent::Finished { skipped_indices } => {
            screen.skip_indices = distinct_of(&skipped_indices);
            screen.pipeline_flags.archive_skip_completed = true;
            true
        },
    }
}

/// The archive check went away without finishing: it counts as done, and
/// every archive is downloaded.
pub fn apply_archive_skip_disconnected(screen: &mut InstallScreenState)
    ensures
        final(screen).pipeline_flags.archive_skip_completed,
        final(screen).pipeline_flags.armed == old(screen).pipeline_flags.armed,
        final(screen).pipeline_flags.archives_staged == old(screen).pipeline_flags.archives_staged,
        final(screen).pipeline_flags.download_phase_started == old(screen).pipeline_flags.download_phase_started,
        final(screen).pipeline_flags.archives_verified == old(screen).pipeline_flags.archives_verified,
        final(screen).skip_indices == old(screen).skip_indices,
        final(screen).hashed_indices == old(screen).hashed_indices,
        final(screen).stage == old(screen).stage,
{
    screen.pipeline_flags.archive_skip_completed = true;
}

/// `label: error`: why a mod's archive did not download.
pub open spec fn failure_entry(label: Seq<char>, error: Option<String>) -> Seq<char> {
    label + ": "@ + match error {
        Some(e) => e@,
        None => "unknown error"@,
    }
}

/// A download of the stream finished: archive `index` of the update assets
/// was saved to `dest_display` (when `ok`) or failed with `error`. The
/// outcome is recorded under the asset's label; an index outside the
/// assets records nothing.
pub fn record_download_done(
    step2: &mut Step2State,
    index: usize,
    ok: bool,
    dest_display: &str,
    error: &Option<String>,
)
    ensures
        index >= old(step2).update_selected_update_assets@.len() ==> *final(step2) == *old(step2),
        index < old(step2).update_selected_update_assets@.len() ==> {
            let label = old(step2).update_selected_update_assets@[index as int].label@;
            &&& ok ==> names(final(step2).update_selected_downloaded_sources@) == names(
                old(step2).update_selected_downloaded_sources@,
            ).push(arrow_entry(label, dest_display@))
            &&& ok ==> final(step2).update_selected_download_failed_sources
                == old(step2).update_selected_download_failed_sources
            &&& !ok ==> names(final(step2).update_selected_download_failed_sources@) == names(
                old(step2).update_selected_download_failed_sources@,
            ).push(failure_entry(label, *error))
            &&& !ok ==> final(step2).update_selected_downloaded_sources
                == old(step2).update_selected_downloaded_sources
            &&& *final(step2) == (Step2State {
                update_selected_downloaded_sources: final(step2).update_selected_downloaded_sources,
                update_selected_download_failed_sources: final(step2).update_selected_download_failed_sources,
                ..*old(step2)
            })
        },
{
    proof {
        reveal_strlit(": ");
        reveal_strlit("unknown error");
    }
    if index >= step2.update_selected_update_assets.len() {
        return;
    }
    if ok {
        let line = arrow_line(step2.update_selected_update_assets[index].label.as_str(), dest_display);
        step2.update_selected_downloaded_sources.push(line);
        assert(names(step2.update_selected_downloaded_sources@) =~= names(
            old(step2).update_selected_downloaded_sources@,
        ).push(arrow_entry(old(step2).update_selected_update_assets@[index as int].label@, dest_display@)));
    } else {
        let mut line = String::from_str(step2.update_selected_update_assets[index].label.as_str());
        push_str(&mut line, ": ");
        match error {
            Some(e) => push_str(&mut line, e.as_str()),
            None => push_str(&mut line, "unknown error"),
        }
        step2.update_selected_download_failed_sources.push(line);
        assert(names(step2.update_selected_download_failed_sources@) =~= names(
            old(step2).update_selected_download_failed_sources@,
        ).push(failure_entry(old(step2).update_selected_update_assets@[index as int].label@, *error)));
    }
}

/// The download worker went away before it reported: downloading stops and
/// the status says so.
pub fn apply_download_disconnected(step2: &mut Step2State)
    ensures
        *final(step2) == (Step2State {
            update_selected_download_running: false,
            scan_status: final(step2).scan_status,
            ..*old(step2)
        }),
        final(step2).scan_status@ == "Download updates failed: worker disconnected"@,
{
    step2.update_selected_download_running = false;
    step2.scan_status = String::from_str("Download updates failed: worker disconnected");
}

/// How the deletion of a modlist's install folder ended.
pub enum FolderDeleteOutcome {
    Deleted,
    Failed { error: String },
    Disconnected,
}

/// The notification for the deletion of the folder of modlist `name`.
pub open spec fn folder_delete_notice(name: Seq<char>, outcome: FolderDeleteOutcome) -> (NoticeKind, Seq<char>) {
    match outcome {
        FolderDeleteOutcome::Deleted => (NoticeKind::Success, "Deleted \""@ + name + "\""@),
        FolderDeleteOutcome::Failed { error } => (
            NoticeKind::Error,
            "Couldn't remove install folder for \""@ + name + "\": "@ + error@,
        ),
        FolderDeleteOutcome::Disconnected => (
            NoticeKind::Error,
            "Couldn't remove install folder for \""@ + name + "\": worker disconnected"@,
        ),
    }
}

/// Tells the user how the deletion of the folder of modlist `name` ended:
/// a success toast, or an error toast with the reason.
pub fn notify_folder_delete(manager: &mut NotificationManager, name: &str, outcome: FolderDeleteOutcome)
    requires
        old(manager).wf(),
    ensures
        final(manager).wf(),
        ({
            let (kind, text) = folder_delete_notice(name@, outcome);
            &&& final(manager).pending_view() == old(manager).pending_view().push((kind, text, false))
            &&& final(manager).history_view() == capped_push(old(manager).history_view(), (kind, text))
        }),
        final(manager).open_view() == old(manager).open_view(),
{
    proof {
        reveal_strlit("Deleted \"");
        reveal_strlit("\"");
        reveal_strlit("Couldn't remove install folder for \"");
        reveal_strlit("\": ");
        reveal_strlit("\": worker disconnected");
    }
    match outcome {
        FolderDeleteOutcome::Deleted => {
            let mut text = String::from_str("Deleted \"");
            push_str(&mut text, name);
            push_str(&mut text, "\"");
            manager.success(text);
        },
        FolderDeleteOutcome::Failed { error } => {
            let mut text = String::from_str("Couldn't remove install folder for \"");
            push_str(&mut text, name);
            push_str(&mut text, "\": ");
            push_str(&mut text, error.as_str());
            manager.error(text);
        },
        FolderDeleteOutcome::Disconnected => {
            let mut text = String::from_str("Couldn't remove install folder for \"");
            push_str(&mut text, name);
            push_str(&mut text, "\": worker disconnected");
            manager.error(text);
        },
    }
}

} // verus!
