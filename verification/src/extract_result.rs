//! What the end of an update extraction does to step 2: the extracted mods
//! leave the missing / update lists, the failures are recorded, and when
//! anything was extracted the mods folder is rescanned and the saved log
//! applied again.
use vstd::prelude::*;

use crate::items::names;
use crate::state::{PendingLogDownload, Step2State, WizardState};
use crate::text::{
    chars_have_prefix, chars_of, decimal, has_prefix, push_decimal, push_str, string_of, trim,
    trimmed_chars,
};

verus! {

/// Whether ` -> ` starts at `p` in `e`.
pub open spec fn arrow_at(e: Seq<char>, p: int) -> bool {
    0 <= p && p + 4 <= e.len() && e.subrange(p, p + 4) == " -> "@
}

/// The first place at or after `start` where ` -> ` starts.
pub open spec fn find_arrow_from(e: Seq<char>, start: int) -> Option<int>
    decreases e.len() - start,
{
    if start < 0 || start + 4 > e.len() {
        None
    } else if arrow_at(e, start) {
        Some(start)
    } else {
        find_arrow_from(e, start + 1)
    }
}

/// The label of an extraction entry `label -> target`: the text before the
/// first ` -> `, trimmed; `None` without an arrow.
pub open spec fn entry_label(e: Seq<char>) -> Option<Seq<char>> {
    match find_arrow_from(e, 0) {
        Some(p) => Some(trim(e.take(p))),
        None => None,
    }
}

/// The non-empty labels of the extraction entries, in order.
pub open spec fn extracted_labels(entries: Seq<Seq<char>>) -> Seq<Seq<char>>
    decreases entries.len(),
{
    if entries.len() == 0 {
        seq![]
    } else {
        let prev = extracted_labels(entries.drop_last());
        match entry_label(entries.last()) {
            Some(l) => if l.len() > 0 {
                prev.push(l)
            } else {
                prev
            },
            None => prev,
        }
    }
}

/// Whether a list entry names one of the extracted mods (`label (...`).
pub open spec fn is_extracted_entry(e: Seq<char>, labels: Seq<Seq<char>>) -> bool {
    exists|k: int| 0 <= k < labels.len() && has_prefix(e, #[trigger] labels[k] + " ("@)
}

/// The entries that do not name an extracted mod, in order.
pub open spec fn without_extracted(entries: Seq<Seq<char>>, labels: Seq<Seq<char>>) -> Seq<Seq<char>>
    decreases entries.len(),
{
    if entries.len() == 0 {
        seq![]
    } else {
        let prev = without_extracted(entries.drop_last(), labels);
        if is_extracted_entry(entries.last(), labels) {
            prev
        } else {
            prev.push(entries.last())
        }
    }
}

/// A pending download as its tp2 file and label.
pub open spec fn asset_views(assets: Seq<PendingLogDownload>) -> Seq<(Seq<char>, Seq<char>)> {
    Seq::new(assets.len(), |i: int| (assets[i].tp_file@, assets[i].label@))
}

/// The assets whose label is not one of the extracted labels, in order.
pub open spec fn assets_left(assets: Seq<(Seq<char>, Seq<char>)>, labels: Seq<Seq<char>>) -> Seq<
    (Seq<char>, Seq<char>),
>
    decreases assets.len(),
{
    if assets.len() == 0 {
        seq![]
    } else {
        let prev = assets_left(assets.drop_last(), labels);
        if labels.contains(assets.last().1) {
            prev
        } else {
            prev.push(assets.last())
        }
    }
}

/// The status line after an extraction.
pub open spec fn extract_status(extracted: nat, failed: nat) -> Seq<char> {
    if extracted > 0 {
        "Extracted "@ + decimal(extracted) + " updates; rescanning Mods Folder"@
    } else {
        "Extract updates finished: "@ + decimal(extracted) + " updated, "@ + decimal(failed) + " failed"@
    }
}

/// The first ` -> ` in `cs`.
fn find_arrow(cs: &Vec<char>) -> (r: Option<usize>)
    ensures
        match r {
            Some(p) => find_arrow_from(cs@, 0) == Some(p as int) && p + 4 <= cs@.len(),
            None => find_arrow_from(cs@, 0) is None,
        },
{
    proof {
        reveal_strlit(" -> ");
    }
    assert(" -> "@ =~= seq![' ', '-', '>', ' ']);
    let n = cs.len();
    let mut i: usize = 0;
    while i <= n && n - i >= 4
        invariant
            n == cs@.len(),
            i <= n,
            " -> "@ == seq![' ', '-', '>', ' '],
            find_arrow_from(cs@, 0) == find_arrow_from(cs@, i as int),
        decreases n - i,
    {
        let ghost w = cs@.subrange(i as int, i + 4);
        assert(w[0] == cs@[i as int] && w[1] == cs@[i + 1] && w[2] == cs@[i + 2] && w[3] == cs@[i + 3]);
        if cs[i] == ' ' && cs[i + 1] == '-' && cs[i + 2] == '>' && cs[i + 3] == ' ' {
            assert(w =~= seq![' ', '-', '>', ' ']);
            return Some(i);
        }
        assert(w != seq![' ', '-', '>', ' ']) by {
            if w == seq![' ', '-', '>', ' '] {
                assert(w[0] == ' ' && w[1] == '-' && w[2] == '>' && w[3] == ' ');
            }
        }
        i += 1;
    }
    None
}

/// `l` followed by ` (`.
fn with_open_paren(l: &Vec<char>) -> (r: Vec<char>)
    ensures
        r@ == l@ + " ("@,
{
    proof {
        reveal_strlit(" (");
    }
    let mut r: Vec<char> = Vec::new();
    let mut i: usize = 0;
    while i < l.len()
        invariant
            i <= l@.len(),
            r@ == l@.take(i as int),
        decreases l@.len() - i,
    {
        r.push(l[i]);
        i += 1;
        assert(r@ =~= l@.take(i as int));
    }
    r.push(' ');
    r.push('(');
    assert(r@ =~= l@ + " ("@);
    r
}

/// The label of an extraction entry.
fn label_of(e: &str) -> (r: Option<Vec<char>>)
    ensures
        match r {
            Some(l) => entry_label(e@) == Some(l@),
            None => entry_label(e@) is None,
        },
{
    let cs = chars_of(e);
    match find_arrow(&cs) {
        None => None,
        Some(p) => {
            let mut head: Vec<char> = Vec::new();
            let mut i: usize = 0;
            while i < p
                invariant
                    i <= p,
                    p + 4 <= cs@.len(),
                    head@ == cs@.take(i as int),
                decreases p - i,
            {
                head.push(cs[i]);
                i += 1;
                assert(head@ =~= cs@.take(i as int));
            }
            let s = string_of(&head);
            Some(trimmed_chars(s.as_str()))
        },
    }
}

/// The non-empty labels of the extraction entries.
fn collect_labels(entries: &Vec<String>) -> (labels: Vec<Vec<char>>)
    ensures
        labels@.map_values(|l: Vec<char>| l@) == extracted_labels(names(entries@)),
{
    let mut labels: Vec<Vec<char>> = Vec::new();
    let mut i: usize = 0;
    while i < entries.len()
        invariant
            i <= entries@.len(),
            labels@.map_values(|l: Vec<char>| l@) == extracted_labels(names(entries@).take(i as int)),
        decreases entries@.len() - i,
    {
        assert(names(entries@).take(i + 1).drop_last() =~= names(entries@).take(i as int));
        assert(names(entries@).take(i + 1).last() == entries@[i as int]@);
        match label_of(entries[i].as_str()) {
            Some(l) => {
                if l.len() > 0 {
                    labels.push(l);
                }
            },
            None => {},
        }
        i += 1;
        assert(labels@.map_values(|l: Vec<char>| l@) =~= extracted_labels(names(entries@).take(i as int)));
    }
    assert(names(entries@).take(entries@.len() as int) =~= names(entries@));
    labels
}

/// Whether `e` names one of the extracted mods.
fn names_extracted(e: &String, labels: &Vec<Vec<char>>) -> (r: bool)
    ensures
        r == is_extracted_entry(e@, labels@.map_values(|l: Vec<char>| l@)),
{
    proof {
        reveal_strlit(" (");
    }
    let ghost ls = labels@.map_values(|l: Vec<char>| l@);
    let cs = chars_of(e.as_str());
    let mut k: usize = 0;
    while k < labels.len()
        invariant
            k <= labels@.len(),
            ls == labels@.map_values(|l: Vec<char>| l@),
            cs@ == e@,
            forall|j: int| 0 <= j < k ==> !has_prefix(e@, #[trigger] ls[j] + " ("@),
        decreases labels@.len() - k,
    {
        let prefix = with_open_paren(&labels[k]);
        assert(ls[k as int] == labels@[k as int]@);
        if chars_have_prefix(&cs, &prefix) {
            return true;
        }
        k += 1;
    }
    false
}

/// Keeps the entries that do not name an extracted mod.
fn drop_extracted(entries: &mut Vec<String>, labels: &Vec<Vec<char>>)
    ensures
        names(final(entries)@) == without_extracted(names(old(entries)@), labels@.map_values(|l: Vec<char>| l@)),
{
    let ghost ls = labels@.map_values(|l: Vec<char>| l@);
    let ghost src = names(entries@);
    let mut kept: Vec<String> = Vec::new();
    let mut i: usize = 0;
    while i < entries.len()
        invariant
            i <= entries@.len(),
            src == names(entries@),
            ls == labels@.map_values(|l: Vec<char>| l@),
            names(kept@) == without_extracted(src.take(i as int), ls),
        decreases entries@.len() - i,
    {
        assert(src.take(i + 1).drop_last() =~= src.take(i as int));
        assert(src.take(i + 1).last() == entries@[i as int]@);
        if !names_extracted(&entries[i], labels) {
            kept.push(entries[i].clone());
            assert(names(kept@) =~= without_extracted(src.take(i as int), ls).push(entries@[i as int]@));
        }
        i += 1;
    }
    assert(src.take(entries@.len() as int) =~= src);
    *entries = kept;
}

/// Whether `labels` holds `l`.
fn has_label(labels: &Vec<Vec<char>>, l: &str) -> (r: bool)
    ensures
        r == labels@.map_values(|x: Vec<char>| x@).contains(l@),
{
    let ghost ls = labels@.map_values(|x: Vec<char>| x@);
    let cs = chars_of(l);
    let mut k: usize = 0;
    while k < labels.len()
        invariant
            k <= labels@.len(),
            ls == labels@.map_values(|x: Vec<char>| x@),
            cs@ == l@,
            forall|j: int| 0 <= j < k ==> #[trigger] ls[j] != l@,
        decreases labels@.len() - k,
    {
        if crate::text::chars_eq(&labels[k], &cs) {
            assert(ls[k as int] == l@);
            return true;
        }
        k += 1;
    }
    assert(!ls.contains(l@)) by {
        if ls.contains(l@) {
            let j = choose|j: int| 0 <= j < ls.len() && ls[j] == l@;
            assert(ls[j] != l@);
        }
    }
    false
}

/// Keeps the assets whose label was not extracted.
fn drop_extracted_assets(assets: &mut Vec<PendingLogDownload>, labels: &Vec<Vec<char>>)
    ensures
        asset_views(final(assets)@) == assets_left(asset_views(old(assets)@), labels@.map_values(|l: Vec<char>| l@)),
{
    let ghost ls = labels@.map_values(|l: Vec<char>| l@);
    let ghost src = asset_views(assets@);
    let mut kept: Vec<PendingLogDownload> = Vec::new();
    let mut i: usize = 0;
    while i < assets.len()
        invariant
            i <= assets@.len(),
            src == asset_views(assets@),
            ls == labels@.map_values(|l: Vec<char>| l@),
            asset_views(kept@) == assets_left(src.take(i as int), ls),
        decreases assets@.len() - i,
    {
        assert(src.take(i + 1).drop_last() =~= src.take(i as int));
        assert(src.take(i + 1).last() == (assets@[i as int].tp_file@, assets@[i as int].label@));
        if !has_label(labels, assets[i].label.as_str()) {
            let a = PendingLogDownload { tp_file: assets[i].tp_file.clone(), label: assets[i].label.clone() };
            kept.push(a);
            assert(asset_views(kept@) =~= assets_left(src.take(i as int), ls).push(
                (assets@[i as int].tp_file@, assets@[i as int].label@),
            ));
        }
        i += 1;
    }
    assert(src.take(assets@.len() as int) =~= src);
    *assets = kept;
}

/// Step 2 after an extraction finished with the `extracted` entries
/// (`label -> target`) and the `failed` ones, as the caller sees it: the
/// extraction stops running and `true` asks for a mods-folder rescan.
pub open spec fn extract_finished_spec(
    old_state: WizardState,
    new_state: WizardState,
    extracted: Seq<Seq<char>>,
    failed: Seq<Seq<char>>,
    rescan: bool,
) -> bool {
    let o = old_state.step2;
    let n = new_state.step2;
    let labels = extracted_labels(extracted);
    let failed_all = names(o.update_selected_extract_failed_sources@) + failed;
    &&& !n.update_selected_extract_running
    &&& names(n.update_selected_extracted_sources@) == extracted
    &&& names(n.update_selected_missing_sources@) == without_extracted(
        names(o.update_selected_missing_sources@),
        labels,
    )
    &&& names(n.update_selected_update_sources@) == without_extracted(
        names(o.update_selected_update_sources@),
        labels,
    )
    &&& asset_views(n.update_selected_update_assets@) == assets_left(
        asset_views(o.update_selected_update_assets@),
        labels,
    )
    &&& names(n.update_selected_extract_failed_sources@) == failed_all
    &&& n.scan_status@ == extract_status(extracted.len(), failed_all.len())
    &&& rescan == (extracted.len() > 0)
    &&& extracted.len() > 0 ==> {
        &&& new_state.step1_mods_folder_has_tp2 == Some(true)
        &&& n.log_pending_downloads@.len() == 0
        &&& n.pending_saved_log_apply
    }
    &&& extracted.len() == 0 ==> {
        &&& new_state.step1_mods_folder_has_tp2 == old_state.step1_mods_folder_has_tp2
        &&& n.log_pending_downloads == o.log_pending_downloads
        &&& n.pending_saved_log_apply == o.pending_saved_log_apply
    }
    &&& new_state.step1 == old_state.step1
    &&& new_state.step3 == old_state.step3
    &&& new_state.step5 == old_state.step5
}

/// Applies the end of an extraction to step 2; returns whether the mods
/// folder must be rescanned (something was extracted). The rescan itself
/// is the caller's to start.
pub fn apply_extract_finished(state: &mut WizardState, extracted: Vec<String>, failed: Vec<String>) -> (rescan:
    bool)
    ensures
        extract_finished_spec(*old(state), *final(state), names(extracted@), names(failed@), rescan),
{
    proof {
        reveal_strlit("Extracted ");
        reveal_strlit(" updates; rescanning Mods Folder");
        reveal_strlit("Extract updates finished: ");
        reveal_strlit(" updated, ");
        reveal_strlit(" failed");
    }
    state.step2.update_selected_extract_running = false;
    let labels = collect_labels(&extracted);
    state.step2.update_selected_extracted_sources = extracted;
    drop_extracted(&mut state.step2.update_selected_missing_sources, &labels);
    drop_extracted(&mut state.step2.update_selected_update_sources, &labels);
    drop_extracted_assets(&mut state.step2.update_selected_update_assets, &labels);
    crate::lines::extend_lines(&mut state.step2.update_selected_extract_failed_sources, &failed);
    let n_extracted = state.step2.update_selected_extracted_sources.len();
    let n_failed = state.step2.update_selected_extract_failed_sources.len();
    if n_extracted > 0 {
        state.step1_mods_folder_has_tp2 = Some(true);
        state.step2.log_pending_downloads = Vec::new();
        let mut status = String::from_str("Extracted ");
        push_decimal(&mut status, n_extracted);
        push_str(&mut status, " updates; rescanning Mods Folder");
        state.step2.scan_status = status;
        state.step2.pending_saved_log_apply = true;
        true
    } else {
        let mut status = String::from_str("Extract updates finished: ");
        push_decimal(&mut status, n_extracted);
        push_str(&mut status, " updated, ");
        push_decimal(&mut status, n_failed);
        push_str(&mut status, " failed");
        state.step2.scan_status = status;
        false
    }
}

/// The extraction worker went away before it reported: the extraction
/// stops running and the status says so.
pub fn apply_extract_disconnected(step2: &mut Step2State)
    ensures
        !final(step2).update_selected_extract_running,
        final(step2).scan_status@ == "Extract updates failed: worker disconnected"@,
        *final(step2) == (Step2State {
            update_selected_extract_running: false,
            scan_status: final(step2).scan_status,
            ..*old(step2)
        }),
{
    step2.update_selected_extract_running = false;
    step2.scan_status = String::from_str("Extract updates failed: worker disconnected");
}

} // verus!
