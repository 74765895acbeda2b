//! The mods for which the update popup offers a choice of download source:
//! the popup's single mod, or the mods still missing from an applied log,
//! or (for a scanned mod list) those and every ticked mod; each mod once,
//! by its download key.
use vstd::prelude::*;

use crate::state::{PendingLogDownload, Step2ModState, WizardState};
use crate::text::{is_blank, is_blank_exec};
use crate::update_report::{mod_has_check, mod_is_checked, single_mod_popup_target, SourceEditRow};

verus! {

/// The download keys of the mods involved, as the caller computed them:
/// of the popup's single mod (when it has one), of each mod still to
/// download from the applied log, and of each mod of the two lists.
pub struct SourceKeys {
    pub single_target: String,
    pub pending: Vec<String>,
    pub first_mods: Vec<String>,
    pub second_mods: Vec<String>,
}

/// A candidate: its key, its label, and whether it is offered at all.
pub type Candidate = (Seq<char>, Seq<char>, bool);

/// Whether `targets` already holds a mod of key `k`.
pub open spec fn has_key(targets: Seq<(Seq<char>, Seq<char>)>, k: Seq<char>) -> bool {
    exists|i: int| 0 <= i < targets.len() && (#[trigger] targets[i]).0 == k
}

/// `acc` followed by the offered candidates with a key that is not empty
/// and not taken yet, in order.
pub open spec fn add_candidates(acc: Seq<(Seq<char>, Seq<char>)>, cands: Seq<Candidate>) -> Seq<
    (Seq<char>, Seq<char>),
>
    decreases cands.len(),
{
    if cands.len() == 0 {
        acc
    } else {
        let prev = add_candidates(acc, cands.drop_last());
        let (k, label, offered) = cands.last();
        if !offered || k.len() == 0 || has_key(prev, k) {
            prev
        } else {
            prev.push((k, label))
        }
    }
}

/// The mods still to download from the applied log, as candidates.
pub open spec fn pending_candidates(pending: Seq<PendingLogDownload>, keys: Seq<String>) -> Seq<Candidate> {
    Seq::new(pending.len(), |i: int| (keys[i]@, pending[i].label@, true))
}

/// The label of a mod: its name, or its tp2 file when the name is blank.
pub open spec fn mod_label(m: Step2ModState) -> Seq<char> {
    if is_blank(m.name@) {
        m.tp_file@
    } else {
        m.name@
    }
}

/// The mods of a list as candidates: offered when ticked (the mod or one
/// of its components).
pub open spec fn mod_candidates(mods: Seq<Step2ModState>, keys: Seq<String>) -> Seq<Candidate> {
    Seq::new(mods.len(), |i: int| (keys[i]@, mod_label(mods[i]), mod_has_check(mods[i])))
}

/// The mods offered a source choice, with their labels.
pub open spec fn source_targets(state: WizardState, keys: SourceKeys) -> Seq<(Seq<char>, Seq<char>)> {
    let st = state.step2;
    let pending = pending_candidates(st.log_pending_downloads@, keys.pending@);
    let single = match (st.update_selected_target_game_tab, st.update_selected_target_tp_file) {
        (Some(g), Some(t)) => if !is_blank(g@) && !is_blank(t@) {
            Some(t)
        } else {
            None
        },
        _ => None,
    };
    match single {
        Some(t) => if keys.single_target@.len() > 0 {
            seq![(keys.single_target@, t@)]
        } else {
            seq![]
        },
        None => if state.step1.installs_exactly_from_logs {
            add_candidates(seq![], pending)
        } else {
            let applied_pending = (st.review_edit_bgee_log_applied || st.review_edit_bg2ee_log_applied)
                && st.log_pending_downloads@.len() > 0;
            let start = if applied_pending {
                add_candidates(seq![], pending)
            } else {
                seq![]
            };
            add_candidates(
                start,
                mod_candidates(st.bgee_mods@, keys.first_mods@) + mod_candidates(
                    st.bg2ee_mods@,
                    keys.second_mods@,
                ),
            )
        },
    }
}

/// The view of a list of (key, label) pairs.
pub open spec fn pairs(v: Seq<(String, String)>) -> Seq<(Seq<char>, Seq<char>)> {
    Seq::new(v.len(), |i: int| (v[i].0@, v[i].1@))
}

/// Whether `targets` holds the key `k`.
fn holds_key(targets: &Vec<(String, String)>, k: &str) -> (r: bool)
    ensures
        r == has_key(pairs(targets@), k@),
{
    let mut i: usize = 0;
    while i < targets.len()
        invariant
            i <= targets@.len(),
            forall|j: int| 0 <= j < i ==> (#[trigger] pairs(targets@)[j]).0 != k@,
        decreases targets@.len() - i,
    {
        if crate::text::str_eq(targets[i].0.as_str(), k) {
            assert(pairs(targets@)[i as int].0 == k@);
            return true;
        }
        i += 1;
    }
    false
}

/// Adds one candidate.
fn add_candidate(targets: &mut Vec<(String, String)>, k: &String, label: &String, offered: bool)
    ensures
        pairs(final(targets)@) == (if !offered || k@.len() == 0 || has_key(pairs(old(targets)@), k@) {
            pairs(old(targets)@)
        } else {
            pairs(old(targets)@).push((k@, label@))
        }),
{
    if offered && !k.as_str().is_empty() && !holds_key(targets, k.as_str()) {
        targets.push((k.clone(), label.clone()));
        assert(pairs(targets@) =~= pairs(old(targets)@).push((k@, label@)));
    }
}

fn add_pending(targets: &mut Vec<(String, String)>, pending: &Vec<PendingLogDownload>, keys: &Vec<String>)
    requires
        keys@.len() == pending@.len(),
    ensures
        pairs(final(targets)@) == add_candidates(pairs(old(targets)@), pending_candidates(pending@, keys@)),
{
    let ghost cands = pending_candidates(pending@, keys@);
    let mut i: usize = 0;
    while i < pending.len()
        invariant
            i <= pending@.len(),
            keys@.len() == pending@.len(),
            cands == pending_candidates(pending@, keys@),
            pairs(targets@) == add_candidates(pairs(old(targets)@), cands.take(i as int)),
        decreases pending@.len() - i,
    {
        assert(cands.take(i + 1).drop_last() =~= cands.take(i as int));
        assert(cands.take(i + 1).last() == (keys@[i as int]@, pending@[i as int].label@, true));
        add_candidate(targets, &keys[i], &pending[i].label, true);
        i += 1;
    }
    assert(cands.take(pending@.len() as int) =~= cands);
}

/// The label of a mod: its name, or its tp2 file when the name is blank.
fn label_of_mod(m: &Step2ModState) -> (r: &String)
    ensures
        r@ == mod_label(*m),
{
    if is_blank_exec(m.name.as_str()) {
        &m.tp_file
    } else {
        &m.name
    }
}

fn add_mods(targets: &mut Vec<(String, String)>, mods: &Vec<Step2ModState>, keys: &Vec<String>)
    requires
        keys@.len() == mods@.len(),
    ensures
        pairs(final(targets)@) == add_candidates(pairs(old(targets)@), mod_candidates(mods@, keys@)),
{
    let ghost cands = mod_candidates(mods@, keys@);
    let mut i: usize = 0;
    while i < mods.len()
        invariant
            i <= mods@.len(),
            keys@.len() == mods@.len(),
            cands == mod_candidates(mods@, keys@),
            pairs(targets@) == add_candidates(pairs(old(targets)@), cands.take(i as int)),
        decreases mods@.len() - i,
    {
        assert(cands.take(i + 1).drop_last() =~= cands.take(i as int));
        assert(cands.take(i + 1).last() == (keys@[i as int]@, mod_label(mods@[i as int]), mod_has_check(
            mods@[i as int],
        )));
        let offered = mod_is_checked(&mods[i]);
        add_candidate(targets, &keys[i], label_of_mod(&mods[i]), offered);
        i += 1;
    }
    assert(cands.take(mods@.len() as int) =~= cands);
}

/// Adding two runs of candidates is adding the first, then the second.
proof fn lemma_add_concat(acc: Seq<(Seq<char>, Seq<char>)>, a: Seq<Candidate>, b: Seq<Candidate>)
    ensures
        add_candidates(acc, a + b) == add_candidates(add_candidates(acc, a), b),
    decreases b.len(),
{
    if b.len() == 0 {
        assert(a + b =~= a);
    } else {
        assert((a + b).drop_last() =~= a + b.drop_last());
        assert((a + b).last() == b.last());
        lemma_add_concat(acc, a, b.drop_last());
    }
}

/// The mods the update popup offers a choice of download source for, with
/// their labels, in order: the popup's single mod when it has one (if its
/// key is not empty); else the mods still to download from the applied log
/// for an exact-log install; else those (when a log was applied and some
/// are missing) followed by every ticked mod of both lists. Each key once;
/// empty keys are left out.
pub fn collect_source_targets(state: &WizardState, keys: &SourceKeys) -> (targets: Vec<(String, String)>)
    requires
        keys.pending@.len() == state.step2.log_pending_downloads@.len(),
        keys.first_mods@.len() == state.step2.bgee_mods@.len(),
        keys.second_mods@.len() == state.step2.bg2ee_mods@.len(),
    ensures
        pairs(targets@) == source_targets(*state, *keys),
{
    let mut targets: Vec<(String, String)> = Vec::new();
    let st = &state.step2;
    assert(pairs(targets@) =~= Seq::<(Seq<char>, Seq<char>)>::empty());
    if let Some((_, tp_file)) = single_mod_popup_target(state) {
        if !keys.single_target.as_str().is_empty() {
            targets.push((keys.single_target.clone(), tp_file));
            assert(pairs(targets@) =~= seq![(keys.single_target@, pairs(targets@)[0].1)]);
        }
        return targets;
    }
    if state.step1.installs_exactly_from_weidu_logs() {
        add_pending(&mut targets, &st.log_pending_downloads, &keys.pending);
        return targets;
    }
    if crate::update_report::applied_weidu_log_has_pending_downloads(state) {
        add_pending(&mut targets, &st.log_pending_downloads, &keys.pending);
    }
    let ghost start = pairs(targets@);
    add_mods(&mut targets, &st.bgee_mods, &keys.first_mods);
    add_mods(&mut targets, &st.bg2ee_mods, &keys.second_mods);
    proof {
        lemma_add_concat(
            start,
            mod_candidates(st.bgee_mods@, keys.first_mods@),
            mod_candidates(st.bg2ee_mods@, keys.second_mods@),
        );
    }
    targets
}

// ------------------------------------------------------ source edit rows

/// The source id chosen for key `k`: the first pair with that key, else
/// `primary`.
pub open spec fn source_id_for(ids: Seq<(Seq<char>, Seq<char>)>, k: Seq<char>) -> Seq<char>
    decreases ids.len(),
{
    if ids.len() == 0 {
        "primary"@
    } else if ids[0].0 == k {
        ids[0].1
    } else {
        source_id_for(ids.drop_first(), k)
    }
}

/// A candidate row: its key, tp2 file and label.
pub type EditCandidate = (Seq<char>, Seq<char>, Seq<char>);

/// An edit row as its tp2 file, label and source id.
pub open spec fn edit_rows_view(rows: Seq<SourceEditRow>) -> Seq<(Seq<char>, Seq<char>, Seq<char>)> {
    Seq::new(rows.len(), |i: int| (rows[i].tp2@, rows[i].label@, rows[i].source_id@))
}

/// `acc` (rows with their keys) followed by the candidates whose key is not
/// empty and not taken yet, each with the source chosen for its key.
pub open spec fn add_edit_rows(
    acc: Seq<(Seq<char>, (Seq<char>, Seq<char>, Seq<char>))>,
    cands: Seq<EditCandidate>,
    ids: Seq<(Seq<char>, Seq<char>)>,
) -> Seq<(Seq<char>, (Seq<char>, Seq<char>, Seq<char>))>
    decreases cands.len(),
{
    if cands.len() == 0 {
        acc
    } else {
        let prev = add_edit_rows(acc, cands.drop_last(), ids);
        let (k, tp2, label) = cands.last();
        if k.len() == 0 || exists|i: int| 0 <= i < prev.len() && (#[trigger] prev[i]).0 == k {
            prev
        } else {
            prev.push((k, (tp2, label, source_id_for(ids, k))))
        }
    }
}

/// Every mod whose source can be edited: the mods still to download from
/// the applied log, the update archives, then the mods of both lists.
pub open spec fn edit_candidates(state: WizardState, keys: SourceEditKeys) -> Seq<EditCandidate> {
    let st = state.step2;
    Seq::new(st.log_pending_downloads@.len(), |i: int| (keys.pending@[i]@, st.log_pending_downloads@[i].tp_file@, st.log_pending_downloads@[i].label@))
        + Seq::new(st.update_selected_update_assets@.len(), |i: int| (keys.assets@[i]@, st.update_selected_update_assets@[i].tp_file@, st.update_selected_update_assets@[i].label@))
        + Seq::new(st.bgee_mods@.len(), |i: int| (keys.first_mods@[i]@, st.bgee_mods@[i].tp_file@, mod_label(st.bgee_mods@[i])))
        + Seq::new(st.bg2ee_mods@.len(), |i: int| (keys.second_mods@[i]@, st.bg2ee_mods@[i].tp_file@, mod_label(st.bg2ee_mods@[i])))
}

/// The download keys of the mods whose source can be edited.
pub struct SourceEditKeys {
    pub pending: Vec<String>,
    pub assets: Vec<String>,
    pub first_mods: Vec<String>,
    pub second_mods: Vec<String>,
}

/// The chosen sources as (key, id) views.
pub open spec fn id_pairs(ids: Seq<(String, String)>) -> Seq<(Seq<char>, Seq<char>)> {
    Seq::new(ids.len(), |i: int| (ids[i].0@, ids[i].1@))
}

/// The source chosen for key `k`.
fn chosen_source(ids: &Vec<(String, String)>, k: &str) -> (r: String)
    ensures
        r@ == source_id_for(id_pairs(ids@), k@),
{
    let ghost all = id_pairs(ids@);
    assert(all.skip(0) =~= all);
    let mut i: usize = 0;
    while i < ids.len()
        invariant
            i <= ids@.len(),
            all == id_pairs(ids@),
            source_id_for(all, k@) == source_id_for(all.skip(i as int), k@),
        decreases ids@.len() - i,
    {
        assert(all.skip(i as int).drop_first() =~= all.skip(i + 1));
        assert(all.skip(i as int)[0] == (ids@[i as int].0@, ids@[i as int].1@));
        if crate::text::str_eq(ids[i].0.as_str(), k) {
            return ids[i].1.clone();
        }
        i += 1;
    }
    assert(all.skip(ids@.len() as int) =~= Seq::<(Seq<char>, Seq<char>)>::empty());
    String::from_str("primary")
}

/// Adds one candidate row.
fn push_source_edit_row(
    rows: &mut Vec<SourceEditRow>,
    row_keys: &mut Vec<String>,
    ids: &Vec<(String, String)>,
    k: &String,
    tp2: &String,
    label: &String,
)
    requires
        old(row_keys)@.len() == old(rows)@.len(),
    ensures
        final(row_keys)@.len() == final(rows)@.len(),
        keyed(final(row_keys)@, final(rows)@) == add_edit_rows(
            keyed(old(row_keys)@, old(rows)@),
            seq![(k@, tp2@, label@)],
            id_pairs(ids@),
        ),
{
    let ghost before = keyed(row_keys@, rows@);
    let ghost idv = id_pairs(ids@);
    let ghost one: Seq<EditCandidate> = seq![(k@, tp2@, label@)];
    assert(one.drop_last() =~= Seq::<EditCandidate>::empty());
    assert(add_edit_rows(before, one.drop_last(), idv) == before);
    assert(one.last() == (k@, tp2@, label@));
    if k.as_str().is_empty() {
        return;
    }
    let mut j: usize = 0;
    while j < row_keys.len()
        invariant
            j <= row_keys@.len(),
            row_keys@.len() == rows@.len(),
            before == keyed(row_keys@, rows@),
            idv == id_pairs(ids@),
            one == seq![(k@, tp2@, label@)],
            one.last() == (k@, tp2@, label@),
            add_edit_rows(before, one.drop_last(), idv) == before,
            forall|m: int| 0 <= m < j ==> (#[trigger] before[m]).0 != k@,
        decreases row_keys@.len() - j,
    {
        if crate::text::str_eq(row_keys[j].as_str(), k.as_str()) {
            assert(before[j as int].0 == k@);
            let ghost prev = add_edit_rows(before, one.drop_last(), idv);
            assert(prev[j as int].0 == k@);
            assert(add_edit_rows(before, one, idv) == before);
            return;
        }
        j += 1;
    }
    let source_id = chosen_source(ids, k.as_str());
    rows.push(SourceEditRow { tp2: tp2.clone(), label: label.clone(), source_id });
    row_keys.push(k.clone());
    assert(keyed(row_keys@, rows@) =~= before.push((k@, (tp2@, label@, source_id_for(id_pairs(ids@), k@)))));
}

/// Rows with their keys.
pub open spec fn keyed(keys: Seq<String>, rows: Seq<SourceEditRow>) -> Seq<(Seq<char>, (Seq<char>, Seq<char>, Seq<char>))> {
    Seq::new(rows.len(), |i: int| (keys[i]@, (rows[i].tp2@, rows[i].label@, rows[i].source_id@)))
}

/// The rows (without their keys) of `acc`.
pub open spec fn unkeyed(acc: Seq<(Seq<char>, (Seq<char>, Seq<char>, Seq<char>))>) -> Seq<(Seq<char>, Seq<char>, Seq<char>)> {
    Seq::new(acc.len(), |i: int| acc[i].1)
}

/// Adding two runs of candidate rows is adding the first, then the second.
proof fn lemma_add_edit_concat(
    acc: Seq<(Seq<char>, (Seq<char>, Seq<char>, Seq<char>))>,
    a: Seq<EditCandidate>,
    b: Seq<EditCandidate>,
    ids: Seq<(Seq<char>, Seq<char>)>,
)
    ensures
        add_edit_rows(acc, a + b, ids) == add_edit_rows(add_edit_rows(acc, a, ids), b, ids),
    decreases b.len(),
{
    if b.len() == 0 {
        assert(a + b =~= a);
    } else {
        assert((a + b).drop_last() =~= a + b.drop_last());
        assert((a + b).last() == b.last());
        lemma_add_edit_concat(acc, a, b.drop_last(), ids);
    }
}

/// The mods whose download source can be edited from the popup, each key
/// once (empty keys left out), in order: the mods still to download from
/// the applied log, the update archives, then every mod of both lists
/// (labelled by name, or by tp2 file when the name is blank); each with
/// the source chosen for its key, `primary` when none was.
pub fn collect_source_edit_rows(state: &WizardState, keys: &SourceEditKeys) -> (rows: Vec<SourceEditRow>)
    requires
        keys.pending@.len() == state.step2.log_pending_downloads@.len(),
        keys.assets@.len() == state.step2.update_selected_update_assets@.len(),
        keys.first_mods@.len() == state.step2.bgee_mods@.len(),
        keys.second_mods@.len() == state.step2.bg2ee_mods@.len(),
    ensures
        edit_rows_view(rows@) == unkeyed(
            add_edit_rows(seq![], edit_candidates(*state, *keys), id_pairs(state.step2.selected_source_ids@)),
        ),
{
    let st = &state.step2;
    let ids = &st.selected_source_ids;
    let ghost idv = id_pairs(ids@);
    let ghost c1 = Seq::new(st.log_pending_downloads@.len(), |i: int| (keys.pending@[i]@, st.log_pending_downloads@[i].tp_file@, st.log_pending_downloads@[i].label@));
    let ghost c2 = Seq::new(st.update_selected_update_assets@.len(), |i: int| (keys.assets@[i]@, st.update_selected_update_assets@[i].tp_file@, st.update_selected_update_assets@[i].label@));
    let ghost c3 = Seq::new(st.bgee_mods@.len(), |i: int| (keys.first_mods@[i]@, st.bgee_mods@[i].tp_file@, mod_label(st.bgee_mods@[i])));
    let ghost c4 = Seq::new(st.bg2ee_mods@.len(), |i: int| (keys.second_mods@[i]@, st.bg2ee_mods@[i].tp_file@, mod_label(st.bg2ee_mods@[i])));
    let mut rows: Vec<SourceEditRow> = Vec::new();
    let mut row_keys: Vec<String> = Vec::new();
    assert(keyed(row_keys@, rows@) =~= Seq::<(Seq<char>, (Seq<char>, Seq<char>, Seq<char>))>::empty());

    let mut i: usize = 0;
    while i < st.log_pending_downloads.len()
        invariant
            i <= st.log_pending_downloads@.len(),
            keys.pending@.len() == st.log_pending_downloads@.len(),
            row_keys@.len() == rows@.len(),
            idv == id_pairs(ids@),
            c1 == Seq::new(st.log_pending_downloads@.len(), |i: int| (keys.pending@[i]@, st.log_pending_downloads@[i].tp_file@, st.log_pending_downloads@[i].label@)),
            keyed(row_keys@, rows@) == add_edit_rows(seq![], c1.take(i as int), idv),
        decreases st.log_pending_downloads@.len() - i,
    {
        let ghost prev = keyed(row_keys@, rows@);
        let p = &st.log_pending_downloads[i];
        push_source_edit_row(&mut rows, &mut row_keys, ids, &keys.pending[i], &p.tp_file, &p.label);
        proof {
            assert(c1.take(i + 1) =~= c1.take(i as int) + seq![c1[i as int]]);
            lemma_add_edit_concat(seq![], c1.take(i as int), seq![c1[i as int]], idv);
        }
        i += 1;
    }
    assert(c1.take(c1.len() as int) =~= c1);
    let ghost after1 = keyed(row_keys@, rows@);

    let mut i: usize = 0;
    while i < st.update_selected_update_assets.len()
        invariant
            i <= st.update_selected_update_assets@.len(),
            keys.assets@.len() == st.update_selected_update_assets@.len(),
            row_keys@.len() == rows@.len(),
            idv == id_pairs(ids@),
            c2 == Seq::new(st.update_selected_update_assets@.len(), |i: int| (keys.assets@[i]@, st.update_selected_update_assets@[i].tp_file@, st.update_selected_update_assets@[i].label@)),
            keyed(row_keys@, rows@) == add_edit_rows(after1, c2.take(i as int), idv),
        decreases st.update_selected_update_assets@.len() - i,
    {
        let a = &st.update_selected_update_assets[i];
        push_source_edit_row(&mut rows, &mut row_keys, ids, &keys.assets[i], &a.tp_file, &a.label);
        proof {
            assert(c2.take(i + 1) =~= c2.take(i as int) + seq![c2[i as int]]);
            lemma_add_edit_concat(after1, c2.take(i as int), seq![c2[i as int]], idv);
        }
        i += 1;
    }
    assert(c2.take(c2.len() as int) =~= c2);
    let ghost after2 = keyed(row_keys@, rows@);

    let mut i: usize = 0;
    while i < st.bgee_mods.len()
        invariant
            i <= st.bgee_mods@.len(),
            keys.first_mods@.len() == st.bgee_mods@.len(),
            row_keys@.len() == rows@.len(),
            idv == id_pairs(ids@),
            c3 == Seq::new(st.bgee_mods@.len(), |i: int| (keys.first_mods@[i]@, st.bgee_mods@[i].tp_file@, mod_label(st.bgee_mods@[i]))),
            keyed(row_keys@, rows@) == add_edit_rows(after2, c3.take(i as int), idv),
        decreases st.bgee_mods@.len() - i,
    {
        let m = &st.bgee_mods[i];
        push_source_edit_row(&mut rows, &mut row_keys, ids, &keys.first_mods[i], &m.tp_file, label_of_mod(m));
        proof {
            assert(c3.take(i + 1) =~= c3.take(i as int) + seq![c3[i as int]]);
            lemma_add_edit_concat(after2, c3.take(i as int), seq![c3[i as int]], idv);
        }
        i += 1;
    }
    assert(c3.take(c3.len() as int) =~= c3);
    let ghost after3 = keyed(row_keys@, rows@);

    let mut i: usize = 0;
    while i < st.bg2ee_mods.len()
        invariant
            i <= st.bg2ee_mods@.len(),
            keys.second_mods@.len() == st.bg2ee_mods@.len(),
            row_keys@.len() == rows@.len(),
            idv == id_pairs(ids@),
            c4 == Seq::new(st.bg2ee_mods@.len(), |i: int| (keys.second_mods@[i]@, st.bg2ee_mods@[i].tp_file@, mod_label(st.bg2ee_mods@[i]))),
            keyed(row_keys@, rows@) == add_edit_rows(after3, c4.take(i as int), idv),
        decreases st.bg2ee_mods@.len() - i,
    {
        let m = &st.bg2ee_mods[i];
        push_source_edit_row(&mut rows, &mut row_keys, ids, &keys.second_mods[i], &m.tp_file, label_of_mod(m));
        proof {
            assert(c4.take(i + 1) =~= c4.take(i as int) + seq![c4[i as int]]);
            lemma_add_edit_concat(after3, c4.take(i as int), seq![c4[i as int]], idv);
        }
        i += 1;
    }
    assert(c4.take(c4.len() as int) =~= c4);
    proof {
        lemma_add_edit_concat(seq![], c1, c2, idv);
        lemma_add_edit_concat(seq![], c1 + c2, c3, idv);
        lemma_add_edit_concat(seq![], c1 + c2 + c3, c4, idv);
        assert(edit_candidates(*state, *keys) == c1 + c2 + c3 + c4);
        assert(edit_rows_view(rows@) =~= unkeyed(keyed(row_keys@, rows@)));
    }
    rows
}

/// The mod an "Add Source" click opens the source editor for: the popup's
/// single mod (by its download key `single_key` and its tp2 file), else the
/// only mod offered a source choice (`choices` as (key, label) pairs); none
/// otherwise.
pub fn add_source_target(
    single_target: Option<(&String, &String)>,
    choices: &Vec<(String, String)>,
) -> (r: Option<(String, String)>)
    ensures
        match single_target {
            Some((k, tp)) => r matches Some(p) && p.0@ == k@ && p.1@ == tp@,
            None => if choices@.len() == 1 {
                r matches Some(p) && p.0@ == choices@[0].0@ && p.1@ == choices@[0].1@
            } else {
                r is None
            },
        },
{
    match single_target {
        Some((k, tp)) => Some((k.clone(), tp.clone())),
        None => if choices.len() == 1 {
            Some((choices[0].0.clone(), choices[0].1.clone()))
        } else {
            None
        },
    }
}

} // verus!
