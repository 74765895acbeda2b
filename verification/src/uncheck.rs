//! Unticking components from the install-order list: the component goes
//! back to unticked in step 2 and leaves the step 3 list (its header too
//! when it was the block's last component).
use vstd::prelude::*;

use crate::blocks::remove_row_and_fix_selection;
use crate::game::{slot_for_tab, slot_of, GameSlot};
use crate::items::{rows, ItemView, Step3ItemState};
use crate::seqs::remap_selection;
use crate::state::{Step2ComponentState, Step2ModState, WizardState};
use crate::text::{
    chars_eq, chars_eq_ignore_ascii_case, eq_ignore_ascii_case, str_eq, trim, trimmed_chars,
};

verus! {

// ------------------------------------------------------------------ step 2

pub struct ComponentView {
    pub component_id: Seq<char>,
    pub label: Seq<char>,
    pub checked: bool,
    pub selected_order: Option<usize>,
}

pub struct ModView {
    pub name: Seq<char>,
    pub tp_file: Seq<char>,
    pub checked: bool,
    pub update_locked: bool,
    pub components: Seq<ComponentView>,
}

impl View for Step2ComponentState {
    type V = ComponentView;

    open spec fn view(&self) -> ComponentView {
        ComponentView {
            component_id: self.component_id@,
            label: self.label@,
            checked: self.checked,
            selected_order: self.selected_order,
        }
    }
}

impl View for Step2ModState {
    type V = ModView;

    open spec fn view(&self) -> ModView {
        ModView {
            name: self.name@,
            tp_file: self.tp_file@,
            checked: self.checked,
            update_locked: self.update_locked,
            components: Seq::new(self.components@.len(), |j: int| self.components@[j]@),
        }
    }
}

/// The model of a list of mods.
pub open spec fn mod_views(mods: Seq<Step2ModState>) -> Seq<ModView> {
    Seq::new(mods.len(), |i: int| mods[i]@)
}

/// The mod's tp2 file, trimmed, equals `tp` ignoring ASCII case.
pub open spec fn is_target_mod(m: ModView, tp: Seq<char>) -> bool {
    eq_ignore_ascii_case(trim(m.tp_file), tp)
}

/// The first mod at or after `from` whose tp2 file is `tp`.
pub open spec fn first_target_mod(mods: Seq<ModView>, tp: Seq<char>, from: int) -> Option<int>
    decreases mods.len() - from,
{
    if from < 0 || from >= mods.len() {
        None
    } else if is_target_mod(mods[from], tp) {
        Some(from)
    } else {
        first_target_mod(mods, tp, from + 1)
    }
}

pub open spec fn uncheck_component_view(c: ComponentView, comp: Seq<char>) -> ComponentView {
    if trim(c.component_id) == comp {
        ComponentView { checked: false, selected_order: None, ..c }
    } else {
        c
    }
}

/// The mod with every component whose trimmed id is `comp` unticked, and
/// itself ticked exactly when some component still is.
pub open spec fn uncheck_mod_view(m: ModView, comp: Seq<char>) -> ModView {
    let cs = Seq::new(m.components.len(), |j: int| uncheck_component_view(m.components[j], comp));
    ModView { checked: exists|j: int| 0 <= j < cs.len() && (#[trigger] cs[j]).checked, components: cs, ..m }
}

/// Unticks the component in the first mod of the given tp2 file (compared
/// trimmed and ignoring ASCII case; component ids compared trimmed).
pub open spec fn unchecked_mods(mods: Seq<ModView>, tp_file: Seq<char>, component_id: Seq<char>) -> Seq<
    ModView,
> {
    match first_target_mod(mods, trim(tp_file), 0) {
        Some(mi) => if 0 <= mi < mods.len() {
            mods.update(mi, uncheck_mod_view(mods[mi], trim(component_id)))
        } else {
            mods
        },
        None => mods,
    }
}

proof fn lemma_first_target(mods: Seq<ModView>, tp: Seq<char>, from: int, t: int)
    requires
        0 <= from <= t <= mods.len(),
        forall|k: int| from <= k < t ==> !#[trigger] is_target_mod(mods[k], tp),
        t == mods.len() || is_target_mod(mods[t], tp),
    ensures
        first_target_mod(mods, tp, from) == (if t == mods.len() { None } else { Some(t) }),
    decreases t - from,
{
    if from < t {
        lemma_first_target(mods, tp, from + 1, t);
    }
}

pub fn uncheck_component_in_step2(mods: &mut Vec<Step2ModState>, tp_file: &str, component_id: &str)
    ensures
        mod_views(final(mods)@) == unchecked_mods(mod_views(old(mods)@), tp_file@, component_id@),
{
    let target_tp = trimmed_chars(tp_file);
    let target_comp = trimmed_chars(component_id);
    let ghost mv = mod_views(mods@);
    let mut i: usize = 0;
    while i < mods.len()
        invariant
            i <= mods@.len(),
            mods@ == old(mods)@,
            mv == mod_views(mods@),
            target_tp@ == trim(tp_file@),
            target_comp@ == trim(component_id@),
            forall|k: int| 0 <= k < i ==> !#[trigger] is_target_mod(mv[k], target_tp@),
        decreases mods@.len() - i,
    {
        assert(mv[i as int] == mods@[i as int]@);
        let tp = trimmed_chars(mods[i].tp_file.as_str());
        if chars_eq_ignore_ascii_case(&tp, &target_tp) {
            proof {
                lemma_first_target(mv, target_tp@, 0, i as int);
            }
            let n = mods[i].components.len();
            let ghost before = mods@[i as int];
            let mut j: usize = 0;
            while j < n
                invariant
                    j <= n,
                    i < mods@.len(),
                    mods@.len() == old(mods)@.len(),
                    forall|k: int| 0 <= k < mods@.len() && k != i ==> mods@[k] == old(mods)@[k],
                    n == before.components@.len(),
                    mods@[i as int].components@.len() == n,
                    mods@[i as int].name == before.name,
                    mods@[i as int].tp_file == before.tp_file,
                    mods@[i as int].checked == before.checked,
                    mods@[i as int].update_locked == before.update_locked,
                    target_comp@ == trim(component_id@),
                    forall|q: int| 0 <= q < j ==> (#[trigger] mods@[i as int].components@[q])@
                        == uncheck_component_view(before.components@[q]@, target_comp@),
                    forall|q: int| j <= q < n ==> #[trigger] mods@[i as int].components@[q] == before.components@[q],
                decreases n - j,
            {
                let cid = trimmed_chars(mods[i].components[j].component_id.as_str());
                if chars_eq(&cid, &target_comp) {
                    mods[i].components[j].checked = false;
                    mods[i].components[j].selected_order = None;
                }
                j += 1;
            }
            let mut any = false;
            let mut q: usize = 0;
            while q < n
                invariant
                    q <= n,
                    i < mods@.len(),
                    mods@[i as int].components@.len() == n,
                    any == exists|r: int| 0 <= r < q && (#[trigger] mods@[i as int].components@[r]).checked,
                decreases n - q,
            {
                if mods[i].components[q].checked {
                    any = true;
                }
                q += 1;
            }
            let ghost mid = mods@;
            mods[i].checked = any;
            proof {
                let m2 = uncheck_mod_view(mv[i as int], target_comp@);
                assert(mods@[i as int]@.components =~= m2.components);
                assert forall|r: int| 0 <= r < n implies (#[trigger] m2.components[r]).checked
                    == mods@[i as int].components@[r].checked by {
                    assert(m2.components[r] == mods@[i as int]@.components[r]);
                }
                if any {
                    let r = choose|r: int| 0 <= r < n && (#[trigger] mods@[i as int].components@[r]).checked;
                    assert(m2.components[r].checked);
                }
                assert(mods@[i as int]@.checked == m2.checked);
                assert(mods@[i as int]@ == m2);
                assert(mod_views(mods@) =~= mv.update(i as int, m2));
            }
            return;
        }
        i += 1;
    }
    proof {
        lemma_first_target(mv, target_tp@, 0, i as int);
    }
}

proof fn lemma_first_target_found(mods: Seq<ModView>, tp: Seq<char>, from: int)
    requires
        0 <= from,
    ensures
        match first_target_mod(mods, tp, from) {
            Some(t) => from <= t < mods.len() && is_target_mod(mods[t], tp) && forall|k: int|
                from <= k < t ==> !#[trigger] is_target_mod(mods[k], tp),
            None => forall|k: int| from <= k < mods.len() ==> !#[trigger] is_target_mod(mods[k], tp),
        },
    decreases mods.len() - from,
{
    if from < mods.len() && !is_target_mod(mods[from], tp) {
        lemma_first_target_found(mods, tp, from + 1);
    }
}

/// Unticking component `component_id` of tp2 file `tp_file` changes only
/// the first mod of that file (tp2 files compared trimmed and ignoring
/// ASCII case): each of its components with that id (compared trimmed)
/// becomes unticked and loses its selection order, the others stay as
/// they were, and the mod stays ticked exactly when one of its components
/// still is. Every other mod is unchanged.
pub proof fn law_unticking_a_component(mods: Seq<ModView>, tp_file: Seq<char>, component_id: Seq<char>, i: int)
    requires
        0 <= i < mods.len(),
    ensures
        unchecked_mods(mods, tp_file, component_id).len() == mods.len(),
        ({
            let r = unchecked_mods(mods, tp_file, component_id)[i];
            let m = mods[i];
            if is_target_mod(m, trim(tp_file)) && forall|k: int| 0 <= k < i ==> !#[trigger] is_target_mod(mods[k], trim(tp_file)) {
                &&& r.name == m.name
                &&& r.tp_file == m.tp_file
                &&& r.update_locked == m.update_locked
                &&& r.components.len() == m.components.len()
                &&& forall|j: int| 0 <= j < m.components.len() ==> (#[trigger] r.components[j]) == (if trim(m.components[j].component_id) == trim(component_id) {
                    ComponentView { checked: false, selected_order: None, ..m.components[j] }
                } else {
                    m.components[j]
                })
                &&& r.checked == exists|j: int| 0 <= j < r.components.len() && (#[trigger] r.components[j]).checked
            } else {
                r == m
            }
        }),
{
    let tp = trim(tp_file);
    lemma_first_target_found(mods, tp, 0);
    match first_target_mod(mods, tp, 0) {
        Some(t) => {
            if i != t {
                if is_target_mod(mods[i], tp) && forall|k: int| 0 <= k < i ==> !#[trigger] is_target_mod(mods[k], tp) {
                    if t < i {
                        assert(!is_target_mod(mods[t], tp));
                    } else {
                        assert(!is_target_mod(mods[i], tp));
                    }
                }
            }
        },
        None => {
            assert(!is_target_mod(mods[i], tp));
        },
    }
}


// ------------------------------------------------------------------ step 3

/// A component row of the given (trimmed) tp2 file and component id.
pub open spec fn is_target_row(v: ItemView, tp: Seq<char>, comp: Seq<char>) -> bool {
    !v.is_parent && eq_ignore_ascii_case(trim(v.tp_file), tp) && trim(v.component_id) == comp
}

pub open spec fn first_target_row(s: Seq<ItemView>, tp: Seq<char>, comp: Seq<char>, from: int) -> Option<int>
    decreases s.len() - from,
{
    if from < 0 || from >= s.len() {
        None
    } else if is_target_row(s[from], tp, comp) {
        Some(from)
    } else {
        first_target_row(s, tp, comp, from + 1)
    }
}

pub open spec fn first_header_of(s: Seq<ItemView>, b: Seq<char>, from: int) -> Option<int>
    decreases s.len() - from,
{
    if from < 0 || from >= s.len() {
        None
    } else if s[from].is_parent && s[from].block_id == b {
        Some(from)
    } else {
        first_header_of(s, b, from + 1)
    }
}

/// The list and selection after the component leaves: its row goes, and
/// when no component of its block is left, the block's first header goes
/// too. The selection stays on the same rows.
pub open spec fn removed_component(
    s: Seq<ItemView>,
    sel: Seq<usize>,
    tp_file: Seq<char>,
    component_id: Seq<char>,
) -> (Seq<ItemView>, Seq<usize>) {
    match first_target_row(s, trim(tp_file), trim(component_id), 0) {
        None => (s, sel),
        Some(ci) => if ci < 0 || ci >= s.len() {
            (s, sel)
        } else {
            let b = s[ci].block_id;
            let s1 = s.remove(ci);
            let sel1 = remap_selection(sel, s.len(), |i: int| i == ci);
            if crate::blocks::has_child_with_block(s1, b) {
                (s1, sel1)
            } else {
                match first_header_of(s1, b, 0) {
                    None => (s1, sel1),
                    Some(pi) => if pi < 0 || pi >= s1.len() {
                        (s1, sel1)
                    } else {
                        (s1.remove(pi), remap_selection(sel1, s1.len(), |i: int| i == pi))
                    },
                }
            }
        },
    }
}

proof fn lemma_first_target_row(s: Seq<ItemView>, tp: Seq<char>, comp: Seq<char>, from: int, t: int)
    requires
        0 <= from <= t <= s.len(),
        forall|k: int| from <= k < t ==> !#[trigger] is_target_row(s[k], tp, comp),
        t == s.len() || is_target_row(s[t], tp, comp),
    ensures
        first_target_row(s, tp, comp, from) == (if t == s.len() { None } else { Some(t) }),
    decreases t - from,
{
    if from < t {
        lemma_first_target_row(s, tp, comp, from + 1, t);
    }
}

proof fn lemma_first_header(s: Seq<ItemView>, b: Seq<char>, from: int, t: int)
    requires
        0 <= from <= t <= s.len(),
        forall|k: int| from <= k < t ==> !((#[trigger] s[k]).is_parent && s[k].block_id == b),
        t == s.len() || (s[t].is_parent && s[t].block_id == b),
    ensures
        first_header_of(s, b, from) == (if t == s.len() { None } else { Some(t) }),
    decreases t - from,
{
    if from < t {
        lemma_first_header(s, b, from + 1, t);
    }
}

/// Removes the row at `idx` and keeps the selection on the same rows.
pub fn remove_row_at(items: &mut Vec<Step3ItemState>, selected: &mut Vec<usize>, idx: usize)
    requires
        idx < old(items)@.len(),
    ensures
        final(items)@ == old(items)@.remove(idx as int),
        final(selected)@ == remap_selection(old(selected)@, old(items)@.len(), |i: int| i == idx),
{
    remove_row_and_fix_selection(items, selected, idx);
}

pub fn remove_component_from_step3_items(
    items: &mut Vec<Step3ItemState>,
    selected: &mut Vec<usize>,
    tp_file: &str,
    component_id: &str,
)
    ensures
        (rows(final(items)@), final(selected)@) == removed_component(
            rows(old(items)@),
            old(selected)@,
            tp_file@,
            component_id@,
        ),
{
    let target_tp = trimmed_chars(tp_file);
    let target_comp = trimmed_chars(component_id);
    let ghost s = rows(items@);
    let mut ci: usize = 0;
    let mut found = false;
    while ci < items.len()
        invariant_except_break
            !found,
        invariant
            ci <= items@.len(),
            s == rows(items@),
            items@ == old(items)@,
            selected@ == old(selected)@,
            target_tp@ == trim(tp_file@),
            target_comp@ == trim(component_id@),
            forall|k: int| 0 <= k < ci ==> !#[trigger] is_target_row(s[k], target_tp@, target_comp@),
        ensures
            found ==> ci < items@.len() && is_target_row(s[ci as int], target_tp@, target_comp@),
            !found ==> ci == items@.len(),
        decreases items@.len() - ci,
    {
        assert(s[ci as int] == items@[ci as int]@);
        if !items[ci].is_parent {
            let tp = trimmed_chars(items[ci].tp_file.as_str());
            let comp = trimmed_chars(items[ci].component_id.as_str());
            if chars_eq_ignore_ascii_case(&tp, &target_tp) && chars_eq(&comp, &target_comp) {
                found = true;
                break;
            }
        }
        ci += 1;
    }
    proof {
        lemma_first_target_row(s, target_tp@, target_comp@, 0, ci as int);
    }
    if !found {
        return;
    }
    assert(s[ci as int] == items@[ci as int]@);
    let block_id = items[ci].block_id.clone();
    proof {
        crate::move_selection::lemma_rows_remove_public(items@, ci as int);
    }
    remove_row_at(items, selected, ci);
    let ghost s1 = rows(items@);
    let mut has_child = false;
    let mut k: usize = 0;
    while k < items.len()
        invariant
            k <= items@.len(),
            s1 == rows(items@),
            has_child == exists|q: int| 0 <= q < k && #[trigger] crate::blocks::child_in_block(s1, block_id@, q),
        decreases items@.len() - k,
    {
        assert(s1[k as int] == items@[k as int]@);
        if !items[k].is_parent && items[k].block_id == block_id {
            assert(crate::blocks::child_in_block(s1, block_id@, k as int));
            has_child = true;
        }
        k += 1;
    }
    if has_child {
        return;
    }
    let mut pi: usize = 0;
    let mut found_parent = false;
    while pi < items.len()
        invariant_except_break
            !found_parent,
        invariant
            pi <= items@.len(),
            s1 == rows(items@),
            forall|q: int| 0 <= q < pi ==> !((#[trigger] s1[q]).is_parent && s1[q].block_id == block_id@),
        ensures
            found_parent ==> pi < items@.len() && s1[pi as int].is_parent && s1[pi as int].block_id == block_id@,
            !found_parent ==> pi == items@.len(),
        decreases items@.len() - pi,
    {
        assert(s1[pi as int] == items@[pi as int]@);
        if items[pi].is_parent && items[pi].block_id == block_id {
            found_parent = true;
            break;
        }
        pi += 1;
    }
    proof {
        lemma_first_header(s1, block_id@, 0, pi as int);
    }
    if found_parent {
        proof {
            crate::move_selection::lemma_rows_remove_public(items@, pi as int);
        }
        remove_row_at(items, selected, pi);
    }
}

// ----------------------------------------------------------------- requests

/// The state of one game slot after unticking each requested
/// `(tp2 file, component id)` in order.
pub open spec fn unchecks_applied(
    mods: Seq<ModView>,
    s: Seq<ItemView>,
    sel: Seq<usize>,
    reqs: Seq<(String, String)>,
) -> (Seq<ModView>, Seq<ItemView>, Seq<usize>)
    decreases reqs.len(),
{
    if reqs.len() == 0 {
        (mods, s, sel)
    } else {
        let prev = unchecks_applied(mods, s, sel, reqs.drop_last());
        let (tp, comp) = reqs.last();
        let r = removed_component(prev.1, prev.2, tp@, comp@);
        (unchecked_mods(prev.0, tp@, comp@), r.0, r.1)
    }
}

fn apply_to_slot(
    mods: &mut Vec<Step2ModState>,
    items: &mut Vec<Step3ItemState>,
    selected: &mut Vec<usize>,
    requests: &[(String, String)],
)
    ensures
        (mod_views(final(mods)@), rows(final(items)@), final(selected)@) == unchecks_applied(
            mod_views(old(mods)@),
            rows(old(items)@),
            old(selected)@,
            requests@,
        ),
{
    let mut k: usize = 0;
    while k < requests.len()
        invariant
            k <= requests@.len(),
            (mod_views(mods@), rows(items@), selected@) == unchecks_applied(
                mod_views(old(mods)@),
                rows(old(items)@),
                old(selected)@,
                requests@.take(k as int),
            ),
        decreases requests@.len() - k,
    {
        assert(requests@.take(k + 1).drop_last() =~= requests@.take(k as int));
        let (tp_file, component_id) = &requests[k];
        uncheck_component_in_step2(mods, tp_file.as_str(), component_id.as_str());
        remove_component_from_step3_items(items, selected, tp_file.as_str(), component_id.as_str());
        k += 1;
    }
    assert(requests@.take(requests@.len() as int) =~= requests@);
}

/// Unticks each requested `(tp2 file, component id)` in step 2 and removes
/// it from the step 3 list of the game slot of `tab_id`; the other slot is
/// left alone.
pub fn apply_component_unchecks(state: &mut WizardState, tab_id: &str, requests: &[(String, String)])
    ensures
        slot_of(tab_id@) == GameSlot::First ==> {
            &&& (mod_views(final(state).step2.bgee_mods@), rows(final(state).step3.bgee_items@),
                final(state).step3.bgee_selected@) == unchecks_applied(
                mod_views(old(state).step2.bgee_mods@),
                rows(old(state).step3.bgee_items@),
                old(state).step3.bgee_selected@,
                requests@,
            )
            &&& final(state).step2.bg2ee_mods == old(state).step2.bg2ee_mods
            &&& final(state).step3.bg2ee_items == old(state).step3.bg2ee_items
            &&& final(state).step3.bg2ee_selected == old(state).step3.bg2ee_selected
        },
        slot_of(tab_id@) == GameSlot::Second ==> {
            &&& (mod_views(final(state).step2.bg2ee_mods@), rows(final(state).step3.bg2ee_items@),
                final(state).step3.bg2ee_selected@) == unchecks_applied(
                mod_views(old(state).step2.bg2ee_mods@),
                rows(old(state).step3.bg2ee_items@),
                old(state).step3.bg2ee_selected@,
                requests@,
            )
            &&& final(state).step2.bgee_mods == old(state).step2.bgee_mods
            &&& final(state).step3.bgee_items == old(state).step3.bgee_items
            &&& final(state).step3.bgee_selected == old(state).step3.bgee_selected
        },
{
    if slot_for_tab(tab_id) == GameSlot::First {
        apply_to_slot(
            &mut state.step2.bgee_mods,
            &mut state.step3.bgee_items,
            &mut state.step3.bgee_selected,
            requests,
        );
    } else {
        apply_to_slot(
            &mut state.step2.bg2ee_mods,
            &mut state.step3.bg2ee_items,
            &mut state.step3.bg2ee_selected,
            requests,
        );
    }
}

} // verus!
