//! "Move selection to top / bottom": the rows to move, the refusal rules, and
//! the move itself with its clean-up and reselection.
use vstd::prelude::*;

use crate::blocks::{
    block_indices, child_in_block, in_block, prunable, prune_empty_parent_blocks,
};
use crate::history::push_undo_snapshot;
use crate::items::{contains_string, item_key, names, rows, step3_item_key, ItemView, Step3ItemState};
use crate::merge::{merge_adjacent_same_mod_blocks, merge_from};
use crate::repair::{repair_from, repair_orphan_children};
use crate::seqs::{indices_where, keep_where, lemma_indices_where, strictly_increasing};

verus! {

/// Which end of the list the selection goes to.
#[derive(Debug, Clone, Copy, PartialEq, Eq, Structural)]
pub enum MoveSelectionTarget {
    Top,
    Bottom,
}

/// What a move did.
#[derive(Debug, Clone, Copy, PartialEq, Eq, Structural)]
pub enum MoveSelectionOutcome {
    Moved,
    RefusedLocked,
    NothingToMove,
}

// ------------------------------------------------------------ moving set

/// The header at `c` has at least one other row in its block, and all of
/// them are selected.
pub open spec fn header_fully_selected(s: Seq<ItemView>, sel: Seq<usize>, c: int) -> bool {
    &&& 0 <= c < s.len()
    &&& s[c].is_parent
    &&& exists|m: int| 0 <= m < s.len() && m != c && #[trigger] in_block(s, s[c].block_id, m)
    &&& forall|m: int|
        0 <= m < s.len() && m != c && #[trigger] in_block(s, s[c].block_id, m) ==> sel.contains(
            m as usize,
        )
}

/// The grabbed rows: the whole selection when the clicked row is selected or
/// is the header of a fully selected mod, else the clicked row alone.
pub open spec fn grabs_selection(s: Seq<ItemView>, sel: Seq<usize>, c: int) -> bool {
    sel.contains(c as usize) || header_fully_selected(s, sel, c)
}

/// Row `i` is covered by the grabbed row `op`: a header covers its whole
/// block, a component covers itself.
pub open spec fn covers(s: Seq<ItemView>, op: int, i: int) -> bool {
    if s[op].is_parent {
        s[i].block_id == s[op].block_id
    } else {
        i == op
    }
}

/// Row `i` is covered by some grabbed row.
pub open spec fn in_grabbed(s: Seq<ItemView>, sel: Seq<usize>, c: int, i: int) -> bool {
    if grabs_selection(s, sel, c) {
        exists|k: int|
            0 <= k < sel.len() && (sel[k] as int) < s.len() && #[trigger] covers(s, sel[k] as int, i)
    } else {
        covers(s, c, i)
    }
}

/// Header `p` has components and every one of them is grabbed.
pub open spec fn all_children_grabbed(s: Seq<ItemView>, sel: Seq<usize>, c: int, p: int) -> bool {
    &&& s[p].is_parent
    &&& exists|m: int| 0 <= m < s.len() && #[trigger] child_in_block(s, s[p].block_id, m)
    &&& forall|m: int|
        0 <= m < s.len() && #[trigger] child_in_block(s, s[p].block_id, m) ==> in_grabbed(
            s,
            sel,
            c,
            m,
        )
}

/// The rows that move when row `c` is grabbed with selection `sel`.
pub open spec fn in_moving(s: Seq<ItemView>, sel: Seq<usize>, c: int, i: int) -> bool {
    in_grabbed(s, sel, c, i) || all_children_grabbed(s, sel, c, i)
}

/// The rows that move, in list order.
pub open spec fn moving_rows(s: Seq<ItemView>, sel: Seq<usize>, c: int) -> Seq<usize> {
    indices_where(s.len(), |i: int| in_moving(s, sel, c, i))
}

fn vec_contains(v: &Vec<usize>, x: usize) -> (r: bool)
    ensures
        r == v@.contains(x),
{
    let mut i: usize = 0;
    while i < v.len()
        invariant
            i <= v@.len(),
            forall|k: int| 0 <= k < i ==> v@[k] != x,
        decreases v@.len() - i,
    {
        if v[i] == x {
            return true;
        }
        i += 1;
    }
    false
}

/// Whether the clicked row is the header of a mod whose other block rows are
/// all selected.
pub fn header_of_a_fully_selected_mod(
    items: &[Step3ItemState],
    selected: &Vec<usize>,
    clicked_idx: usize,
) -> (r: bool)
    ensures
        r == header_fully_selected(rows(items@), selected@, clicked_idx as int),
{
    let ghost s = rows(items@);
    if clicked_idx >= items.len() {
        return false;
    }
    assert(s[clicked_idx as int] == items@[clicked_idx as int]@);
    if !items[clicked_idx].is_parent {
        return false;
    }
    let members = block_indices(items, clicked_idx);
    let ghost b = s[clicked_idx as int].block_id;
    let ghost p = |i: int| in_block(s, b, i);
    proof {
        lemma_indices_where(s.len(), p);
    }
    let mut any_other = false;
    let mut all_selected = true;
    let mut k: usize = 0;
    while k < members.len()
        invariant
            k <= members@.len(),
            members@ == indices_where(s.len(), p),
            p == (|i: int| in_block(s, b, i)),
            strictly_increasing(members@),
            forall|q: int| 0 <= q < members@.len() ==> #[trigger] members@[q] < s.len() && p(members@[q] as int),
            forall|i: int| 0 <= i < s.len() && p(i) ==> #[trigger] members@.contains(i as usize),
            any_other == exists|q: int| 0 <= q < k && #[trigger] members@[q] != clicked_idx,
            all_selected == forall|q: int| 0 <= q < k && #[trigger] members@[q] != clicked_idx ==> selected@.contains(members@[q]),
        decreases members@.len() - k,
    {
        let m = members[k];
        if m != clicked_idx {
            any_other = true;
            if !vec_contains(selected, m) {
                all_selected = false;
            }
        }
        k += 1;
    }
    proof {
        if any_other {
            let q = choose|q: int| 0 <= q < members@.len() && #[trigger] members@[q] != clicked_idx;
            let m = members@[q] as int;
            assert(0 <= m < s.len() && m != clicked_idx && in_block(s, b, m));
        } else {
            assert forall|m: int| 0 <= m < s.len() && m != clicked_idx implies !#[trigger] in_block(s, b, m) by {
                if in_block(s, b, m) {
                    assert(p(m));
                    assert(members@.contains(m as usize));
                    let q = choose|q: int| 0 <= q < members@.len() && members@[q] == m as usize;
                    assert(members@[q] != clicked_idx);
                }
            }
        }
        if all_selected {
            assert forall|m: int| 0 <= m < s.len() && m != clicked_idx && #[trigger] in_block(s, b, m)
                implies selected@.contains(m as usize) by {
                assert(p(m));
                assert(members@.contains(m as usize));
                let q = choose|q: int| 0 <= q < members@.len() && members@[q] == m as usize;
                assert(members@[q] != clicked_idx);
            }
        }
    }
    any_other && all_selected
}


/// Sets the flag of every row covered by the grabbed row `op`.
fn mark_covered(items: &[Step3ItemState], flags: &mut Vec<bool>, op: usize)
    requires
        op < items@.len(),
        old(flags)@.len() == items@.len(),
    ensures
        final(flags)@.len() == items@.len(),
        forall|i: int| 0 <= i < items@.len() ==> #[trigger] final(flags)@[i] == (old(flags)@[i] || covers(rows(items@), op as int, i)),
{
    let ghost s = rows(items@);
    assert(s[op as int] == items@[op as int]@);
    if !items[op].is_parent {
        flags.set(op, true);
        return;
    }
    let mut i: usize = 0;
    while i < items.len()
        invariant
            i <= items@.len(),
            op < items@.len(),
            s == rows(items@),
            s[op as int] == items@[op as int]@,
            items@[op as int].is_parent,
            flags@.len() == items@.len(),
            forall|m: int| 0 <= m < i ==> #[trigger] flags@[m] == (old(flags)@[m] || covers(s, op as int, m)),
            forall|m: int| i <= m < items@.len() ==> #[trigger] flags@[m] == old(flags)@[m],
        decreases items@.len() - i,
    {
        assert(s[i as int] == items@[i as int]@);
        if items[i].block_id == items[op].block_id {
            flags.set(i, true);
        }
        i += 1;
    }
}

/// The rows grabbed by the click, as flags.
fn grabbed_flags(items: &[Step3ItemState], selected: &Vec<usize>, clicked_idx: usize) -> (flags: Vec<bool>)
    requires
        clicked_idx < items@.len(),
    ensures
        flags@.len() == items@.len(),
        forall|i: int| 0 <= i < items@.len() ==> #[trigger] flags@[i] == in_grabbed(rows(items@), selected@, clicked_idx as int, i),
{
    let ghost s = rows(items@);
    let n = items.len();
    let mut flags: Vec<bool> = Vec::new();
    let mut i: usize = 0;
    while i < n
        invariant
            i <= n,
            n == items@.len(),
            flags@.len() == i,
            forall|m: int| 0 <= m < i ==> flags@[m] == false,
        decreases n - i,
    {
        flags.push(false);
        i += 1;
    }
    let grab = vec_contains(selected, clicked_idx) || header_of_a_fully_selected_mod(items, selected, clicked_idx);
    assert(grab == grabs_selection(s, selected@, clicked_idx as int));
    if grab {
        let mut k: usize = 0;
        while k < selected.len()
            invariant
                k <= selected@.len(),
                n == items@.len(),
                s == rows(items@),
                flags@.len() == n,
                forall|m: int| 0 <= m < n ==> #[trigger] flags@[m] == exists|q: int|
                    0 <= q < k && (selected@[q] as int) < s.len() && #[trigger] covers(s, selected@[q] as int, m),
            decreases selected@.len() - k,
        {
            let op = selected[k];
            let ghost before = flags@;
            if op < n {
                mark_covered(items, &mut flags, op);
            }
            proof {
                assert forall|m: int| 0 <= m < n implies #[trigger] flags@[m] == exists|q: int|
                    0 <= q < k + 1 && (selected@[q] as int) < s.len() && #[trigger] covers(s, selected@[q] as int, m) by {
                    if flags@[m] {
                        if before[m] {
                            let q = choose|q: int| 0 <= q < k && (selected@[q] as int) < s.len() && #[trigger] covers(s, selected@[q] as int, m);
                        } else {
                            assert(covers(s, selected@[k as int] as int, m));
                        }
                    }
                    if exists|q: int| 0 <= q < k + 1 && (selected@[q] as int) < s.len() && #[trigger] covers(s, selected@[q] as int, m) {
                        let q = choose|q: int| 0 <= q < k + 1 && (selected@[q] as int) < s.len() && #[trigger] covers(s, selected@[q] as int, m);
                        if q < k {
                            assert(before[m]);
                        }
                    }
                }
            }
            k += 1;
        }
    } else {
        mark_covered(items, &mut flags, clicked_idx);
    }
    flags
}

/// Whether header `p` has components and all of them are flagged.
fn all_children_flagged(items: &[Step3ItemState], grabbed: &Vec<bool>, p: usize) -> (r: bool)
    requires
        p < items@.len(),
        grabbed@.len() == items@.len(),
    ensures
        r == ((exists|m: int| 0 <= m < items@.len() && #[trigger] child_in_block(rows(items@), rows(items@)[p as int].block_id, m))
            && forall|m: int| 0 <= m < items@.len() && #[trigger] child_in_block(rows(items@), rows(items@)[p as int].block_id, m) ==> grabbed@[m]),
{
    let ghost s = rows(items@);
    assert(s[p as int] == items@[p as int]@);
    let mut any = false;
    let mut all = true;
    let mut m: usize = 0;
    while m < items.len()
        invariant
            m <= items@.len(),
            p < items@.len(),
            s == rows(items@),
            s[p as int] == items@[p as int]@,
            grabbed@.len() == items@.len(),
            any == exists|q: int| 0 <= q < m && #[trigger] child_in_block(s, s[p as int].block_id, q),
            all == forall|q: int| 0 <= q < m && #[trigger] child_in_block(s, s[p as int].block_id, q) ==> grabbed@[q],
        decreases items@.len() - m,
    {
        assert(s[m as int] == items@[m as int]@);
        if !items[m].is_parent && items[m].block_id == items[p].block_id {
            assert(child_in_block(s, s[p as int].block_id, m as int));
            any = true;
            if !grabbed[m] {
                all = false;
            }
        }
        m += 1;
    }
    any && all
}

/// The rows that move when `clicked_idx` is grabbed: the grabbed rows (a
/// header brings its whole block), plus every header all of whose
/// components move. In list order, each once.
pub fn moving_set(items: &[Step3ItemState], selected: &Vec<usize>, clicked_idx: usize) -> (moving: Vec<usize>)
    requires
        clicked_idx < items@.len(),
    ensures
        moving@ == moving_rows(rows(items@), selected@, clicked_idx as int),
{
    let ghost s = rows(items@);
    let ghost pred = |i: int| in_moving(s, selected@, clicked_idx as int, i);
    let grabbed = grabbed_flags(items, selected, clicked_idx);
    let mut out: Vec<usize> = Vec::new();
    let mut i: usize = 0;
    while i < items.len()
        invariant
            i <= items@.len(),
            clicked_idx < items@.len(),
            s == rows(items@),
            pred == (|i: int| in_moving(s, selected@, clicked_idx as int, i)),
            grabbed@.len() == items@.len(),
            forall|m: int| 0 <= m < items@.len() ==> #[trigger] grabbed@[m] == in_grabbed(s, selected@, clicked_idx as int, m),
            out@ == indices_where(i as nat, pred),
        decreases items@.len() - i,
    {
        assert(s[i as int] == items@[i as int]@);
        let take = if grabbed[i] {
            true
        } else if items[i].is_parent {
            all_children_flagged(items, &grabbed, i)
        } else {
            false
        };
        proof {
            assert(take == pred(i as int));
            crate::seqs::lemma_indices_where_step(i as nat, pred);
        }
        if take {
            out.push(i);
        }
        i += 1;
    }
    out
}

/// Some moving row belongs to a locked block.
pub open spec fn touches_locked(s: Seq<ItemView>, moving: Seq<usize>, locked: Seq<Seq<char>>) -> bool {
    exists|k: int| 0 <= k < moving.len() && locked.contains(s[#[trigger] moving[k] as int].block_id)
}

/// Whether any moving row belongs to a locked block.
pub fn is_locked(items: &[Step3ItemState], moving: &Vec<usize>, locked_blocks: &[String]) -> (r: bool)
    requires
        forall|k: int| 0 <= k < moving@.len() ==> #[trigger] moving@[k] < items@.len(),
    ensures
        r == touches_locked(rows(items@), moving@, names(locked_blocks@)),
{
    let ghost s = rows(items@);
    let mut k: usize = 0;
    while k < moving.len()
        invariant
            k <= moving@.len(),
            s == rows(items@),
            forall|q: int| 0 <= q < moving@.len() ==> #[trigger] moving@[q] < items@.len(),
            forall|q: int| 0 <= q < k ==> !names(locked_blocks@).contains(s[#[trigger] moving@[q] as int].block_id),
        decreases moving@.len() - k,
    {
        let idx = moving[k];
        assert(s[idx as int] == items@[idx as int]@);
        if contains_string(locked_blocks, &items[idx].block_id) {
            return true;
        }
        k += 1;
    }
    false
}

/// The positions the moving rows take at the chosen end.
pub open spec fn target_range(len: nat, n: nat, target: MoveSelectionTarget) -> Seq<usize> {
    match target {
        MoveSelectionTarget::Top => Seq::new(n, |i: int| i as usize),
        MoveSelectionTarget::Bottom => Seq::new(n, |i: int| (len - n + i) as usize),
    }
}

/// Whether the moving rows already sit at the chosen end.
pub fn already_at_target(len: usize, moving: &Vec<usize>, target: MoveSelectionTarget) -> (r: bool)
    requires
        moving@.len() <= len,
    ensures
        r == (moving@ == target_range(len as nat, moving@.len(), target)),
{
    let n = moving.len();
    let ghost expected = target_range(len as nat, n as nat, target);
    let mut k: usize = 0;
    while k < n
        invariant
            k <= n,
            n == moving@.len(),
            n <= len,
            expected == target_range(len as nat, n as nat, target),
            forall|q: int| 0 <= q < k ==> moving@[q] == expected[q],
        decreases n - k,
    {
        let want = match target {
            MoveSelectionTarget::Top => k,
            MoveSelectionTarget::Bottom => len - n + k,
        };
        if moving[k] != want {
            return false;
        }
        k += 1;
    }
    assert(moving@ =~= expected);
    true
}


// ---------------------------------------------------------- identities

/// The identity keys of the moving components, in order.
pub open spec fn child_keys_of(s: Seq<ItemView>, moving: Seq<usize>) -> Seq<Seq<char>>
    decreases moving.len(),
{
    if moving.len() == 0 {
        seq![]
    } else {
        let rest = child_keys_of(s, moving.drop_last());
        let m = moving.last() as int;
        if m < s.len() && !s[m].is_parent {
            rest.push(item_key(s[m]))
        } else {
            rest
        }
    }
}

/// The block ids of the moving headers, in order.
pub open spec fn parent_blocks_of(s: Seq<ItemView>, moving: Seq<usize>) -> Seq<Seq<char>>
    decreases moving.len(),
{
    if moving.len() == 0 {
        seq![]
    } else {
        let rest = parent_blocks_of(s, moving.drop_last());
        let m = moving.last() as int;
        if m < s.len() && s[m].is_parent {
            rest.push(s[m].block_id)
        } else {
            rest
        }
    }
}

/// What identifies the moving rows after the list is rebuilt: components by
/// their identity key, headers by their block id.
pub struct MovingIdentities {
    pub child_keys: Vec<String>,
    pub parent_block_ids: Vec<String>,
}

pub fn capture_identities(items: &[Step3ItemState], moving: &Vec<usize>) -> (ids: MovingIdentities)
    ensures
        names(ids.child_keys@) == child_keys_of(rows(items@), moving@),
        names(ids.parent_block_ids@) == parent_blocks_of(rows(items@), moving@),
{
    let ghost s = rows(items@);
    let mut child_keys: Vec<String> = Vec::new();
    let mut parent_block_ids: Vec<String> = Vec::new();
    let mut k: usize = 0;
    while k < moving.len()
        invariant
            k <= moving@.len(),
            s == rows(items@),
            names(child_keys@) == child_keys_of(s, moving@.take(k as int)),
            names(parent_block_ids@) == parent_blocks_of(s, moving@.take(k as int)),
        decreases moving@.len() - k,
    {
        let idx = moving[k];
        assert(moving@.take(k + 1).drop_last() =~= moving@.take(k as int));
        let ghost ck = child_keys@;
        let ghost pb = parent_block_ids@;
        if idx < items.len() {
            assert(s[idx as int] == items@[idx as int]@);
            if items[idx].is_parent {
                parent_block_ids.push(items[idx].block_id.clone());
                assert(names(parent_block_ids@) =~= names(pb).push(s[idx as int].block_id));
            } else {
                child_keys.push(step3_item_key(&items[idx]));
                assert(names(child_keys@) =~= names(ck).push(item_key(s[idx as int])));
            }
        }
        k += 1;
    }
    assert(moving@.take(moving@.len() as int) =~= moving@);
    MovingIdentities { child_keys, parent_block_ids }
}

/// Row `i` is one of the rows that moved, found again by its identity.
pub open spec fn reselected(s: Seq<ItemView>, ck: Seq<Seq<char>>, pb: Seq<Seq<char>>, i: int) -> bool {
    if s[i].is_parent {
        pb.contains(s[i].block_id)
    } else {
        ck.contains(item_key(s[i]))
    }
}

/// The rows that match the captured identities, in list order.
pub fn recompute_selection(items: &[Step3ItemState], identities: &MovingIdentities) -> (sel: Vec<usize>)
    ensures
        sel@ == indices_where(
            items@.len(),
            |i: int| reselected(rows(items@), names(identities.child_keys@), names(identities.parent_block_ids@), i),
        ),
{
    let ghost s = rows(items@);
    let ghost p = |i: int| reselected(s, names(identities.child_keys@), names(identities.parent_block_ids@), i);
    let mut sel: Vec<usize> = Vec::new();
    let mut i: usize = 0;
    while i < items.len()
        invariant
            i <= items@.len(),
            s == rows(items@),
            p == (|i: int| reselected(s, names(identities.child_keys@), names(identities.parent_block_ids@), i)),
            sel@ == indices_where(i as nat, p),
        decreases items@.len() - i,
    {
        assert(s[i as int] == items@[i as int]@);
        let matches = if items[i].is_parent {
            contains_string(identities.parent_block_ids.as_slice(), &items[i].block_id)
        } else {
            let key = step3_item_key(&items[i]);
            contains_string(identities.child_keys.as_slice(), &key)
        };
        proof {
            crate::seqs::lemma_indices_where_step(i as nat, p);
        }
        if matches {
            sel.push(i);
        }
        i += 1;
    }
    sel
}

// ------------------------------------------------------------- rebuild

/// The list with the moving rows taken out and put at the chosen end, each
/// group keeping its order.
pub open spec fn rebuilt<T>(s: Seq<T>, moving: Seq<usize>, target: MoveSelectionTarget) -> Seq<T> {
    let moved = keep_where(s, |i: int| moving.contains(i as usize));
    let rest = keep_where(s, |i: int| !moving.contains(i as usize));
    match target {
        MoveSelectionTarget::Top => moved + rest,
        MoveSelectionTarget::Bottom => rest + moved,
    }
}

pub fn rebuild_items(items: &mut Vec<Step3ItemState>, moving: &Vec<usize>, target: MoveSelectionTarget)
    ensures
        final(items)@ == rebuilt(old(items)@, moving@, target),
{
    let n = items.len();
    let mut flags: Vec<bool> = Vec::new();
    let mut i: usize = 0;
    while i < n
        invariant
            i <= n,
            flags@.len() == i,
            forall|m: int| 0 <= m < i ==> flags@[m] == moving@.contains(m as usize),
        decreases n - i,
    {
        flags.push(vec_contains(moving, i));
        i += 1;
    }
    let ghost is_moving = |m: int| moving@.contains(m as usize);
    let ghost not_moving = |m: int| !moving@.contains(m as usize);
    let mut taken: Vec<Step3ItemState> = Vec::new();
    std::mem::swap(items, &mut taken);
    let ghost orig = taken@;
    let mut moved_rows: Vec<Step3ItemState> = Vec::new();
    let mut remaining: Vec<Step3ItemState> = Vec::new();
    let mut pos: usize = 0;
    for item in it: taken
        invariant
            orig == it.seq(),
            pos == it.index(),
            n == orig.len(),
            flags@.len() == n,
            forall|m: int| 0 <= m < n ==> flags@[m] == moving@.contains(m as usize),
            is_moving == (|m: int| moving@.contains(m as usize)),
            not_moving == (|m: int| !moving@.contains(m as usize)),
            moved_rows@ == indices_where(it.index() as nat, is_moving).map_values(|j: usize| orig[j as int]),
            remaining@ == indices_where(it.index() as nat, not_moving).map_values(|j: usize| orig[j as int]),
    {
        let ghost j = it.index();
        proof {
            crate::seqs::lemma_indices_where_step(j as nat, is_moving);
            crate::seqs::lemma_indices_where_step(j as nat, not_moving);
        }
        if flags[pos] {
            moved_rows.push(item);
        } else {
            remaining.push(item);
        }
        pos += 1;
        assert(moved_rows@ =~= indices_where((j + 1) as nat, is_moving).map_values(|j: usize| orig[j as int]));
        assert(remaining@ =~= indices_where((j + 1) as nat, not_moving).map_values(|j: usize| orig[j as int]));
    }
    match target {
        MoveSelectionTarget::Top => {
            moved_rows.append(&mut remaining);
            *items = moved_rows;
        },
        MoveSelectionTarget::Bottom => {
            remaining.append(&mut moved_rows);
            *items = remaining;
        },
    }
}


// ---------------------------------------------------------------- move

/// The list the move works on: rows, selection, anchor, the next sequence
/// number for new block ids, the locked blocks and the history stacks.
pub struct MoveSelectionContext<'a> {
    pub items: &'a mut Vec<Step3ItemState>,
    pub selected: &'a mut Vec<usize>,
    pub anchor: &'a mut Option<usize>,
    pub clone_seq: &'a mut usize,
    pub locked_blocks: &'a [String],
    pub undo_stack: &'a mut Vec<Vec<Step3ItemState>>,
    pub redo_stack: &'a mut Vec<Vec<Step3ItemState>>,
}

pub proof fn lemma_rows_remove_public(v: Seq<Step3ItemState>, j: int)
    requires
        0 <= j < v.len(),
    ensures
        rows(v.remove(j)) == rows(v).remove(j),
{
    assert(rows(v.remove(j)) =~= rows(v).remove(j));
}

pub proof fn lemma_rows_keep_where(v: Seq<Step3ItemState>, keep: spec_fn(int) -> bool)
    requires
        v.len() <= usize::MAX,
    ensures
        rows(keep_where(v, keep)) == keep_where(rows(v), keep),
{
    lemma_indices_where(v.len(), keep);
    assert(rows(keep_where(v, keep)) =~= keep_where(rows(v), keep));
}

pub proof fn lemma_rows_rebuilt(v: Seq<Step3ItemState>, moving: Seq<usize>, target: MoveSelectionTarget)
    requires
        v.len() <= usize::MAX,
    ensures
        rows(rebuilt(v, moving, target)) == rebuilt(rows(v), moving, target),
        rebuilt(v, moving, target).len() == v.len(),
{
    let a = |i: int| moving.contains(i as usize);
    let b = |i: int| !moving.contains(i as usize);
    lemma_rows_keep_where(v, a);
    lemma_rows_keep_where(v, b);
    lemma_split_count(v.len(), a, b);
    assert(rows(keep_where(v, a) + keep_where(v, b)) =~= rows(keep_where(v, a)) + rows(keep_where(v, b)));
    assert(rows(keep_where(v, b) + keep_where(v, a)) =~= rows(keep_where(v, b)) + rows(keep_where(v, a)));
}

proof fn lemma_split_count(n: nat, a: spec_fn(int) -> bool, b: spec_fn(int) -> bool)
    requires
        forall|i: int| #[trigger] b(i) == !a(i),
    ensures
        indices_where(n, a).len() + indices_where(n, b).len() == n,
    decreases n,
{
    if n > 0 {
        lemma_split_count((n - 1) as nat, a, b);
    }
}

/// The list after the moving rows went to `target` and the list was tidied:
/// stranded components repaired, neighbouring headers of one mod joined,
/// empty placeholder headers removed. Also the next sequence number.
pub open spec fn moved_and_tidied(
    s: Seq<ItemView>,
    moving: Seq<usize>,
    target: MoveSelectionTarget,
    seq: nat,
) -> (Seq<ItemView>, nat) {
    let r0 = rebuilt(s, moving, target);
    let r1 = repair_from(r0, seq, 0);
    let r2 = merge_from(r1.0, target_range(s.len(), moving.len(), target), 0).0;
    (keep_where(r2, |i: int| !prunable(r2, i)), r1.1)
}

/// Sends the rows that move with `clicked_idx` (see `moving_set`) to the top
/// or the bottom of the list. Refused, with nothing changed, when a moving
/// row is in a locked block; nothing to do when they already sit there.
/// Otherwise the list before the move becomes one undo step, the redo steps
/// are dropped, the list is rebuilt and tidied, and the moved rows are
/// selected again (the anchor on the first of them).
pub fn move_selection(ctx: &mut MoveSelectionContext<'_>, clicked_idx: usize, target: MoveSelectionTarget) -> (outcome: MoveSelectionOutcome)
    requires
        *old(ctx).clone_seq + old(ctx).items@.len() <= usize::MAX,
    ensures
        ({
            let s = rows(old(ctx).items@);
            let m = moving_rows(s, old(ctx).selected@, clicked_idx as int);
            let unchanged = {
                &&& final(ctx).items@ == old(ctx).items@
                &&& final(ctx).selected@ == old(ctx).selected@
                &&& *final(ctx).anchor == *old(ctx).anchor
                &&& *final(ctx).clone_seq == *old(ctx).clone_seq
                &&& final(ctx).undo_stack@ == old(ctx).undo_stack@
                &&& final(ctx).redo_stack@ == old(ctx).redo_stack@
            };
            if clicked_idx >= s.len() {
                outcome == MoveSelectionOutcome::NothingToMove && unchanged
            } else if touches_locked(s, m, names(old(ctx).locked_blocks@)) {
                outcome == MoveSelectionOutcome::RefusedLocked && unchanged
            } else if m == target_range(s.len(), m.len(), target) {
                outcome == MoveSelectionOutcome::NothingToMove && unchanged
            } else {
                let r = moved_and_tidied(s, m, target, *old(ctx).clone_seq as nat);
                let sel = indices_where(
                    r.0.len(),
                    |i: int| reselected(r.0, child_keys_of(s, m), parent_blocks_of(s, m), i),
                );
                &&& outcome == MoveSelectionOutcome::Moved
                &&& rows(final(ctx).items@) == r.0
                &&& *final(ctx).clone_seq == r.1
                &&& final(ctx).selected@ == sel
                &&& *final(ctx).anchor == (if sel.len() > 0 { Some(sel[0]) } else { None })
                &&& final(ctx).undo_stack@.len() == old(ctx).undo_stack@.len() + 1
                &&& final(ctx).undo_stack@.take(old(ctx).undo_stack@.len() as int) == old(ctx).undo_stack@
                &&& rows(final(ctx).undo_stack@.last()@) == s
                &&& final(ctx).redo_stack@.len() == 0
            }
        }),
{
    let ghost s = rows(ctx.items@);
    if clicked_idx >= ctx.items.len() {
        return MoveSelectionOutcome::NothingToMove;
    }
    let moving = moving_set(ctx.items, ctx.selected, clicked_idx);
    proof {
        lemma_indices_where(s.len(), |i: int| in_moving(s, old(ctx).selected@, clicked_idx as int, i));
    }
    if is_locked(ctx.items, &moving, ctx.locked_blocks) {
        return MoveSelectionOutcome::RefusedLocked;
    }
    if already_at_target(ctx.items.len(), &moving, target) {
        return MoveSelectionOutcome::NothingToMove;
    }
    push_undo_snapshot(ctx.items, ctx.undo_stack, ctx.redo_stack);
    let identities = capture_identities(ctx.items, &moving);
    let ghost v0 = ctx.items@;
    rebuild_items(ctx.items, &moving, target);
    proof {
        lemma_rows_rebuilt(v0, moving@, target);
    }
    let n = moving.len();
    let len = ctx.items.len();
    let mut range: Vec<usize> = Vec::new();
    let mut k: usize = 0;
    while k < n
        invariant
            k <= n,
            n <= len,
            n == moving@.len(),
            range@ == target_range(len as nat, n as nat, target).take(k as int),
        decreases n - k,
    {
        match target {
            MoveSelectionTarget::Top => range.push(k),
            MoveSelectionTarget::Bottom => range.push(len - n + k),
        }
        k += 1;
        assert(range@ =~= target_range(len as nat, n as nat, target).take(k as int));
    }
    assert(range@ =~= target_range(len as nat, n as nat, target));
    *ctx.selected = range;
    repair_orphan_children(ctx.items, ctx.clone_seq);
    merge_adjacent_same_mod_blocks(ctx.items, ctx.selected);
    let ghost v2 = ctx.items@;
    let l2 = ctx.items.len();
    assert(v2.len() == l2);
    prune_empty_parent_blocks(ctx.items, ctx.selected);
    proof {
        lemma_rows_keep_where(v2, |i: int| !prunable(rows(v2), i));
    }
    let sel = recompute_selection(ctx.items, &identities);
    *ctx.anchor = if sel.len() > 0 {
        Some(sel[0])
    } else {
        None
    };
    *ctx.selected = sel;
    MoveSelectionOutcome::Moved
}

/// Rebuilding the list for a move only reorders it: the rebuilt list holds
/// exactly the rows of the list, each as often as before.
pub proof fn law_rebuild_keeps_every_row<T>(s: Seq<T>, moving: Seq<usize>, target: MoveSelectionTarget)
    requires
        s.len() <= usize::MAX,
    ensures
        rebuilt(s, moving, target).to_multiset() == s.to_multiset(),
{
    broadcast use vstd::seq_lib::lemma_multiset_commutative, vstd::multiset::group_multiset_axioms;

    let p = |i: int| moving.contains(i as usize);
    let q = |i: int| !moving.contains(i as usize);
    crate::seqs::lemma_keep_where_split(s, p, q);
    let moved = keep_where(s, p);
    let rest = keep_where(s, q);
    assert((moved + rest).to_multiset() =~= moved.to_multiset().add(rest.to_multiset()));
    assert((rest + moved).to_multiset() =~= rest.to_multiset().add(moved.to_multiset()));
}

/// The rows a click moves: in increasing order and in the list; the
/// clicked row among them; the whole selection (what of it is in the
/// list) when the clicked row is selected; and every header whose
/// components all move.
pub proof fn law_moving_rows_take_the_click_and_its_selection(s: Seq<ItemView>, sel: Seq<usize>, c: int)
    requires
        0 <= c < s.len(),
        s.len() <= usize::MAX,
    ensures
        strictly_increasing(moving_rows(s, sel, c)),
        forall|k: int| 0 <= k < moving_rows(s, sel, c).len() ==> #[trigger] moving_rows(s, sel, c)[k] < s.len(),
        moving_rows(s, sel, c).contains(c as usize),
        sel.contains(c as usize) ==> forall|k: int|
            0 <= k < sel.len() && (sel[k] as int) < s.len() ==> moving_rows(s, sel, c).contains(
                #[trigger] sel[k],
            ),
        forall|p: int|
            0 <= p < s.len() && s[p].is_parent && (exists|m: int|
                0 <= m < s.len() && #[trigger] crate::blocks::child_in_block(s, s[p].block_id, m)) && (forall|m: int|
                0 <= m < s.len() && crate::blocks::child_in_block(s, s[p].block_id, m)
                    ==> moving_rows(s, sel, c).contains(m as usize)) ==> #[trigger] moving_rows(
                s,
                sel,
                c,
            ).contains(p as usize),
{
    let pred = |i: int| in_moving(s, sel, c, i);
    lemma_indices_where(s.len(), pred);
    let mv = moving_rows(s, sel, c);
    // the clicked row
    assert(in_moving(s, sel, c, c)) by {
        if grabs_selection(s, sel, c) {
            if sel.contains(c as usize) {
                let k = choose|k: int| 0 <= k < sel.len() && sel[k] == c as usize;
                assert(covers(s, sel[k] as int, c));
            } else {
                let m = choose|m: int| 0 <= m < s.len() && m != c && #[trigger] in_block(s, s[c].block_id, m);
                assert(sel.contains(m as usize));
                let k = choose|k: int| 0 <= k < sel.len() && sel[k] == m as usize;
                if s[m].is_parent {
                    assert(covers(s, sel[k] as int, c));
                } else {
                    assert(crate::blocks::child_in_block(s, s[c].block_id, m));
                    assert forall|m2: int|
                        0 <= m2 < s.len() && #[trigger] crate::blocks::child_in_block(s, s[c].block_id, m2)
                            implies in_grabbed(s, sel, c, m2) by {
                        assert(in_block(s, s[c].block_id, m2));
                        assert(m2 != c);
                        assert(sel.contains(m2 as usize));
                        let k2 = choose|k2: int| 0 <= k2 < sel.len() && sel[k2] == m2 as usize;
                        assert(covers(s, sel[k2] as int, m2));
                    }
                    assert(all_children_grabbed(s, sel, c, c));
                }
            }
        } else {
            assert(covers(s, c, c));
        }
    }
    assert(mv.contains(c as usize));
    // the selection
    if sel.contains(c as usize) {
        assert forall|k: int| 0 <= k < sel.len() && (sel[k] as int) < s.len() implies mv.contains(
            #[trigger] sel[k],
        ) by {
            assert(grabs_selection(s, sel, c));
            assert(covers(s, sel[k] as int, sel[k] as int));
            assert(in_grabbed(s, sel, c, sel[k] as int));
            assert(pred(sel[k] as int));
            assert(mv.contains((sel[k] as int) as usize));
        }
    }
    // headers of fully moving blocks
    assert forall|p: int|
        0 <= p < s.len() && s[p].is_parent && (exists|m: int|
            0 <= m < s.len() && #[trigger] crate::blocks::child_in_block(s, s[p].block_id, m)) && (forall|m: int|
            0 <= m < s.len() && crate::blocks::child_in_block(s, s[p].block_id, m) ==> mv.contains(m as usize))
            implies #[trigger] mv.contains(p as usize) by {
        assert forall|m: int|
            0 <= m < s.len() && #[trigger] crate::blocks::child_in_block(s, s[p].block_id, m) implies in_grabbed(
                s,
                sel,
                c,
                m,
            ) by {
            assert(mv.contains(m as usize));
            let k = choose|k: int| 0 <= k < mv.len() && mv[k] == m as usize;
            assert(pred(mv[k] as int));
            assert(!all_children_grabbed(s, sel, c, m));
        }
        assert(all_children_grabbed(s, sel, c, p));
        assert(pred(p));
    }
}

} // verus!
