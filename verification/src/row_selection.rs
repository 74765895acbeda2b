//! Clicking rows of the install-order list: plain, Ctrl and Shift clicks,
//! and the small helpers of the row widgets.
use vstd::prelude::*;

use crate::blocks::{block_indices, in_block};
use crate::items::{contains_string, names, rows, ItemView, Step3ItemState};
use crate::seqs::{indices_where, lemma_indices_where, strictly_increasing};
use crate::state::WizardState;
use crate::text::{decimal, push_decimal, push_str};

verus! {

/// The modifier keys held during a click.
#[derive(Debug, Clone, Copy, PartialEq, Eq, Structural)]
pub struct RowModifiers {
    pub shift: bool,
    pub ctrl: bool,
}

/// `r` lists the values of `v`, each once, in increasing order.
pub open spec fn sorted_set_of(r: Seq<usize>, v: Seq<usize>) -> bool {
    strictly_increasing(r) && forall|x: usize| r.contains(x) <==> v.contains(x)
}

/// Inserts `x` into the strictly increasing `out`, unless present.
fn insert_sorted(out: &mut Vec<usize>, x: usize)
    requires
        strictly_increasing(old(out)@),
    ensures
        strictly_increasing(final(out)@),
        forall|y: usize| final(out)@.contains(y) <==> (old(out)@.contains(y) || y == x),
{
    let mut p: usize = 0;
    while p < out.len() && out[p] < x
        invariant
            p <= out@.len(),
            out@ == old(out)@,
            forall|k: int| 0 <= k < p ==> out@[k] < x,
        decreases out@.len() - p,
    {
        p += 1;
    }
    if p < out.len() && out[p] == x {
        assert(old(out)@[p as int] == x);
        return;
    }
    let ghost before = out@;
    assert(before == old(out)@);
    assert(forall|k: int| p <= k < before.len() ==> before[k] > x) by {
        assert forall|k: int| p <= k < before.len() implies before[k] > x by {
            assert(before[p as int] >= x);
            assert(before[p as int] != x);
            if k > p {
                assert(before[p as int] < before[k]);
            }
        }
    }
    out.insert(p, x);
    assert(strictly_increasing(out@)) by {
        assert forall|a: int, b: int| 0 <= a < b < out@.len() implies out@[a] < out@[b] by {
            if b < p {
                assert(out@[a] == before[a] && out@[b] == before[b]);
            } else if b == p {
                assert(out@[a] == before[a]);
            } else if a < p {
                assert(out@[a] == before[a] && out@[b] == before[b - 1]);
            } else if a == p {
                assert(out@[b] == before[b - 1]);
            } else {
                assert(out@[a] == before[a - 1] && out@[b] == before[b - 1]);
            }
        }
    }
    assert forall|y: usize| #[trigger] out@.contains(y) <==> (old(out)@.contains(y) || y == x) by {
        if out@.contains(y) {
            let k = choose|k: int| 0 <= k < out@.len() && out@[k] == y;
            if k < p {
                assert(before[k] == y);
            } else if k > p {
                assert(before[k - 1] == y);
            }
        }
        if before.contains(y) {
            let k = choose|k: int| 0 <= k < before.len() && before[k] == y;
            if k < p {
                assert(out@[k] == y);
            } else {
                assert(out@[k + 1] == y);
            }
        }
        if y == x {
            assert(out@[p as int] == x);
        }
    }
}

/// The values of `v`, each once, in increasing order.
pub fn sorted_dedup(v: &Vec<usize>) -> (r: Vec<usize>)
    ensures
        sorted_set_of(r@, v@),
{
    let mut out: Vec<usize> = Vec::new();
    let mut i: usize = 0;
    while i < v.len()
        invariant
            i <= v@.len(),
            strictly_increasing(out@),
            forall|y: usize| out@.contains(y) <==> v@.take(i as int).contains(y),
        decreases v@.len() - i,
    {
        let ghost before = out@;
        insert_sorted(&mut out, v[i]);
        let ghost t1 = v@.take(i + 1);
        let ghost t0 = v@.take(i as int);
        assert forall|y: usize| out@.contains(y) <==> t1.contains(y) by {
            if t1.contains(y) {
                let k = choose|k: int| 0 <= k < t1.len() && t1[k] == y;
                if k < i {
                    assert(t0[k] == y);
                }
            }
            if t0.contains(y) {
                let k = choose|k: int| 0 <= k < t0.len() && t0[k] == y;
                assert(t1[k] == y);
            }
            if y == v@[i as int] {
                assert(t1[i as int] == y);
            }
        }
        i += 1;
    }
    assert(v@.take(v@.len() as int) =~= v@);
    out
}

// ------------------------------------------------------------ range

/// Whether a header in a Shift-click range brings its whole block: it is
/// one of the two clicked ends, or every other row of its block is inside
/// the range or hidden.
pub open spec fn whole_mod_covered(
    s: Seq<ItemView>,
    visible: Seq<usize>,
    range: Seq<usize>,
    endpoints: (usize, usize),
    row: int,
) -> bool {
    row == endpoints.0 || row == endpoints.1 || forall|m: int|
        0 <= m < s.len() && m != row && #[trigger] in_block(s, s[row].block_id, m) ==> (range.contains(
            m as usize,
        ) || !visible.contains(m as usize))
}

/// The rows a Shift-click range selects, walking the range in order: a
/// component itself, a header its whole block when the block is covered.
pub open spec fn range_rows(
    s: Seq<ItemView>,
    visible: Seq<usize>,
    range: Seq<usize>,
    walked: Seq<usize>,
    endpoints: (usize, usize),
) -> Seq<usize>
    decreases walked.len(),
{
    if walked.len() == 0 {
        seq![]
    } else {
        let before = range_rows(s, visible, range, walked.drop_last(), endpoints);
        let row = walked.last() as int;
        if row >= s.len() {
            before
        } else if !s[row].is_parent {
            before.push(row as usize)
        } else if whole_mod_covered(s, visible, range, endpoints, row) {
            before + indices_where(s.len(), |i: int| in_block(s, s[row].block_id, i))
        } else {
            before
        }
    }
}

fn slice_contains(v: &[usize], x: usize) -> (r: bool)
    ensures
        r == v@.contains(x),
{
    let mut i: usize = 0;
    while i < v.len()
        invariant
            i <= v@.len(),
            forall|k: int| 0 <= k < i ==> v@[k] != x,
        decreases v@.len() - i,
    {
        if v[i] == x {
            return true;
        }
        i += 1;
    }
    false
}

fn covered(
    items: &[Step3ItemState],
    visible_indices: &[usize],
    range: &Vec<usize>,
    endpoints: (usize, usize),
    row: usize,
    block: &Vec<usize>,
) -> (r: bool)
    requires
        row < items@.len(),
        block@ == indices_where(items@.len(), |i: int| in_block(rows(items@), rows(items@)[row as int].block_id, i)),
    ensures
        r == whole_mod_covered(rows(items@), visible_indices@, range@, endpoints, row as int),
{
    let ghost s = rows(items@);
    let ghost p = |i: int| in_block(s, s[row as int].block_id, i);
    let n = items.len();
    proof {
        lemma_indices_where(items@.len(), p);
    }
    if row == endpoints.0 || row == endpoints.1 {
        return true;
    }
    let mut k: usize = 0;
    while k < block.len()
        invariant
            k <= block@.len(),
            row < items@.len(),
            row != endpoints.0 && row != endpoints.1,
            s == rows(items@),
            p == (|i: int| in_block(s, s[row as int].block_id, i)),
            block@ == indices_where(items@.len(), p),
            forall|q: int| 0 <= q < block@.len() ==> #[trigger] block@[q] < items@.len() && p(block@[q] as int),
            forall|i: int| 0 <= i < items@.len() && p(i) ==> #[trigger] block@.contains(i as usize),
            forall|q: int| 0 <= q < k && #[trigger] block@[q] != row ==> (range@.contains(block@[q])
                || !visible_indices@.contains(block@[q])),
        decreases block@.len() - k,
    {
        let m = block[k];
        if m != row && !vec_contains(range, m) && slice_contains(visible_indices, m) {
            assert(p(m as int));
            assert(in_block(s, s[row as int].block_id, m as int));
            assert((m as int) as usize == m);
            assert(!whole_mod_covered(s, visible_indices@, range@, endpoints, row as int));
            return false;
        }
        k += 1;
    }
    assert forall|m: int| 0 <= m < s.len() && m != row && #[trigger] in_block(s, s[row as int].block_id, m)
        implies (range@.contains(m as usize) || !visible_indices@.contains(m as usize)) by {
        assert(p(m));
        assert(block@.contains(m as usize));
        let q = choose|q: int| 0 <= q < block@.len() && block@[q] == m as usize;
        assert(block@[q] != row);
    }
    true
}

fn vec_contains(v: &Vec<usize>, x: usize) -> (r: bool)
    ensures
        r == v@.contains(x),
{
    slice_contains(v.as_slice(), x)
}

/// The rows selected by a Shift-click range over the visible positions
/// `from..=to` (empty when `from == to + 1`).
pub fn range_selection(
    items: &[Step3ItemState],
    visible_indices: &[usize],
    from: usize,
    to: usize,
    endpoints: (usize, usize),
) -> (out: Vec<usize>)
    requires
        from <= to + 1,
        to < visible_indices@.len(),
    ensures
        out@ == range_rows(
            rows(items@),
            visible_indices@,
            visible_indices@.subrange(from as int, to + 1),
            visible_indices@.subrange(from as int, to + 1),
            endpoints,
        ),
{
    let ghost s = rows(items@);
    let mut range: Vec<usize> = Vec::new();
    let mut i: usize = from;
    while i <= to
        invariant
            from <= i <= to + 1,
            to < visible_indices@.len(),
            range@ == visible_indices@.subrange(from as int, i as int),
        decreases to + 1 - i,
    {
        range.push(visible_indices[i]);
        i += 1;
        assert(range@ =~= visible_indices@.subrange(from as int, i as int));
    }
    let mut out: Vec<usize> = Vec::new();
    let mut k: usize = 0;
    while k < range.len()
        invariant
            k <= range@.len(),
            s == rows(items@),
            range@ == visible_indices@.subrange(from as int, to + 1),
            out@ == range_rows(s, visible_indices@, range@, range@.take(k as int), endpoints),
        decreases range@.len() - k,
    {
        assert(range@.take(k + 1).drop_last() =~= range@.take(k as int));
        let row = range[k];
        if row < items.len() {
            assert(s[row as int] == items@[row as int]@);
            if !items[row].is_parent {
                out.push(row);
            } else {
                let mut block = block_indices(items, row);
                if covered(items, visible_indices, &range, endpoints, row, &block) {
                    let ghost before = out@;
                    out.append(&mut block);
                }
            }
        }
        k += 1;
    }
    assert(range@.take(range@.len() as int) =~= range@);
    out
}

/// The first position of `x` in `v`.
pub open spec fn first_pos(v: Seq<usize>, x: usize) -> Option<int> {
    if v.contains(x) {
        Some(choose|k: int| 0 <= k < v.len() && v[k] == x && forall|j: int| 0 <= j < k ==> v[j] != x)
    } else {
        None
    }
}

fn position_in(v: &[usize], x: usize) -> (r: Option<usize>)
    ensures
        match r {
            Some(k) => k < v@.len() && v@[k as int] == x && forall|j: int| 0 <= j < k ==> v@[j] != x,
            None => !v@.contains(x),
        },
{
    let mut i: usize = 0;
    while i < v.len()
        invariant
            i <= v@.len(),
            forall|k: int| 0 <= k < i ==> v@[k] != x,
        decreases v@.len() - i,
    {
        if v[i] == x {
            return Some(i);
        }
        i += 1;
    }
    None
}

/// The selection a Shift-click makes from `start` to `idx`: the covered
/// rows between their visible positions, or `idx` alone when either is not
/// visible; each row once, in increasing order.
pub open spec fn shift_selection(
    s: Seq<ItemView>,
    visible: Seq<usize>,
    start: usize,
    idx: usize,
    r: Seq<usize>,
) -> bool {
    match (first_pos(visible, start), first_pos(visible, idx)) {
        (Some(a), Some(b)) => {
            let (from, to) = if a <= b { (a, b) } else { (b, a) };
            let range = visible.subrange(from, to + 1);
            sorted_set_of(r, range_rows(s, visible, range, range, (start, idx)))
        },
        _ => sorted_set_of(r, seq![idx]),
    }
}

/// A click on row `idx`. Shift selects the range from the anchor (set to
/// `idx` when there is none) to `idx`; Ctrl adds or removes `idx` and moves
/// the anchor there; a plain click selects `idx` alone and moves the anchor.
pub fn apply_row_selection(
    selected: &mut Vec<usize>,
    anchor: &mut Option<usize>,
    items: &[Step3ItemState],
    visible_indices: &[usize],
    idx: usize,
    modifiers: RowModifiers,
)
    ensures
        modifiers.shift ==> {
            let start = match *old(anchor) {
                Some(a) => a,
                None => idx,
            };
            &&& *final(anchor) == Some(start)
            &&& shift_selection(rows(items@), visible_indices@, start, idx, final(selected)@)
        },
        !modifiers.shift && modifiers.ctrl ==> {
            &&& *final(anchor) == Some(idx)
            &&& match first_pos(old(selected)@, idx) {
                Some(p) => final(selected)@ == old(selected)@.remove(p),
                None => sorted_set_of(final(selected)@, old(selected)@.push(idx)),
            }
        },
        !modifiers.shift && !modifiers.ctrl ==> final(selected)@ == seq![idx] && *final(anchor) == Some(idx),
{
    if modifiers.shift {
        let start = match *anchor {
            Some(a) => a,
            None => {
                *anchor = Some(idx);
                idx
            },
        };
        let start_pos = position_in(visible_indices, start);
        let end_pos = position_in(visible_indices, idx);
        let picked = match (start_pos, end_pos) {
            (Some(a), Some(b)) => {
                let (from, to) = if a <= b {
                    (a, b)
                } else {
                    (b, a)
                };
                range_selection(items, visible_indices, from, to, (start, idx))
            },
            _ => {
                let mut v = Vec::new();
                v.push(idx);
                v
            },
        };
        *selected = sorted_dedup(&picked);
        proof {
            assert(visible_indices@.contains(start) == (start_pos is Some));
            assert(visible_indices@.contains(idx) == (end_pos is Some));
            match (start_pos, end_pos) {
                (Some(a), Some(b)) => {
                    assert(visible_indices@[a as int] == start);
                    assert(visible_indices@[b as int] == idx);
                    lemma_first_pos(visible_indices@, start, a as int);
                    lemma_first_pos(visible_indices@, idx, b as int);
                },
                _ => {
                    assert(picked@ =~= seq![idx]);
                },
            }
        }
    } else if modifiers.ctrl {
        match position_in(selected.as_slice(), idx) {
            Some(pos) => {
                proof {
                    lemma_first_pos(selected@, idx, pos as int);
                }
                selected.remove(pos);
            },
            None => {
                let mut v = selected.clone();
                v.push(idx);
                *selected = sorted_dedup(&v);
            },
        }
        *anchor = Some(idx);
    } else {
        selected.clear();
        selected.push(idx);
        *anchor = Some(idx);
        assert(selected@ =~= seq![idx]);
    }
}

proof fn lemma_first_pos(v: Seq<usize>, x: usize, k: int)
    requires
        0 <= k < v.len(),
        v[k] == x,
        forall|j: int| 0 <= j < k ==> v[j] != x,
    ensures
        first_pos(v, x) == Some(k),
{
    assert(v.contains(x));
    let c = choose|c: int| 0 <= c < v.len() && v[c] == x && forall|j: int| 0 <= j < c ==> v[j] != x;
    if c < k {
        assert(v[c] != x);
    } else if c > k {
        assert(v[k] != x);
    }
}

// ------------------------------------------------------- row helpers

/// Toggles the lock of a block: a locked block is unlocked (every entry of
/// it leaves the list), an unlocked one is added at the end.
pub fn update_locked_blocks(locked_blocks: &mut Vec<String>, block_id: &str, is_locked: &mut bool)
    ensures
        *old(is_locked) ==> !*final(is_locked) && names(final(locked_blocks)@) == names(old(locked_blocks)@).filter(
            |b: Seq<char>| b != block_id@,
        ),
        !*old(is_locked) ==> *final(is_locked) && names(final(locked_blocks)@) == names(old(locked_blocks)@).push(block_id@),
{
    if *is_locked {
        let mut kept: Vec<String> = Vec::new();
        let mut i: usize = 0;
        let ghost pred = |b: Seq<char>| b != block_id@;
        while i < locked_blocks.len()
            invariant
                i <= locked_blocks@.len(),
                locked_blocks@ == old(locked_blocks)@,
                pred == (|b: Seq<char>| b != block_id@),
                names(kept@) == names(locked_blocks@.take(i as int)).filter(pred),
            decreases locked_blocks@.len() - i,
        {
            proof {
                reveal_with_fuel(Seq::<_>::filter, 1);
                assert(names(locked_blocks@.take(i + 1)).drop_last() =~= names(locked_blocks@.take(i as int)));
            }
            let ghost before = kept@;
            if !crate::text::str_eq(locked_blocks[i].as_str(), block_id) {
                kept.push(locked_blocks[i].clone());
                assert(names(kept@) =~= names(before).push(locked_blocks@[i as int]@));
            }
            i += 1;
        }
        assert(locked_blocks@.take(locked_blocks@.len() as int) =~= locked_blocks@);
        *locked_blocks = kept;
        *is_locked = false;
    } else {
        locked_blocks.push(String::from_str(block_id));
        assert(names(locked_blocks@) =~= names(old(locked_blocks)@).push(block_id@));
        *is_locked = true;
    }
}

/// The title of a header row: `name (split target)` for a placeholder,
/// else `name (count)`, with ` [locked]` after it when locked.
pub open spec fn parent_title(mod_name: Seq<char>, placeholder: bool, count: nat, locked: bool) -> Seq<char> {
    let title = if placeholder {
        mod_name + " (split target)"@
    } else {
        mod_name + " ("@ + decimal(count) + ")"@
    };
    if locked {
        title + " [locked]"@
    } else {
        title
    }
}

pub fn parent_row_title(mod_name: &str, parent_placeholder: bool, child_count: usize, is_locked: bool) -> (r: String)
    ensures
        r@ == parent_title(mod_name@, parent_placeholder, child_count as nat, is_locked),
{
    let mut t = String::from_str(mod_name);
    if parent_placeholder {
        push_str(&mut t, " (split target)");
    } else {
        push_str(&mut t, " (");
        push_decimal(&mut t, child_count);
        push_str(&mut t, ")");
    }
    if is_locked {
        push_str(&mut t, " [locked]");
    }
    t
}

/// Whether undo and redo are possible on the active game tab (the `BGEE`
/// tab uses the first lists, every other tab the second).
pub fn active_history_status(state: &WizardState) -> (r: (bool, bool))
    ensures
        state.step3.active_game_tab@ == "BGEE"@ ==> r == (state.step3.bgee_undo_stack@.len() > 0,
            state.step3.bgee_redo_stack@.len() > 0),
        state.step3.active_game_tab@ != "BGEE"@ ==> r == (state.step3.bg2ee_undo_stack@.len() > 0,
            state.step3.bg2ee_redo_stack@.len() > 0),
{
    if crate::text::str_eq(state.step3.active_game_tab.as_str(), "BGEE") {
        (!state.step3.bgee_undo_stack.is_empty(), !state.step3.bgee_redo_stack.is_empty())
    } else {
        (!state.step3.bg2ee_undo_stack.is_empty(), !state.step3.bg2ee_redo_stack.is_empty())
    }
}

/// The rows that match the remembered identities after a drag's clean-up:
/// headers by block id, components by identity key.
pub fn reselect_after_cleanup(
    items: &[Step3ItemState],
    selected_keys: &Vec<String>,
    selected_header_blocks: &Vec<String>,
) -> (sel: Vec<usize>)
    ensures
        sel@ == indices_where(
            items@.len(),
            |i: int| crate::move_selection::reselected(rows(items@), names(selected_keys@), names(selected_header_blocks@), i),
        ),
{
    let ids = crate::move_selection::MovingIdentities {
        child_keys: selected_keys.clone(),
        parent_block_ids: selected_header_blocks.clone(),
    };
    proof {
        assert(names(ids.child_keys@) =~= names(selected_keys@));
        assert(names(ids.parent_block_ids@) =~= names(selected_header_blocks@));
    }
    crate::move_selection::recompute_selection(items, &ids)
}

// ------------------------------------------------------------------ laws

/// Two strictly increasing sequences with the same values are equal.
proof fn lemma_sorted_sets_equal(a: Seq<usize>, b: Seq<usize>)
    requires
        strictly_increasing(a),
        strictly_increasing(b),
        forall|x: usize| a.contains(x) <==> b.contains(x),
    ensures
        a == b,
    decreases a.len() + b.len(),
{
    if a.len() == 0 {
        if b.len() > 0 {
            assert(b.contains(b[0]));
        }
        assert(a =~= b);
        return;
    }
    if b.len() == 0 {
        assert(a.contains(a[0]));
        return;
    }
    // the first values are the least ones, hence equal
    assert(a.contains(a[0]));
    assert(b.contains(b[0]));
    let ia = choose|k: int| 0 <= k < a.len() && a[k] == b[0];
    let ib = choose|k: int| 0 <= k < b.len() && b[k] == a[0];
    assert(a[0] <= a[ia]);
    assert(b[0] <= b[ib]);
    assert(a[0] == b[0]);
    let ta = a.drop_first();
    let tb = b.drop_first();
    assert forall|x: usize| ta.contains(x) <==> tb.contains(x) by {
        if ta.contains(x) {
            let k = choose|k: int| 0 <= k < ta.len() && ta[k] == x;
            assert(a[k + 1] == x);
            assert(a[0] < x);
            assert(b.contains(x));
            let m = choose|m: int| 0 <= m < b.len() && b[m] == x;
            assert(m != 0);
            assert(tb[m - 1] == x);
        }
        if tb.contains(x) {
            let k = choose|k: int| 0 <= k < tb.len() && tb[k] == x;
            assert(b[k + 1] == x);
            assert(b[0] < x);
            assert(a.contains(x));
            let m = choose|m: int| 0 <= m < a.len() && a[m] == x;
            assert(m != 0);
            assert(ta[m - 1] == x);
        }
    }
    lemma_sorted_sets_equal(ta, tb);
    assert(a =~= b) by {
        assert forall|k: int| 0 <= k < a.len() implies a[k] == b[k] by {
            if k > 0 {
                assert(a[k] == ta[k - 1]);
            }
        }
    }
}

/// Ctrl-clicking a row twice leaves the selection as it was: a row outside
/// the (ordered, repeat-free) selection is added and then removed again,
/// a row inside it is removed and then added again.
#[verifier::spinoff_prover]
#[verifier::rlimit(40)]
pub proof fn law_ctrl_click_twice_restores_the_selection(
    sel: Seq<usize>,
    idx: usize,
    once: Seq<usize>,
    twice: Seq<usize>,
)
    requires
        strictly_increasing(sel),
        match first_pos(sel, idx) {
            Some(p) => once == sel.remove(p),
            None => sorted_set_of(once, sel.push(idx)),
        },
        match first_pos(once, idx) {
            Some(p) => twice == once.remove(p),
            None => sorted_set_of(twice, once.push(idx)),
        },
    ensures
        twice == sel,
{
    if sel.contains(idx) {
        let p = first_pos(sel, idx)->0;
        assert(0 <= p < sel.len() && sel[p] == idx);
        assert(!once.contains(idx)) by {
            if once.contains(idx) {
                let k = choose|k: int| 0 <= k < once.len() && once[k] == idx;
                if k < p {
                    assert(sel[k] == idx);
                } else {
                    assert(sel[k + 1] == idx);
                }
            }
        }
        assert(first_pos(once, idx) is None);
        assert forall|x: usize| twice.contains(x) <==> sel.contains(x) by {
            assert(twice.contains(x) <==> once.push(idx).contains(x));
            if sel.contains(x) && x != idx {
                let k = choose|k: int| 0 <= k < sel.len() && sel[k] == x;
                if k < p {
                    assert(once[k] == x);
                } else {
                    assert(k != p);
                    assert(once[k - 1] == x);
                }
                assert(once.push(idx)[k - (if k < p { 0int } else { 1int })] == x);
            }
            if once.contains(x) {
                let k = choose|k: int| 0 <= k < once.len() && once[k] == x;
                if k < p {
                    assert(sel[k] == x);
                } else {
                    assert(sel[k + 1] == x);
                }
            }
            if x == idx {
                assert(once.push(idx)[once.len() as int] == idx);
            }
            if once.push(idx).contains(x) && x != idx {
                let k = choose|k: int| 0 <= k < once.push(idx).len() && once.push(idx)[k] == x;
                assert(k < once.len());
                assert(once.contains(x));
            }
        }
        lemma_sorted_sets_equal(twice, sel);
    } else {
        assert(first_pos(sel, idx) is None);
        assert(once.contains(idx)) by {
            assert(sel.push(idx)[sel.len() as int] == idx);
        }
        let p = first_pos(once, idx)->0;
        assert(0 <= p < once.len() && once[p] == idx);
        assert(twice == once.remove(p));
        assert(strictly_increasing(twice)) by {
            assert forall|a: int, b: int| 0 <= a < b < twice.len() implies twice[a] < twice[b] by {
                let a2 = if a < p { a } else { a + 1 };
                let b2 = if b < p { b } else { b + 1 };
                assert(twice[a] == once[a2]);
                assert(twice[b] == once[b2]);
            }
        }
        assert forall|x: usize| twice.contains(x) <==> sel.contains(x) by {
            if twice.contains(x) {
                let k = choose|k: int| 0 <= k < twice.len() && twice[k] == x;
                let k2 = if k < p { k } else { k + 1 };
                assert(once[k2] == x);
                assert(k2 != p);
                assert(x != idx);
                assert(once.contains(x));
                assert(sel.push(idx).contains(x));
                let m = choose|m: int| 0 <= m < sel.push(idx).len() && sel.push(idx)[m] == x;
                assert(m < sel.len());
                assert(sel[m] == x);
            }
            if sel.contains(x) {
                let m = choose|m: int| 0 <= m < sel.len() && sel[m] == x;
                assert(sel.push(idx)[m] == x);
                assert(once.contains(x));
                let k = choose|k: int| 0 <= k < once.len() && once[k] == x;
                assert(x != idx);
                assert(k != p);
                if k < p {
                    assert(twice[k] == x);
                } else {
                    assert(twice[k - 1] == x);
                }
            }
        }
        lemma_sorted_sets_equal(twice, sel);
    }
}

} // verus!
