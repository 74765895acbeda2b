//! Blocks of the install-order list: a mod header row and the component rows
//! that carry its block id. Queries over blocks and the clean-up passes that
//! keep headers and components together after rows move.
use vstd::prelude::*;

use crate::items::{
    contains_string, copy_items, is_child, item_key, mod_key, mod_key_of, names, rows,
    ItemView, Step3ItemState,
};
use crate::seqs::{
    indices_where, keep_where, lemma_indices_where, remap_selection, removed_below,
    strictly_increasing,
};

verus! {

// ------------------------------------------------------------ visibility

/// A row is shown unless it is a component of a collapsed block.
pub open spec fn is_visible(s: Seq<ItemView>, collapsed: Seq<Seq<char>>, i: int) -> bool {
    s[i].is_parent || !collapsed.contains(s[i].block_id)
}

/// The indices of the rows that are shown, in list order: every header, and
/// every component whose block is not collapsed.
pub fn visible_indices(items: &[Step3ItemState], collapsed_blocks: &[String]) -> (out: Vec<usize>)
    ensures
        out@ == indices_where(
            items@.len(),
            |i: int| is_visible(rows(items@), names(collapsed_blocks@), i),
        ),
{
    let ghost p = |i: int| is_visible(rows(items@), names(collapsed_blocks@), i);
    let mut out: Vec<usize> = Vec::new();
    let mut idx: usize = 0;
    while idx < items.len()
        invariant
            idx <= items@.len(),
            p == (|i: int| is_visible(rows(items@), names(collapsed_blocks@), i)),
            out@ == indices_where(idx as nat, p),
        decreases items@.len() - idx,
    {
        let item = &items[idx];
        if item.is_parent {
            out.push(idx);
        } else if !contains_string(collapsed_blocks, &item.block_id) {
            out.push(idx);
        }
        proof {
            assert(rows(items@)[idx as int] == items@[idx as int]@);
            assert(p(idx as int) == is_visible(rows(items@), names(collapsed_blocks@), idx as int));
            crate::seqs::lemma_indices_where_step(idx as nat, p);
        }
        idx += 1;
    }
    out
}

/// The rows of the block with id `b` (header and components).
pub open spec fn in_block(s: Seq<ItemView>, b: Seq<char>, i: int) -> bool {
    s[i].block_id == b
}

/// The component rows of the block with id `b`.
pub open spec fn child_in_block(s: Seq<ItemView>, b: Seq<char>, i: int) -> bool {
    !s[i].is_parent && s[i].block_id == b
}

/// How many components carry the block id of the row at `parent_idx`.
pub fn count_children_in_block(items: &[Step3ItemState], parent_idx: usize) -> (n: usize)
    requires
        parent_idx < items@.len(),
    ensures
        n == indices_where(
            items@.len(),
            |i: int| child_in_block(rows(items@), rows(items@)[parent_idx as int].block_id, i),
        ).len(),
{
    let ghost s = rows(items@);
    let ghost p = |i: int| child_in_block(s, s[parent_idx as int].block_id, i);
    let block = &items[parent_idx].block_id;
    let mut n: usize = 0;
    let mut idx: usize = 0;
    while idx < items.len()
        invariant
            idx <= items@.len(),
            parent_idx < items@.len(),
            s == rows(items@),
            p == (|i: int| child_in_block(s, s[parent_idx as int].block_id, i)),
            *block == items@[parent_idx as int].block_id,
            n == indices_where(idx as nat, p).len(),
            n <= idx,
        decreases items@.len() - idx,
    {
        proof {
            assert(s[idx as int] == items@[idx as int]@);
            assert(s[parent_idx as int] == items@[parent_idx as int]@);
            assert(p(idx as int) == child_in_block(s, s[parent_idx as int].block_id, idx as int));
            crate::seqs::lemma_indices_where_step(idx as nat, p);
        }
        if !items[idx].is_parent && items[idx].block_id == *block {
            n += 1;
        }
        idx += 1;
    }
    n
}

/// The indices of every row (header or component) that carries the block id
/// of the row at `parent_idx`, in list order.
pub fn block_indices(items: &[Step3ItemState], parent_idx: usize) -> (out: Vec<usize>)
    requires
        parent_idx < items@.len(),
    ensures
        out@ == indices_where(
            items@.len(),
            |i: int| in_block(rows(items@), rows(items@)[parent_idx as int].block_id, i),
        ),
{
    let ghost s = rows(items@);
    let ghost p = |i: int| in_block(s, s[parent_idx as int].block_id, i);
    let block = &items[parent_idx].block_id;
    let mut out: Vec<usize> = Vec::new();
    let mut idx: usize = 0;
    while idx < items.len()
        invariant
            idx <= items@.len(),
            parent_idx < items@.len(),
            s == rows(items@),
            p == (|i: int| in_block(s, s[parent_idx as int].block_id, i)),
            *block == items@[parent_idx as int].block_id,
            out@ == indices_where(idx as nat, p),
        decreases items@.len() - idx,
    {
        proof {
            assert(s[idx as int] == items@[idx as int]@);
            assert(s[parent_idx as int] == items@[parent_idx as int]@);
            assert(p(idx as int) == in_block(s, s[parent_idx as int].block_id, idx as int));
            crate::seqs::lemma_indices_where_step(idx as nat, p);
        }
        if items[idx].block_id == *block {
            out.push(idx);
        }
        idx += 1;
    }
    out
}

// -------------------------------------------------------- row removal

/// Removes the row at `idx` (when there is one) and keeps the selection on
/// the same rows: the removed row leaves the selection, later positions move
/// up by one.
pub fn remove_row_and_fix_selection(
    items: &mut Vec<Step3ItemState>,
    selected: &mut Vec<usize>,
    idx: usize,
)
    ensures
        idx >= old(items)@.len() ==> final(items)@ == old(items)@ && final(selected)@ == old(
            selected,
        )@,
        idx < old(items)@.len() ==> final(items)@ == old(items)@.remove(idx as int)
            && final(selected)@ == remap_selection(
            old(selected)@,
            old(items)@.len(),
            |i: int| i == idx,
        ),
{
    if idx >= items.len() {
        return;
    }
    let ghost n = items@.len();
    items.remove(idx);
    let ghost removed = |i: int| i == idx;
    let mut fixed: Vec<usize> = Vec::new();
    let mut k: usize = 0;
    while k < selected.len()
        invariant
            k <= selected@.len(),
            idx < n,
            removed == (|i: int| i == idx),
            fixed@ == remap_selection(selected@.take(k as int), n, removed),
        decreases selected@.len() - k,
    {
        let s = selected[k];
        proof {
            lemma_removed_one_below(n, idx as int, s as int);
            assert(selected@.take(k + 1).drop_last() =~= selected@.take(k as int));
            assert(selected@.take(k + 1).last() == s);
            assert(removed(s as int) == (s == idx));
        }
        if s != idx {
            if s > idx {
                fixed.push(s - 1);
            } else {
                fixed.push(s);
            }
        }
        k += 1;
    }
    assert(selected@.take(selected@.len() as int) =~= selected@);
    *selected = fixed;
}

/// With a single removed row `idx`, exactly the positions after it move up.
pub proof fn lemma_removed_one_below(n: nat, idx: int, s: int)
    requires
        0 <= idx < n,
        0 <= s,
    ensures
        removed_below(n, |i: int| i == idx, s) == (if s > idx { 1nat } else { 0nat }),
{
    let p = |i: int| i == idx;
    let m: nat = if s < n { s as nat } else { n };
    lemma_count_single(m, idx);
}

proof fn lemma_count_single(m: nat, idx: int)
    requires
        0 <= idx,
    ensures
        indices_where(m, |i: int| i == idx).len() == (if m > idx { 1nat } else { 0nat }),
    decreases m,
{
    if m > 0 {
        lemma_count_single((m - 1) as nat, idx);
    }
}


// ------------------------------------------------------------- pruning

/// Some component anywhere in the list carries block id `b`.
pub open spec fn has_child_with_block(s: Seq<ItemView>, b: Seq<char>) -> bool {
    exists|j: int| 0 <= j < s.len() && #[trigger] child_in_block(s, b, j)
}

/// A placeholder header whose block has no component left.
pub open spec fn prunable(s: Seq<ItemView>, i: int) -> bool {
    s[i].is_parent && s[i].parent_placeholder && !has_child_with_block(s, s[i].block_id)
}

fn block_has_child(items: &Vec<Step3ItemState>, block: &String) -> (r: bool)
    ensures
        r == has_child_with_block(rows(items@), block@),
{
    let ghost s = rows(items@);
    let mut j: usize = 0;
    while j < items.len()
        invariant
            j <= items@.len(),
            s == rows(items@),
            forall|k: int| 0 <= k < j ==> !#[trigger] child_in_block(s, block@, k),
        decreases items@.len() - j,
    {
        assert(s[j as int] == items@[j as int]@);
        if !items[j].is_parent && items[j].block_id == *block {
            assert(child_in_block(s, block@, j as int));
            return true;
        }
        j += 1;
    }
    false
}

/// For each row, whether `prunable` holds.
fn prunable_flags(items: &Vec<Step3ItemState>) -> (flags: Vec<bool>)
    ensures
        flags@.len() == items@.len(),
        forall|i: int| 0 <= i < items@.len() ==> flags@[i] == prunable(rows(items@), i),
{
    let ghost s = rows(items@);
    let mut flags: Vec<bool> = Vec::new();
    let mut i: usize = 0;
    while i < items.len()
        invariant
            i <= items@.len(),
            s == rows(items@),
            flags@.len() == i,
            forall|k: int| 0 <= k < i ==> flags@[k] == prunable(s, k),
        decreases items@.len() - i,
    {
        assert(s[i as int] == items@[i as int]@);
        let item = &items[i];
        let f = if item.is_parent && item.parent_placeholder {
            !block_has_child(items, &item.block_id)
        } else {
            false
        };
        flags.push(f);
        i += 1;
    }
    flags
}

/// `counts[i]` is the number of set flags below `i`, for every `i <= n`.
fn prefix_counts(flags: &Vec<bool>) -> (counts: Vec<usize>)
    ensures
        counts@.len() == flags@.len() + 1,
        forall|i: int| 0 <= i <= flags@.len() ==> counts@[i] == indices_where(i as nat, |k: int| flags@[k]).len(),
{
    let ghost p = |k: int| flags@[k];
    let mut counts: Vec<usize> = Vec::new();
    counts.push(0);
    let mut c: usize = 0;
    let mut i: usize = 0;
    while i < flags.len()
        invariant
            i <= flags@.len(),
            p == (|k: int| flags@[k]),
            counts@.len() == i + 1,
            c == counts@[i as int],
            forall|k: int| 0 <= k <= i ==> counts@[k] == indices_where(k as nat, p).len(),
            c <= i,
        decreases flags@.len() - i,
    {
        proof {
            crate::seqs::lemma_indices_where_step(i as nat, p);
        }
        if flags[i] {
            c += 1;
        }
        counts.push(c);
        i += 1;
    }
    counts
}

/// Moves the selection past the removal of the rows whose flag is set.
fn remap_by_flags(selected: &Vec<usize>, flags: &Vec<bool>) -> (out: Vec<usize>)
    ensures
        out@ == remap_selection(selected@, flags@.len() as nat, |k: int| flags@[k]),
{
    let ghost n = flags@.len() as nat;
    let ghost p = |k: int| flags@[k];
    let counts = prefix_counts(flags);
    let mut out: Vec<usize> = Vec::new();
    let mut k: usize = 0;
    while k < selected.len()
        invariant
            k <= selected@.len(),
            n == flags@.len(),
            p == (|k: int| flags@[k]),
            counts@.len() == flags@.len() + 1,
            forall|i: int| 0 <= i <= flags@.len() ==> counts@[i] == indices_where(i as nat, p).len(),
            out@ == remap_selection(selected@.take(k as int), n, p),
        decreases selected@.len() - k,
    {
        let s = selected[k];
        proof {
            assert(selected@.take(k + 1).drop_last() =~= selected@.take(k as int));
            assert(selected@.take(k + 1).last() == s);
            let m: nat = if (s as int) < n { s as nat } else { n };
            crate::seqs::lemma_indices_where(m, p);
        }
        if s < flags.len() {
            if !flags[s] {
                out.push(s - counts[s]);
            }
        } else {
            out.push(s - counts[flags.len()]);
        }
        k += 1;
    }
    assert(selected@.take(selected@.len() as int) =~= selected@);
    out
}

/// Keeps the rows whose flag is clear, in order.
fn keep_unflagged(items: &mut Vec<Step3ItemState>, flags: &Vec<bool>)
    requires
        flags@.len() == old(items)@.len(),
    ensures
        final(items)@ == keep_where(old(items)@, |k: int| !flags@[k]),
{
    let ghost keep = |k: int| !flags@[k];
    let mut taken: Vec<Step3ItemState> = Vec::new();
    std::mem::swap(items, &mut taken);
    let ghost orig = taken@;
    let mut pos: usize = 0;
    let nflags = flags.len();
    for item in it: taken
        invariant
            orig == it.seq(),
            pos == it.index(),
            nflags == flags@.len(),
            flags@.len() == orig.len(),
            keep == (|k: int| !flags@[k]),
            items@ == indices_where(it.index() as nat, keep).map_values(|i: usize| orig[i as int]),
    {
        let ghost i = it.index();
        proof {
            crate::seqs::lemma_indices_where_step(i as nat, keep);
        }
        if !flags[pos] {
            items.push(item);
        }
        pos += 1;
        assert(items@ =~= indices_where((i + 1) as nat, keep).map_values(|i: usize| orig[i as int]));
    }
}

/// Removes every placeholder header whose block has no component left, and
/// keeps the selection on the same rows.
pub fn prune_empty_parent_blocks(items: &mut Vec<Step3ItemState>, selected: &mut Vec<usize>)
    ensures
        final(items)@ == keep_where(old(items)@, |i: int| !prunable(rows(old(items)@), i)),
        final(selected)@ == remap_selection(
            old(selected)@,
            old(items)@.len(),
            |i: int| prunable(rows(old(items)@), i),
        ),
{
    let ghost s = rows(items@);
    let flags = prunable_flags(items);
    proof {
        crate::seqs::lemma_indices_where_ext(items@.len(), |k: int| !flags@[k], |i: int| !prunable(s, i));
        lemma_remap_ext(selected@, items@.len(), |k: int| flags@[k], |i: int| prunable(s, i));
    }
    let new_sel = remap_by_flags(selected, &flags);
    *selected = new_sel;
    keep_unflagged(items, &flags);
}

/// Removal conditions that agree below `n` move the selection the same way.
pub proof fn lemma_remap_ext(sel: Seq<usize>, n: nat, p: spec_fn(int) -> bool, q: spec_fn(int) -> bool)
    requires
        forall|i: int| 0 <= i < n ==> #[trigger] p(i) == q(i),
    ensures
        remap_selection(sel, n, p) == remap_selection(sel, n, q),
    decreases sel.len(),
{
    if sel.len() > 0 {
        lemma_remap_ext(sel.drop_last(), n, p, q);
        let s = sel.last();
        let m: nat = if (s as int) < n { s as nat } else { n };
        crate::seqs::lemma_indices_where_ext(m, p, q);
    }
}

} // verus!
