//! What a tidy install-order list is, and the laws of the three tidying
//! passes (repair, merge, prune) on it.
use vstd::prelude::*;

use crate::blocks::{child_in_block, has_child_with_block, prunable};
use crate::items::{mod_key, rows, ItemView, Step3ItemState};
use crate::merge::{merge_from, next_parent, no_mergeable_neighbours};
use crate::repair::{nearest_parent_before, repair_from};
use crate::seqs::{indices_where, keep_where, remap_selection, removed_below};

verus! {

/// Every component sits below a header of its own block.
pub open spec fn headed(s: Seq<ItemView>) -> bool {
    forall|i: int|
        0 <= i < s.len() && !(#[trigger] s[i]).is_parent ==> match nearest_parent_before(s, i) {
            Some(p) => 0 <= p < s.len() && s[p].block_id == s[i].block_id,
            None => false,
        }
}

/// No placeholder header is left without components.
pub open spec fn unprunable(s: Seq<ItemView>) -> bool {
    forall|i: int| 0 <= i < s.len() ==> !#[trigger] prunable(s, i)
}

/// A tidy list: headed, with no mergeable neighbours and no empty
/// placeholder.
pub open spec fn tidy(s: Seq<ItemView>) -> bool {
    headed(s) && no_mergeable_neighbours(s) && unprunable(s)
}

proof fn lemma_nearest_parent_range(s: Seq<ItemView>, idx: int)
    ensures
        nearest_parent_before(s, idx) matches Some(p) ==> 0 <= p < idx && p < s.len(),
    decreases idx,
{
    if 0 < idx <= s.len() && !s[idx - 1].is_parent {
        lemma_nearest_parent_range(s, idx - 1);
    }
}

proof fn lemma_next_parent_after(s: Seq<ItemView>, from: int)
    ensures
        next_parent(s, from) matches Some(j) ==> from <= j < s.len() && s[j].is_parent,
    decreases s.len() - from,
{
    if 0 <= from < s.len() && !s[from].is_parent {
        lemma_next_parent_after(s, from + 1);
    }
}

proof fn lemma_repair_headed(s: Seq<ItemView>, seq: nat, idx: int)
    requires
        headed(s),
        0 <= idx,
    ensures
        repair_from(s, seq, idx) == (s, seq),
    decreases s.len() - idx,
{
    if idx < s.len() {
        if !s[idx].is_parent {
            assert(!s[idx].is_parent);
            lemma_nearest_parent_range(s, idx);
        }
        lemma_repair_headed(s, seq, idx + 1);
    }
}

proof fn lemma_merge_no_mergeable_neighbours(s: Seq<ItemView>, sel: Seq<usize>, idx: int)
    requires
        no_mergeable_neighbours(s),
        0 <= idx,
    ensures
        merge_from(s, sel, idx) == (s, sel),
    decreases s.len() - idx,
{
    if idx < s.len() {
        if !s[idx].is_parent {
            lemma_merge_no_mergeable_neighbours(s, sel, idx + 1);
        } else {
            assert(s[idx].is_parent);
            lemma_next_parent_after(s, idx + 1);
            match next_parent(s, idx + 1) {
                Some(j) => {
                    lemma_merge_no_mergeable_neighbours(s, sel, j);
                },
                None => {},
            }
        }
    }
}

proof fn lemma_indices_all(n: nat, p: spec_fn(int) -> bool)
    requires
        forall|i: int| 0 <= i < n ==> #[trigger] p(i),
        n <= usize::MAX + 1,
    ensures
        indices_where(n, p) == Seq::new(n, |i: int| i as usize),
    decreases n,
{
    if n > 0 {
        lemma_indices_all((n - 1) as nat, p);
        assert(p(n - 1));
        assert(indices_where(n, p) =~= Seq::new(n, |i: int| i as usize));
    }
}

proof fn lemma_indices_none(n: nat, p: spec_fn(int) -> bool)
    requires
        forall|i: int| 0 <= i < n ==> !#[trigger] p(i),
    ensures
        indices_where(n, p).len() == 0,
    decreases n,
{
    if n > 0 {
        lemma_indices_none((n - 1) as nat, p);
        assert(!p(n - 1));
    }
}

proof fn lemma_remap_nothing_removed(sel: Seq<usize>, n: nat, removed: spec_fn(int) -> bool)
    requires
        forall|i: int| 0 <= i < n ==> !#[trigger] removed(i),
    ensures
        remap_selection(sel, n, removed) == sel,
    decreases sel.len(),
{
    if sel.len() > 0 {
        lemma_remap_nothing_removed(sel.drop_last(), n, removed);
        let s = sel.last();
        let m: nat = if (s as int) < n { s as nat } else { n };
        assert forall|i: int| 0 <= i < m implies !#[trigger] removed(i) by {}
        lemma_indices_none(m, removed);
        assert(removed_below(n, removed, s as int) == 0);
        assert(remap_selection(sel, n, removed) =~= sel);
    }
}

/// A tidy list is left exactly as it was by each tidying pass: repair keeps
/// the list and the sequence counter, merge keeps the list and the
/// selection, prune keeps the list and the selection.
pub proof fn law_tidy_list_is_a_fixpoint(v: Seq<Step3ItemState>, sel: Seq<usize>, seq: nat)
    requires
        tidy(rows(v)),
        v.len() <= usize::MAX,
    ensures
        repair_from(rows(v), seq, 0) == (rows(v), seq),
        merge_from(rows(v), sel, 0) == (rows(v), sel),
        keep_where(v, |i: int| !prunable(rows(v), i)) == v,
        remap_selection(sel, v.len(), |i: int| prunable(rows(v), i)) == sel,
{
    let s = rows(v);
    lemma_repair_headed(s, seq, 0);
    lemma_merge_no_mergeable_neighbours(s, sel, 0);
    let keep = |i: int| !prunable(rows(v), i);
    assert forall|i: int| 0 <= i < v.len() implies #[trigger] keep(i) by {
        assert(!prunable(s, i));
    }
    lemma_indices_all(v.len(), keep);
    assert(keep_where(v, keep) =~= v);
    let removed = |i: int| prunable(rows(v), i);
    assert forall|i: int| 0 <= i < v.len() implies !#[trigger] removed(i) by {
        assert(!prunable(s, i));
    }
    lemma_remap_nothing_removed(sel, v.len(), removed);
}

/// After the prune pass no placeholder header is left without components.
pub proof fn law_prune_leaves_no_empty_placeholder(v: Seq<Step3ItemState>)
    requires
        v.len() <= usize::MAX,
    ensures
        unprunable(rows(keep_where(v, |i: int| !prunable(rows(v), i)))),
{
    let s = rows(v);
    let keep = |i: int| !prunable(rows(v), i);
    let idx = indices_where(v.len(), keep);
    crate::seqs::lemma_indices_where(v.len(), keep);
    let r = keep_where(v, keep);
    let rs = rows(r);
    assert forall|m: int| 0 <= m < rs.len() implies !#[trigger] prunable(rs, m) by {
        let k = idx[m] as int;
        assert(rs[m] == s[k]);
        if rs[m].is_parent && rs[m].parent_placeholder {
            assert(keep(k));
            assert(has_child_with_block(s, s[k].block_id));
            let j = choose|j: int| 0 <= j < s.len() && #[trigger] child_in_block(s, s[k].block_id, j);
            assert(keep(j));
            assert(idx.contains(j as usize));
            let m2 = choose|m2: int| 0 <= m2 < idx.len() && idx[m2] == j as usize;
            assert(rs[m2] == s[j]);
            assert(child_in_block(rs, rs[m].block_id, m2));
        }
    }
}

} // verus!
