//! Joining neighbouring headers of the same mod: when two headers follow
//! each other (with only the first one's components between them) and
//! belong to the same mod, the second header goes and its components join
//! the first block.
use vstd::prelude::*;

use crate::blocks::remove_row_and_fix_selection;
use crate::items::{mod_key, mod_key_of, rows, ItemView, Step3ItemState};
use crate::seqs::remap_selection;

verus! {

/// The first header at or after position `from`.
pub open spec fn next_parent(s: Seq<ItemView>, from: int) -> Option<int>
    decreases s.len() - from,
{
    if from < 0 || from >= s.len() {
        None
    } else if s[from].is_parent {
        Some(from)
    } else {
        next_parent(s, from + 1)
    }
}

/// Every component of block `drop` moves to block `keep`.
pub open spec fn relabel(s: Seq<ItemView>, drop: Seq<char>, keep: Seq<char>) -> Seq<ItemView> {
    Seq::new(s.len(), |i: int| relabel_row(s[i], drop, keep))
}

pub open spec fn relabel_row(v: ItemView, drop: Seq<char>, keep: Seq<char>) -> ItemView {
    if !v.is_parent && v.block_id == drop {
        ItemView { block_id: keep, ..v }
    } else {
        v
    }
}

/// The header at `idx` absorbs the header at `j`: it stays a placeholder only
/// when both were placeholders, the components of `j`'s block move to its
/// block, and the header at `j` goes.
pub open spec fn merge_at(s: Seq<ItemView>, idx: int, j: int) -> Seq<ItemView> {
    let p = s[idx];
    let p2 = if p.parent_placeholder && !s[j].parent_placeholder {
        ItemView { parent_placeholder: false, ..p }
    } else {
        p
    };
    relabel(s.update(idx, p2), s[j].block_id, p.block_id).remove(j)
}

/// The result of the merge pass started at position `idx`: the list and the
/// selection.
pub open spec fn merge_from(s: Seq<ItemView>, sel: Seq<usize>, idx: int) -> (Seq<ItemView>, Seq<
    usize,
>)
    decreases s.len() - idx,
{
    if idx < 0 || idx >= s.len() {
        (s, sel)
    } else if !s[idx].is_parent {
        merge_from(s, sel, idx + 1)
    } else {
        match next_parent(s, idx + 1) {
            None => (s, sel),
            Some(j) => if j <= idx || j >= s.len() {
                (s, sel)
            } else if mod_key(s[idx]) != mod_key(s[j]) {
                merge_from(s, sel, j)
            } else {
                merge_from(
                    merge_at(s, idx, j),
                    remap_selection(sel, s.len(), |i: int| i == j),
                    idx,
                )
            },
        }
    }
}

proof fn lemma_next_parent(s: Seq<ItemView>, from: int, j: int)
    requires
        0 <= from <= j <= s.len(),
        forall|k: int| from <= k < j ==> !(#[trigger] s[k]).is_parent,
        j == s.len() || s[j].is_parent,
    ensures
        next_parent(s, from) == (if j == s.len() { None } else { Some(j) }),
    decreases j - from,
{
    if from < j {
        lemma_next_parent(s, from + 1, j);
    }
}

proof fn lemma_next_parent_range(s: Seq<ItemView>, from: int)
    ensures
        next_parent(s, from) matches Some(j) ==> from <= j < s.len(),
    decreases s.len() - from,
{
    if 0 <= from < s.len() && !s[from].is_parent {
        lemma_next_parent_range(s, from + 1);
    }
}

proof fn lemma_rows_remove(v: Seq<Step3ItemState>, j: int)
    requires
        0 <= j < v.len(),
    ensures
        rows(v.remove(j)) == rows(v).remove(j),
{
    assert(rows(v.remove(j)) =~= rows(v).remove(j));
}

/// Joins every run of neighbouring headers of one mod into the first header
/// of the run, and keeps the selection on the same rows.
pub fn merge_adjacent_same_mod_blocks(items: &mut Vec<Step3ItemState>, selected: &mut Vec<usize>)
    ensures
        (rows(final(items)@), final(selected)@) == merge_from(rows(old(items)@), old(selected)@, 0),
{
    let ghost target = merge_from(rows(items@), selected@, 0);
    let mut idx: usize = 0;
    while idx < items.len()
        invariant
            merge_from(rows(items@), selected@, idx as int) == target,
        ensures
            (rows(items@), selected@) == target,
        decreases items@.len() - idx,
    {
        let ghost s = rows(items@);
        assert(s[idx as int] == items@[idx as int]@);
        if !items[idx].is_parent {
            idx += 1;
            continue;
        }
        let mut j: usize = idx + 1;
        let mut next_parent_idx: Option<usize> = None;
        while j < items.len()
            invariant_except_break
                next_parent_idx is None,
            invariant
                idx < j <= items@.len(),
                s == rows(items@),
                forall|k: int| idx < k < j ==> !(#[trigger] s[k]).is_parent,
            ensures
                next_parent_idx matches Some(n) ==> n == j && j < items@.len() && s[j as int].is_parent,
                next_parent_idx is None ==> j == items@.len(),
                forall|k: int| idx < k < j ==> !(#[trigger] s[k]).is_parent,
            decreases items@.len() - j,
        {
            assert(s[j as int] == items@[j as int]@);
            if items[j].is_parent {
                next_parent_idx = Some(j);
                break;
            }
            j += 1;
        }
        proof {
            lemma_next_parent(s, idx + 1, j as int);
        }
        let next_idx = match next_parent_idx {
            Some(n) => n,
            None => {
                break;
            },
        };
        assert(s[next_idx as int] == items@[next_idx as int]@);
        let k1 = mod_key_of(&items[idx]);
        let k2 = mod_key_of(&items[next_idx]);
        if k1 != k2 {
            idx = next_idx;
            continue;
        }
        if items[idx].parent_placeholder && !items[next_idx].parent_placeholder {
            items[idx].parent_placeholder = false;
        }
        let keep_block = items[idx].block_id.clone();
        let drop_block = items[next_idx].block_id.clone();
        let ghost s1 = rows(items@);
        proof {
            let p = s[idx as int];
            let p2 = if p.parent_placeholder && !s[next_idx as int].parent_placeholder {
                ItemView { parent_placeholder: false, ..p }
            } else {
                p
            };
            assert(s1 =~= s.update(idx as int, p2));
        }
        let mut k: usize = 0;
        while k < items.len()
            invariant
                k <= items@.len(),
                items@.len() == s1.len(),
                forall|m: int| 0 <= m < k ==> #[trigger] rows(items@)[m] == relabel_row(
                    s1[m],
                    drop_block@,
                    keep_block@,
                ),
                forall|m: int| k <= m < s1.len() ==> #[trigger] rows(items@)[m] == s1[m],
            decreases items@.len() - k,
        {
            let ghost before = items@;
            assert(rows(items@)[k as int] == items@[k as int]@);
            if !items[k].is_parent && items[k].block_id == drop_block {
                items[k].block_id = keep_block.clone();
            }
            assert forall|m: int| 0 <= m < items@.len() && m != k implies #[trigger] rows(items@)[m] == rows(before)[m] by {
                assert(items@[m] == before[m]);
            }
            assert(rows(items@)[k as int] == items@[k as int]@);
            k += 1;
        }
        proof {
            assert(rows(items@) =~= relabel(s1, drop_block@, keep_block@));
            lemma_rows_remove(items@, next_idx as int);
        }
        remove_row_and_fix_selection(items, selected, next_idx);
        proof {
            assert(rows(items@) =~= merge_at(s, idx as int, next_idx as int));
        }
    }
}

// ------------------------------------------------------------------ laws

/// Every header before `idx` is followed, at or before `idx`, by a header
/// of another mod.
pub open spec fn settled_before(s: Seq<ItemView>, idx: int) -> bool {
    forall|i: int|
        0 <= i < idx && i < s.len() && (#[trigger] s[i]).is_parent ==> match next_parent(s, i + 1) {
            Some(j) => j <= idx && mod_key(s[i]) != mod_key(s[j]),
            None => false,
        }
}

/// No header is followed, with only its own components between, by another
/// header of the same mod.
pub open spec fn no_mergeable_neighbours(s: Seq<ItemView>) -> bool {
    forall|i: int|
        0 <= i < s.len() && (#[trigger] s[i]).is_parent ==> match next_parent(s, i + 1) {
            Some(j) => mod_key(s[i]) != mod_key(s[j]),
            None => true,
        }
}

proof fn lemma_next_parent_none(s: Seq<ItemView>, from: int, k: int)
    requires
        0 <= from <= k < s.len(),
        next_parent(s, from) is None,
    ensures
        !s[k].is_parent,
    decreases k - from,
{
    if from < k {
        lemma_next_parent_none(s, from + 1, k);
    }
}

proof fn lemma_next_parent_first(s: Seq<ItemView>, from: int, k: int)
    requires
        0 <= from <= k < s.len(),
        next_parent(s, from) matches Some(j) && k < j,
    ensures
        !s[k].is_parent,
    decreases k - from,
{
    if from < k {
        lemma_next_parent_first(s, from + 1, k);
    }
}

/// The first header from `from` on is found again in a list whose rows up
/// to it are headers exactly where they were.
proof fn lemma_next_parent_same(s: Seq<ItemView>, r: Seq<ItemView>, from: int, j: int)
    requires
        0 <= from <= j < s.len(),
        j < r.len(),
        next_parent(s, from) == Some(j),
        forall|k: int| from <= k <= j ==> #[trigger] r[k].is_parent == s[k].is_parent,
    ensures
        next_parent(r, from) == Some(j),
    decreases j - from,
{
    assert(r[from].is_parent == s[from].is_parent);
    if from < j {
        assert(!s[from].is_parent);
        assert(next_parent(s, from + 1) == Some(j));
        lemma_next_parent_same(s, r, from + 1, j);
        assert(next_parent(r, from) == next_parent(r, from + 1));
    } else {
        lemma_next_parent_range(s, from + 1);
        assert(s[j].is_parent);
    }
}

proof fn lemma_merge_settles(s: Seq<ItemView>, sel: Seq<usize>, idx: int)
    requires
        0 <= idx,
        settled_before(s, idx),
    ensures
        no_mergeable_neighbours(merge_from(s, sel, idx).0),
    decreases s.len() - idx,
{
    if idx >= s.len() {
        assert forall|i: int| 0 <= i < s.len() && (#[trigger] s[i]).is_parent implies match next_parent(
            s,
            i + 1,
        ) {
            Some(j) => mod_key(s[i]) != mod_key(s[j]),
            None => true,
        } by {}
        return;
    }
    if !s[idx].is_parent {
        lemma_merge_settles(s, sel, idx + 1);
        return;
    }
    lemma_next_parent_range(s, idx + 1);
    match next_parent(s, idx + 1) {
        None => {
            assert forall|i: int| 0 <= i < s.len() && (#[trigger] s[i]).is_parent implies match next_parent(
                s,
                i + 1,
            ) {
                Some(j) => mod_key(s[i]) != mod_key(s[j]),
                None => true,
            } by {
                if i > idx {
                    lemma_next_parent_none(s, idx + 1, i);
                }
            }
        },
        Some(j) => {
            if mod_key(s[idx]) != mod_key(s[j]) {
                assert forall|i: int| 0 <= i < j && i < s.len() && (#[trigger] s[i]).is_parent implies match next_parent(
                    s,
                    i + 1,
                ) {
                    Some(j2) => j2 <= j && mod_key(s[i]) != mod_key(s[j2]),
                    None => false,
                } by {
                    if i > idx {
                        lemma_next_parent_first(s, idx + 1, i);
                    }
                }
                lemma_merge_settles(s, sel, j);
            } else {
                let r = merge_at(s, idx, j);
                let p = s[idx];
                let p2 = if p.parent_placeholder && !s[j].parent_placeholder {
                    ItemView { parent_placeholder: false, ..p }
                } else {
                    p
                };
                let u = relabel(s.update(idx, p2), s[j].block_id, p.block_id);
                assert(r == u.remove(j));
                assert forall|k: int| 0 <= k < j implies #[trigger] r[k] == u[k] by {}
                assert forall|k: int| 0 <= k < j implies (#[trigger] u[k]).is_parent == s[k].is_parent
                    && mod_key(u[k]) == mod_key(s[k]) by {}
                assert forall|i: int| 0 <= i < idx && i < r.len() && (#[trigger] r[i]).is_parent implies match next_parent(
                    r,
                    i + 1,
                ) {
                    Some(j2) => j2 <= idx && mod_key(r[i]) != mod_key(r[j2]),
                    None => false,
                } by {
                    assert(r[i] == u[i]);
                    assert(s[i].is_parent);
                    let j2 = next_parent(s, i + 1)->0;
                    lemma_next_parent_range(s, i + 1);
                    assert forall|k: int| i + 1 <= k <= j2 implies #[trigger] r[k].is_parent
                        == s[k].is_parent by {
                        assert(r[k] == u[k]);
                    }
                    lemma_next_parent_same(s, r, i + 1, j2);
                    assert(r[j2] == u[j2]);
                }
                lemma_merge_settles(r, remap_selection(sel, s.len(), |i: int| i == j), idx);
            }
        },
    }
}

/// After the merge pass no header is followed, with only its own components
/// between, by another header of the same mod.
pub proof fn law_merge_leaves_no_mergeable_neighbours(s: Seq<ItemView>, sel: Seq<usize>)
    ensures
        no_mergeable_neighbours(merge_from(s, sel, 0).0),
{
    lemma_merge_settles(s, sel, 0);
}

} // verus!
