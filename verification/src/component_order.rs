//! The components of the install-order list, in order: the tidying passes
//! (repair, merge, prune) and the moves leave them as they were, apart from
//! the blocks they belong to.
use vstd::prelude::*;

use crate::blocks::prunable;
use crate::items::ItemView;
use crate::merge::{merge_at, merge_from, next_parent, relabel, relabel_row};
use crate::move_selection::{moved_and_tidied, MoveSelectionTarget};
use crate::repair::{placeholder_from, repair_from, run_end, set_block_range};
use crate::seqs::{keep_where, lemma_keep_where_last};

verus! {

/// A row without the block it belongs to.
pub open spec fn unblocked(v: ItemView) -> ItemView {
    ItemView { block_id: seq![], ..v }
}

/// The components (not the headers) of a list, in order, each with every
/// field but its block.
pub open spec fn component_keys(s: Seq<ItemView>) -> Seq<ItemView>
    decreases s.len(),
{
    if s.len() == 0 {
        seq![]
    } else {
        let prev = component_keys(s.drop_last());
        if s.last().is_parent {
            prev
        } else {
            prev.push(unblocked(s.last()))
        }
    }
}

/// Two lists with headers at the same places and components with the same
/// keys have the same component keys.
proof fn lemma_keys_same(s: Seq<ItemView>, t: Seq<ItemView>)
    requires
        s.len() == t.len(),
        forall|i: int| 0 <= i < s.len() ==> (#[trigger] s[i]).is_parent == t[i].is_parent,
        forall|i: int| 0 <= i < s.len() && !(#[trigger] s[i]).is_parent ==> unblocked(s[i]) == unblocked(t[i]),
    ensures
        component_keys(s) == component_keys(t),
    decreases s.len(),
{
    if s.len() > 0 {
        let n = s.len() - 1;
        assert forall|i: int| 0 <= i < n implies (#[trigger] s.drop_last()[i]).is_parent
            == t.drop_last()[i].is_parent by {
            assert(s.drop_last()[i] == s[i] && t.drop_last()[i] == t[i]);
        }
        assert forall|i: int| 0 <= i < n && !(#[trigger] s.drop_last()[i]).is_parent implies unblocked(
            s.drop_last()[i],
        ) == unblocked(t.drop_last()[i]) by {
            assert(s.drop_last()[i] == s[i] && t.drop_last()[i] == t[i]);
        }
        lemma_keys_same(s.drop_last(), t.drop_last());
        assert(s.last() == s[n] && t.last() == t[n]);
    }
}

/// The component keys of two lists one after the other.
proof fn lemma_keys_concat(a: Seq<ItemView>, b: Seq<ItemView>)
    ensures
        component_keys(a + b) == component_keys(a) + component_keys(b),
    decreases b.len(),
{
    if b.len() == 0 {
        assert(a + b =~= a);
        assert(component_keys(a) + component_keys(b) =~= component_keys(a));
    } else {
        lemma_keys_concat(a, b.drop_last());
        assert((a + b).drop_last() =~= a + b.drop_last());
        assert((a + b).last() == b.last());
        if !b.last().is_parent {
            assert(component_keys(a) + component_keys(b) =~= (component_keys(a) + component_keys(
                b.drop_last(),
            )).push(unblocked(b.last())));
        }
    }
}

/// A single header has no component key.
proof fn lemma_keys_header(p: ItemView)
    requires
        p.is_parent,
    ensures
        component_keys(seq![p]) == Seq::<ItemView>::empty(),
{
    assert(seq![p].drop_last() =~= Seq::<ItemView>::empty());
    assert(seq![p].last() == p);
    assert(component_keys(Seq::<ItemView>::empty()) =~= Seq::<ItemView>::empty());
    assert(component_keys(seq![p]) == component_keys(seq![p].drop_last()));
}

/// Inserting a header changes no component key.
proof fn lemma_keys_insert_header(s: Seq<ItemView>, i: int, p: ItemView)
    requires
        0 <= i <= s.len(),
        p.is_parent,
    ensures
        component_keys(s.insert(i, p)) == component_keys(s),
{
    let a = s.take(i);
    let b = s.skip(i);
    assert(s =~= a + b);
    assert(s.insert(i, p) =~= a + seq![p] + b);
    lemma_keys_concat(a + seq![p], b);
    lemma_keys_concat(a, seq![p]);
    lemma_keys_header(p);
    lemma_keys_concat(a, b);
    assert(component_keys(a) + Seq::<ItemView>::empty() =~= component_keys(a));
}

/// Removing a header changes no component key.
proof fn lemma_keys_remove_header(s: Seq<ItemView>, j: int)
    requires
        0 <= j < s.len(),
        s[j].is_parent,
    ensures
        component_keys(s.remove(j)) == component_keys(s),
{
    let r = s.remove(j);
    assert(r.insert(j, s[j]) =~= s);
    lemma_keys_insert_header(r, j, s[j]);
}

/// Keeping every component (dropping only headers) changes no component key.
proof fn lemma_keys_keep_where(s: Seq<ItemView>, q: spec_fn(int) -> bool)
    requires
        s.len() <= usize::MAX,
        forall|i: int| 0 <= i < s.len() && !(#[trigger] s[i]).is_parent ==> q(i),
    ensures
        component_keys(keep_where(s, q)) == component_keys(s),
    decreases s.len(),
{
    if s.len() > 0 {
        let n = s.len() - 1;
        assert forall|i: int| 0 <= i < n && !(#[trigger] s.drop_last()[i]).is_parent implies q(i) by {
            assert(s.drop_last()[i] == s[i]);
        }
        lemma_keys_keep_where(s.drop_last(), q);
        lemma_keep_where_last(s, q);
        if q(n) {
            let k = keep_where(s.drop_last(), q);
            assert(k.push(s.last()).drop_last() =~= k);
        }
    } else {
        assert(keep_where(s, q) =~= Seq::<ItemView>::empty());
    }
}

/// Moving rows to another block changes no component key.
proof fn lemma_keys_set_block_range(s: Seq<ItemView>, from: int, end: int, t: Seq<char>)
    ensures
        component_keys(set_block_range(s, from, end, t)) == component_keys(s),
{
    lemma_keys_same(s, set_block_range(s, from, end, t));
}

/// The repair pass keeps the components, in order, with every field but
/// their block.
pub proof fn law_repair_keeps_components(s: Seq<ItemView>, seq: nat, idx: int)
    ensures
        component_keys(repair_from(s, seq, idx).0) == component_keys(s),
    decreases s.len() - idx,
{
    if idx < 0 || idx >= s.len() {
    } else if s[idx].is_parent {
        law_repair_keeps_components(s, seq, idx + 1);
    } else {
        let b = s[idx].block_id;
        let near = crate::repair::nearest_parent_before(s, idx);
        if near is Some && 0 <= near->0 < s.len() && s[near->0].block_id == b {
            law_repair_keeps_components(s, seq, idx + 1);
        } else if near is Some && 0 <= near->0 < s.len() && crate::items::mod_key(s[near->0])
            == crate::items::mod_key(s[idx]) {
            let e = run_end(s, idx + 1, b);
            if !(e <= idx || e > s.len()) {
                let s1 = set_block_range(s, idx, e, s[near->0].block_id);
                law_repair_keeps_components(s1, seq, e);
                lemma_keys_set_block_range(s, idx, e, s[near->0].block_id);
            }
        } else {
            match crate::repair::template_from(s, s[idx], 0) {
                Some(t) => if !(t < 0 || t >= s.len()) {
                    let nb = crate::repair::derived_block_id(s[t].block_id, crate::repair::split_tag(), seq);
                    let ph = placeholder_from(s[t], nb);
                    let s2 = s.insert(idx, ph);
                    let e = run_end(s2, idx + 2, b);
                    if !(e <= idx + 1 || e > s2.len()) {
                        crate::repair::lemma_template_some(s, s[idx], 0);
                        let s3 = set_block_range(s2, idx + 1, e, nb);
                        law_repair_keeps_components(s3, seq + 1, e);
                        lemma_keys_set_block_range(s2, idx + 1, e, nb);
                        lemma_keys_insert_header(s, idx, ph);
                    }
                },
                None => {
                    law_repair_keeps_components(s, seq, idx + 1);
                },
            }
        }
    }
}

/// The repair pass only adds rows, and takes one new sequence number per
/// row it adds.
pub proof fn law_repair_counts_the_headers_it_adds(s: Seq<ItemView>, seq: nat, idx: int)
    ensures
        repair_from(s, seq, idx).0.len() >= s.len(),
        repair_from(s, seq, idx).1 == seq + (repair_from(s, seq, idx).0.len() - s.len()),
    decreases s.len() - idx,
{
    if idx < 0 || idx >= s.len() {
    } else if s[idx].is_parent {
        law_repair_counts_the_headers_it_adds(s, seq, idx + 1);
    } else {
        let b = s[idx].block_id;
        let near = crate::repair::nearest_parent_before(s, idx);
        if near is Some && 0 <= near->0 < s.len() && s[near->0].block_id == b {
            law_repair_counts_the_headers_it_adds(s, seq, idx + 1);
        } else if near is Some && 0 <= near->0 < s.len() && crate::items::mod_key(s[near->0])
            == crate::items::mod_key(s[idx]) {
            let e = run_end(s, idx + 1, b);
            if !(e <= idx || e > s.len()) {
                law_repair_counts_the_headers_it_adds(set_block_range(s, idx, e, s[near->0].block_id), seq, e);
            }
        } else {
            match crate::repair::template_from(s, s[idx], 0) {
                Some(t) => if !(t < 0 || t >= s.len()) {
                    let nb = crate::repair::derived_block_id(s[t].block_id, crate::repair::split_tag(), seq);
                    let s2 = s.insert(idx, placeholder_from(s[t], nb));
                    let e = run_end(s2, idx + 2, b);
                    if !(e <= idx + 1 || e > s2.len()) {
                        law_repair_counts_the_headers_it_adds(set_block_range(s2, idx + 1, e, nb), seq + 1, e);
                    }
                },
                None => {
                    law_repair_counts_the_headers_it_adds(s, seq, idx + 1);
                },
            }
        }
    }
}

/// The prune pass keeps the components, in order, with every field
/// (it removes empty placeholder headers only).
pub proof fn law_prune_keeps_components(s: Seq<ItemView>)
    requires
        s.len() <= usize::MAX,
    ensures
        component_keys(keep_where(s, |i: int| !prunable(s, i))) == component_keys(s),
{
    lemma_keys_keep_where(s, |i: int| !prunable(s, i));
}

// ------------------------------------------------ headers added by repair

/// A placeholder header as the repair pass adds them: a placeholder with
/// the last selection order.
pub open spec fn is_added_placeholder(v: ItemView) -> bool {
    v.is_parent && v.parent_placeholder && v.selected_order == usize::MAX
}

/// The rows of a list other than placeholder headers of that kind, in
/// order; components without their block.
pub open spec fn lasting_rows(s: Seq<ItemView>) -> Seq<ItemView>
    decreases s.len(),
{
    if s.len() == 0 {
        seq![]
    } else {
        let prev = lasting_rows(s.drop_last());
        let v = s.last();
        if is_added_placeholder(v) {
            prev
        } else if v.is_parent {
            prev.push(v)
        } else {
            prev.push(unblocked(v))
        }
    }
}

proof fn lemma_lasting_same(s: Seq<ItemView>, t: Seq<ItemView>)
    requires
        s.len() == t.len(),
        forall|i: int|
            0 <= i < s.len() ==> (#[trigger] s[i]).is_parent == t[i].is_parent && is_added_placeholder(s[i])
                == is_added_placeholder(t[i]),
        forall|i: int| 0 <= i < s.len() && (#[trigger] s[i]).is_parent ==> s[i] == t[i],
        forall|i: int| 0 <= i < s.len() && !(#[trigger] s[i]).is_parent ==> unblocked(s[i]) == unblocked(t[i]),
    ensures
        lasting_rows(s) == lasting_rows(t),
    decreases s.len(),
{
    if s.len() > 0 {
        let n = s.len() - 1;
        let a = s.drop_last();
        let b = t.drop_last();
        assert forall|i: int| 0 <= i < n implies (#[trigger] a[i]).is_parent == b[i].is_parent
            && is_added_placeholder(a[i]) == is_added_placeholder(b[i]) by {
            assert(a[i] == s[i] && b[i] == t[i]);
        }
        assert forall|i: int| 0 <= i < n && (#[trigger] a[i]).is_parent implies a[i] == b[i] by {
            assert(a[i] == s[i] && b[i] == t[i]);
        }
        assert forall|i: int| 0 <= i < n && !(#[trigger] a[i]).is_parent implies unblocked(a[i]) == unblocked(
            b[i],
        ) by {
            assert(a[i] == s[i] && b[i] == t[i]);
        }
        lemma_lasting_same(a, b);
        assert(s.last() == s[n] && t.last() == t[n]);
    }
}

proof fn lemma_lasting_concat(a: Seq<ItemView>, b: Seq<ItemView>)
    ensures
        lasting_rows(a + b) == lasting_rows(a) + lasting_rows(b),
    decreases b.len(),
{
    if b.len() == 0 {
        assert(a + b =~= a);
        assert(lasting_rows(a) + lasting_rows(b) =~= lasting_rows(a));
    } else {
        lemma_lasting_concat(a, b.drop_last());
        assert((a + b).drop_last() =~= a + b.drop_last());
        assert((a + b).last() == b.last());
        let v = b.last();
        if !is_added_placeholder(v) {
            let w = if v.is_parent { v } else { unblocked(v) };
            assert(lasting_rows(a) + lasting_rows(b) =~= (lasting_rows(a) + lasting_rows(b.drop_last())).push(w));
        }
    }
}

proof fn lemma_lasting_insert_placeholder(s: Seq<ItemView>, i: int, p: ItemView)
    requires
        0 <= i <= s.len(),
        is_added_placeholder(p),
    ensures
        lasting_rows(s.insert(i, p)) == lasting_rows(s),
{
    let a = s.take(i);
    let b = s.skip(i);
    assert(s =~= a + b);
    assert(s.insert(i, p) =~= a + seq![p] + b);
    lemma_lasting_concat(a + seq![p], b);
    lemma_lasting_concat(a, seq![p]);
    assert(seq![p].drop_last() =~= Seq::<ItemView>::empty());
    assert(seq![p].last() == p);
    assert(lasting_rows(Seq::<ItemView>::empty()) =~= Seq::<ItemView>::empty());
    assert(lasting_rows(seq![p]) == lasting_rows(seq![p].drop_last()));
    lemma_lasting_concat(a, b);
    assert(lasting_rows(a) + Seq::<ItemView>::empty() =~= lasting_rows(a));
}

/// Moving a run of components to another block keeps the lasting rows.
proof fn lemma_lasting_set_components(s: Seq<ItemView>, from: int, end: int, t: Seq<char>)
    requires
        forall|k: int| from <= k < end && 0 <= k < s.len() ==> !(#[trigger] s[k]).is_parent,
    ensures
        lasting_rows(set_block_range(s, from, end, t)) == lasting_rows(s),
{
    let r = set_block_range(s, from, end, t);
    assert forall|i: int| 0 <= i < s.len() implies (#[trigger] s[i]).is_parent == r[i].is_parent
        && is_added_placeholder(s[i]) == is_added_placeholder(r[i]) by {}
    lemma_lasting_same(s, r);
}

/// The repair pass adds nothing but placeholder headers (with the last
/// selection order): every other row of its result is a row of the list
/// (components possibly in another block), in the same order, and no other
/// row goes.
pub proof fn law_repair_adds_only_placeholder_headers(s: Seq<ItemView>, seq: nat, idx: int)
    ensures
        lasting_rows(repair_from(s, seq, idx).0) == lasting_rows(s),
    decreases s.len() - idx,
{
    if idx < 0 || idx >= s.len() {
    } else if s[idx].is_parent {
        law_repair_adds_only_placeholder_headers(s, seq, idx + 1);
    } else {
        let b = s[idx].block_id;
        let near = crate::repair::nearest_parent_before(s, idx);
        if near is Some && 0 <= near->0 < s.len() && s[near->0].block_id == b {
            law_repair_adds_only_placeholder_headers(s, seq, idx + 1);
        } else if near is Some && 0 <= near->0 < s.len() && crate::items::mod_key(s[near->0])
            == crate::items::mod_key(s[idx]) {
            let e = run_end(s, idx + 1, b);
            if !(e <= idx || e > s.len()) {
                crate::repair::lemma_run_end_members(s, idx + 1, b);
                assert forall|k: int| idx <= k < e && 0 <= k < s.len() implies !(#[trigger] s[k]).is_parent by {
                    if k > idx {
                        assert(crate::repair::component_of(s, k, b));
                    }
                }
                let s1 = set_block_range(s, idx, e, s[near->0].block_id);
                law_repair_adds_only_placeholder_headers(s1, seq, e);
                lemma_lasting_set_components(s, idx, e, s[near->0].block_id);
            }
        } else {
            match crate::repair::template_from(s, s[idx], 0) {
                Some(t) => if !(t < 0 || t >= s.len()) {
                    let nb = crate::repair::derived_block_id(s[t].block_id, crate::repair::split_tag(), seq);
                    let ph = placeholder_from(s[t], nb);
                    let s2 = s.insert(idx, ph);
                    let e = run_end(s2, idx + 2, b);
                    if !(e <= idx + 1 || e > s2.len()) {
                        crate::repair::lemma_template_some(s, s[idx], 0);
                        crate::repair::lemma_run_end_members(s2, idx + 2, b);
                        assert(s2[idx + 1] == s[idx]);
                        assert forall|k: int| idx + 1 <= k < e && 0 <= k < s2.len() implies !(
                        #[trigger] s2[k]).is_parent by {
                            if k > idx + 1 {
                                assert(crate::repair::component_of(s2, k, b));
                            }
                        }
                        let s3 = set_block_range(s2, idx + 1, e, nb);
                        law_repair_adds_only_placeholder_headers(s3, seq + 1, e);
                        lemma_lasting_set_components(s2, idx + 1, e, nb);
                        lemma_lasting_insert_placeholder(s, idx, ph);
                    }
                },
                None => {
                    law_repair_adds_only_placeholder_headers(s, seq, idx + 1);
                },
            }
        }
    }
}

proof fn lemma_next_parent_is_header(s: Seq<ItemView>, from: int)
    ensures
        next_parent(s, from) matches Some(j) ==> from <= j < s.len() && s[j].is_parent,
    decreases s.len() - from,
{
    if 0 <= from < s.len() && !s[from].is_parent {
        lemma_next_parent_is_header(s, from + 1);
    }
}

/// Joining two headers keeps the components and their order.
proof fn lemma_keys_merge_at(s: Seq<ItemView>, idx: int, j: int)
    requires
        0 <= idx < j < s.len(),
        s[idx].is_parent,
        s[j].is_parent,
    ensures
        component_keys(merge_at(s, idx, j)) == component_keys(s),
{
    let p = s[idx];
    let p2 = if p.parent_placeholder && !s[j].parent_placeholder {
        ItemView { parent_placeholder: false, ..p }
    } else {
        p
    };
    let u = s.update(idx, p2);
    let r = relabel(u, s[j].block_id, p.block_id);
    lemma_keys_same(s, u);
    lemma_keys_same(u, r);
    assert(r[j] == relabel_row(u[j], s[j].block_id, p.block_id));
    assert(r[j].is_parent);
    lemma_keys_remove_header(r, j);
}

/// The merge pass keeps the components, in order, with every field but
/// their block (it removes headers only).
pub proof fn law_merge_keeps_components(s: Seq<ItemView>, sel: Seq<usize>, idx: int)
    ensures
        component_keys(merge_from(s, sel, idx).0) == component_keys(s),
    decreases s.len() - idx,
{
    if idx < 0 || idx >= s.len() {
    } else if !s[idx].is_parent {
        law_merge_keeps_components(s, sel, idx + 1);
    } else {
        lemma_next_parent_is_header(s, idx + 1);
        match next_parent(s, idx + 1) {
            None => {},
            Some(j) => if j <= idx || j >= s.len() {
            } else if crate::items::mod_key(s[idx]) != crate::items::mod_key(s[j]) {
                law_merge_keeps_components(s, sel, j);
            } else {
                let sel2 = crate::seqs::remap_selection(sel, s.len(), |i: int| i == j);
                lemma_keys_merge_at(s, idx, j);
                assert(merge_at(s, idx, j).len() == s.len() - 1);
                law_merge_keeps_components(merge_at(s, idx, j), sel2, idx);
            },
        }
    }
}

/// The merge pass never lengthens the list.
proof fn lemma_merge_len(s: Seq<ItemView>, sel: Seq<usize>, idx: int)
    ensures
        merge_from(s, sel, idx).0.len() <= s.len(),
    decreases s.len() - idx,
{
    if idx < 0 || idx >= s.len() {
    } else if !s[idx].is_parent {
        lemma_merge_len(s, sel, idx + 1);
    } else {
        match next_parent(s, idx + 1) {
            None => {},
            Some(j) => if j <= idx || j >= s.len() {
            } else if crate::items::mod_key(s[idx]) != crate::items::mod_key(s[j]) {
                lemma_merge_len(s, sel, j);
            } else {
                let sel2 = crate::seqs::remap_selection(sel, s.len(), |i: int| i == j);
                lemma_merge_len(merge_at(s, idx, j), sel2, idx);
            },
        }
    }
}

/// A move (to the top or the bottom, then tidied) keeps every component
/// and only reorders them as asked: the moved components come first (for
/// the top) or last (for the bottom), and each group keeps its old order.
pub proof fn law_move_keeps_component_order(
    s: Seq<ItemView>,
    moving: Seq<usize>,
    target: MoveSelectionTarget,
    seq: nat,
)
    requires
        s.len() <= usize::MAX,
        repair_from(crate::move_selection::rebuilt(s, moving, target), seq, 0).0.len() <= usize::MAX,
    ensures
        ({
            let moved = component_keys(keep_where(s, |i: int| moving.contains(i as usize)));
            let rest = component_keys(keep_where(s, |i: int| !moving.contains(i as usize)));
            component_keys(moved_and_tidied(s, moving, target, seq).0) == match target {
                MoveSelectionTarget::Top => moved + rest,
                MoveSelectionTarget::Bottom => rest + moved,
            }
        }),
{
    let mv = keep_where(s, |i: int| moving.contains(i as usize));
    let rs = keep_where(s, |i: int| !moving.contains(i as usize));
    let r0 = crate::move_selection::rebuilt(s, moving, target);
    match target {
        MoveSelectionTarget::Top => lemma_keys_concat(mv, rs),
        MoveSelectionTarget::Bottom => lemma_keys_concat(rs, mv),
    }
    let r1 = repair_from(r0, seq, 0);
    law_repair_keeps_components(r0, seq, 0);
    let tr = crate::move_selection::target_range(s.len(), moving.len(), target);
    let r2 = merge_from(r1.0, tr, 0).0;
    law_merge_keeps_components(r1.0, tr, 0);
    lemma_merge_len(r1.0, tr, 0);
    law_prune_keeps_components(r2);
}

// ------------------------------------------------ the merge pass's selection

/// The flag of position `i` in `g` (false outside it).
pub open spec fn flag(g: Seq<bool>, i: int) -> bool {
    0 <= i < g.len() && g[i]
}

/// Which rows of the list the merge pass started at `idx` takes out, by
/// their positions in that list.
pub open spec fn merge_gone(s: Seq<ItemView>, idx: int) -> Seq<bool>
    decreases s.len() - idx,
{
    if idx < 0 || idx >= s.len() {
        Seq::new(s.len(), |i: int| false)
    } else if !s[idx].is_parent {
        merge_gone(s, idx + 1)
    } else {
        match next_parent(s, idx + 1) {
            None => Seq::new(s.len(), |i: int| false),
            Some(j) => if j <= idx || j >= s.len() {
                Seq::new(s.len(), |i: int| false)
            } else if crate::items::mod_key(s[idx]) != crate::items::mod_key(s[j]) {
                merge_gone(s, j)
            } else {
                merge_gone(merge_at(s, idx, j), idx).insert(j, true)
            },
        }
    }
}

/// Counting the flags of `g` with one more flag set at `j`.
proof fn lemma_count_insert(g: Seq<bool>, j: int, m: nat)
    requires
        0 <= j <= g.len(),
        m <= g.len() + 1,
    ensures
        crate::seqs::indices_where(m, |i: int| flag(g.insert(j, true), i)).len() == (if m <= j {
            crate::seqs::indices_where(m, |i: int| flag(g, i)).len()
        } else {
            crate::seqs::indices_where((m - 1) as nat, |i: int| flag(g, i)).len() + 1
        }),
    decreases m,
{
    let h = g.insert(j, true);
    if m > 0 {
        lemma_count_insert(g, j, (m - 1) as nat);
        crate::seqs::lemma_indices_where_step((m - 1) as nat, |i: int| flag(h, i));
        if m - 1 < j {
            crate::seqs::lemma_indices_where_step((m - 1) as nat, |i: int| flag(g, i));
            assert(flag(h, m - 1) == flag(g, m - 1));
        } else if m - 1 == j {
            assert(flag(h, m - 1));
        } else {
            crate::seqs::lemma_indices_where_step((m - 2) as nat, |i: int| flag(g, i));
            assert(flag(h, m - 1) == flag(g, m - 2));
        }
    }
}

/// Taking out row `j` and then the rows flagged by `g` (positions after the
/// first removal) moves a selection as taking out, at once, row `j` and the
/// rows `g` flags, read in the original list.
proof fn lemma_remap_compose(sel: Seq<usize>, n: nat, j: int, g: Seq<bool>)
    requires
        0 <= j < n,
        g.len() == n - 1,
    ensures
        crate::seqs::remap_selection(
            crate::seqs::remap_selection(sel, n, |i: int| i == j),
            (n - 1) as nat,
            |i: int| flag(g, i),
        ) == crate::seqs::remap_selection(sel, n, |i: int| flag(g.insert(j, true), i)),
    decreases sel.len(),
{
    let rj = |i: int| i == j;
    let rg = |i: int| flag(g, i);
    let h = g.insert(j, true);
    let rh = |i: int| flag(h, i);
    if sel.len() > 0 {
        lemma_remap_compose(sel.drop_last(), n, j, g);
        let x = sel.last();
        let first = crate::seqs::remap_selection(sel, n, rj);
        let first_rest = crate::seqs::remap_selection(sel.drop_last(), n, rj);
        crate::blocks::lemma_removed_one_below(n, j, x as int);
        if (x as int) < n && x as int == j {
            assert(first == first_rest);
            assert(rh(x as int));
        } else {
            let x1 = (x - crate::seqs::removed_below(n, rj, x as int)) as usize;
            assert(first == first_rest.push(x1));
            assert(first.drop_last() =~= first_rest);
            assert(first.last() == x1);
            if (x as int) >= n {
                assert(x1 as int == x - 1);
                lemma_count_insert(g, j, n);
                assert(!rh(x as int));
                assert(!rg(x1 as int));
                assert(crate::seqs::removed_below((n - 1) as nat, rg, x1 as int) == crate::seqs::indices_where(
                    (n - 1) as nat,
                    rg,
                ).len());
                assert(crate::seqs::removed_below(n, rh, x as int) == crate::seqs::indices_where(n, rh).len());
            } else {
                lemma_count_insert(g, j, x as nat);
                if (x as int) < j {
                    assert(x1 == x);
                    assert(rh(x as int) == rg(x as int));
                } else {
                    assert(x1 as int == x - 1);
                    assert(rh(x as int) == rg(x - 1));
                }
                assert(crate::seqs::removed_below((n - 1) as nat, rg, x1 as int) == crate::seqs::indices_where(
                    x1 as nat,
                    rg,
                ).len());
                assert(crate::seqs::removed_below(n, rh, x as int) == crate::seqs::indices_where(x as nat, rh).len());
            }
        }
    }
}

/// The merge pass takes out headers only, and moves the selection as taking
/// those rows out does: a selected row that goes drops out of the
/// selection, every other selected position moves up by the number of rows
/// taken out before it.
pub proof fn law_merge_moves_the_selection_with_the_removed_headers(s: Seq<ItemView>, sel: Seq<usize>, idx: int)
    ensures
        merge_gone(s, idx).len() == s.len(),
        forall|i: int| 0 <= i < s.len() && #[trigger] flag(merge_gone(s, idx), i) ==> s[i].is_parent,
        merge_from(s, sel, idx).1 == crate::seqs::remap_selection(
            sel,
            s.len(),
            |i: int| flag(merge_gone(s, idx), i),
        ),
    decreases s.len() - idx,
{
    let none = Seq::new(s.len(), |i: int| false);
    if idx < 0 || idx >= s.len() {
        lemma_remap_nothing(sel, s.len(), none);
    } else if !s[idx].is_parent {
        law_merge_moves_the_selection_with_the_removed_headers(s, sel, idx + 1);
    } else {
        lemma_next_parent_is_header(s, idx + 1);
        match next_parent(s, idx + 1) {
            None => {
                lemma_remap_nothing(sel, s.len(), none);
            },
            Some(j) => if j <= idx || j >= s.len() {
                lemma_remap_nothing(sel, s.len(), none);
            } else if crate::items::mod_key(s[idx]) != crate::items::mod_key(s[j]) {
                law_merge_moves_the_selection_with_the_removed_headers(s, sel, j);
            } else {
                let s2 = merge_at(s, idx, j);
                let sel1 = crate::seqs::remap_selection(sel, s.len(), |i: int| i == j);
                law_merge_moves_the_selection_with_the_removed_headers(s2, sel1, idx);
                let g = merge_gone(s2, idx);
                lemma_remap_compose(sel, s.len(), j, g);
                let h = g.insert(j, true);
                assert forall|i: int| 0 <= i < s.len() && #[trigger] flag(h, i) implies s[i].is_parent by {
                    let p = s[idx];
                    let p2 = if p.parent_placeholder && !s[j].parent_placeholder {
                        ItemView { parent_placeholder: false, ..p }
                    } else {
                        p
                    };
                    let r = relabel(s.update(idx, p2), s[j].block_id, p.block_id);
                    if i < j {
                        assert(flag(g, i));
                        assert(s2[i] == r[i]);
                        assert(r[i] == relabel_row(s.update(idx, p2)[i], s[j].block_id, p.block_id));
                    } else if i > j {
                        assert(flag(g, i - 1));
                        assert(s2[i - 1] == r[i]);
                        assert(r[i] == relabel_row(s.update(idx, p2)[i], s[j].block_id, p.block_id));
                    }
                }
            },
        }
    }
}

/// Removing no row leaves the selection as it is.
proof fn lemma_remap_nothing(sel: Seq<usize>, n: nat, g: Seq<bool>)
    requires
        forall|i: int| 0 <= i < g.len() ==> !g[i],
    ensures
        crate::seqs::remap_selection(sel, n, |i: int| flag(g, i)) == sel,
    decreases sel.len(),
{
    if sel.len() > 0 {
        lemma_remap_nothing(sel.drop_last(), n, g);
        let x = sel.last();
        let m: nat = if (x as int) < n { x as nat } else { n };
        lemma_count_none(m, g);
        assert(sel =~= sel.drop_last().push(x));
    }
}

proof fn lemma_count_none(m: nat, g: Seq<bool>)
    requires
        forall|i: int| 0 <= i < g.len() ==> !g[i],
    ensures
        crate::seqs::indices_where(m, |i: int| flag(g, i)).len() == 0,
    decreases m,
{
    if m > 0 {
        lemma_count_none((m - 1) as nat, g);
    }
}

} // verus!
