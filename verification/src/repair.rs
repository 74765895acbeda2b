//! Giving stranded components a header again. After rows move, a component
//! can end up under another mod's header; it is given back to a header of
//! its own mod, or a new placeholder header is put above it.
use vstd::prelude::*;

use crate::items::{mod_key, mod_key_of, rows, ItemView, Step3ItemState};
use crate::text::{decimal, push_decimal, push_str};

verus! {

/// The nearest header above position `idx`.
pub open spec fn nearest_parent_before(s: Seq<ItemView>, idx: int) -> Option<int>
    decreases idx,
{
    if idx <= 0 || idx > s.len() {
        None
    } else if s[idx - 1].is_parent {
        Some(idx - 1)
    } else {
        nearest_parent_before(s, idx - 1)
    }
}

/// Whether the row at `i` is a component of block `b`.
pub open spec fn component_of(s: Seq<ItemView>, i: int, b: Seq<char>) -> bool {
    !s[i].is_parent && s[i].block_id == b
}

/// The end of the run of components of block `b` that starts at `from`.
pub open spec fn run_end(s: Seq<ItemView>, from: int, b: Seq<char>) -> int
    decreases s.len() - from,
{
    if from < 0 || from >= s.len() || !component_of(s, from, b) {
        from
    } else {
        run_end(s, from + 1, b)
    }
}

/// The rows in `[from, end)` moved to block `t`.
pub open spec fn set_block_range(s: Seq<ItemView>, from: int, end: int, t: Seq<char>) -> Seq<
    ItemView,
> {
    Seq::new(
        s.len(),
        |i: int|
            if from <= i < end {
                ItemView { block_id: t, ..s[i] }
            } else {
                s[i]
            },
    )
}

/// Whether row `i` is a header for exactly the mod name and tp2 file of `v`.
pub open spec fn is_template_for(s: Seq<ItemView>, i: int, v: ItemView) -> bool {
    s[i].is_parent && s[i].mod_name == v.mod_name && s[i].tp_file == v.tp_file
}

/// The first header at or after `from` that is a template for `v`.
pub open spec fn template_from(s: Seq<ItemView>, v: ItemView, from: int) -> Option<int>
    decreases s.len() - from,
{
    if from < 0 || from >= s.len() {
        None
    } else if is_template_for(s, from, v) {
        Some(from)
    } else {
        template_from(s, v, from + 1)
    }
}

/// A block id derived from `base`: `base::<tag><n>`.
pub open spec fn derived_block_id(base: Seq<char>, tag: Seq<char>, n: nat) -> Seq<char> {
    base + seq![':', ':'] + tag + decimal(n)
}

pub open spec fn split_tag() -> Seq<char> {
    seq!['s', 'p', 'l', 'i', 't']
}

pub open spec fn clone_tag() -> Seq<char> {
    seq!['c', 'l', 'o', 'n', 'e']
}

/// A placeholder header made from header `t`, for the new block `nb`.
pub open spec fn placeholder_from(t: ItemView, nb: Seq<char>) -> ItemView {
    ItemView { parent_placeholder: true, block_id: nb, selected_order: usize::MAX, ..t }
}

/// The repair pass from position `idx` on, with `seq` the next sequence
/// number for new block ids: the list and the next sequence number after it.
pub open spec fn repair_from(s: Seq<ItemView>, seq: nat, idx: int) -> (Seq<ItemView>, nat)
    decreases s.len() - idx,
{
    if idx < 0 || idx >= s.len() {
        (s, seq)
    } else if s[idx].is_parent {
        repair_from(s, seq, idx + 1)
    } else {
        let b = s[idx].block_id;
        let near = nearest_parent_before(s, idx);
        if near is Some && 0 <= near->0 < s.len() && s[near->0].block_id == b {
            repair_from(s, seq, idx + 1)
        } else if near is Some && 0 <= near->0 < s.len() && mod_key(s[near->0]) == mod_key(
            s[idx],
        ) {
            let e = run_end(s, idx + 1, b);
            if e <= idx || e > s.len() {
                (s, seq)
            } else {
                repair_from(set_block_range(s, idx, e, s[near->0].block_id), seq, e)
            }
        } else {
            match template_from(s, s[idx], 0) {
                Some(t) => if t < 0 || t >= s.len() {
                    (s, seq)
                } else {
                    let nb = derived_block_id(s[t].block_id, split_tag(), seq);
                    let s2 = s.insert(idx, placeholder_from(s[t], nb));
                    let e = run_end(s2, idx + 2, b);
                    if e <= idx + 1 || e > s2.len() {
                        (s, seq)
                    } else {
                        repair_from(set_block_range(s2, idx + 1, e, nb), seq + 1, e)
                    }
                },
                None => repair_from(s, seq, idx + 1),
            }
        }
    }
}

proof fn lemma_nearest(s: Seq<ItemView>, idx: int, j: int)
    requires
        0 <= j <= idx <= s.len(),
        forall|k: int| j <= k < idx ==> !(#[trigger] s[k]).is_parent,
        j == 0 || s[j - 1].is_parent,
    ensures
        nearest_parent_before(s, idx) == (if j == 0 { None } else { Some(j - 1) }),
    decreases idx - j,
{
    if j < idx {
        lemma_nearest(s, idx - 1, j);
    }
}

proof fn lemma_run_end(s: Seq<ItemView>, from: int, e: int, b: Seq<char>)
    requires
        0 <= from <= e <= s.len(),
        forall|k: int| from <= k < e ==> #[trigger] component_of(s, k, b),
        e == s.len() || !component_of(s, e, b),
    ensures
        run_end(s, from, b) == e,
    decreases e - from,
{
    if from < e {
        lemma_run_end(s, from + 1, e, b);
    }
}

proof fn lemma_run_end_bounds(s: Seq<ItemView>, from: int, b: Seq<char>)
    requires
        0 <= from <= s.len(),
    ensures
        from <= run_end(s, from, b) <= s.len(),
    decreases s.len() - from,
{
    if from < s.len() && component_of(s, from, b) {
        lemma_run_end_bounds(s, from + 1, b);
    }
}

proof fn lemma_template(s: Seq<ItemView>, v: ItemView, from: int, t: int)
    requires
        0 <= from <= t <= s.len(),
        forall|k: int| from <= k < t ==> !#[trigger] is_template_for(s, k, v),
        t == s.len() || is_template_for(s, t, v),
    ensures
        template_from(s, v, from) == (if t == s.len() { None } else { Some(t) }),
    decreases t - from,
{
    if from < t {
        lemma_template(s, v, from + 1, t);
    }
}

/// `base::<tag><n>` as a `String`.
pub fn derived_block_id_string(base: &String, tag: &str, n: usize) -> (r: String)
    ensures
        r@ == derived_block_id(base@, tag@, n as nat),
{
    let mut r = base.clone();
    push_str(&mut r, "::");
    push_str(&mut r, tag);
    push_decimal(&mut r, n);
    proof {
        reveal_strlit("::");
    }
    assert(r@ =~= derived_block_id(base@, tag@, n as nat));
    r
}

/// Moves the run of components of block `block` that starts at `from` into
/// block `target`; returns where the run ends.
fn relabel_run(items: &mut Vec<Step3ItemState>, from: usize, block: &String, target: &String) -> (e: usize)
    requires
        from <= old(items)@.len(),
    ensures
        e as int == run_end(rows(old(items)@), from as int, block@),
        rows(final(items)@) == set_block_range(rows(old(items)@), from as int, e as int, target@),
        final(items)@.len() == old(items)@.len(),
{
    let ghost s = rows(items@);
    let mut j: usize = from;
    while j < items.len() && !items[j].is_parent && items[j].block_id == *block
        invariant
            from <= j <= items@.len(),
            items@.len() == s.len(),
            forall|k: int| from <= k < j ==> #[trigger] component_of(s, k, block@),
            forall|m: int|
                0 <= m < s.len() ==> #[trigger] rows(items@)[m] == (if from <= m < j {
                    ItemView { block_id: target@, ..s[m] }
                } else {
                    s[m]
                }),
        decreases items@.len() - j,
    {
        let ghost before = items@;
        assert(rows(items@)[j as int] == items@[j as int]@);
        assert(component_of(s, j as int, block@));
        items[j].block_id = target.clone();
        assert forall|m: int| 0 <= m < items@.len() && m != j implies #[trigger] rows(items@)[m]
            == rows(before)[m] by {
            assert(items@[m] == before[m]);
        }
        assert(rows(items@)[j as int] == items@[j as int]@);
        j += 1;
    }
    proof {
        if j < s.len() {
            assert(rows(items@)[j as int] == items@[j as int]@);
        }
        lemma_run_end(s, from as int, j as int, block@);
    }
    assert(rows(items@) =~= set_block_range(s, from as int, j as int, target@));
    j
}

/// Gives every stranded component a header of its own mod again. A component
/// whose nearest header above belongs to another block either joins that
/// header's block (when the header is of its own mod), or gets a new
/// placeholder header copied from the first header of its mod, with a fresh
/// `::split<n>` block id; the rest of its run follows it. Components with no
/// header of their mod anywhere are left as they are.
pub fn repair_orphan_children(items: &mut Vec<Step3ItemState>, clone_seq: &mut usize)
    requires
        *old(clone_seq) + old(items)@.len() <= usize::MAX,
    ensures
        (rows(final(items)@), *final(clone_seq) as nat) == repair_from(
            rows(old(items)@),
            *old(clone_seq) as nat,
            0,
        ),
{
    let ghost target = repair_from(rows(items@), *clone_seq as nat, 0);
    let ghost bound = *clone_seq + items@.len();
    let mut idx: usize = 0;
    while idx < items.len()
        invariant
            repair_from(rows(items@), *clone_seq as nat, idx as int) == target,
            idx <= items@.len(),
            *clone_seq + (items@.len() - idx) <= bound,
            bound <= usize::MAX,
        decreases items@.len() - idx,
    {
        let ghost s = rows(items@);
        assert(s[idx as int] == items@[idx as int]@);
        if items[idx].is_parent {
            idx += 1;
            continue;
        }
        let block_id = items[idx].block_id.clone();
        let mut j: usize = idx;
        let mut nearest: Option<usize> = None;
        while j > 0
            invariant_except_break
                nearest is None,
            invariant
                j <= idx < items@.len(),
                s == rows(items@),
                forall|k: int| j <= k < idx ==> !(#[trigger] s[k]).is_parent,
            ensures
                nearest matches Some(p) ==> p + 1 == j && s[p as int].is_parent,
                nearest is None ==> j == 0,
                forall|k: int| j <= k < idx ==> !(#[trigger] s[k]).is_parent,
            decreases j,
        {
            assert(s[j - 1] == items@[j - 1]@);
            if items[j - 1].is_parent {
                nearest = Some(j - 1);
                break;
            }
            j -= 1;
        }
        proof {
            lemma_nearest(s, idx as int, j as int);
        }
        if let Some(pidx) = nearest {
            assert(s[pidx as int] == items@[pidx as int]@);
            if items[pidx].block_id == block_id {
                idx += 1;
                continue;
            }
        }
        if let Some(pidx) = nearest {
            let kp = mod_key_of(&items[pidx]);
            let ki = mod_key_of(&items[idx]);
            if kp == ki {
                let target_block = items[pidx].block_id.clone();
                proof {
                    assert(component_of(s, idx as int, block_id@));
                    assert(run_end(s, idx as int, block_id@) == run_end(s, idx + 1, block_id@));
                    lemma_run_end_bounds(s, idx + 1, block_id@);
                }
                let e = relabel_run(items, idx, &block_id, &target_block);
                idx = e;
                continue;
            }
        }
        let mut t: usize = 0;
        let mut found: Option<usize> = None;
        while t < items.len()
            invariant_except_break
                found is None,
            invariant
                t <= items@.len(),
                idx < items@.len(),
                s == rows(items@),
                forall|k: int| 0 <= k < t ==> !#[trigger] is_template_for(s, k, s[idx as int]),
            ensures
                found matches Some(f) ==> f == t && t < items@.len() && is_template_for(
                    s,
                    t as int,
                    s[idx as int],
                ),
                found is None ==> t == items@.len(),
                forall|k: int| 0 <= k < t ==> !#[trigger] is_template_for(s, k, s[idx as int]),
            decreases items@.len() - t,
        {
            assert(s[t as int] == items@[t as int]@);
            if items[t].is_parent && items[t].mod_name == items[idx].mod_name && items[t].tp_file
                == items[idx].tp_file {
                found = Some(t);
                break;
            }
            t += 1;
        }
        proof {
            lemma_template(s, s[idx as int], 0, t as int);
        }
        match found {
            Some(ti) => {
                assert(s[ti as int] == items@[ti as int]@);
                let mut parent = items[ti].duplicate();
                parent.parent_placeholder = true;
                parent.block_id = derived_block_id_string(&items[ti].block_id, "split", *clone_seq);
                parent.selected_order = usize::MAX;
                proof {
                    reveal_strlit("split");
                    assert("split"@ =~= split_tag());
                }
                let new_block = parent.block_id.clone();
                *clone_seq += 1;
                let ghost pv = parent@;
                items.insert(idx, parent);
                let ghost s2 = rows(items@);
                proof {
                    assert(s2 =~= s.insert(idx as int, pv));
                    assert(pv == placeholder_from(s[ti as int], new_block@));
                    assert(component_of(s2, idx + 1, block_id@));
                    assert(run_end(s2, idx + 1, block_id@) == run_end(s2, idx + 2, block_id@));
                    lemma_run_end_bounds(s2, idx + 2, block_id@);
                }
                let e = relabel_run(items, idx + 1, &block_id, &new_block);
                idx = e;
            },
            None => {
                idx += 1;
            },
        }
    }
}

/// Adds an empty placeholder copy of the header at `parent_idx` right after
/// its block, with a fresh `::clone<n>` block id.
pub fn clone_parent_empty_block(
    items: &mut Vec<Step3ItemState>,
    parent_idx: usize,
    clone_seq: &mut usize,
)
    requires
        *old(clone_seq) < usize::MAX,
        parent_idx < old(items)@.len() && old(items)@[parent_idx as int].is_parent ==> {
            let s = rows(old(items)@);
            parent_idx + crate::seqs::indices_where(
                s.len(),
                |i: int| crate::blocks::in_block(s, s[parent_idx as int].block_id, i),
            ).len() <= s.len()
        },
    ensures
        !(parent_idx < old(items)@.len() && old(items)@[parent_idx as int].is_parent)
            ==> final(items)@ == old(items)@ && *final(clone_seq) == *old(clone_seq),
        parent_idx < old(items)@.len() && old(items)@[parent_idx as int].is_parent ==> {
            let s = rows(old(items)@);
            let at = parent_idx + crate::seqs::indices_where(
                s.len(),
                |i: int| crate::blocks::in_block(s, s[parent_idx as int].block_id, i),
            ).len();
            &&& rows(final(items)@) == s.insert(
                at,
                placeholder_from(
                    s[parent_idx as int],
                    derived_block_id(s[parent_idx as int].block_id, clone_tag(), *old(clone_seq) as nat),
                ),
            )
            &&& *final(clone_seq) == *old(clone_seq) + 1
        },
{
    if parent_idx >= items.len() {
        return;
    }
    if !items[parent_idx].is_parent {
        return;
    }
    let ghost s = rows(items@);
    assert(s[parent_idx as int] == items@[parent_idx as int]@);
    let mut clone = items[parent_idx].duplicate();
    clone.parent_placeholder = true;
    clone.selected_order = usize::MAX;
    clone.block_id = derived_block_id_string(&items[parent_idx].block_id, "clone", *clone_seq);
    proof {
        reveal_strlit("clone");
        assert("clone"@ =~= clone_tag());
    }
    *clone_seq += 1;
    let members = crate::blocks::block_indices(items, parent_idx);
    let insert_at = parent_idx + members.len();
    let ghost cv = clone@;
    items.insert(insert_at, clone);
    assert(rows(items@) =~= s.insert(insert_at as int, cv));
}

// ------------------------------------------------------------------ laws

/// The component at `k` sits below a header of its own block.
pub open spec fn owned(s: Seq<ItemView>, k: int) -> bool {
    match nearest_parent_before(s, k) {
        Some(p) => 0 <= p < s.len() && s[p].block_id == s[k].block_id,
        None => false,
    }
}

/// The list has a header with exactly the mod name and tp2 file of `v`.
pub open spec fn has_template(s: Seq<ItemView>, v: ItemView) -> bool {
    exists|t: int| 0 <= t < s.len() && #[trigger] is_template_for(s, t, v)
}

/// Row `k` is a header, or a component under a header of its own block, or
/// a component of a mod that has no header in the list.
pub open spec fn settled(s: Seq<ItemView>, k: int) -> bool {
    s[k].is_parent || owned(s, k) || !has_template(s, s[k])
}

/// Every header of `r` has the mod name and tp2 file of a header of `s`.
pub open spec fn headers_from(r: Seq<ItemView>, s: Seq<ItemView>) -> bool {
    forall|h: int|
        0 <= h < r.len() && (#[trigger] r[h]).is_parent ==> exists|g: int|
            0 <= g < s.len() && s[g].is_parent && #[trigger] s[g].mod_name == r[h].mod_name
                && s[g].tp_file == r[h].tp_file
}

proof fn lemma_nearest_prefix(s: Seq<ItemView>, r: Seq<ItemView>, k: int)
    requires
        0 <= k <= s.len(),
        k <= r.len(),
        forall|j: int| 0 <= j < k ==> #[trigger] r[j] == s[j],
    ensures
        nearest_parent_before(r, k) == nearest_parent_before(s, k),
    decreases k,
{
    if k > 0 {
        lemma_nearest_prefix(s, r, k - 1);
    }
}

proof fn lemma_nearest_bounds(s: Seq<ItemView>, k: int)
    ensures
        nearest_parent_before(s, k) matches Some(p) ==> 0 <= p < k && p < s.len() && s[p].is_parent,
    decreases k,
{
    if 0 < k <= s.len() && !s[k - 1].is_parent {
        lemma_nearest_bounds(s, k - 1);
    }
}

proof fn lemma_template_none(s: Seq<ItemView>, v: ItemView, from: int)
    requires
        0 <= from,
        template_from(s, v, from) is None,
    ensures
        forall|t: int| from <= t < s.len() ==> !#[trigger] is_template_for(s, t, v),
    decreases s.len() - from,
{
    if from < s.len() {
        lemma_template_none(s, v, from + 1);
    }
}

pub(crate) proof fn lemma_template_some(s: Seq<ItemView>, v: ItemView, from: int)
    requires
        0 <= from,
    ensures
        template_from(s, v, from) matches Some(t) ==> from <= t < s.len() && is_template_for(s, t, v),
    decreases s.len() - from,
{
    if from < s.len() && !is_template_for(s, from, v) {
        lemma_template_some(s, v, from + 1);
    }
}

proof fn lemma_headers_from_trans(a: Seq<ItemView>, b: Seq<ItemView>, c: Seq<ItemView>)
    requires
        headers_from(a, b),
        headers_from(b, c),
    ensures
        headers_from(a, c),
{
    assert forall|h: int| 0 <= h < a.len() && (#[trigger] a[h]).is_parent implies exists|g: int|
        0 <= g < c.len() && c[g].is_parent && #[trigger] c[g].mod_name == a[h].mod_name
            && c[g].tp_file == a[h].tp_file by {
        let g1 = choose|g: int|
            0 <= g < b.len() && b[g].is_parent && #[trigger] b[g].mod_name == a[h].mod_name
                && b[g].tp_file == a[h].tp_file;
        assert(b[g1].is_parent);
        let g2 = choose|g: int|
            0 <= g < c.len() && c[g].is_parent && #[trigger] c[g].mod_name == b[g1].mod_name
                && c[g].tp_file == b[g1].tp_file;
        assert(c[g2].mod_name == a[h].mod_name);
    }
}

proof fn lemma_headers_from_self(s: Seq<ItemView>)
    ensures
        headers_from(s, s),
{
    assert forall|h: int| 0 <= h < s.len() && (#[trigger] s[h]).is_parent implies exists|g: int|
        0 <= g < s.len() && s[g].is_parent && #[trigger] s[g].mod_name == s[h].mod_name
            && s[g].tp_file == s[h].tp_file by {
        assert(s[h].mod_name == s[h].mod_name);
    }
}

/// What the repair pass from `idx` on keeps and establishes: the rows before
/// `idx` stay, every header comes from a header of `s`, and every row from
/// `idx` on is settled.
proof fn lemma_repair_settles(s: Seq<ItemView>, seq: nat, idx: int)
    requires
        0 <= idx <= s.len(),
    ensures
        ({
            let r = repair_from(s, seq, idx).0;
            &&& r.len() >= s.len()
            &&& forall|k: int| 0 <= k < idx ==> #[trigger] r[k] == s[k]
            &&& headers_from(r, s)
            &&& forall|k: int| idx <= k < r.len() ==> #[trigger] settled(r, k)
        }),
    decreases s.len() - idx, 1int,
{
    let r = repair_from(s, seq, idx).0;
    if idx == s.len() {
        lemma_headers_from_self(s);
        return;
    }
    if s[idx].is_parent {
        lemma_repair_settles(s, seq, idx + 1);
        assert(settled(r, idx)) by {
            assert(r[idx] == s[idx]);
        }
        return;
    }
    let b = s[idx].block_id;
    let near = nearest_parent_before(s, idx);
    lemma_nearest_bounds(s, idx);
    if near is Some && 0 <= near->0 < s.len() && s[near->0].block_id == b {
        lemma_repair_settles(s, seq, idx + 1);
        assert(settled(r, idx)) by {
            lemma_nearest_prefix(s, r, idx);
            assert(r[near->0] == s[near->0]);
            assert(r[idx] == s[idx]);
        }
        return;
    }
    if near is Some && 0 <= near->0 < s.len() && mod_key(s[near->0]) == mod_key(s[idx]) {
        let p = near->0;
        let e = run_end(s, idx + 1, b);
        lemma_run_end_bounds(s, idx + 1, b);
        lemma_run_end_members(s, idx + 1, b);
        let s1 = set_block_range(s, idx, e, s[p].block_id);
        lemma_repair_settles(s1, seq, e);
        assert(r == repair_from(s1, seq, e).0);
        assert forall|k: int| idx <= k < e implies #[trigger] settled(r, k) by {
            assert forall|j: int| p < j < k implies !(#[trigger] s1[j]).is_parent by {
                if j < idx {
                    lemma_nearest_gap(s, idx, p, j);
                } else if j > idx {
                    assert(component_of(s, j, b));
                }
                assert(s1[j].is_parent == s[j].is_parent);
            }
            lemma_nearest(s1, k, p + 1);
            lemma_nearest_prefix(s1, r, k);
            assert(r[p] == s1[p]);
            assert(r[k] == s1[k]);
        }
        lemma_headers_from_set(s, idx, e, s[p].block_id);
        lemma_headers_from_trans(r, s1, s);
        return;
    }
    match template_from(s, s[idx], 0) {
        Some(t) => {
            lemma_template_some(s, s[idx], 0);
            let nb = derived_block_id(s[t].block_id, split_tag(), seq);
            let ph = placeholder_from(s[t], nb);
            let s2 = s.insert(idx, ph);
            let e = run_end(s2, idx + 2, b);
            assert(component_of(s2, idx + 1, b));
            lemma_run_end_bounds(s2, idx + 2, b);
            let s3 = set_block_range(s2, idx + 1, e, nb);
            lemma_repair_settles(s3, seq + 1, e);
            assert(r == repair_from(s3, seq + 1, e).0);
            assert forall|k: int| idx <= k < e implies #[trigger] settled(r, k) by {
                assert(r[idx] == s3[idx]);
                if k > idx {
                    lemma_run_end_members(s2, idx + 2, b);
                    assert forall|j: int| idx + 1 <= j < k implies !(#[trigger] s3[j]).is_parent by {
                        if j > idx + 1 {
                            assert(component_of(s2, j, b));
                        }
                    }
                    lemma_nearest(s3, k, idx + 1);
                    lemma_nearest_prefix(s3, r, k);
                    assert(r[k] == s3[k]);
                }
            }
            assert forall|k: int| 0 <= k < idx implies #[trigger] r[k] == s[k] by {
                assert(s3[k] == s2[k]);
            }
            lemma_headers_from_insert(s, idx, ph, t);
            lemma_headers_from_set(s2, idx + 1, e, nb);
            lemma_headers_from_trans(s3, s2, s);
            lemma_headers_from_trans(r, s3, s);
        },
        None => {
            lemma_repair_settles(s, seq, idx + 1);
            lemma_template_none(s, s[idx], 0);
            assert(settled(r, idx)) by {
                assert(r[idx] == s[idx]);
                if has_template(r, r[idx]) {
                    let h = choose|h: int| 0 <= h < r.len() && #[trigger] is_template_for(r, h, r[idx]);
                    assert(r[h].is_parent);
                    let g = choose|g: int|
                        0 <= g < s.len() && s[g].is_parent && #[trigger] s[g].mod_name
                            == r[h].mod_name && s[g].tp_file == r[h].tp_file;
                    assert(is_template_for(s, g, s[idx]));
                }
            }
        },
    }
}

pub(crate) proof fn lemma_run_end_members(s: Seq<ItemView>, from: int, b: Seq<char>)
    requires
        0 <= from <= s.len(),
    ensures
        forall|k: int| from <= k < run_end(s, from, b) ==> #[trigger] component_of(s, k, b),
    decreases s.len() - from,
{
    if from < s.len() && component_of(s, from, b) {
        lemma_run_end_members(s, from + 1, b);
    }
}

proof fn lemma_nearest_gap(s: Seq<ItemView>, idx: int, p: int, j: int)
    requires
        nearest_parent_before(s, idx) == Some(p),
        p < j < idx,
        idx <= s.len(),
    ensures
        !s[j].is_parent,
    decreases idx,
{
    if idx > 0 && !s[idx - 1].is_parent && j < idx - 1 {
        lemma_nearest_gap(s, idx - 1, p, j);
    }
}

proof fn lemma_headers_from_set(s: Seq<ItemView>, from: int, end: int, t: Seq<char>)
    ensures
        headers_from(set_block_range(s, from, end, t), s),
{
    let r = set_block_range(s, from, end, t);
    assert forall|h: int| 0 <= h < r.len() && (#[trigger] r[h]).is_parent implies exists|g: int|
        0 <= g < s.len() && s[g].is_parent && #[trigger] s[g].mod_name == r[h].mod_name
            && s[g].tp_file == r[h].tp_file by {
        assert(s[h].mod_name == r[h].mod_name);
    }
}

proof fn lemma_headers_from_insert(s: Seq<ItemView>, idx: int, ph: ItemView, t: int)
    requires
        0 <= idx <= s.len(),
        0 <= t < s.len(),
        s[t].is_parent,
        ph.is_parent,
        ph.mod_name == s[t].mod_name,
        ph.tp_file == s[t].tp_file,
    ensures
        headers_from(s.insert(idx, ph), s),
{
    let r = s.insert(idx, ph);
    assert forall|h: int| 0 <= h < r.len() && (#[trigger] r[h]).is_parent implies exists|g: int|
        0 <= g < s.len() && s[g].is_parent && #[trigger] s[g].mod_name == r[h].mod_name
            && s[g].tp_file == r[h].tp_file by {
        if h < idx {
            assert(s[h].mod_name == r[h].mod_name);
        } else if h == idx {
            assert(s[t].mod_name == r[h].mod_name);
        } else {
            assert(s[h - 1].mod_name == r[h].mod_name);
        }
    }
}

/// After the repair pass every component sits below a header of its own
/// block, unless no header in the list has its mod name and tp2 file.
pub proof fn law_repair_gives_every_component_its_own_header(s: Seq<ItemView>, seq: nat)
    ensures
        forall|k: int|
            0 <= k < repair_from(s, seq, 0).0.len() ==> #[trigger] settled(
                repair_from(s, seq, 0).0,
                k,
            ),
{
    lemma_repair_settles(s, seq, 0);
}

} // verus!
