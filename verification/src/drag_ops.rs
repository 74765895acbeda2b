//! Dragging rows of the install-order list: the live reorder while the
//! button is held, and the clean-up when it is released. Pixel geometry
//! (pointer position, row heights) stays with the caller.
use vstd::prelude::*;

use crate::blocks::{prunable, prune_empty_parent_blocks};
use crate::drag::{resolve_insert_at, resolved_insert_at, slot_to_insert_at, visible_slot_to_insert_at};
use crate::items::{contains_string, names, rows, ItemView, Step3ItemState};
use crate::merge::{merge_adjacent_same_mod_blocks, merge_from};
use crate::move_selection::{capture_identities, child_keys_of, parent_blocks_of, reselected};
use crate::repair::{repair_from, repair_orphan_children};
use crate::row_selection::reselect_after_cleanup;
use crate::seqs::{indices_where, keep_where, lemma_indices_where, remap_selection};
use crate::text::{chars_eq, chars_of};

verus! {

// ---------------------------------------------------------------- release

/// The list and the selection after the three tidying passes (repair,
/// merge, prune), with the next sequence number.
pub open spec fn tidied(s: Seq<ItemView>, sel: Seq<usize>, seq: nat) -> (Seq<ItemView>, Seq<usize>, nat) {
    let r1 = repair_from(s, seq, 0);
    let r2 = merge_from(r1.0, sel, 0);
    (
        keep_where(r2.0, |i: int| !prunable(r2.0, i)),
        remap_selection(r2.1, r2.0.len(), |i: int| prunable(r2.0, i)),
        r1.1,
    )
}

/// The drag state of one list, without its pixel offsets.
pub struct DragFinalizeContext<'a> {
    pub items: &'a mut Vec<Step3ItemState>,
    pub selected: &'a mut Vec<usize>,
    pub drag_from: &'a mut Option<usize>,
    pub drag_over: &'a mut Option<usize>,
    pub drag_indices: &'a mut Vec<usize>,
    pub drag_grab_pos_in_block: &'a mut usize,
    pub last_insert_at: &'a mut Option<usize>,
    pub clone_seq: &'a mut usize,
}

/// The pointer was released: the drag state is cleared, the list is tidied
/// and the rows that were selected (headers by block, components by
/// identity) are selected again. Says whether a drag was under way.
pub fn finalize_on_release(ctx: &mut DragFinalizeContext<'_>) -> (had_drag: bool)
    requires
        *old(ctx).clone_seq + old(ctx).items@.len() <= usize::MAX,
    ensures
        had_drag == (*old(ctx).drag_from is Some || old(ctx).drag_indices@.len() > 0),
        *final(ctx).drag_from is None,
        *final(ctx).drag_over is None,
        final(ctx).drag_indices@.len() == 0,
        *final(ctx).drag_grab_pos_in_block == 0,
        *final(ctx).last_insert_at is None,
        ({
            let s = rows(old(ctx).items@);
            let t = tidied(s, old(ctx).selected@, *old(ctx).clone_seq as nat);
            let ck = child_keys_of(s, old(ctx).selected@);
            let pb = parent_blocks_of(s, old(ctx).selected@);
            &&& rows(final(ctx).items@) == t.0
            &&& *final(ctx).clone_seq == t.2
            &&& final(ctx).selected@ == (if ck.len() > 0 || pb.len() > 0 {
                indices_where(t.0.len(), |i: int| reselected(t.0, ck, pb, i))
            } else {
                t.1
            })
        }),
{
    let had_drag = ctx.drag_from.is_some() || ctx.drag_indices.len() > 0;
    let ghost s = rows(ctx.items@);
    let ghost sel0 = ctx.selected@;
    let ghost seq0 = *ctx.clone_seq as nat;
    let ids = capture_identities(ctx.items, ctx.selected);
    *ctx.drag_from = None;
    *ctx.drag_over = None;
    *ctx.drag_indices = Vec::new();
    *ctx.drag_grab_pos_in_block = 0;
    *ctx.last_insert_at = None;
    repair_orphan_children(ctx.items, ctx.clone_seq);
    let ghost r1 = rows(ctx.items@);
    merge_adjacent_same_mod_blocks(ctx.items, ctx.selected);
    let ghost v2 = ctx.items@;
    let ghost sel2 = ctx.selected@;
    let n2 = ctx.items.len();
    assert(v2.len() == n2);
    prune_empty_parent_blocks(ctx.items, ctx.selected);
    proof {
        lemma_prune_rows(v2);
    }
    if ids.child_keys.len() > 0 || ids.parent_block_ids.len() > 0 {
        let sel = reselect_after_cleanup(ctx.items, &ids.child_keys, &ids.parent_block_ids);
        *ctx.selected = sel;
    }
    had_drag
}

proof fn lemma_prune_rows(v: Seq<Step3ItemState>)
    requires
        v.len() <= usize::MAX,
    ensures
        rows(keep_where(v, |i: int| !prunable(rows(v), i))) == keep_where(
            rows(v),
            |i: int| !prunable(rows(v), i),
        ),
{
    crate::move_selection::lemma_rows_keep_where(v, |i: int| !prunable(rows(v), i));
}

// ------------------------------------------------------------ live reorder

fn string_eq(a: &String, b: &String) -> (r: bool)
    ensures
        r == (a@ == b@),
{
    let x = chars_of(a.as_str());
    let y = chars_of(b.as_str());
    chars_eq(&x, &y)
}

fn strings_eq(a: &Vec<String>, b: &Vec<String>) -> (r: bool)
    ensures
        r == (a.deep_view() == b.deep_view()),
{
    if a.len() != b.len() {
        assert(a.deep_view().len() != b.deep_view().len());
        return false;
    }
    let mut i: usize = 0;
    while i < a.len()
        invariant
            i <= a@.len(),
            a@.len() == b@.len(),
            forall|k: int| 0 <= k < i ==> a@[k]@ == b@[k]@,
        decreases a@.len() - i,
    {
        if !string_eq(&a[i], &b[i]) {
            assert(a.deep_view()[i as int] != b.deep_view()[i as int]);
            return false;
        }
        i += 1;
    }
    assert(a.deep_view() =~= b.deep_view());
    true
}

/// Whether two rows are the same in every field.
fn item_eq(a: &Step3ItemState, b: &Step3ItemState) -> (r: bool)
    ensures
        r == (a@ == b@),
{
    let summary_eq = match (&a.prompt_summary, &b.prompt_summary) {
        (Some(x), Some(y)) => string_eq(x, y),
        (None, None) => true,
        _ => false,
    };
    string_eq(&a.tp_file, &b.tp_file) && string_eq(&a.component_id, &b.component_id)
        && string_eq(&a.mod_name, &b.mod_name) && string_eq(
        &a.component_label,
        &b.component_label,
    ) && string_eq(&a.raw_line, &b.raw_line) && summary_eq && strings_eq(
        &a.prompt_events,
        &b.prompt_events,
    ) && a.selected_order == b.selected_order && string_eq(&a.block_id, &b.block_id)
        && a.is_parent == b.is_parent && a.parent_placeholder == b.parent_placeholder
}

/// Whether two lists hold the same rows.
fn rows_eq(a: &Vec<Step3ItemState>, b: &Vec<Step3ItemState>) -> (r: bool)
    ensures
        r == (rows(a@) == rows(b@)),
{
    if a.len() != b.len() {
        assert(rows(a@).len() != rows(b@).len());
        return false;
    }
    let mut i: usize = 0;
    while i < a.len()
        invariant
            i <= a@.len(),
            a@.len() == b@.len(),
            forall|k: int| 0 <= k < i ==> a@[k]@ == b@[k]@,
        decreases a@.len() - i,
    {
        if !item_eq(&a[i], &b[i]) {
            assert(rows(a@)[i as int] != rows(b@)[i as int]);
            return false;
        }
        i += 1;
    }
    assert(rows(a@) =~= rows(b@));
    true
}

/// The drag state of one list while a drag is under way.
pub struct LiveReorderContext<'a> {
    pub items: &'a mut Vec<Step3ItemState>,
    pub selected: &'a mut Vec<usize>,
    pub drag_from: &'a mut Option<usize>,
    /// The visible slot the pointer asks for.
    pub drag_over: Option<usize>,
    pub drag_indices: &'a mut Vec<usize>,
    /// Where in the dragged block the grabbed row sits.
    pub drag_grab_pos_in_block: usize,
    pub last_insert_at: &'a mut Option<usize>,
    pub locked_blocks: &'a [String],
    /// The visible rows, in order.
    pub visible_rows: &'a [usize],
}

/// Whether row `i` is dragged.
pub open spec fn in_drag(d: Seq<usize>) -> spec_fn(int) -> bool {
    |i: int| d.contains(i as usize)
}

/// Whether row `i` stays where it is.
pub open spec fn out_of_drag(d: Seq<usize>) -> spec_fn(int) -> bool {
    |i: int| !d.contains(i as usize)
}

/// The rows being dragged, in list order.
pub open spec fn dragged_block(n: nat, d: Seq<usize>) -> Seq<usize> {
    indices_where(n, in_drag(d))
}

/// The dragged rows themselves, in list order.
pub open spec fn dragged_rows(s: Seq<ItemView>, d: Seq<usize>) -> Seq<ItemView> {
    dragged_block(s.len(), d).map_values(|i: usize| s[i as int])
}

/// The rows that are not dragged, in list order.
pub open spec fn staying_rows(s: Seq<ItemView>, d: Seq<usize>) -> Seq<ItemView> {
    keep_where(s, out_of_drag(d))
}

/// The list with the dragged rows taken out and put back at `at` of what
/// remains.
pub open spec fn spliced(s: Seq<ItemView>, d: Seq<usize>, at: int) -> Seq<ItemView> {
    staying_rows(s, d).take(at) + dragged_rows(s, d) + staying_rows(s, d).skip(at)
}

/// Where the dragged rows go for the visible slot `slot`.
pub open spec fn live_insert_at(
    s: Seq<ItemView>,
    d: Seq<usize>,
    visible: Seq<usize>,
    slot: usize,
    locked: Seq<Seq<char>>,
) -> int {
    let remaining = staying_rows(s, d);
    resolved_insert_at(
        remaining,
        slot_to_insert_at(s.len(), dragged_block(s.len(), d), visible, slot as int, remaining.len() as int),
        dragged_rows(s, d),
        locked,
    )
}

/// Whether a live reorder has something to do: a drag with rows and a target
/// slot, not the slot placed last time, every dragged row in the list, and
/// no dragged row in a locked block.
pub open spec fn reorder_applies(
    s: Seq<ItemView>,
    drag_from: Option<usize>,
    d: Seq<usize>,
    drag_over: Option<usize>,
    last_insert_at: Option<usize>,
    locked: Seq<Seq<char>>,
) -> bool {
    &&& drag_from is Some
    &&& d.len() > 0
    &&& drag_over is Some
    &&& last_insert_at != drag_over
    &&& forall|k: int| 0 <= k < d.len() ==> #[trigger] d[k] < s.len()
    &&& forall|k: int|
        0 <= k < d.len() ==> !locked.contains(#[trigger] s[d[k] as int].block_id)
}

proof fn lemma_block_nonempty(n: nat, d: Seq<usize>)
    requires
        n <= usize::MAX,
        d.len() > 0,
        forall|k: int| 0 <= k < d.len() ==> #[trigger] d[k] < n,
    ensures
        dragged_block(n, d).len() > 0,
{
    lemma_indices_where(n, in_drag(d));
    let x = d[0];
    assert(d.contains(x));
    assert(in_drag(d)(x as int));
    assert(dragged_block(n, d).contains(x));
}

proof fn lemma_split_count(n: nat, d: Seq<usize>)
    ensures
        indices_where(n, in_drag(d)).len() + indices_where(n, out_of_drag(d)).len() == n,
    decreases n,
{
    if n > 0 {
        lemma_split_count((n - 1) as nat, d);
    }
}

proof fn lemma_rows_push(v: Seq<Step3ItemState>, x: Step3ItemState)
    ensures
        rows(v.push(x)) == rows(v).push(x@),
{
    assert(rows(v.push(x)) =~= rows(v).push(x@));
}

proof fn lemma_keep_take(s: Seq<ItemView>, p: spec_fn(int) -> bool, i: int)
    requires
        0 <= i < s.len(),
        s.len() <= usize::MAX,
    ensures
        keep_where(s.take(i + 1), p) == if p(i) {
            keep_where(s.take(i), p).push(s[i])
        } else {
            keep_where(s.take(i), p)
        },
{
    crate::seqs::lemma_indices_where_step(i as nat, p);
    lemma_indices_where(i as nat, p);
    if p(i) {
        assert(keep_where(s.take(i + 1), p) =~= keep_where(s.take(i), p).push(s[i]));
    } else {
        assert(keep_where(s.take(i + 1), p) =~= keep_where(s.take(i), p));
    }
}

/// While the button is held: the dragged rows are taken out and put back
/// where the pointer's slot asks (see `resolve_insert_at`). When that
/// changes the list, the moved rows become the selection and the dragged
/// rows, and the grabbed row follows; the place is remembered either way.
/// Nothing happens without a drag under way, when the slot is the one
/// placed last time, when a dragged row is outside the list, or when one
/// is in a locked block.
pub fn apply_live_reorder(ctx: &mut LiveReorderContext<'_>)
    ensures
        final(ctx).drag_over == old(ctx).drag_over,
        final(ctx).drag_grab_pos_in_block == old(ctx).drag_grab_pos_in_block,
        final(ctx).locked_blocks == old(ctx).locked_blocks,
        final(ctx).visible_rows == old(ctx).visible_rows,
        ({
            let s = rows(old(ctx).items@);
            let d = old(ctx).drag_indices@;
            let locked = names(old(ctx).locked_blocks@);
            let unchanged_list = {
                &&& final(ctx).items@ == old(ctx).items@
                &&& final(ctx).selected@ == old(ctx).selected@
                &&& *final(ctx).drag_from == *old(ctx).drag_from
                &&& final(ctx).drag_indices@ == old(ctx).drag_indices@
            };
            if !reorder_applies(
                s,
                *old(ctx).drag_from,
                d,
                old(ctx).drag_over,
                *old(ctx).last_insert_at,
                locked,
            ) {
                unchanged_list && *final(ctx).last_insert_at == *old(ctx).last_insert_at
            } else {
                let at = live_insert_at(s, d, old(ctx).visible_rows@, old(ctx).drag_over->0, locked);
                let r = spliced(s, d, at);
                let k = dragged_block(s.len(), d).len();
                let grab: int = if old(ctx).drag_grab_pos_in_block < k - 1 {
                    old(ctx).drag_grab_pos_in_block as int
                } else {
                    k - 1
                };
                &&& *final(ctx).last_insert_at == Some(at as usize)
                &&& r == s ==> unchanged_list
                &&& r != s ==> {
                    &&& rows(final(ctx).items@) == r
                    &&& final(ctx).selected@ == Seq::new(k, |j: int| (at + j) as usize)
                    &&& final(ctx).drag_indices@ == Seq::new(k, |j: int| (at + j) as usize)
                    &&& *final(ctx).drag_from == Some((at + grab) as usize)
                }
            }
        }),
{
    let ghost s = rows(ctx.items@);
    let ghost d = ctx.drag_indices@;
    let ghost locked = names(ctx.locked_blocks@);
    if ctx.drag_from.is_none() || ctx.drag_indices.len() == 0 {
        return;
    }
    let slot = match ctx.drag_over {
        Some(t) => t,
        None => {
            return;
        },
    };
    if let Some(last) = *ctx.last_insert_at {
        if last == slot {
            return;
        }
    }
    let n = ctx.items.len();
    let mut k: usize = 0;
    while k < ctx.drag_indices.len()
        invariant
            k <= d.len(),
            d == ctx.drag_indices@,
            n == ctx.items@.len(),
            forall|q: int| 0 <= q < k ==> #[trigger] d[q] < n,
        decreases d.len() - k,
    {
        if ctx.drag_indices[k] >= n {
            return;
        }
        k += 1;
    }
    let mut k: usize = 0;
    while k < ctx.drag_indices.len()
        invariant
            k <= d.len(),
            d == ctx.drag_indices@,
            n == ctx.items@.len(),
            s == rows(ctx.items@),
            locked == names(ctx.locked_blocks@),
            forall|q: int| 0 <= q < d.len() ==> #[trigger] d[q] < n,
            forall|q: int| 0 <= q < k ==> !locked.contains(#[trigger] s[d[q] as int].block_id),
        decreases d.len() - k,
    {
        let idx = ctx.drag_indices[k];
        assert(s[idx as int] == ctx.items@[idx as int]@);
        if contains_string(ctx.locked_blocks, &ctx.items[idx].block_id) {
            assert(locked.contains(s[d[k as int] as int].block_id));
            return;
        }
        k += 1;
    }
    proof {
        lemma_block_nonempty(n as nat, d);
        lemma_split_count(n as nat, d);
    }
    let mut block: Vec<usize> = Vec::new();
    let mut moving: Vec<Step3ItemState> = Vec::new();
    let mut remaining: Vec<Step3ItemState> = Vec::new();
    let mut i: usize = 0;
    while i < n
        invariant
            i <= n,
            n == ctx.items@.len(),
            s == rows(ctx.items@),
            d == ctx.drag_indices@,
            block@ == indices_where(i as nat, in_drag(d)),
            rows(moving@) == indices_where(i as nat, in_drag(d)).map_values(|j: usize| s[j as int]),
            rows(remaining@) == keep_where(s.take(i as int), out_of_drag(d)),
        decreases n - i,
    {
        proof {
            crate::seqs::lemma_indices_where_step(i as nat, in_drag(d));
            lemma_keep_take(s, out_of_drag(d), i as int);
        }
        let mut found = false;
        let mut q: usize = 0;
        while q < ctx.drag_indices.len()
            invariant_except_break
                !found,
            invariant
                q <= d.len(),
                d == ctx.drag_indices@,
                forall|p: int| 0 <= p < q ==> d[p] != i,
            ensures
                found == d.contains(i),
            decreases d.len() - q,
        {
            if ctx.drag_indices[q] == i {
                found = true;
                break;
            }
            q += 1;
        }
        assert(in_drag(d)(i as int) == found);
        assert(out_of_drag(d)(i as int) == !found);
        assert(s[i as int] == ctx.items@[i as int]@);
        let ghost rm = remaining@;
        let ghost mv = moving@;
        if found {
            block.push(i);
            let x = ctx.items[i].duplicate();
            moving.push(x);
            proof {
                lemma_rows_push(mv, x);
            }
        } else {
            let x = ctx.items[i].duplicate();
            remaining.push(x);
            proof {
                lemma_rows_push(rm, x);
            }
        }
        assert(indices_where((i + 1) as nat, in_drag(d)).map_values(|j: usize| s[j as int])
            =~= if found {
            indices_where(i as nat, in_drag(d)).map_values(|j: usize| s[j as int]).push(s[i as int])
        } else {
            indices_where(i as nat, in_drag(d)).map_values(|j: usize| s[j as int])
        });
        i += 1;
    }
    assert(s.take(n as int) =~= s);
    assert(block@.len() + remaining@.len() == n) by {
        assert(rows(remaining@).len() == remaining@.len());
    }
    let target = visible_slot_to_insert_at(ctx.items, &block, ctx.visible_rows, slot, remaining.len());
    let at = resolve_insert_at(&remaining, target, &moving, ctx.locked_blocks);
    let mut reordered: Vec<Step3ItemState> = Vec::new();
    let mut j: usize = 0;
    while j < at
        invariant
            j <= at <= remaining@.len(),
            rows(reordered@) == rows(remaining@).take(j as int),
        decreases at - j,
    {
        let x = remaining[j].duplicate();
        let ghost before = reordered@;
        reordered.push(x);
        proof {
            lemma_rows_push(before, x);
            assert(rows(remaining@)[j as int] == remaining@[j as int]@);
        }
        j += 1;
        assert(rows(reordered@) =~= rows(remaining@).take(j as int));
    }
    let mut j: usize = 0;
    while j < moving.len()
        invariant
            j <= moving@.len(),
            at <= remaining@.len(),
            rows(reordered@) == rows(remaining@).take(at as int) + rows(moving@).take(j as int),
        decreases moving@.len() - j,
    {
        let x = moving[j].duplicate();
        let ghost before = reordered@;
        reordered.push(x);
        proof {
            lemma_rows_push(before, x);
            assert(rows(moving@)[j as int] == moving@[j as int]@);
        }
        j += 1;
        assert(rows(reordered@) =~= rows(remaining@).take(at as int) + rows(moving@).take(j as int));
    }
    assert(rows(moving@).take(moving@.len() as int) =~= rows(moving@));
    let mut j: usize = at;
    while j < remaining.len()
        invariant
            at <= j <= remaining@.len(),
            rows(reordered@) == rows(remaining@).take(at as int) + rows(moving@) + rows(
                remaining@,
            ).subrange(at as int, j as int),
        decreases remaining@.len() - j,
    {
        let x = remaining[j].duplicate();
        let ghost before = reordered@;
        reordered.push(x);
        proof {
            lemma_rows_push(before, x);
            assert(rows(remaining@)[j as int] == remaining@[j as int]@);
        }
        j += 1;
        assert(rows(reordered@) =~= rows(remaining@).take(at as int) + rows(moving@) + rows(
            remaining@,
        ).subrange(at as int, j as int));
    }
    assert(rows(remaining@).subrange(at as int, remaining@.len() as int) =~= rows(
        remaining@,
    ).skip(at as int));
    if !rows_eq(ctx.items, &reordered) {
        let count = block.len();
        *ctx.items = reordered;
        let mut sel: Vec<usize> = Vec::new();
        let mut p: usize = 0;
        while p < count
            invariant
                p <= count,
                at + count <= usize::MAX,
                sel@ == Seq::new(p as nat, |q: int| (at + q) as usize),
            decreases count - p,
        {
            sel.push(at + p);
            p += 1;
            assert(sel@ =~= Seq::new(p as nat, |q: int| (at + q) as usize));
        }
        *ctx.selected = sel.clone();
        *ctx.drag_indices = sel;
        let grab = if ctx.drag_grab_pos_in_block < count - 1 { ctx.drag_grab_pos_in_block } else { count - 1 };
        *ctx.drag_from = Some(at + grab);
    }
    *ctx.last_insert_at = Some(at);
}

// ------------------------------------------------------------------ laws

/// A live reorder only moves rows: for any place `at` among the rows that
/// stay, the spliced list holds exactly the rows of the list, each as
/// often as before.
pub proof fn law_live_reorder_keeps_every_row(s: Seq<ItemView>, d: Seq<usize>, at: int)
    requires
        s.len() <= usize::MAX,
        0 <= at <= staying_rows(s, d).len(),
    ensures
        spliced(s, d, at).to_multiset() == s.to_multiset(),
{
    broadcast use vstd::seq_lib::lemma_multiset_commutative, vstd::multiset::group_multiset_axioms;

    let st = staying_rows(s, d);
    let dr = dragged_rows(s, d);
    crate::seqs::lemma_keep_where_split(s, in_drag(d), out_of_drag(d));
    assert(dr == keep_where(s, in_drag(d)));
    assert(st.take(at) + st.skip(at) =~= st);
    assert((st.take(at) + dr + st.skip(at)).to_multiset() =~= st.take(at).to_multiset().add(
        dr.to_multiset(),
    ).add(st.skip(at).to_multiset()));
    assert((st.take(at) + st.skip(at)).to_multiset() =~= st.take(at).to_multiset().add(st.skip(at).to_multiset()));
}

} // verus!
