//! Where a drag lands: snapping the insertion point so that a dropped group
//! does not split another mod's block, and mapping visible slots to list
//! positions.
use vstd::prelude::*;

use crate::items::{contains_string, mod_key, mod_key_of, names, rows, ItemView, Step3ItemState};
use crate::seqs::{indices_where, keep_where, lemma_indices_where, strictly_increasing};

verus! {

/// The start of the run of rows of block `b` that ends at `at`.
pub open spec fn run_start(s: Seq<ItemView>, at: int, b: Seq<char>) -> int
    decreases at,
{
    if at > 0 && at <= s.len() && s[at - 1].block_id == b {
        run_start(s, at - 1, b)
    } else {
        at
    }
}

/// The end of the run of rows of block `b` that starts at `at`.
pub open spec fn run_stop(s: Seq<ItemView>, at: int, b: Seq<char>) -> int
    decreases s.len() - at,
{
    if 0 <= at < s.len() && s[at].block_id == b {
        run_stop(s, at + 1, b)
    } else {
        at
    }
}

/// The edge of block `b`'s run around `at` that is nearer to `at` (the
/// upper edge on a tie).
pub open spec fn nearer_edge(s: Seq<ItemView>, at: int, b: Seq<char>) -> int {
    let start = run_start(s, at, b);
    let end = run_stop(s, at, b);
    if at - start <= end - at {
        start
    } else {
        end
    }
}

/// The moving rows are components of one mod, the mod of the row above `at`.
pub open spec fn joins_own_mod(r: Seq<ItemView>, at: int, m: Seq<ItemView>) -> bool {
    &&& m.len() > 0
    &&& forall|k: int| 0 <= k < m.len() ==> !(#[trigger] m[k]).is_parent
    &&& forall|k: int| 0 <= k < m.len() ==> mod_key(#[trigger] m[k]) == mod_key(m[0])
    &&& mod_key(m[0]) == mod_key(r[at - 1])
}

/// Where a dragged group is inserted into the remaining rows `r` when the
/// pointer asks for `insert_at`.
pub open spec fn resolved_insert_at(
    r: Seq<ItemView>,
    insert_at: int,
    m: Seq<ItemView>,
    locked: Seq<Seq<char>>,
) -> int {
    let at = if insert_at < r.len() { insert_at } else { r.len() as int };
    if m.len() == 0 || at == 0 || at >= r.len() || r[at].is_parent {
        at
    } else if joins_own_mod(r, at, m) {
        at
    } else if r[at - 1].is_parent {
        at - 1
    } else if locked.contains(r[at].block_id) {
        nearer_edge(r, at, r[at].block_id)
    } else {
        at
    }
}

/// The moving rows are components (no header) of one mod.
pub open spec fn one_mods_components(m: Seq<ItemView>) -> bool {
    &&& m.len() > 0
    &&& forall|k: int| 0 <= k < m.len() ==> !(#[trigger] m[k]).is_parent
    &&& forall|k: int| 0 <= k < m.len() ==> mod_key(#[trigger] m[k]) == mod_key(m[0])
}

/// Whether the moving rows are components of one mod, the mod of the row
/// above `at`. The row above `at` is only looked at when the moving rows
/// are components of one mod; then it must exist.
pub fn joins_its_own_mod(remaining: &[Step3ItemState], at: usize, moving: &[Step3ItemState]) -> (r: bool)
    requires
        one_mods_components(rows(moving@)) ==> 0 < at <= remaining@.len(),
    ensures
        r == joins_own_mod(rows(remaining@), at as int, rows(moving@)),
{
    let ghost m = rows(moving@);
    let mut k: usize = 0;
    while k < moving.len()
        invariant
            k <= moving@.len(),
            m == rows(moving@),
            forall|q: int| 0 <= q < k ==> !(#[trigger] m[q]).is_parent,
        decreases moving@.len() - k,
    {
        assert(m[k as int] == moving@[k as int]@);
        if moving[k].is_parent {
            return false;
        }
        k += 1;
    }
    if moving.len() == 0 {
        return false;
    }
    assert(m[0] == moving@[0]@);
    let key = mod_key_of(&moving[0]);
    let mut k: usize = 0;
    while k < moving.len()
        invariant
            k <= moving@.len(),
            m == rows(moving@),
            key@ == mod_key(m[0]),
            forall|q: int| 0 <= q < k ==> mod_key(#[trigger] m[q]) == mod_key(m[0]),
        decreases moving@.len() - k,
    {
        assert(m[k as int] == moving@[k as int]@);
        if mod_key_of(&moving[k]) != key {
            return false;
        }
        k += 1;
    }
    assert(rows(remaining@)[at - 1] == remaining@[at - 1]@);
    key == mod_key_of(&remaining[at - 1])
}

proof fn lemma_run_start(s: Seq<ItemView>, at: int, st: int, b: Seq<char>)
    requires
        0 <= st <= at <= s.len(),
        forall|k: int| st <= k < at ==> (#[trigger] s[k]).block_id == b,
        st == 0 || s[st - 1].block_id != b,
    ensures
        run_start(s, at, b) == st,
    decreases at - st,
{
    if st < at {
        lemma_run_start(s, at - 1, st, b);
    }
}

proof fn lemma_run_stop(s: Seq<ItemView>, at: int, en: int, b: Seq<char>)
    requires
        0 <= at <= en <= s.len(),
        forall|k: int| at <= k < en ==> (#[trigger] s[k]).block_id == b,
        en == s.len() || s[en].block_id != b,
    ensures
        run_stop(s, at, b) == en,
    decreases en - at,
{
    if at < en {
        lemma_run_stop(s, at + 1, en, b);
    }
}

/// The edge of the run of block `block_id` around `at` that is nearer.
pub fn nearer_block_edge(remaining: &[Step3ItemState], at: usize, block_id: &String) -> (r: usize)
    requires
        at <= remaining@.len(),
    ensures
        r as int == nearer_edge(rows(remaining@), at as int, block_id@),
{
    let ghost s = rows(remaining@);
    let mut start = at;
    while start > 0 && remaining[start - 1].block_id == *block_id
        invariant
            start <= at <= remaining@.len(),
            s == rows(remaining@),
            forall|k: int| start <= k < at ==> (#[trigger] s[k]).block_id == block_id@,
        decreases start,
    {
        assert(s[start - 1] == remaining@[start - 1]@);
        start -= 1;
    }
    proof {
        if start > 0 {
            assert(s[start - 1] == remaining@[start - 1]@);
        }
        lemma_run_start(s, at as int, start as int, block_id@);
    }
    let mut end = at;
    while end < remaining.len() && remaining[end].block_id == *block_id
        invariant
            at <= end <= remaining@.len(),
            s == rows(remaining@),
            forall|k: int| at <= k < end ==> (#[trigger] s[k]).block_id == block_id@,
        decreases remaining@.len() - end,
    {
        assert(s[end as int] == remaining@[end as int]@);
        end += 1;
    }
    proof {
        if end < s.len() {
            assert(s[end as int] == remaining@[end as int]@);
        }
        lemma_run_stop(s, at as int, end as int, block_id@);
    }
    if at - start <= end - at {
        start
    } else {
        end
    }
}

/// Where a dragged group goes when the pointer asks for position `insert_at`
/// among the remaining rows: between two components of another mod only when
/// the group is components of that same mod; directly under a header it
/// snaps above the header; inside a locked block it snaps to the block's
/// nearer edge. The answer is never past the end of the list.
pub fn resolve_insert_at(
    remaining: &[Step3ItemState],
    insert_at: usize,
    moving: &[Step3ItemState],
    locked_blocks: &[String],
) -> (r: usize)
    ensures
        r as int == resolved_insert_at(
            rows(remaining@),
            insert_at as int,
            rows(moving@),
            names(locked_blocks@),
        ),
        r <= remaining@.len(),
{
    let ghost s = rows(remaining@);
    let at = if insert_at < remaining.len() {
        insert_at
    } else {
        remaining.len()
    };
    if moving.len() == 0 || at == 0 || at >= remaining.len() {
        return at;
    }
    assert(s[at as int] == remaining@[at as int]@);
    if remaining[at].is_parent {
        return at;
    }
    if joins_its_own_mod(remaining, at, moving) {
        return at;
    }
    assert(s[at - 1] == remaining@[at - 1]@);
    if remaining[at - 1].is_parent {
        return at - 1;
    }
    if contains_string(locked_blocks, &remaining[at].block_id) {
        let r = nearer_block_edge(remaining, at, &remaining[at].block_id);
        proof {
            lemma_nearer_edge_bounds(s, at as int, s[at as int].block_id);
        }
        return r;
    }
    at
}

proof fn lemma_run_start_bounds(s: Seq<ItemView>, at: int, b: Seq<char>)
    requires
        0 <= at <= s.len(),
    ensures
        0 <= run_start(s, at, b) <= at,
    decreases at,
{
    if at > 0 && s[at - 1].block_id == b {
        lemma_run_start_bounds(s, at - 1, b);
    }
}

proof fn lemma_run_stop_bounds(s: Seq<ItemView>, at: int, b: Seq<char>)
    requires
        0 <= at <= s.len(),
    ensures
        at <= run_stop(s, at, b) <= s.len(),
    decreases s.len() - at,
{
    if at < s.len() && s[at].block_id == b {
        lemma_run_stop_bounds(s, at + 1, b);
    }
}

proof fn lemma_nearer_edge_bounds(s: Seq<ItemView>, at: int, b: Seq<char>)
    requires
        0 <= at <= s.len(),
    ensures
        0 <= nearer_edge(s, at, b) <= s.len(),
{
    lemma_run_start_bounds(s, at, b);
    lemma_run_stop_bounds(s, at, b);
}

// ------------------------------------------------------------ visible slots

/// The first position of `x` in `s` (or `s.len()` when absent).
pub open spec fn position_of(s: Seq<usize>, x: usize) -> int
    decreases s.len(),
{
    if s.len() == 0 {
        0
    } else if s.last() == x && !s.drop_last().contains(x) {
        s.len() - 1
    } else if s.drop_last().contains(x) {
        position_of(s.drop_last(), x)
    } else {
        s.len() as int
    }
}

/// The list position that a visible slot stands for once the dragged block
/// is taken out: the rows outside `block` are numbered in list order, the
/// visible ones among them in display order; slot `target` names the
/// `target`-th visible remaining row, past the end names `remaining_len`.
pub open spec fn slot_to_insert_at(
    n: nat,
    block: Seq<usize>,
    visible: Seq<usize>,
    target: int,
    remaining_len: int,
) -> int {
    let rem = indices_where(n, |i: int| !block.contains(i as usize));
    let vis = keep_where(visible, |k: int| !block.contains(visible[k]));
    if target >= vis.len() {
        remaining_len
    } else if rem.contains(vis[target]) {
        position_of(rem, vis[target])
    } else {
        remaining_len
    }
}

fn slice_contains(v: &[usize], x: usize) -> (r: bool)
    ensures
        r == v@.contains(x),
{
    let mut i: usize = 0;
    while i < v.len()
        invariant
            i <= v@.len(),
            forall|k: int| 0 <= k < i ==> v@[k] != x,
        decreases v@.len() - i,
    {
        if v[i] == x {
            return true;
        }
        i += 1;
    }
    false
}

/// The position, among the rows outside the dragged block, that visible slot
/// `target_visible_slot` stands for.
pub fn visible_slot_to_insert_at(
    items: &[Step3ItemState],
    block: &[usize],
    visible_rows: &[usize],
    target_visible_slot: usize,
    remaining_len: usize,
) -> (r: usize)
    ensures
        r as int == slot_to_insert_at(
            items@.len(),
            block@,
            visible_rows@,
            target_visible_slot as int,
            remaining_len as int,
        ),
{
    let ghost not_in_block = |i: int| !block@.contains(i as usize);
    let ghost vis_keep = |k: int| !block@.contains(visible_rows@[k]);
    let mut rem: Vec<usize> = Vec::new();
    let mut i: usize = 0;
    while i < items.len()
        invariant
            i <= items@.len(),
            not_in_block == (|i: int| !block@.contains(i as usize)),
            rem@ == indices_where(i as nat, not_in_block),
        decreases items@.len() - i,
    {
        proof {
            crate::seqs::lemma_indices_where_step(i as nat, not_in_block);
        }
        if !slice_contains(block, i) {
            rem.push(i);
        }
        i += 1;
    }
    let mut vis: Vec<usize> = Vec::new();
    let mut j: usize = 0;
    while j < visible_rows.len()
        invariant
            j <= visible_rows@.len(),
            vis_keep == (|k: int| !block@.contains(visible_rows@[k])),
            vis@ == indices_where(j as nat, vis_keep).map_values(|k: usize| visible_rows@[k as int]),
        decreases visible_rows@.len() - j,
    {
        proof {
            crate::seqs::lemma_indices_where_step(j as nat, vis_keep);
        }
        if !slice_contains(block, visible_rows[j]) {
            vis.push(visible_rows[j]);
        }
        j += 1;
        assert(vis@ =~= indices_where(j as nat, vis_keep).map_values(|k: usize| visible_rows@[k as int]));
    }
    if target_visible_slot >= vis.len() {
        return remaining_len;
    }
    let target_full = vis[target_visible_slot];
    let mut p: usize = 0;
    while p < rem.len()
        invariant
            p <= rem@.len(),
            not_in_block == (|i: int| !block@.contains(i as usize)),
            vis_keep == (|k: int| !block@.contains(visible_rows@[k])),
            rem@ == indices_where(items@.len(), not_in_block),
            vis@ == indices_where(visible_rows@.len(), vis_keep).map_values(|k: usize| visible_rows@[k as int]),
            target_visible_slot < vis@.len(),
            target_full == vis@[target_visible_slot as int],
            forall|k: int| 0 <= k < p ==> rem@[k] != target_full,
        decreases rem@.len() - p,
    {
        if rem[p] == target_full {
            proof {
                lemma_position_of(rem@, target_full, p as int);
            }
            return p;
        }
        p += 1;
    }
    assert(!rem@.contains(target_full));
    remaining_len
}

proof fn lemma_position_of(s: Seq<usize>, x: usize, p: int)
    requires
        0 <= p < s.len(),
        s[p] == x,
        forall|k: int| 0 <= k < p ==> s[k] != x,
    ensures
        s.contains(x),
        position_of(s, x) == p,
    decreases s.len(),
{
    if p < s.len() - 1 {
        assert(s.drop_last()[p] == x);
        lemma_position_of(s.drop_last(), x, p);
        assert(s.drop_last().contains(x));
    } else {
        assert(!s.drop_last().contains(x)) by {
            if s.drop_last().contains(x) {
                let k = choose|k: int| 0 <= k < s.drop_last().len() && s.drop_last()[k] == x;
                assert(s[k] == x);
            }
        }
    }
}

/// How many entries of `v` satisfy `p`.
pub open spec fn count_where(v: Seq<usize>, p: spec_fn(usize) -> bool) -> nat
    decreases v.len(),
{
    if v.len() == 0 {
        0
    } else {
        count_where(v.drop_last(), p) + if p(v.last()) { 1nat } else { 0nat }
    }
}

/// The visible slot where the dragged block starts, given the visible row
/// the pointer is over (`pointer_row`, counted in visible rows): the block's
/// visible rows above the grabbed one shift the start up, and the start
/// never passes the last slot the block fits in.
pub open spec fn slot_for_pointer(
    visible: Seq<usize>,
    block: Seq<usize>,
    grabbed: usize,
    pointer_row: int,
) -> int {
    let n = visible.len() as int;
    let in_block_count = count_where(visible, |x: usize| block.contains(x)) as int;
    let k = if in_block_count > 1 { in_block_count } else { 1 };
    let rank = count_where(visible, |x: usize| block.contains(x) && x < grabbed) as int;
    let start = if pointer_row > rank { pointer_row - rank } else { 0 };
    let max_start = if n > k { n - k } else { 0 };
    if n == 0 {
        0
    } else if start < max_start {
        start
    } else {
        max_start
    }
}

/// The visible slot where the dragged block starts (see `slot_for_pointer`).
pub fn pointer_row_to_visible_slot(
    visible_rows: &[usize],
    block: &[usize],
    grabbed: usize,
    pointer_row: usize,
) -> (r: usize)
    ensures
        r as int == slot_for_pointer(visible_rows@, block@, grabbed, pointer_row as int),
{
    let n = visible_rows.len();
    if n == 0 {
        return 0;
    }
    let ghost pin = |x: usize| block@.contains(x);
    let ghost pbelow = |x: usize| block@.contains(x) && x < grabbed;
    let mut in_block_count: usize = 0;
    let mut rank: usize = 0;
    let mut j: usize = 0;
    while j < n
        invariant
            j <= n,
            n == visible_rows@.len(),
            pin == (|x: usize| block@.contains(x)),
            pbelow == (|x: usize| block@.contains(x) && x < grabbed),
            in_block_count == count_where(visible_rows@.take(j as int), pin),
            rank == count_where(visible_rows@.take(j as int), pbelow),
            in_block_count <= j,
            rank <= j,
        decreases n - j,
    {
        assert(visible_rows@.take(j + 1).drop_last() =~= visible_rows@.take(j as int));
        let x = visible_rows[j];
        if slice_contains(block, x) {
            in_block_count += 1;
            if x < grabbed {
                rank += 1;
            }
        }
        j += 1;
    }
    assert(visible_rows@.take(n as int) =~= visible_rows@);
    let k = if in_block_count > 1 {
        in_block_count
    } else {
        1
    };
    let start = if pointer_row > rank {
        pointer_row - rank
    } else {
        0
    };
    let max_start = if n > k {
        n - k
    } else {
        0
    };
    if start < max_start {
        start
    } else {
        max_start
    }
}

/// The first row of a dragged block of `k` rows in a list of `n`: the row the
/// pointer asks for (`desired_start`, which may lie outside the list),
/// clamped to the rows where the whole block still fits.
pub fn block_start_for(desired_start: i64, n: usize, k: usize) -> (start: usize)
    ensures
        start as int == (if desired_start <= 0 {
            0
        } else if desired_start >= n - k {
            if n >= k { n - k } else { 0 }
        } else {
            desired_start as int
        }),
{
    let max_start: usize = if n >= k { n - k } else { 0 };
    if desired_start <= 0 {
        0
    } else if desired_start as u64 >= max_start as u64 {
        max_start
    } else {
        desired_start as usize
    }
}

} // verus!
