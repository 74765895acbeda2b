//! The rows of the update popup's source choices: one per mod offered a
//! choice (see `source_targets`) that has download sources, with the source
//! in use and the alternatives, sorted by label ignoring ASCII case.
use vstd::prelude::*;

use crate::source_targets::{pairs, SourceKeys};
use crate::state::{Step2ModState, WizardState};
use crate::text::{ascii_lower, lower_chars, chars_of};

verus! {

/// One download source of a mod, as the source store describes it.
pub struct SourceOption {
    pub source_id: String,
    pub label: String,
    /// The GitHub repository of the source, when it has one.
    pub github: Option<String>,
    /// The page to open for the source, when it has one.
    pub open_url: Option<String>,
}

/// What the source store holds for one mod: its sources, and the source
/// its chosen source id resolves to (if any).
pub struct TargetSources {
    pub sources: Vec<SourceOption>,
    pub resolved: Option<SourceOption>,
}

/// A row of the source choices.
pub struct SourceChoiceRow {
    pub tp2_key: String,
    pub label: String,
    pub selected_source_id: String,
    pub selected_label: String,
    pub selected_source_url: Option<String>,
    pub selected_source_repo: Option<String>,
    /// Every source of the mod, as (source id, label).
    pub options: Vec<(String, String)>,
    pub update_locked: bool,
}

/// The view of an optional string.
pub open spec fn opt(o: Option<String>) -> Option<Seq<char>> {
    match o {
        Some(s) => Some(s@),
        None => None,
    }
}

/// The view of a source.
pub open spec fn option_view(o: SourceOption) -> (Seq<char>, Seq<char>, Option<Seq<char>>, Option<Seq<char>>) {
    (o.source_id@, o.label@, opt(o.github), opt(o.open_url))
}

/// The view of a row: key, label, the chosen source (id, label, page,
/// repository), the (id, label) of every source, and the update lock.
pub struct RowView {
    pub key: Seq<char>,
    pub label: Seq<char>,
    pub selected: (Seq<char>, Seq<char>, Option<Seq<char>>, Option<Seq<char>>),
    pub options: Seq<(Seq<char>, Seq<char>)>,
    pub update_locked: bool,
}

pub open spec fn row_view(r: SourceChoiceRow) -> RowView {
    RowView {
        key: r.tp2_key@,
        label: r.label@,
        selected: (r.selected_source_id@, r.selected_label@, opt(r.selected_source_url), opt(
            r.selected_source_repo,
        )),
        options: pairs(r.options@),
        update_locked: r.update_locked,
    }
}

pub open spec fn row_views(rows: Seq<SourceChoiceRow>) -> Seq<RowView> {
    Seq::new(rows.len(), |i: int| row_view(rows[i]))
}

// ------------------------------------------------------------ the lock

/// The mods of both lists, each with its download key.
pub open spec fn keyed_mods(state: WizardState, keys: SourceKeys) -> Seq<(Seq<char>, bool)> {
    Seq::new(state.step2.bgee_mods@.len(), |i: int| (keys.first_mods@[i]@, state.step2.bgee_mods@[i].update_locked))
        + Seq::new(
        state.step2.bg2ee_mods@.len(),
        |i: int| (keys.second_mods@[i]@, state.step2.bg2ee_mods@[i].update_locked),
    )
}

/// The update lock of the first mod with key `k` (unlocked when none).
pub open spec fn lock_of(mods: Seq<(Seq<char>, bool)>, k: Seq<char>) -> bool
    decreases mods.len(),
{
    if mods.len() == 0 {
        false
    } else if mods[0].0 == k {
        mods[0].1
    } else {
        lock_of(mods.drop_first(), k)
    }
}

fn lock_in(mods: &Vec<Step2ModState>, keys: &Vec<String>, k: &str) -> (r: Option<bool>)
    requires
        keys@.len() == mods@.len(),
    ensures
        ({
            let ms = Seq::new(mods@.len(), |i: int| (keys@[i]@, mods@[i].update_locked));
            match r {
                Some(b) => exists|i: int| 0 <= i < ms.len() && ms[i].0 == k@ && (forall|j: int| 0 <= j < i ==> (#[trigger] ms[j]).0 != k@) && b == ms[i].1,
                None => forall|j: int| 0 <= j < ms.len() ==> (#[trigger] ms[j]).0 != k@,
            }
        }),
{
    let ghost ms = Seq::new(mods@.len(), |i: int| (keys@[i]@, mods@[i].update_locked));
    let mut i: usize = 0;
    while i < mods.len()
        invariant
            i <= mods@.len(),
            keys@.len() == mods@.len(),
            ms == Seq::new(mods@.len(), |i: int| (keys@[i]@, mods@[i].update_locked)),
            forall|j: int| 0 <= j < i ==> (#[trigger] ms[j]).0 != k@,
        decreases mods@.len() - i,
    {
        if crate::text::str_eq(keys[i].as_str(), k) {
            assert(ms[i as int].0 == k@);
            return Some(mods[i].update_locked);
        }
        i += 1;
    }
    None
}

proof fn lemma_lock_of_first(mods: Seq<(Seq<char>, bool)>, k: Seq<char>, i: int)
    requires
        0 <= i < mods.len(),
        mods[i].0 == k,
        forall|j: int| 0 <= j < i ==> (#[trigger] mods[j]).0 != k,
    ensures
        lock_of(mods, k) == mods[i].1,
    decreases i,
{
    if i > 0 {
        assert forall|j: int| 0 <= j < i - 1 implies (#[trigger] mods.drop_first()[j]).0 != k by {
            assert(mods.drop_first()[j] == mods[j + 1]);
        }
        lemma_lock_of_first(mods.drop_first(), k, i - 1);
    }
}

proof fn lemma_lock_of_none(mods: Seq<(Seq<char>, bool)>, k: Seq<char>)
    requires
        forall|j: int| 0 <= j < mods.len() ==> (#[trigger] mods[j]).0 != k,
    ensures
        lock_of(mods, k) == false,
    decreases mods.len(),
{
    if mods.len() > 0 {
        assert forall|j: int| 0 <= j < mods.len() - 1 implies (#[trigger] mods.drop_first()[j]).0 != k by {
            assert(mods.drop_first()[j] == mods[j + 1]);
        }
        lemma_lock_of_none(mods.drop_first(), k);
    }
}

proof fn lemma_lock_of_concat(a: Seq<(Seq<char>, bool)>, b: Seq<(Seq<char>, bool)>, k: Seq<char>)
    requires
        forall|j: int| 0 <= j < a.len() ==> (#[trigger] a[j]).0 != k,
    ensures
        lock_of(a + b, k) == lock_of(b, k),
    decreases a.len(),
{
    if a.len() > 0 {
        assert((a + b).drop_first() =~= a.drop_first() + b);
        assert forall|j: int| 0 <= j < a.len() - 1 implies (#[trigger] a.drop_first()[j]).0 != k by {
            assert(a.drop_first()[j] == a[j + 1]);
        }
        lemma_lock_of_concat(a.drop_first(), b, k);
    }
}

/// Whether updates of the mod with key `k` are locked: the lock of the
/// first mod of the two lists with that key.
fn update_locked_for(state: &WizardState, keys: &SourceKeys, k: &str) -> (r: bool)
    requires
        keys.first_mods@.len() == state.step2.bgee_mods@.len(),
        keys.second_mods@.len() == state.step2.bg2ee_mods@.len(),
    ensures
        r == lock_of(keyed_mods(*state, *keys), k@),
{
    let ghost a = Seq::new(
        state.step2.bgee_mods@.len(),
        |i: int| (keys.first_mods@[i]@, state.step2.bgee_mods@[i].update_locked),
    );
    let ghost b = Seq::new(
        state.step2.bg2ee_mods@.len(),
        |i: int| (keys.second_mods@[i]@, state.step2.bg2ee_mods@[i].update_locked),
    );
    assert(keyed_mods(*state, *keys) == a + b);
    match lock_in(&state.step2.bgee_mods, &keys.first_mods, k) {
        Some(l) => {
            proof {
                let i = choose|i: int|
                    0 <= i < a.len() && a[i].0 == k@ && (forall|j: int| 0 <= j < i ==> (#[trigger] a[j]).0 != k@)
                        && l == a[i].1;
                assert forall|j: int| 0 <= j < i implies (#[trigger] (a + b)[j]).0 != k@ by {
                    assert((a + b)[j] == a[j]);
                }
                assert((a + b)[i] == a[i]);
                lemma_lock_of_first(a + b, k@, i);
            }
            l
        },
        None => {
            proof {
                lemma_lock_of_concat(a, b, k@);
            }
            match lock_in(&state.step2.bg2ee_mods, &keys.second_mods, k) {
                Some(l) => {
                    proof {
                        let i = choose|i: int|
                            0 <= i < b.len() && b[i].0 == k@ && (forall|j: int| 0 <= j < i ==> (#[trigger] b[j]).0 != k@)
                                && l == b[i].1;
                        lemma_lock_of_first(b, k@, i);
                    }
                    l
                },
                None => {
                    proof {
                        lemma_lock_of_none(b, k@);
                    }
                    false
                },
            }
        },
    }
}

// ------------------------------------------------------------- the rows

/// The row of a mod offered a source choice, before sorting: none when it
/// has no source; the chosen source is the resolved one, else the first.
pub open spec fn choice_row(
    key: Seq<char>,
    label: Seq<char>,
    found: TargetSources,
    locked: bool,
) -> Option<RowView> {
    let srcs = found.sources@;
    if srcs.len() == 0 {
        None
    } else {
        let sel = match found.resolved {
            Some(r) => r,
            None => srcs[0],
        };
        Some(
            RowView {
                key,
                label,
                selected: (sel.source_id@, sel.label@, opt(sel.open_url), opt(sel.github)),
                options: Seq::new(srcs.len(), |i: int| (srcs[i].source_id@, srcs[i].label@)),
                update_locked: locked,
            },
        )
    }
}

/// The rows of the targets, in target order, before sorting.
pub open spec fn unsorted_rows(
    targets: Seq<(Seq<char>, Seq<char>)>,
    found: Seq<TargetSources>,
    mods: Seq<(Seq<char>, bool)>,
) -> Seq<RowView>
    decreases targets.len(),
{
    if targets.len() == 0 {
        seq![]
    } else {
        let n = targets.len() - 1;
        let prev = unsorted_rows(targets.take(n), found.take(n), mods);
        match choice_row(targets[n].0, targets[n].1, found[n], lock_of(mods, targets[n].0)) {
            Some(r) => prev.push(r),
            None => prev,
        }
    }
}

fn copy_opt(o: &Option<String>) -> (r: Option<String>)
    ensures
        opt(r) == opt(*o),
{
    match o {
        Some(s) => Some(s.clone()),
        None => None,
    }
}

fn make_row(key: &String, label: &String, found: &TargetSources, locked: bool) -> (r: Option<SourceChoiceRow>)
    ensures
        match (r, choice_row(key@, label@, *found, locked)) {
            (Some(x), Some(v)) => row_view(x) == v,
            (None, None) => true,
            _ => false,
        },
{
    let n = found.sources.len();
    if n == 0 {
        return None;
    }
    let sel: &SourceOption = match &found.resolved {
        Some(r) => r,
        None => &found.sources[0],
    };
    let mut options: Vec<(String, String)> = Vec::new();
    let mut i: usize = 0;
    while i < n
        invariant
            i <= n,
            n == found.sources@.len(),
            options@.len() == i,
            forall|k: int| 0 <= k < i ==> (#[trigger] options@[k]).0@ == found.sources@[k].source_id@
                && options@[k].1@ == found.sources@[k].label@,
        decreases n - i,
    {
        let id = found.sources[i].source_id.clone();
        let lb = found.sources[i].label.clone();
        options.push((id, lb));
        i += 1;
    }
    assert(pairs(options@) =~= Seq::new(n as nat, |k: int| (found.sources@[k].source_id@, found.sources@[k].label@)));
    let row = SourceChoiceRow {
        tp2_key: key.clone(),
        label: label.clone(),
        selected_source_id: sel.source_id.clone(),
        selected_label: sel.label.clone(),
        selected_source_url: copy_opt(&sel.open_url),
        selected_source_repo: copy_opt(&sel.github),
        options,
        update_locked: locked,
    };
    Some(row)
}

/// The update lock a row takes: that of the first mod with the row's key,
/// and unlocked when no mod has it.
pub open spec fn first_lock_is(mods: Seq<(Seq<char>, bool)>, k: Seq<char>, locked: bool) -> bool {
    (exists|m: int|
        0 <= m < mods.len() && (#[trigger] mods[m]).0 == k && (forall|j: int| 0 <= j < m ==> (#[trigger] mods[j]).0 != k)
            && locked == mods[m].1) || ((forall|j: int| 0 <= j < mods.len() ==> (#[trigger] mods[j]).0 != k) && !locked)
}

/// What the row of target `i` holds: its key and label, the resolved
/// source (else the first one) as the chosen source, every source as
/// (id, label) in order, and the lock of the first mod with its key.
pub open spec fn is_row_of(
    r: RowView,
    targets: Seq<(Seq<char>, Seq<char>)>,
    found: Seq<TargetSources>,
    mods: Seq<(Seq<char>, bool)>,
    i: int,
) -> bool {
    let srcs = found[i].sources@;
    let chosen = match found[i].resolved {
        Some(s) => s,
        None => srcs[0],
    };
    &&& srcs.len() > 0
    &&& r.key == targets[i].0
    &&& r.label == targets[i].1
    &&& r.selected == (chosen.source_id@, chosen.label@, opt(chosen.open_url), opt(chosen.github))
    &&& r.options.len() == srcs.len()
    &&& forall|j: int| 0 <= j < srcs.len() ==> (#[trigger] r.options[j]) == (srcs[j].source_id@, srcs[j].label@)
    &&& first_lock_is(mods, r.key, r.update_locked)
}

proof fn lemma_lock_of_is_first(mods: Seq<(Seq<char>, bool)>, k: Seq<char>)
    ensures
        first_lock_is(mods, k, lock_of(mods, k)),
{
    if exists|m: int| 0 <= m < mods.len() && (#[trigger] mods[m]).0 == k {
        let m = choose|m: int| 0 <= m < mods.len() && (#[trigger] mods[m]).0 == k;
        lemma_lock_of_below(mods, k, m);
    } else {
        lemma_lock_of_none(mods, k);
    }
}

proof fn lemma_lock_of_below(mods: Seq<(Seq<char>, bool)>, k: Seq<char>, m: int)
    requires
        0 <= m < mods.len(),
        mods[m].0 == k,
    ensures
        first_lock_is(mods, k, lock_of(mods, k)),
    decreases m,
{
    if exists|j: int| 0 <= j < m && (#[trigger] mods[j]).0 == k {
        let j = choose|j: int| 0 <= j < m && (#[trigger] mods[j]).0 == k;
        lemma_lock_of_below(mods, k, j);
    } else {
        lemma_lock_of_first(mods, k, m);
    }
}

/// The rows before sorting are the rows of the targets that have sources,
/// one each, in target order: row `q` is the row of the target at `at[q]`,
/// `at` is increasing, and it skips exactly the targets without sources.
pub proof fn law_one_row_per_target_with_sources(
    targets: Seq<(Seq<char>, Seq<char>)>,
    found: Seq<TargetSources>,
    mods: Seq<(Seq<char>, bool)>,
)
    requires
        found.len() == targets.len(),
    ensures
        ({
            let rows = unsorted_rows(targets, found, mods);
            exists|at: Seq<int>|
                {
                    &&& #[trigger] at.len() == rows.len()
                    &&& forall|q: int| 0 <= q < rows.len() ==> 0 <= #[trigger] at[q] < targets.len() && is_row_of(rows[q], targets, found, mods, at[q])
                    &&& forall|q: int, w: int| 0 <= q < w < rows.len() ==> #[trigger] at[q] < #[trigger] at[w]
                    &&& forall|i: int| 0 <= i < targets.len() && found[i].sources@.len() > 0 ==> exists|q: int| 0 <= q < rows.len() && #[trigger] at[q] == i
                }
        }),
    decreases targets.len(),
{
    let rows = unsorted_rows(targets, found, mods);
    if targets.len() == 0 {
        let at = Seq::<int>::empty();
        assert(at.len() == rows.len());
    } else {
        let n = targets.len() - 1;
        let pt = targets.take(n);
        let pf = found.take(n);
        law_one_row_per_target_with_sources(pt, pf, mods);
        let prev = unsorted_rows(pt, pf, mods);
        let pat = choose|at: Seq<int>|
            {
                &&& #[trigger] at.len() == prev.len()
                &&& forall|q: int| 0 <= q < prev.len() ==> 0 <= #[trigger] at[q] < pt.len() && is_row_of(prev[q], pt, pf, mods, at[q])
                &&& forall|q: int, w: int| 0 <= q < w < prev.len() ==> #[trigger] at[q] < #[trigger] at[w]
                &&& forall|i: int| 0 <= i < pt.len() && pf[i].sources@.len() > 0 ==> exists|q: int| 0 <= q < prev.len() && #[trigger] at[q] == i
            };
        assert forall|q: int| 0 <= q < prev.len() implies is_row_of(prev[q], targets, found, mods, pat[q]) by {
            assert(pt[pat[q]] == targets[pat[q]]);
            assert(pf[pat[q]] == found[pat[q]]);
        }
        if found[n].sources@.len() > 0 {
            let at = pat.push(n);
            lemma_lock_of_is_first(mods, targets[n].0);
            assert(rows == prev.push(choice_row(targets[n].0, targets[n].1, found[n], lock_of(mods, targets[n].0))->Some_0));
            assert(is_row_of(rows[prev.len() as int], targets, found, mods, n));
            assert forall|q: int| 0 <= q < rows.len() implies 0 <= #[trigger] at[q] < targets.len() && is_row_of(rows[q], targets, found, mods, at[q]) by {
                if q < prev.len() {
                    assert(rows[q] == prev[q] && at[q] == pat[q]);
                }
            }
            assert forall|q: int, w: int| 0 <= q < w < rows.len() implies #[trigger] at[q] < #[trigger] at[w] by {
                if w < prev.len() {
                    assert(at[q] == pat[q] && at[w] == pat[w]);
                } else {
                    assert(at[q] == pat[q]);
                }
            }
            assert forall|i: int| 0 <= i < targets.len() && found[i].sources@.len() > 0 implies exists|q: int| 0 <= q < rows.len() && #[trigger] at[q] == i by {
                if i < n {
                    assert(pf[i] == found[i]);
                    let q = choose|q: int| 0 <= q < prev.len() && #[trigger] pat[q] == i;
                    assert(at[q] == i);
                } else {
                    assert(at[prev.len() as int] == i);
                }
            }
            assert(at.len() == rows.len());
        } else {
            assert(rows == prev);
            assert forall|i: int| 0 <= i < targets.len() && found[i].sources@.len() > 0 implies exists|q: int| 0 <= q < rows.len() && #[trigger] pat[q] == i by {
                assert(i < n);
                assert(pf[i] == found[i]);
            }
            assert(pat.len() == rows.len());
        }
    }
}

// ------------------------------------------------------------- ordering

/// Whether `a` comes before `b` in character order (a proper prefix comes
/// first), as strings compare.
pub open spec fn lex_lt(a: Seq<char>, b: Seq<char>) -> bool
    decreases a.len(),
{
    if a.len() == 0 {
        b.len() > 0
    } else if b.len() == 0 {
        false
    } else if a[0] != b[0] {
        (a[0] as u32) < (b[0] as u32)
    } else {
        lex_lt(a.drop_first(), b.drop_first())
    }
}

proof fn lemma_lex_irreflexive(a: Seq<char>)
    ensures
        !lex_lt(a, a),
    decreases a.len(),
{
    if a.len() > 0 {
        lemma_lex_irreflexive(a.drop_first());
    }
}

proof fn lemma_lex_transitive(a: Seq<char>, b: Seq<char>, c: Seq<char>)
    requires
        lex_lt(a, b),
        lex_lt(b, c),
    ensures
        lex_lt(a, c),
    decreases a.len(),
{
    if a.len() > 0 && b.len() > 0 && c.len() > 0 && a[0] == b[0] && b[0] == c[0] {
        lemma_lex_transitive(a.drop_first(), b.drop_first(), c.drop_first());
    }
}

/// `lex_lt` on character vectors.
fn chars_lex_lt(a: &Vec<char>, b: &Vec<char>) -> (r: bool)
    ensures
        r == lex_lt(a@, b@),
{
    let mut i: usize = 0;
    assert(a@.skip(0) =~= a@);
    assert(b@.skip(0) =~= b@);
    while i < a.len() && i < b.len()
        invariant
            i <= a@.len(),
            i <= b@.len(),
            lex_lt(a@, b@) == lex_lt(a@.skip(i as int), b@.skip(i as int)),
        decreases a@.len() - i,
    {
        let ghost sa = a@.skip(i as int);
        let ghost sb = b@.skip(i as int);
        assert(sa[0] == a@[i as int] && sb[0] == b@[i as int]);
        if a[i] != b[i] {
            return (a[i] as u32) < (b[i] as u32);
        }
        assert(sa.drop_first() =~= a@.skip(i + 1));
        assert(sb.drop_first() =~= b@.skip(i + 1));
        i += 1;
    }
    b.len() > i
}

/// The sort key of a row: its label in ASCII lower case.
pub open spec fn sort_key(r: RowView) -> Seq<char> {
    ascii_lower(r.label)
}

/// The rows are in order of their sort keys.
pub open spec fn sorted_by_key(rows: Seq<RowView>) -> bool {
    forall|i: int, j: int| 0 <= i < j < rows.len() ==> !lex_lt(sort_key(#[trigger] rows[j]), sort_key(#[trigger] rows[i]))
}

/// The rows whose sort key is `k`, in order.
pub open spec fn with_key(rows: Seq<RowView>, k: Seq<char>) -> Seq<RowView>
    decreases rows.len(),
{
    if rows.len() == 0 {
        seq![]
    } else {
        let prev = with_key(rows.drop_last(), k);
        if sort_key(rows.last()) == k {
            prev.push(rows.last())
        } else {
            prev
        }
    }
}

proof fn lemma_with_key_concat(a: Seq<RowView>, b: Seq<RowView>, k: Seq<char>)
    ensures
        with_key(a + b, k) == with_key(a, k) + with_key(b, k),
    decreases b.len(),
{
    if b.len() == 0 {
        assert(a + b =~= a);
        assert(with_key(a, k) + with_key(b, k) =~= with_key(a, k));
    } else {
        lemma_with_key_concat(a, b.drop_last(), k);
        assert((a + b).drop_last() =~= a + b.drop_last());
        assert((a + b).last() == b.last());
        if sort_key(b.last()) == k {
            assert(with_key(a, k) + with_key(b, k) =~= (with_key(a, k) + with_key(b.drop_last(), k)).push(b.last()));
        }
    }
}

proof fn lemma_with_key_none(b: Seq<RowView>, k: Seq<char>)
    requires
        forall|j: int| 0 <= j < b.len() ==> sort_key(#[trigger] b[j]) != k,
    ensures
        with_key(b, k) == Seq::<RowView>::empty(),
    decreases b.len(),
{
    if b.len() > 0 {
        assert forall|j: int| 0 <= j < b.len() - 1 implies sort_key(#[trigger] b.drop_last()[j]) != k by {
            assert(b.drop_last()[j] == b[j]);
        }
        lemma_with_key_none(b.drop_last(), k);
    }
}

proof fn lemma_with_key_single(x: RowView, k: Seq<char>)
    ensures
        with_key(seq![x], k) == (if sort_key(x) == k { seq![x] } else { Seq::<RowView>::empty() }),
{
    assert(seq![x].drop_last() =~= Seq::<RowView>::empty());
    assert(seq![x].last() == x);
    assert(with_key(Seq::<RowView>::empty(), k) =~= Seq::<RowView>::empty());
}

/// Inserting `x` at `p` of a sorted list, after every row whose key is not
/// above its own and before the first whose key is: the list stays sorted
/// and `x` comes after the rows of its key.
proof fn lemma_insert_sorted(out: Seq<RowView>, x: RowView, p: int)
    requires
        sorted_by_key(out),
        0 <= p <= out.len(),
        forall|i: int| 0 <= i < p ==> !lex_lt(sort_key(x), sort_key(#[trigger] out[i])),
        p < out.len() ==> lex_lt(sort_key(x), sort_key(out[p])),
    ensures
        sorted_by_key(out.insert(p, x)),
        forall|k: Seq<char>| #[trigger] with_key(out.insert(p, x), k) == (if sort_key(x) == k {
            with_key(out, k).push(x)
        } else {
            with_key(out, k)
        }),
{
    let r = out.insert(p, x);
    let kx = sort_key(x);
    // every row from p on has a key above x's
    assert forall|q: int| p <= q < out.len() implies lex_lt(kx, sort_key(#[trigger] out[q])) by {
        if q > p {
            assert(!lex_lt(sort_key(out[q]), sort_key(out[p])));
            if !lex_lt(kx, sort_key(out[q])) {
                // the keys are totally ordered: out[q] <= x < out[p] contradicts sortedness
                lemma_lex_total(kx, sort_key(out[q]));
                if sort_key(out[q]) == kx {
                } else {
                    lemma_lex_transitive(sort_key(out[q]), kx, sort_key(out[p]));
                }
            }
        }
    }
    assert forall|i: int, j: int| 0 <= i < j < r.len() implies !lex_lt(sort_key(#[trigger] r[j]), sort_key(
        #[trigger] r[i],
    )) by {
        if j < p {
            assert(r[i] == out[i] && r[j] == out[j]);
        } else if j == p {
            assert(r[i] == out[i] && r[j] == x);
        } else if i == p {
            assert(r[i] == x && r[j] == out[j - 1]);
            assert(lex_lt(kx, sort_key(out[j - 1])));
            if lex_lt(sort_key(out[j - 1]), kx) {
                lemma_lex_transitive(kx, sort_key(out[j - 1]), kx);
                lemma_lex_irreflexive(kx);
            }
        } else if i < p {
            assert(r[i] == out[i] && r[j] == out[j - 1]);
        } else {
            assert(r[i] == out[i - 1] && r[j] == out[j - 1]);
        }
    }
    let a = out.take(p);
    let b = out.skip(p);
    assert(out =~= a + b);
    assert(r =~= a + seq![x] + b);
    assert forall|k: Seq<char>| #[trigger] with_key(r, k) == (if kx == k {
        with_key(out, k).push(x)
    } else {
        with_key(out, k)
    }) by {
        lemma_with_key_concat(a + seq![x], b, k);
        lemma_with_key_concat(a, seq![x], k);
        lemma_with_key_concat(a, b, k);
        lemma_with_key_single(x, k);
        if kx == k {
            assert forall|j: int| 0 <= j < b.len() implies sort_key(#[trigger] b[j]) != k by {
                assert(b[j] == out[p + j]);
                assert(lex_lt(kx, sort_key(out[p + j])));
                lemma_lex_irreflexive(kx);
            }
            lemma_with_key_none(b, k);
            assert(with_key(a, k) + seq![x] + Seq::<RowView>::empty() =~= (with_key(a, k) + Seq::<RowView>::empty()).push(x));
            assert(with_key(a, k) + Seq::<RowView>::empty() =~= with_key(a, k));
        } else {
            assert(with_key(a, k) + Seq::<RowView>::empty() + with_key(b, k) =~= with_key(a, k) + with_key(b, k));
        }
    }
}

proof fn lemma_lex_total(a: Seq<char>, b: Seq<char>)
    ensures
        lex_lt(a, b) || lex_lt(b, a) || a == b,
    decreases a.len(),
{
    if a.len() > 0 && b.len() > 0 && a[0] == b[0] {
        lemma_lex_total(a.drop_first(), b.drop_first());
        if a.drop_first() == b.drop_first() {
            assert(a =~= seq![a[0]] + a.drop_first());
            assert(b =~= seq![b[0]] + b.drop_first());
        }
    } else if a.len() == 0 && b.len() == 0 {
        assert(a =~= b);
    } else if a.len() > 0 && b.len() > 0 {
        if (a[0] as u32) == (b[0] as u32) {
            vstd::utf8::char_u32_cast(a[0], a[0] as u32);
            vstd::utf8::char_u32_cast(b[0], b[0] as u32);
        }
    }
}

/// The rows of the mods offered a source choice that have download
/// sources, sorted by label ignoring ASCII case (rows of equal keys keep
/// their order). `targets` are the offered mods (key, label), as
/// `collect_source_targets` gives them, and `found[i]` what the source
/// store holds for `targets[i]`. A row takes the resolved source, else the
/// first one, and the update lock of the first mod of the two lists with
/// its key.
pub fn source_choice_rows(
    state: &WizardState,
    keys: &SourceKeys,
    targets: &Vec<(String, String)>,
    found: &Vec<TargetSources>,
) -> (rows: Vec<SourceChoiceRow>)
    requires
        found@.len() == targets@.len(),
        keys.first_mods@.len() == state.step2.bgee_mods@.len(),
        keys.second_mods@.len() == state.step2.bg2ee_mods@.len(),
    ensures
        sorted_by_key(row_views(rows@)),
        forall|i: int, j: int|
            0 <= i < j < rows@.len() ==> !lex_lt(
                ascii_lower(#[trigger] rows@[j].label@),
                ascii_lower(#[trigger] rows@[i].label@),
            ),
        forall|k: Seq<char>|
            #[trigger] with_key(row_views(rows@), k) == with_key(
                unsorted_rows(pairs(targets@), found@, keyed_mods(*state, *keys)),
                k,
            ),
{
    let ghost mods = keyed_mods(*state, *keys);
    let ghost tv = pairs(targets@);
    let mut rows: Vec<SourceChoiceRow> = Vec::new();
    let mut row_keys: Vec<Vec<char>> = Vec::new();
    let mut t: usize = 0;
    while t < targets.len()
        invariant
            t <= targets@.len(),
            found@.len() == targets@.len(),
            keys.first_mods@.len() == state.step2.bgee_mods@.len(),
            keys.second_mods@.len() == state.step2.bg2ee_mods@.len(),
            mods == keyed_mods(*state, *keys),
            tv == pairs(targets@),
            row_keys@.len() == rows@.len(),
            forall|i: int| 0 <= i < rows@.len() ==> (#[trigger] row_keys@[i])@ == sort_key(row_views(rows@)[i]),
            sorted_by_key(row_views(rows@)),
            forall|k: Seq<char>|
                #[trigger] with_key(row_views(rows@), k) == with_key(
                    unsorted_rows(tv.take(t as int), found@.take(t as int), mods),
                    k,
                ),
        decreases targets@.len() - t,
    {
        let ghost prev_u = unsorted_rows(tv.take(t as int), found@.take(t as int), mods);
        assert(tv.take(t + 1).take(t as int) =~= tv.take(t as int));
        assert(found@.take(t + 1).take(t as int) =~= found@.take(t as int));
        assert(tv.take(t + 1)[t as int] == tv[t as int]);
        assert(found@.take(t + 1)[t as int] == found@[t as int]);
        let locked = update_locked_for(state, keys, targets[t].0.as_str());
        let made = make_row(&targets[t].0, &targets[t].1, &found[t], locked);
        match made {
            None => {},
            Some(row) => {
                let key = lower_chars(&chars_of(row.label.as_str()));
                let ghost x = row_view(row);
                let ghost old_views = row_views(rows@);
                // the place: after every row whose key is not above this one
                let mut p: usize = 0;
                while p < rows.len() && !chars_lex_lt(&key, &row_keys[p])
                    invariant
                        p <= rows@.len(),
                        row_keys@.len() == rows@.len(),
                        old_views == row_views(rows@),
                        key@ == sort_key(x),
                        forall|i: int| 0 <= i < rows@.len() ==> (#[trigger] row_keys@[i])@ == sort_key(old_views[i]),
                        forall|i: int| 0 <= i < p ==> !lex_lt(sort_key(x), sort_key(#[trigger] old_views[i])),
                    decreases rows@.len() - p,
                {
                    p += 1;
                }
                proof {
                    lemma_insert_sorted(old_views, x, p as int);
                }
                let ghost old_keys = row_keys@;
                rows.insert(p, row);
                row_keys.insert(p, key);
                assert(row_views(rows@) =~= old_views.insert(p as int, x));
                assert forall|i: int| 0 <= i < rows@.len() implies (#[trigger] row_keys@[i])@ == sort_key(
                    row_views(rows@)[i],
                ) by {
                    if i < p {
                        assert(row_keys@[i] == old_keys[i]);
                        assert(row_views(rows@)[i] == old_views[i]);
                    } else if i > p {
                        assert(row_keys@[i] == old_keys[i - 1]);
                        assert(row_views(rows@)[i] == old_views[i - 1]);
                    }
                }
                proof {
                    assert(prev_u.push(x).drop_last() =~= prev_u);
                    assert forall|k: Seq<char>| #[trigger] with_key(row_views(rows@), k) == with_key(
                        prev_u.push(x),
                        k,
                    ) by {
                        assert(with_key(old_views, k) == with_key(prev_u, k));
                    }
                }
            },
        }
        t += 1;
    }
    assert(tv.take(targets@.len() as int) =~= tv);
    assert(found@.take(targets@.len() as int) =~= found@);
    proof {
        law_rows_in_label_order_ignoring_case(row_views(rows@));
        assert forall|i: int, j: int| 0 <= i < j < rows@.len() implies !lex_lt(
            ascii_lower(#[trigger] rows@[j].label@),
            ascii_lower(#[trigger] rows@[i].label@),
        ) by {
            assert(row_views(rows@)[i].label == rows@[i].label@);
            assert(row_views(rows@)[j].label == rows@[j].label@);
        }
    }
    rows
}

/// Rows in the order of their sort keys are in the order of their labels
/// taken in ASCII lower case: no later label, lowered, comes before an
/// earlier one, lowered (so labels that differ only in the case of letters
/// sort as equal).
pub proof fn law_rows_in_label_order_ignoring_case(rows: Seq<RowView>)
    requires
        sorted_by_key(rows),
    ensures
        forall|i: int, j: int|
            0 <= i < j < rows.len() ==> !lex_lt(ascii_lower(#[trigger] rows[j].label), ascii_lower(#[trigger] rows[i].label)),
{
    assert forall|i: int, j: int| 0 <= i < j < rows.len() implies !lex_lt(
        ascii_lower(#[trigger] rows[j].label),
        ascii_lower(#[trigger] rows[i].label),
    ) by {
        assert(!lex_lt(sort_key(rows[j]), sort_key(rows[i])));
    }
}

} // verus!
