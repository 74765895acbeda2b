//! Index arithmetic over lists: the rows that satisfy a condition, and how
//! selected positions move when rows are taken out.
use vstd::prelude::*;

verus! {

/// The indices below `n` that satisfy `p`, in increasing order.
pub open spec fn indices_where(n: nat, p: spec_fn(int) -> bool) -> Seq<usize>
    decreases n,
{
    if n == 0 {
        seq![]
    } else {
        let rest = indices_where((n - 1) as nat, p);
        if p(n - 1) {
            rest.push((n - 1) as usize)
        } else {
            rest
        }
    }
}

/// A sequence of indices is strictly increasing.
pub open spec fn strictly_increasing(s: Seq<usize>) -> bool {
    forall|a: int, b: int| 0 <= a < b < s.len() ==> s[a] < s[b]
}

pub proof fn lemma_indices_where(n: nat, p: spec_fn(int) -> bool)
    requires
        n <= usize::MAX + 1,
    ensures
        strictly_increasing(indices_where(n, p)),
        forall|k: int| 0 <= k < indices_where(n, p).len() ==> #[trigger] indices_where(n, p)[k] < n
            && p(indices_where(n, p)[k] as int),
        forall|i: int| 0 <= i < n && p(i) ==> #[trigger] indices_where(n, p).contains(i as usize),
        indices_where(n, p).len() <= n,
    decreases n,
{
    if n > 0 {
        lemma_indices_where((n - 1) as nat, p);
        let rest = indices_where((n - 1) as nat, p);
        assert forall|i: int| 0 <= i < n && p(i) implies #[trigger] indices_where(n, p).contains(i as usize) by {
            if i < n - 1 {
                assert(rest.contains(i as usize));
                let k = choose|k: int| 0 <= k < rest.len() && rest[k] == i as usize;
                assert(indices_where(n, p)[k] == i as usize);
            } else {
                assert(indices_where(n, p)[rest.len() as int] == i as usize);
            }
        }
    }
}

/// Extending the bound by one adds `n` exactly when it qualifies.
pub proof fn lemma_indices_where_step(n: nat, p: spec_fn(int) -> bool)
    ensures
        indices_where(n + 1, p) == (if p(n as int) { indices_where(n, p).push(n as usize) } else {
            indices_where(n, p)
        }),
{
}

/// Two conditions that agree below `n` pick the same indices.
pub proof fn lemma_indices_where_ext(n: nat, p: spec_fn(int) -> bool, q: spec_fn(int) -> bool)
    requires
        forall|i: int| 0 <= i < n ==> #[trigger] p(i) == q(i),
    ensures
        indices_where(n, p) == indices_where(n, q),
    decreases n,
{
    if n > 0 {
        lemma_indices_where_ext((n - 1) as nat, p, q);
    }
}

/// How many indices below `min(s, n)` satisfy `removed`.
pub open spec fn removed_below(n: nat, removed: spec_fn(int) -> bool, s: int) -> nat {
    indices_where(if s < n { s as nat } else { n }, removed).len()
}

/// Where selected positions go when the rows below `n` that satisfy `removed`
/// are taken out: a selected removed row drops out of the selection, every
/// other position moves up by the number of removed rows before it.
pub open spec fn remap_selection(sel: Seq<usize>, n: nat, removed: spec_fn(int) -> bool) -> Seq<
    usize,
>
    decreases sel.len(),
{
    if sel.len() == 0 {
        seq![]
    } else {
        let rest = remap_selection(sel.drop_last(), n, removed);
        let s = sel.last();
        if (s as int) < n && removed(s as int) {
            rest
        } else {
            rest.push((s - removed_below(n, removed, s as int)) as usize)
        }
    }
}

/// The rows of `s` whose index satisfies `keep`, in order.
pub open spec fn keep_where<T>(s: Seq<T>, keep: spec_fn(int) -> bool) -> Seq<T> {
    indices_where(s.len(), keep).map_values(|i: usize| s[i as int])
}

/// Keeping the rows of a list that satisfy `p` after one more row: that row
/// is added at the end when it qualifies.
pub proof fn lemma_keep_where_last<T>(s: Seq<T>, p: spec_fn(int) -> bool)
    requires
        0 < s.len() <= usize::MAX,
    ensures
        keep_where(s, p) == (if p(s.len() - 1) {
            keep_where(s.drop_last(), p).push(s.last())
        } else {
            keep_where(s.drop_last(), p)
        }),
{
    let n = (s.len() - 1) as nat;
    lemma_indices_where(n, p);
    let prev = indices_where(n, p);
    assert forall|k: int| 0 <= k < prev.len() implies s[prev[k] as int] == s.drop_last()[prev[k] as int] by {
        assert(prev[k] < n);
    }
    if p(n as int) {
        assert(keep_where(s, p) =~= keep_where(s.drop_last(), p).push(s.last()));
    } else {
        assert(keep_where(s, p) =~= keep_where(s.drop_last(), p));
    }
}

/// A list is, as a multiset, the rows that satisfy `p` together with the
/// rows that satisfy `q`, its negation.
pub proof fn lemma_keep_where_split<T>(s: Seq<T>, p: spec_fn(int) -> bool, q: spec_fn(int) -> bool)
    requires
        s.len() <= usize::MAX,
        forall|i: int| #[trigger] q(i) == !p(i),
    ensures
        keep_where(s, p).to_multiset().add(keep_where(s, q).to_multiset()) == s.to_multiset(),
    decreases s.len(),
{
    broadcast use vstd::seq_lib::to_multiset_build, vstd::multiset::group_multiset_axioms;

    if s.len() == 0 {
        assert(keep_where(s, p) =~= Seq::<T>::empty());
        assert(keep_where(s, q) =~= Seq::<T>::empty());
        assert(s =~= Seq::<T>::empty());
        vstd::seq_lib::to_multiset_len(s);
        vstd::seq_lib::to_multiset_len(keep_where(s, p));
        vstd::seq_lib::to_multiset_len(keep_where(s, q));
        assert(s.to_multiset() =~= vstd::multiset::Multiset::empty());
        assert(keep_where(s, p).to_multiset() =~= vstd::multiset::Multiset::empty());
        assert(keep_where(s, q).to_multiset() =~= vstd::multiset::Multiset::empty());
    } else {
        let init = s.drop_last();
        lemma_keep_where_split(init, p, q);
        lemma_keep_where_last(s, p);
        lemma_keep_where_last(s, q);
        assert(s =~= init.push(s.last()));
        assert(init.push(s.last()).to_multiset() =~= init.to_multiset().insert(s.last()));
        if p(s.len() - 1) {
            assert(keep_where(init, p).push(s.last()).to_multiset() =~= keep_where(init, p).to_multiset().insert(
                s.last(),
            ));
        } else {
            assert(keep_where(init, q).push(s.last()).to_multiset() =~= keep_where(init, q).to_multiset().insert(
                s.last(),
            ));
        }
    }
}

} // verus!
