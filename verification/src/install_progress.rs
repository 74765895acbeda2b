//! The step 5 heading while an install runs: which mod of the install order
//! is being installed, counted over the distinct mods of one game's list.
use vstd::prelude::*;

use crate::items::{names, Step3ItemState};
use crate::text::{
    decimal, eq_ignore_ascii_case, is_blank, is_blank_exec, push_decimal, push_str,
    str_eq_ignore_ascii_case,
};

verus! {

/// Whether `list` holds a name equal to `n` ignoring ASCII case.
pub open spec fn has_name(list: Seq<Seq<char>>, n: Seq<char>) -> bool {
    exists|k: int| 0 <= k < list.len() && eq_ignore_ascii_case(#[trigger] list[k], n)
}

/// Which rows of a step 3 list are mod headers.
pub open spec fn parent_flags(items: Seq<Step3ItemState>) -> Seq<bool> {
    Seq::new(items.len(), |i: int| items[i].is_parent)
}

/// The mods of an install order, each once, in order of first appearance:
/// the tp2 names of the component rows (headers are skipped), blank names
/// left out, and names that differ only in ASCII case counted once.
pub open spec fn mod_order(parents: Seq<bool>, tp2s: Seq<Seq<char>>) -> Seq<Seq<char>>
    decreases tp2s.len(),
{
    if tp2s.len() == 0 {
        seq![]
    } else {
        let n = tp2s.len() - 1;
        let prev = mod_order(parents.take(n), tp2s.take(n));
        let t = tp2s[n];
        if parents[n] || is_blank(t) || has_name(prev, t) {
            prev
        } else {
            prev.push(t)
        }
    }
}

/// The install order counts each mod once: no two of its names are equal
/// ignoring ASCII case, and none is blank.
pub proof fn law_mod_order_names_each_mod_once(parents: Seq<bool>, tp2s: Seq<Seq<char>>)
    ensures
        forall|i: int, j: int|
            0 <= i < j < mod_order(parents, tp2s).len() ==> !eq_ignore_ascii_case(
                #[trigger] mod_order(parents, tp2s)[i],
                #[trigger] mod_order(parents, tp2s)[j],
            ),
        forall|i: int| 0 <= i < mod_order(parents, tp2s).len() ==> !is_blank(#[trigger] mod_order(parents, tp2s)[i]),
    decreases tp2s.len(),
{
    if tp2s.len() > 0 {
        let n = tp2s.len() - 1;
        law_mod_order_names_each_mod_once(parents.take(n), tp2s.take(n));
        let prev = mod_order(parents.take(n), tp2s.take(n));
        let t = tp2s[n];
        if !(parents[n] || is_blank(t) || has_name(prev, t)) {
            let order = prev.push(t);
            assert forall|i: int, j: int| 0 <= i < j < order.len() implies !eq_ignore_ascii_case(
                #[trigger] order[i],
                #[trigger] order[j],
            ) by {
                if j == order.len() - 1 {
                    assert(order[i] == prev[i]);
                    if eq_ignore_ascii_case(order[i], order[j]) {
                        assert(eq_ignore_ascii_case(prev[i], t));
                    }
                } else {
                    assert(order[i] == prev[i] && order[j] == prev[j]);
                }
            }
            assert forall|i: int| 0 <= i < order.len() implies !is_blank(#[trigger] order[i]) by {
                if i < prev.len() {
                    assert(order[i] == prev[i]);
                }
            }
        }
    }
}

/// Whether `list` holds `n` ignoring ASCII case.
fn has_name_exec(list: &Vec<String>, n: &str) -> (r: bool)
    ensures
        r == has_name(names(list@), n@),
{
    let mut k: usize = 0;
    while k < list.len()
        invariant
            k <= list@.len(),
            forall|j: int| 0 <= j < k ==> !eq_ignore_ascii_case(#[trigger] names(list@)[j], n@),
        decreases list@.len() - k,
    {
        if str_eq_ignore_ascii_case(list[k].as_str(), n) {
            assert(eq_ignore_ascii_case(names(list@)[k as int], n@));
            return true;
        }
        k += 1;
    }
    false
}

/// The position (from 1) of the mod `current_tp2` in the install order of
/// `items`, with the number of mods in that order; `None` when it is not one
/// of them. `tp2s[i]` is the normalized tp2 file name of `items[i]`.
pub fn mod_progress_for_items(current_tp2: &str, items: &Vec<Step3ItemState>, tp2s: &Vec<String>) -> (r:
    Option<(usize, usize)>)
    requires
        tp2s@.len() == items@.len(),
    ensures
        ({
            let order = mod_order(parent_flags(items@), names(tp2s@));
            &&& r is None <==> !has_name(order, current_tp2@)
            &&& r matches Some((i, total)) ==> {
                &&& total == order.len()
                &&& 1 <= i <= total
                &&& eq_ignore_ascii_case(order[i - 1], current_tp2@)
                &&& forall|j: int| 0 <= j < i - 1 ==> !eq_ignore_ascii_case(#[trigger] order[j], current_tp2@)
            }
        }),
{
    let ghost parents = parent_flags(items@);
    let ghost all = names(tp2s@);
    let mut order: Vec<String> = Vec::new();
    let mut i: usize = 0;
    while i < items.len()
        invariant
            i <= items@.len(),
            tp2s@.len() == items@.len(),
            parents == parent_flags(items@),
            all == names(tp2s@),
            names(order@) == mod_order(parents.take(i as int), all.take(i as int)),
            order@.len() <= i,
        decreases items@.len() - i,
    {
        assert(parents.take(i + 1).take(i as int) =~= parents.take(i as int));
        assert(all.take(i + 1).take(i as int) =~= all.take(i as int));
        assert(all.take(i + 1)[i as int] == tp2s@[i as int]@);
        assert(parents.take(i + 1)[i as int] == items@[i as int].is_parent);
        let t = tp2s[i].as_str();
        if !items[i].is_parent && !is_blank_exec(t) && !has_name_exec(&order, t) {
            order.push(tp2s[i].clone());
            assert(names(order@) =~= mod_order(parents.take(i as int), all.take(i as int)).push(
                tp2s@[i as int]@,
            ));
        }
        i += 1;
    }
    assert(parents.take(items@.len() as int) =~= parents);
    assert(all.take(items@.len() as int) =~= all);
    let ghost order_s = names(order@);
    assert(order_s == mod_order(parent_flags(items@), names(tp2s@)));
    let mut k: usize = 0;
    while k < order.len()
        invariant
            k <= order@.len(),
            order_s == names(order@),
            order_s == mod_order(parent_flags(items@), names(tp2s@)),
            forall|j: int| 0 <= j < k ==> !eq_ignore_ascii_case(#[trigger] order_s[j], current_tp2@),
        decreases order@.len() - k,
    {
        if str_eq_ignore_ascii_case(order[k].as_str(), current_tp2) {
            assert(eq_ignore_ascii_case(order_s[k as int], current_tp2@));
            return Some((k + 1, order.len()));
        }
        k += 1;
    }
    None
}

/// The step 5 heading when no mod progress is shown.
pub open spec fn plain_title() -> Seq<char> {
    "Step 5: Install, Logs, Diagnostics"@
}

/// The step 5 heading while mod `i` of `total` of `game`'s list installs.
pub open spec fn installing_title(game: Seq<char>, i: nat, total: nat) -> Seq<char> {
    plain_title() + " \u{2014} Installing "@ + game + " mod "@ + decimal(i) + "/"@ + decimal(total)
}

/// The step 5 heading for the given progress in the two lists: it names a
/// mod only when the install runs, a mod is being installed, and that mod
/// is found in exactly one of the two lists.
pub open spec fn step5_title_spec(
    install_running: bool,
    current_tp2: Option<Seq<char>>,
    first_slot_name: Seq<char>,
    first: Option<(usize, usize)>,
    second: Option<(usize, usize)>,
) -> Seq<char> {
    if !install_running {
        plain_title()
    } else {
        match current_tp2 {
            None => plain_title(),
            Some(t) => if is_blank(t) {
                plain_title()
            } else {
                match (first, second) {
                    (Some((i, total)), None) => installing_title(first_slot_name, i as nat, total as nat),
                    (None, Some((i, total))) => installing_title("BG2EE"@, i as nat, total as nat),
                    _ => plain_title(),
                }
            },
        }
    }
}

/// The progress of `current_tp2` in one list, as `mod_progress_for_items`
/// states it (a name for the value it returns).
pub open spec fn progress_of(current_tp2: Seq<char>, items: Seq<Step3ItemState>, tp2s: Seq<String>) -> Option<
    (usize, usize),
> {
    let order = mod_order(parent_flags(items), names(tp2s));
    if has_name(order, current_tp2) {
        let k = choose|k: int|
            0 <= k < order.len() && eq_ignore_ascii_case(order[k], current_tp2) && forall|j: int|
                0 <= j < k ==> !eq_ignore_ascii_case(#[trigger] order[j], current_tp2);
        Some(((k + 1) as usize, order.len() as usize))
    } else {
        None
    }
}

/// Two results of `mod_progress_for_items` for the same list agree.
proof fn lemma_progress_is_determined(
    current_tp2: Seq<char>,
    items: Seq<Step3ItemState>,
    tp2s: Seq<String>,
    r: Option<(usize, usize)>,
)
    requires
        ({
            let order = mod_order(parent_flags(items), names(tp2s));
            &&& r is None <==> !has_name(order, current_tp2)
            &&& r matches Some((i, total)) ==> {
                &&& total == order.len()
                &&& 1 <= i <= total
                &&& eq_ignore_ascii_case(order[i - 1], current_tp2)
                &&& forall|j: int| 0 <= j < i - 1 ==> !eq_ignore_ascii_case(#[trigger] order[j], current_tp2)
            }
        }),
    ensures
        r == progress_of(current_tp2, items, tp2s),
{
    let order = mod_order(parent_flags(items), names(tp2s));
    if let Some((i, total)) = r {
        let w = (i - 1) as int;
        assert(0 <= w < order.len() && eq_ignore_ascii_case(order[w], current_tp2) && forall|j: int|
            0 <= j < w ==> !eq_ignore_ascii_case(#[trigger] order[j], current_tp2));
        let k = choose|k: int|
            0 <= k < order.len() && eq_ignore_ascii_case(order[k], current_tp2) && forall|j: int|
                0 <= j < k ==> !eq_ignore_ascii_case(#[trigger] order[j], current_tp2);
        if k < w {
            assert(!eq_ignore_ascii_case(order[k], current_tp2));
        }
        if w < k {
            assert(!eq_ignore_ascii_case(order[w], current_tp2));
        }
    }
}

proof fn lemma_mod_order_len(parents: Seq<bool>, tp2s: Seq<Seq<char>>)
    ensures
        mod_order(parents, tp2s).len() <= tp2s.len(),
    decreases tp2s.len(),
{
    if tp2s.len() > 0 {
        let n = tp2s.len() - 1;
        lemma_mod_order_len(parents.take(n), tp2s.take(n));
    }
}

/// The progress of a mod found at `k` (its first match) in a list's
/// install order is `k + 1` of the order's length; a mod not found has none.
proof fn lemma_progress_at(current_tp2: Seq<char>, items: Seq<Step3ItemState>, tp2s: Seq<String>, k: int)
    requires
        tp2s.len() <= usize::MAX,
    ensures
        ({
            let order = mod_order(parent_flags(items), names(tp2s));
            &&& !has_name(order, current_tp2) ==> progress_of(current_tp2, items, tp2s) is None
            &&& (0 <= k < order.len() && eq_ignore_ascii_case(order[k], current_tp2) && forall|j: int|
                0 <= j < k ==> !eq_ignore_ascii_case(#[trigger] order[j], current_tp2)) ==> progress_of(
                current_tp2,
                items,
                tp2s,
            ) == Some(((k + 1) as usize, order.len() as usize))
        }),
{
    let order = mod_order(parent_flags(items), names(tp2s));
    lemma_mod_order_len(parent_flags(items), names(tp2s));
    if !has_name(order, current_tp2) {
        lemma_progress_is_determined(current_tp2, items, tp2s, None);
    }
    if 0 <= k < order.len() && eq_ignore_ascii_case(order[k], current_tp2) && forall|j: int|
        0 <= j < k ==> !eq_ignore_ascii_case(#[trigger] order[j], current_tp2) {
        let r = Some(((k + 1) as usize, order.len() as usize));
        assert(has_name(order, current_tp2));
        lemma_progress_is_determined(current_tp2, items, tp2s, r);
    }
}

/// While an install runs and the running mod `t` (not blank) is found in
/// one list only, at position `k` of that list's install order (its first
/// name equal to `t` ignoring ASCII case), the heading names the list's
/// game (the first slot's name for the first list, BG2EE for the second),
/// then the mod's position counted from 1, then the number of mods in that
/// order.
pub proof fn law_heading_gives_position_then_total(
    t: Seq<char>,
    first_slot_name: Seq<char>,
    first_items: Seq<Step3ItemState>,
    first_tp2s: Seq<String>,
    second_items: Seq<Step3ItemState>,
    second_tp2s: Seq<String>,
    k: int,
)
    requires
        !is_blank(t),
        first_tp2s.len() <= usize::MAX,
        second_tp2s.len() <= usize::MAX,
    ensures
        ({
            let first = mod_order(parent_flags(first_items), names(first_tp2s));
            let second = mod_order(parent_flags(second_items), names(second_tp2s));
            let title = step5_title_spec(
                true,
                Some(t),
                first_slot_name,
                progress_of(t, first_items, first_tp2s),
                progress_of(t, second_items, second_tp2s),
            );
            &&& (0 <= k < first.len() && eq_ignore_ascii_case(first[k], t) && (forall|j: int|
                0 <= j < k ==> !eq_ignore_ascii_case(#[trigger] first[j], t)) && !has_name(second, t))
                ==> title == "Step 5: Install, Logs, Diagnostics \u{2014} Installing "@ + first_slot_name
                + " mod "@ + decimal((k + 1) as nat) + "/"@ + decimal(first.len())
            &&& (0 <= k < second.len() && eq_ignore_ascii_case(second[k], t) && (forall|j: int|
                0 <= j < k ==> !eq_ignore_ascii_case(#[trigger] second[j], t)) && !has_name(first, t))
                ==> title == "Step 5: Install, Logs, Diagnostics \u{2014} Installing BG2EE mod "@
                + decimal((k + 1) as nat) + "/"@ + decimal(second.len())
        }),
{
    reveal_strlit("Step 5: Install, Logs, Diagnostics \u{2014} Installing ");
    reveal_strlit("Step 5: Install, Logs, Diagnostics \u{2014} Installing BG2EE mod ");
    reveal_strlit("Step 5: Install, Logs, Diagnostics");
    reveal_strlit(" \u{2014} Installing ");
    reveal_strlit("BG2EE");
    reveal_strlit(" mod ");
    lemma_progress_at(t, first_items, first_tp2s, k);
    lemma_progress_at(t, second_items, second_tp2s, k);
    let a = "Step 5: Install, Logs, Diagnostics"@ + " \u{2014} Installing "@;
    assert(a =~= "Step 5: Install, Logs, Diagnostics \u{2014} Installing "@);
    assert(a + "BG2EE"@ + " mod "@ =~= "Step 5: Install, Logs, Diagnostics \u{2014} Installing BG2EE mod "@);
    lemma_mod_order_len(parent_flags(first_items), names(first_tp2s));
    lemma_mod_order_len(parent_flags(second_items), names(second_tp2s));
}

/// The heading names no mod when no install runs, when no mod (or a blank
/// name) is being installed, or when the mod is found in both lists or in
/// neither.
pub proof fn law_heading_is_plain_without_one_list(
    install_running: bool,
    current_tp2: Option<Seq<char>>,
    first_slot_name: Seq<char>,
    first: Option<(usize, usize)>,
    second: Option<(usize, usize)>,
)
    requires
        !install_running || current_tp2 is None || is_blank(current_tp2->0) || (first is Some) == (second is Some),
    ensures
        step5_title_spec(install_running, current_tp2, first_slot_name, first, second)
            == "Step 5: Install, Logs, Diagnostics"@,
{
}

/// The step 5 heading. `current_tp2` is the normalized tp2 name of the mod
/// the install is running (when one is known); `first_slot_name` is the tab
/// name of the first game slot; `first_tp2s` and `second_tp2s` hold the
/// normalized tp2 names of the rows of the two step 3 lists.
pub fn step5_title(
    install_running: bool,
    current_tp2: Option<&str>,
    first_slot_name: &str,
    first_items: &Vec<Step3ItemState>,
    first_tp2s: &Vec<String>,
    second_items: &Vec<Step3ItemState>,
    second_tp2s: &Vec<String>,
) -> (title: String)
    requires
        first_tp2s@.len() == first_items@.len(),
        second_tp2s@.len() == second_items@.len(),
    ensures
        title@ == step5_title_spec(
            install_running,
            match current_tp2 {
                Some(t) => Some(t@),
                None => None,
            },
            first_slot_name@,
            match current_tp2 {
                Some(t) => progress_of(t@, first_items@, first_tp2s@),
                None => None,
            },
            match current_tp2 {
                Some(t) => progress_of(t@, second_items@, second_tp2s@),
                None => None,
            },
        ),
{
    proof {
        reveal_strlit("Step 5: Install, Logs, Diagnostics");
        reveal_strlit(" \u{2014} Installing ");
        reveal_strlit(" mod ");
        reveal_strlit("/");
        reveal_strlit("BG2EE");
    }
    let plain = "Step 5: Install, Logs, Diagnostics";
    if !install_running {
        return String::from_str(plain);
    }
    let current = match current_tp2 {
        None => {
            return String::from_str(plain);
        },
        Some(t) => t,
    };
    if is_blank_exec(current) {
        return String::from_str(plain);
    }
    let first = mod_progress_for_items(current, first_items, first_tp2s);
    let second = mod_progress_for_items(current, second_items, second_tp2s);
    proof {
        lemma_progress_is_determined(current@, first_items@, first_tp2s@, first);
        lemma_progress_is_determined(current@, second_items@, second_tp2s@, second);
    }
    let (game, i, total) = match (first, second) {
        (Some((i, total)), None) => (first_slot_name, i, total),
        (None, Some((i, total))) => ("BG2EE", i, total),
        _ => {
            return String::from_str(plain);
        },
    };
    let mut s = String::from_str(plain);
    push_str(&mut s, " \u{2014} Installing ");
    push_str(&mut s, game);
    push_str(&mut s, " mod ");
    push_decimal(&mut s, i);
    push_str(&mut s, "/");
    push_decimal(&mut s, total);
    s
}

} // verus!
