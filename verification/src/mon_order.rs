//! Renumbering a trainer's mons after one of them got a new place in the
//! fight order: the other mons keep their relative order
//! and take the numbers 1..n that the moved mon left free.

use vstd::prelude::*;

use crate::option_menu::{has_name, OptionMenu};
use crate::text::{int_text, parse_i64, parse_i64_spec, u64_text};

verus! {

/// What an order menu's text counts as: its number, or -1 when it is none.
pub open spec fn order_value(s: Seq<char>) -> int {
    match parse_i64_spec(s) {
        Some(v) => v as int,
        None => -1,
    }
}

/// The order values of a row of menus.
pub open spec fn menu_values(menus: Seq<OptionMenu>) -> Seq<int> {
    menus.map_values(|m: OptionMenu| order_value(m.current@))
}

/// Mon `i` is renumbered: one of the first `n`, not the moved one, and
/// holding a number.
pub open spec fn participates(vals: Seq<int>, n: int, moved: int, i: int) -> bool {
    0 <= i < n && i != moved && vals[i] != -1
}

/// Mon `j` comes before mon `i`: by order value, then by position.
pub open spec fn precedes(vals: Seq<int>, j: int, i: int) -> bool {
    vals[j] < vals[i] || (vals[j] == vals[i] && j < i)
}

/// How many renumbered mons among the first `k` come before mon `i`.
pub open spec fn count_before(vals: Seq<int>, n: int, moved: int, i: int, k: int) -> nat
    decreases k,
{
    if k <= 0 {
        0
    } else {
        count_before(vals, n, moved, i, k - 1) + if participates(vals, n, moved, k - 1) && precedes(
            vals,
            k - 1,
            i,
        ) {
            1nat
        } else {
            0nat
        }
    }
}

/// Mon `i`'s place among the renumbered mons (0-based).
pub open spec fn order_rank(vals: Seq<int>, n: int, moved: int, i: int) -> nat {
    count_before(vals, n, moved, i, n)
}

/// The `rank`-th of the numbers 1, 2, ... that are not `taken`.
pub open spec fn free_number(rank: nat, taken: int) -> int {
    if rank + 1 < taken || taken < 1 {
        rank + 1int
    } else {
        rank + 2int
    }
}

/// The number mon `i` is given.
pub open spec fn new_number(vals: Seq<int>, n: int, moved: int, i: int) -> int {
    free_number(order_rank(vals, n, moved, i), vals[moved])
}

/// `(v, i) < (w, j)` as `sort()` orders the pairs.
fn pair_before(v: i64, i: usize, w: i64, j: usize) -> (r: bool)
    ensures
        r == (v < w || (v == w && i < j)),
{
    v < w || (v == w && i < j)
}

proof fn lemma_count_bounded(vals: Seq<int>, n: int, moved: int, i: int, k: int)
    ensures
        count_before(vals, n, moved, i, k) <= if k < 0 { 0 } else { k },
    decreases k,
{
    if k > 0 {
        lemma_count_bounded(vals, n, moved, i, k - 1);
    }
}

/// The order values of the menus, read before anything is changed.
fn read_values(menus: &Vec<OptionMenu>) -> (vals: Vec<i64>)
    ensures
        vals.len() == menus.len(),
        forall|k: int| 0 <= k < menus.len() ==> vals@[k] as int == menu_values(menus@)[k],
{
    let mut vals: Vec<i64> = Vec::new();
    let mut k: usize = 0;
    while k < menus.len()
        invariant
            k <= menus.len(),
            vals.len() == k,
            forall|t: int| 0 <= t < k ==> vals@[t] as int == menu_values(menus@)[t],
        decreases menus.len() - k,
    {
        let v: i64 = match parse_i64(menus[k].get()) {
            Some(x) => x,
            None => -1,
        };
        vals.push(v);
        k = k + 1;
    }
    vals
}

/// After the menu at `updated_idx` got a new number, every other numbered
/// mon of the first
/// `num_pkmn` menus is set to its new number (a menu only takes a number
/// that is one of its options); the rest is left as it is.
pub fn reorder_mons(menus: &mut Vec<OptionMenu>, num_pkmn: usize, updated_idx: usize)
    requires
        updated_idx < num_pkmn <= old(menus).len(),
    ensures
        final(menus).len() == old(menus).len(),
        forall|i: int|
            #![trigger final(menus)@[i]]
            0 <= i < old(menus).len() ==> if participates(
                menu_values(old(menus)@),
                num_pkmn as int,
                updated_idx as int,
                i,
            ) {
                let t = int_text(
                    new_number(menu_values(old(menus)@), num_pkmn as int, updated_idx as int, i),
                );
                &&& final(menus)@[i].names() == old(menus)@[i].names()
                &&& final(menus)@[i].current@ == (if has_name(old(menus)@[i].names(), t) {
                    t
                } else {
                    old(menus)@[i].current@
                })
            } else {
                final(menus)@[i] == old(menus)@[i]
            },
{
    let ghost vals_spec = menu_values(old(menus)@);
    let ghost old_menus = old(menus)@;
    let vals = read_values(menus);
    let adjusted = vals[updated_idx];
    let mut i: usize = 0;
    while i < num_pkmn
        invariant
            updated_idx < num_pkmn <= menus.len(),
            menus.len() == old_menus.len(),
            vals.len() == old_menus.len(),
            vals_spec == menu_values(old_menus),
            adjusted as int == vals_spec[updated_idx as int],
            forall|k: int| 0 <= k < old_menus.len() ==> vals@[k] as int == vals_spec[k],
            i <= num_pkmn,
            forall|k: int|
                #![trigger menus@[k]]
                i <= k < old_menus.len() ==> menus@[k] == old_menus[k],
            forall|k: int|
                #![trigger menus@[k]]
                0 <= k < i ==> if participates(vals_spec, num_pkmn as int, updated_idx as int, k) {
                    let t = int_text(new_number(vals_spec, num_pkmn as int, updated_idx as int, k));
                    &&& menus@[k].names() == old_menus[k].names()
                    &&& menus@[k].current@ == (if has_name(old_menus[k].names(), t) {
                        t
                    } else {
                        old_menus[k].current@
                    })
                } else {
                    menus@[k] == old_menus[k]
                },
        decreases num_pkmn - i,
    {
        if i != updated_idx && vals[i] != -1 {
            let mut rank: usize = 0;
            let mut j: usize = 0;
            while j < num_pkmn
                invariant
                    updated_idx < num_pkmn <= vals.len(),
                    i < num_pkmn,
                    vals.len() == old_menus.len(),
                    forall|k: int| 0 <= k < old_menus.len() ==> vals@[k] as int == vals_spec[k],
                    j <= num_pkmn,
                    rank == count_before(vals_spec, num_pkmn as int, updated_idx as int, i as int, j as int),
                decreases num_pkmn - j,
            {
                proof {
                    lemma_count_bounded(vals_spec, num_pkmn as int, updated_idx as int, i as int, j as int);
                }
                if j != updated_idx && vals[j] != -1 && pair_before(vals[j], j, vals[i], i) {
                    rank = rank + 1;
                }
                j = j + 1;
            }
            proof {
                lemma_rank_below(vals_spec, num_pkmn as int, updated_idx as int, i as int);
            }
            let number: usize = if (rank as i128) + 1 < (adjusted as i128) || adjusted < 1 {
                rank + 1
            } else {
                rank + 2
            };
            let text = u64_text(number as u64);
            menus[i].set(text.as_str());
        }
        i = i + 1;
    }
}

// ---------------------------------------------------------------------------
// what the renumbering guarantees
// ---------------------------------------------------------------------------

proof fn lemma_count_mono(vals: Seq<int>, n: int, moved: int, a: int, b: int, k: int)
    requires
        forall|t: int| participates(vals, n, moved, t) && precedes(vals, t, a) ==> precedes(vals, t, b),
    ensures
        count_before(vals, n, moved, a, k) <= count_before(vals, n, moved, b, k),
    decreases k,
{
    if k > 0 {
        lemma_count_mono(vals, n, moved, a, b, k - 1);
    }
}

proof fn lemma_count_strict(vals: Seq<int>, n: int, moved: int, a: int, b: int, k: int)
    requires
        forall|t: int| participates(vals, n, moved, t) && precedes(vals, t, a) ==> precedes(vals, t, b),
        participates(vals, n, moved, a),
        precedes(vals, a, b),
        0 <= a < k,
    ensures
        count_before(vals, n, moved, a, k) < count_before(vals, n, moved, b, k),
    decreases k,
{
    if k - 1 == a {
        lemma_count_mono(vals, n, moved, a, b, k - 1);
        assert(!precedes(vals, a, a));
    } else {
        lemma_count_strict(vals, n, moved, a, b, k - 1);
    }
}

/// Of two renumbered mons, the one earlier in the old order gets the
/// smaller number: the relative order of the other mons is kept.
pub proof fn law_reorder_keeps_relative_order(vals: Seq<int>, n: int, moved: int, a: int, b: int)
    requires
        0 <= moved < n <= vals.len(),
        participates(vals, n, moved, a),
        participates(vals, n, moved, b),
        precedes(vals, a, b),
    ensures
        new_number(vals, n, moved, a) < new_number(vals, n, moved, b),
{
    lemma_count_strict(vals, n, moved, a, b, n);
}

/// No two renumbered mons share a number, and none is given the moved
/// mon's number; every number lies in 1..=n.
pub proof fn law_reorder_numbers_are_distinct(vals: Seq<int>, n: int, moved: int, a: int, b: int)
    requires
        0 <= moved < n <= vals.len(),
        participates(vals, n, moved, a),
        participates(vals, n, moved, b),
        a != b,
    ensures
        new_number(vals, n, moved, a) != new_number(vals, n, moved, b),
        new_number(vals, n, moved, a) != vals[moved],
        1 <= new_number(vals, n, moved, a) <= n,
{
    if precedes(vals, a, b) {
        law_reorder_keeps_relative_order(vals, n, moved, a, b);
    } else {
        law_reorder_keeps_relative_order(vals, n, moved, b, a);
    }
    lemma_rank_below(vals, n, moved, a);
}

proof fn lemma_count_excludes(vals: Seq<int>, n: int, moved: int, i: int, k: int)
    requires
        0 <= moved < n,
        0 <= i < n,
        moved < k <= n,
    ensures
        count_before(vals, n, moved, i, k) <= k - 1,
    decreases k,
{
    if k - 1 == moved {
        lemma_count_bounded(vals, n, moved, i, k - 1);
    } else {
        lemma_count_excludes(vals, n, moved, i, k - 1);
    }
}

proof fn lemma_count_excludes_self(vals: Seq<int>, n: int, moved: int, i: int, k: int)
    requires
        0 <= moved < n,
        0 <= i < n,
        moved != i,
        i < k <= n,
        moved < k,
    ensures
        count_before(vals, n, moved, i, k) <= k - 2,
    decreases k,
{
    if k - 1 == i {
        lemma_count_excludes(vals, n, moved, i, k - 1);
        assert(!precedes(vals, i, i));
    } else if k - 1 == moved {
        lemma_count_bounded(vals, n, moved, i, k - 1);
        if i < k - 1 {
            lemma_count_excludes_self_low(vals, n, moved, i, k - 1);
        }
    } else {
        lemma_count_excludes_self(vals, n, moved, i, k - 1);
    }
}

proof fn lemma_count_excludes_self_low(vals: Seq<int>, n: int, moved: int, i: int, k: int)
    requires
        0 <= i < k <= n,
    ensures
        count_before(vals, n, moved, i, k) <= k - 1,
    decreases k,
{
    if k - 1 == i {
        lemma_count_bounded(vals, n, moved, i, k - 1);
        assert(!precedes(vals, i, i));
    } else {
        lemma_count_excludes_self_low(vals, n, moved, i, k - 1);
    }
}

proof fn lemma_rank_below(vals: Seq<int>, n: int, moved: int, i: int)
    requires
        0 <= moved < n,
        participates(vals, n, moved, i),
    ensures
        order_rank(vals, n, moved, i) <= n - 2,
{
    lemma_count_excludes_self(vals, n, moved, i, n);
}

/// With the first `n` mons all numbered and the moved one at a number in
/// 1..=n, the renumbering hands out 1..=n again: every number other than
/// the moved mon's goes to one of the other mons (and to one only, by
/// `law_reorder_numbers_are_distinct`).
pub proof fn law_reorder_fills_every_number(vals: Seq<int>, n: int, moved: int, x: int)
    requires
        0 <= moved < n <= vals.len(),
        forall|i: int| 0 <= i < n ==> vals[i] != -1,
        1 <= vals[moved] <= n,
        1 <= x <= n,
        x != vals[moved],
    ensures
        exists|i: int| participates(vals, n, moved, i) && new_number(vals, n, moved, i) == x,
{
    let f = |i: int| new_number(vals, n, moved, i);
    let p = vstd::set_lib::set_int_range(0, n).remove(moved);
    let t = vstd::set_lib::set_int_range(1, n + 1).remove(vals[moved]);
    vstd::set_lib::lemma_int_range(0, n);
    vstd::set_lib::lemma_int_range(1, n + 1);
    assert(set_int_range_has(0, n, moved));
    assert(set_int_range_has(1, n + 1, vals[moved]));
    assert(p.len() == n - 1);
    assert(t.len() == n - 1);
    assert(vstd::relations::injective_on(f, p)) by {
        assert forall|a: int, b: int| p.contains(a) && p.contains(b) && #[trigger] f(a) == #[trigger] f(b) implies a
            == b by {
            if a != b {
                law_reorder_numbers_are_distinct(vals, n, moved, a, b);
            }
        }
    }
    let img = p.map(f);
    vstd::set_lib::lemma_map_size(p, img, f);
    assert(img.subset_of(t)) by {
        assert forall|y: int| img.contains(y) implies t.contains(y) by {
            let a = choose|a: int| p.contains(a) && f(a) == y;
            lemma_rank_below(vals, n, moved, a);
        }
    }
    vstd::set_lib::lemma_subset_equality(img, t);
    assert(t.contains(x));
    assert(img.contains(x));
    let w = choose|a: int| p.contains(a) && f(a) == x;
    assert(participates(vals, n, moved, w) && new_number(vals, n, moved, w) == x);
}

/// `lo <= v < hi`, spelled as membership of the range set.
pub open spec fn set_int_range_has(lo: int, hi: int, v: int) -> bool {
    vstd::set_lib::set_int_range(lo, hi).contains(v)
}

} // verus!
