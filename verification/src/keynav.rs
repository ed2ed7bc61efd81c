//! Keyboard marker navigation (Tab / Shift+Tab on the map): the visible
//! markers are ordered by distance from the viewport centre, then by object
//! index, and the selection steps through that order, wrapping.

use vstd::prelude::*;

verus! {

/// A visible marker: its object index and its squared distance from the
/// viewport centre.
pub type Candidate = (u32, i64);

/// `a` comes before `b`: nearer first, then the lower object index.
pub open spec fn key_lt(a: Candidate, b: Candidate) -> bool {
    a.1 < b.1 || (a.1 == b.1 && a.0 < b.0)
}

/// No two candidates are the same object.
pub open spec fn distinct_objects(s: Seq<Candidate>) -> bool {
    forall|i: int, j: int| 0 <= i < s.len() && 0 <= j < s.len() && i != j ==> s[i].0 != s[j].0
}

pub open spec fn is_first(s: Seq<Candidate>, k: int) -> bool {
    0 <= k < s.len() && forall|j: int| 0 <= j < s.len() ==> !key_lt(s[j], s[k])
}

pub open spec fn is_last(s: Seq<Candidate>, k: int) -> bool {
    0 <= k < s.len() && forall|j: int| 0 <= j < s.len() ==> !key_lt(s[k], s[j])
}

pub open spec fn has_after(s: Seq<Candidate>, c: Candidate) -> bool {
    exists|j: int| 0 <= j < s.len() && key_lt(c, s[j])
}

pub open spec fn has_before(s: Seq<Candidate>, c: Candidate) -> bool {
    exists|j: int| 0 <= j < s.len() && key_lt(s[j], c)
}

/// `s[k]` is the first candidate after `c`.
pub open spec fn is_next_after(s: Seq<Candidate>, c: Candidate, k: int) -> bool {
    0 <= k < s.len() && key_lt(c, s[k]) && forall|j: int|
        0 <= j < s.len() && key_lt(c, s[j]) ==> !key_lt(s[j], s[k])
}

/// `s[k]` is the last candidate before `c`.
pub open spec fn is_prev_before(s: Seq<Candidate>, c: Candidate, k: int) -> bool {
    0 <= k < s.len() && key_lt(s[k], c) && forall|j: int|
        0 <= j < s.len() && key_lt(s[j], c) ==> !key_lt(s[k], s[j])
}

/// Where a step lands: from no (or an unlisted) selection the first
/// candidate; forward the next one, wrapping to the first; backward the
/// previous one, wrapping to the last.
pub open spec fn step_lands_on(s: Seq<Candidate>, cur: Option<int>, forward: bool, k: int) -> bool {
    match cur {
        None => is_first(s, k),
        Some(ci) => if forward {
            if has_after(s, s[ci]) {
                is_next_after(s, s[ci], k)
            } else {
                is_first(s, k)
            }
        } else {
            if has_before(s, s[ci]) {
                is_prev_before(s, s[ci], k)
            } else {
                is_last(s, k)
            }
        },
    }
}

/// The position of the selected object among the candidates.
pub open spec fn position_of_object(s: Seq<Candidate>, sel: Option<u32>) -> Option<int> {
    match sel {
        Some(o) => if exists|i: int| 0 <= i < s.len() && s[i].0 == o {
            Some(choose|i: int| 0 <= i < s.len() && s[i].0 == o)
        } else {
            None
        },
        None => None,
    }
}

fn lt(a: Candidate, b: Candidate) -> (r: bool)
    ensures
        r == key_lt(a, b),
{
    a.1 < b.1 || (a.1 == b.1 && a.0 < b.0)
}

fn find_object(s: &Vec<Candidate>, sel: Option<u32>) -> (r: Option<usize>)
    requires
        distinct_objects(s@),
    ensures
        match r {
            Some(i) => position_of_object(s@, sel) == Some(i as int),
            None => position_of_object(s@, sel) is None,
        },
{
    let Some(o) = sel else { return None };
    let mut i: usize = 0;
    while i < s.len()
        invariant
            i <= s.len(),
            distinct_objects(s@),
            sel == Some(o),
            forall|j: int| 0 <= j < i ==> s@[j].0 != o,
        decreases s.len() - i,
    {
        if s[i].0 == o {
            let ghost c = choose|t: int| 0 <= t < s@.len() && s@[t].0 == o;
            assert(c == i) by {
                if c != i {
                    assert(s@[c].0 == s@[i as int].0);
                }
            }
            return Some(i);
        }
        i = i + 1;
    }
    None
}

/// The first candidate in the order.
fn first_index(s: &Vec<Candidate>) -> (k: usize)
    requires
        s.len() > 0,
    ensures
        is_first(s@, k as int),
{
    let mut best: usize = 0;
    let mut i: usize = 1;
    while i < s.len()
        invariant
            s.len() > 0,
            best < s.len(),
            1 <= i <= s.len(),
            forall|j: int| 0 <= j < i ==> !key_lt(s@[j], s@[best as int]),
        decreases s.len() - i,
    {
        if lt(s[i], s[best]) {
            best = i;
        }
        i = i + 1;
    }
    best
}

/// The last candidate in the order.
fn last_index(s: &Vec<Candidate>) -> (k: usize)
    requires
        s.len() > 0,
    ensures
        is_last(s@, k as int),
{
    let mut best: usize = 0;
    let mut i: usize = 1;
    while i < s.len()
        invariant
            s.len() > 0,
            best < s.len(),
            1 <= i <= s.len(),
            forall|j: int| 0 <= j < i ==> !key_lt(s@[best as int], s@[j]),
        decreases s.len() - i,
    {
        if lt(s[best], s[i]) {
            best = i;
        }
        i = i + 1;
    }
    best
}

/// `step_selection`: the object the selection moves to, or `None` when no
/// marker is visible (the selection then stays as it was).
pub fn step_selection(candidates: &Vec<Candidate>, selected: Option<u32>, forward: bool) -> (r: Option<u32>)
    requires
        distinct_objects(candidates@),
    ensures
        r is None <==> candidates@.len() == 0,
        match r {
            Some(o) => exists|k: int|
                step_lands_on(candidates@, position_of_object(candidates@, selected), forward, k)
                    && candidates@[k].0 == o,
            None => true,
        },
{
    let s = candidates;
    if s.len() == 0 {
        return None;
    }
    let cur = find_object(s, selected);
    let Some(ci) = cur else {
        let k = first_index(s);
        assert(step_lands_on(s@, position_of_object(s@, selected), forward, k as int));
        return Some(s[k].0);
    };
    let c = s[ci];
    let mut found: Option<usize> = None;
    let mut i: usize = 0;
    while i < s.len()
        invariant
            i <= s.len(),
            ci < s.len(),
            c == s@[ci as int],
            match found {
                Some(k) => k < s.len() && if forward {
                    key_lt(c, s@[k as int]) && forall|j: int|
                        0 <= j < i && key_lt(c, s@[j]) ==> !key_lt(s@[j], s@[k as int])
                } else {
                    key_lt(s@[k as int], c) && forall|j: int|
                        0 <= j < i && key_lt(s@[j], c) ==> !key_lt(s@[k as int], s@[j])
                },
                None => forall|j: int|
                    0 <= j < i ==> if forward {
                        !key_lt(c, s@[j])
                    } else {
                        !key_lt(s@[j], c)
                    },
            },
        decreases s.len() - i,
    {
        let x = s[i];
        if forward {
            if lt(c, x) {
                match found {
                    None => {
                        found = Some(i);
                    },
                    Some(k) => {
                        if lt(x, s[k]) {
                            found = Some(i);
                        }
                    },
                }
            }
        } else {
            if lt(x, c) {
                match found {
                    None => {
                        found = Some(i);
                    },
                    Some(k) => {
                        if lt(s[k], x) {
                            found = Some(i);
                        }
                    },
                }
            }
        }
        i = i + 1;
    }
    match found {
        Some(k) => {
            assert(step_lands_on(s@, Some(ci as int), forward, k as int));
            Some(s[k].0)
        },
        None => {
            if forward {
                let k = first_index(s);
                assert(step_lands_on(s@, Some(ci as int), forward, k as int));
                Some(s[k].0)
            } else {
                let k = last_index(s);
                assert(step_lands_on(s@, Some(ci as int), forward, k as int));
                Some(s[k].0)
            }
        },
    }
}

/// Tab then Shift+Tab comes back to the marker the selection started on.
pub proof fn law_step_forward_then_back(s: Seq<Candidate>, ci: int, k: int)
    requires
        distinct_objects(s),
        0 <= ci < s.len(),
        step_lands_on(s, Some(ci), true, k),
    ensures
        step_lands_on(s, Some(k), false, ci),
{
    assert(0 <= k < s.len());
    if has_after(s, s[ci]) {
        assert(key_lt(s[ci], s[k]));
        assert(has_before(s, s[k]));
        assert forall|j: int| 0 <= j < s.len() && key_lt(s[j], s[k]) implies !key_lt(
            s[ci],
            s[j],
        ) by {
            if key_lt(s[ci], s[j]) {
                assert(!key_lt(s[j], s[k]));
            }
        }
    } else {
        assert forall|j: int| 0 <= j < s.len() implies !key_lt(s[ci], s[j]) by {}
        if has_before(s, s[k]) {
            let j = choose|j: int| 0 <= j < s.len() && key_lt(s[j], s[k]);
            assert(!key_lt(s[j], s[k]));
        }
        assert forall|j: int| 0 <= j < s.len() implies !key_lt(s[ci], s[j]) by {}
    }
}

/// Shift+Tab then Tab comes back to the marker the selection started on.
pub proof fn law_step_back_then_forward(s: Seq<Candidate>, ci: int, k: int)
    requires
        distinct_objects(s),
        0 <= ci < s.len(),
        step_lands_on(s, Some(ci), false, k),
    ensures
        step_lands_on(s, Some(k), true, ci),
{
    assert(0 <= k < s.len());
    if has_before(s, s[ci]) {
        assert(key_lt(s[k], s[ci]));
        assert(has_after(s, s[k]));
        assert forall|j: int| 0 <= j < s.len() && key_lt(s[k], s[j]) implies !key_lt(
            s[j],
            s[ci],
        ) by {
            if key_lt(s[j], s[ci]) {
                assert(!key_lt(s[k], s[j]));
            }
        }
    } else {
        if has_after(s, s[k]) {
            let j = choose|j: int| 0 <= j < s.len() && key_lt(s[k], s[j]);
            assert(!key_lt(s[k], s[j]));
        }
    }
}

/// The focus banner's ◀ ▶ over `n` anchors: the next (or previous) one,
/// wrapping.
pub fn step_focus_index(idx: usize, n: usize, next: bool) -> (r: usize)
    requires
        idx < n,
    ensures
        r < n,
        next ==> r as int == (idx + 1) % (n as int),
        !next ==> r as int == (idx + n - 1) % (n as int),
{
    if next {
        if idx + 1 == n {
            proof {
                vstd::arithmetic::div_mod::lemma_mod_self_0(n as int);
            }
            0
        } else {
            proof {
                vstd::arithmetic::div_mod::lemma_small_mod((idx + 1) as nat, n as nat);
            }
            idx + 1
        }
    } else {
        if idx == 0 {
            proof {
                vstd::arithmetic::div_mod::lemma_small_mod((n - 1) as nat, n as nat);
            }
            n - 1
        } else {
            proof {
                vstd::arithmetic::div_mod::lemma_small_mod((idx - 1) as nat, n as nat);
                vstd::arithmetic::div_mod::lemma_mod_add_multiples_vanish(idx - 1, n as int);
            }
            idx - 1
        }
    }
}

} // verus!
