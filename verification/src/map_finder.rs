//! The map's item finder: the item names placed on the map that contain
//! what was typed (case-insensitive), each with its number of balls and
//! hidden spots, in alphabetical order of their lowercase names.

use vstd::prelude::*;

use crate::map_view::{ItemHit, ObjectKind};
use crate::text::{chars_of, contains_seq, contains_str, eq_str, lowercase, occurs_at, to_lowercase, trim, trim_seq};

verus! {

/// What the finder reads of a placed object: its kind, and for an item
/// ball or a hidden item the item it holds and whether it is a fake (a
/// trap that only looks like a ball).
pub struct PlacedObject {
    pub kind: ObjectKind,
    pub item: Option<String>,
    pub fake: bool,
}

/// The item a placed object stands for: a real item ball or hidden item.
pub open spec fn item_name(o: PlacedObject) -> Option<Seq<char>> {
    if (o.kind == ObjectKind::Item || o.kind == ObjectKind::HiddenItem) && !o.fake {
        match o.item {
            Some(n) => Some(n@),
            None => None,
        }
    } else {
        None
    }
}

pub fn item_of(o: &PlacedObject) -> (r: Option<&String>)
    ensures
        match r {
            Some(n) => item_name(*o) == Some(n@),
            None => item_name(*o) is None,
        },
{
    if (o.kind == ObjectKind::Item || o.kind == ObjectKind::HiddenItem) && !o.fake {
        match &o.item {
            Some(n) => Some(n),
            None => None,
        }
    } else {
        None
    }
}

/// Whether `name` is found for the lowercase query `q` (everything for an
/// empty one).
pub open spec fn name_matches(name: Seq<char>, q: Seq<char>) -> bool {
    q.len() == 0 || contains_seq(lowercase(name), q)
}

/// A finder line: the name, its balls and hidden spots.
pub type Tally = (Seq<char>, nat, nat);

/// The position of `name` among the lines.
pub open spec fn line_of(lines: Seq<Tally>, name: Seq<char>) -> Option<int> {
    if exists|i: int| 0 <= i < lines.len() && lines[i].0 == name {
        Some(choose|i: int| 0 <= i < lines.len() && lines[i].0 == name)
    } else {
        None
    }
}

/// The lines for the first `n` objects, in the order the names first
/// appear.
pub open spec fn tally(objs: Seq<PlacedObject>, q: Seq<char>, n: int) -> Seq<Tally>
    decreases n,
{
    if n <= 0 {
        Seq::empty()
    } else {
        let t = tally(objs, q, n - 1);
        let o = objs[n - 1];
        match item_name(o) {
            Some(name) => if name_matches(name, q) {
                let hidden = o.kind == ObjectKind::HiddenItem;
                match line_of(t, name) {
                    Some(i) => t.update(
                        i,
                        (name, if hidden { t[i].1 } else { t[i].1 + 1 }, if hidden {
                            t[i].2 + 1
                        } else {
                            t[i].2
                        }),
                    ),
                    None => t.push((name, if hidden { 0nat } else { 1nat }, if hidden { 1nat } else { 0nat })),
                }
            } else {
                t
            },
            None => t,
        }
    }
}

/// Names appear once among the lines.
pub open spec fn distinct_names(lines: Seq<Tally>) -> bool {
    forall|i: int, j: int| 0 <= i < j < lines.len() ==> lines[i].0 != lines[j].0
}

// ---------------------------------------------------------------------------
// alphabetical order of lowercase names
// ---------------------------------------------------------------------------

/// `a` comes before `b`: the first differing character is smaller, or `a`
/// is a proper prefix of `b`.
pub open spec fn lex_lt(a: Seq<char>, b: Seq<char>) -> bool
    decreases a.len(),
{
    if a.len() == 0 {
        b.len() > 0
    } else if b.len() == 0 {
        false
    } else if a[0] != b[0] {
        a[0] < b[0]
    } else {
        lex_lt(a.drop_first(), b.drop_first())
    }
}

/// A line's sort key.
pub open spec fn line_key(t: Tally) -> Seq<char> {
    lowercase(t.0)
}

/// `x` among sorted lines: before the first line whose key is greater.
pub open spec fn insert_sorted(s: Seq<Tally>, x: Tally) -> Seq<Tally>
    decreases s.len(),
{
    if s.len() == 0 {
        seq![x]
    } else if lex_lt(line_key(x), line_key(s[0])) {
        seq![x] + s
    } else {
        seq![s[0]] + insert_sorted(s.drop_first(), x)
    }
}

/// The lines sorted by key, lines with equal keys kept in their order.
pub open spec fn sorted_lines(s: Seq<Tally>) -> Seq<Tally>
    decreases s.len(),
{
    if s.len() == 0 {
        Seq::empty()
    } else {
        insert_sorted(sorted_lines(s.drop_last()), s.last())
    }
}

/// Keys never decrease along the lines.
pub open spec fn keys_ascend(s: Seq<Tally>) -> bool {
    forall|i: int, j: int| 0 <= i < j < s.len() ==> !lex_lt(line_key(s[j]), line_key(s[i]))
}

pub proof fn lemma_lex_irreflexive(a: Seq<char>)
    ensures
        !lex_lt(a, a),
    decreases a.len(),
{
    if a.len() > 0 {
        lemma_lex_irreflexive(a.drop_first());
    }
}

pub proof fn lemma_lex_total(a: Seq<char>, b: Seq<char>)
    ensures
        a == b || lex_lt(a, b) || lex_lt(b, a),
    decreases a.len(),
{
    if a.len() > 0 && b.len() > 0 && a[0] == b[0] {
        lemma_lex_total(a.drop_first(), b.drop_first());
        if a.drop_first() == b.drop_first() {
            assert(a =~= seq![a[0]] + a.drop_first());
            assert(b =~= seq![b[0]] + b.drop_first());
        }
    } else if a.len() == 0 && b.len() == 0 {
        assert(a =~= b);
    }
}

pub proof fn lemma_lex_transitive(a: Seq<char>, b: Seq<char>, c: Seq<char>)
    requires
        lex_lt(a, b),
        lex_lt(b, c),
    ensures
        lex_lt(a, c),
    decreases a.len(),
{
    if a.len() > 0 && b.len() > 0 && c.len() > 0 && a[0] == b[0] && b[0] == c[0] {
        lemma_lex_transitive(a.drop_first(), b.drop_first(), c.drop_first());
    }
}

proof fn lemma_lex_asym(a: Seq<char>, b: Seq<char>)
    requires
        lex_lt(a, b),
    ensures
        !lex_lt(b, a),
{
    if lex_lt(b, a) {
        lemma_lex_transitive(a, b, a);
        lemma_lex_irreflexive(a);
    }
}

proof fn lemma_insert_keeps_order(s: Seq<Tally>, x: Tally)
    requires
        keys_ascend(s),
    ensures
        keys_ascend(insert_sorted(s, x)),
        insert_sorted(s, x).to_multiset() == s.to_multiset().insert(x),
        insert_sorted(s, x).len() == s.len() + 1,
    decreases s.len(),
{
    broadcast use vstd::seq_lib::group_to_multiset_ensures;

    if s.len() == 0 {
        assert(insert_sorted(s, x) =~= seq![x]);
        assert(seq![x] =~= Seq::<Tally>::empty().push(x));
    } else if lex_lt(line_key(x), line_key(s[0])) {
        let r = seq![x] + s;
        assert forall|i: int, j: int| 0 <= i < j < r.len() implies !lex_lt(line_key(r[j]), line_key(r[i])) by {
            if i == 0 {
                if j > 1 {
                    assert(!lex_lt(line_key(s[j - 1]), line_key(s[0])));
                    if lex_lt(line_key(s[j - 1]), line_key(x)) {
                        lemma_lex_transitive(line_key(s[j - 1]), line_key(x), line_key(s[0]));
                    }
                } else {
                    lemma_lex_asym(line_key(x), line_key(s[0]));
                }
            } else {
                assert(r[i] == s[i - 1] && r[j] == s[j - 1]);
            }
        }
        assert(r =~= s.insert(0, x));
    } else {
        let rest = s.drop_first();
        assert(keys_ascend(rest)) by {
            assert forall|i: int, j: int| 0 <= i < j < rest.len() implies !lex_lt(
                line_key(rest[j]),
                line_key(rest[i]),
            ) by {
                assert(rest[i] == s[i + 1] && rest[j] == s[j + 1]);
            }
        }
        lemma_insert_keeps_order(rest, x);
        let t = insert_sorted(rest, x);
        let r = seq![s[0]] + t;
        assert forall|i: int, j: int| 0 <= i < j < r.len() implies !lex_lt(line_key(r[j]), line_key(r[i])) by {
            if i == 0 {
                assert(r[j] == t[j - 1]);
                assert(t.to_multiset().contains(t[j - 1]));
                assert(rest.to_multiset().insert(x).contains(t[j - 1]));
                if t[j - 1] == x {
                    lemma_lex_total(line_key(x), line_key(s[0]));
                } else {
                    assert(rest.to_multiset().contains(t[j - 1]));
                    assert(rest.contains(t[j - 1]));
                    let k = choose|k: int| 0 <= k < rest.len() && rest[k] == t[j - 1];
                    assert(rest[k] == s[k + 1]);
                }
            } else {
                assert(r[i] == t[i - 1] && r[j] == t[j - 1]);
            }
        }
        assert(s =~= seq![s[0]] + rest);
        assert((seq![s[0]] + t).to_multiset() =~= t.to_multiset().insert(s[0])) by {
            assert(seq![s[0]] + t =~= t.insert(0, s[0]));
        }
        assert(s.to_multiset() =~= rest.to_multiset().insert(s[0])) by {
            assert(s =~= rest.insert(0, s[0]));
        }
    }
}

/// The sorted lines are the same lines, in ascending key order.
pub proof fn law_sorted_lines(s: Seq<Tally>)
    ensures
        keys_ascend(sorted_lines(s)),
        sorted_lines(s).to_multiset() == s.to_multiset(),
        sorted_lines(s).len() == s.len(),
    decreases s.len(),
{
    broadcast use vstd::seq_lib::group_to_multiset_ensures;

    if s.len() > 0 {
        law_sorted_lines(s.drop_last());
        lemma_insert_keeps_order(sorted_lines(s.drop_last()), s.last());
        assert(s =~= s.drop_last().push(s.last()));
    }
}

/// The finder lists each found item name once: every name of a real item
/// among the first `n` objects that matches the query has a line, and
/// every line is such a name.
pub proof fn law_finder_names(objs: Seq<PlacedObject>, q: Seq<char>, n: int)
    requires
        0 <= n <= objs.len(),
    ensures
        distinct_names(tally(objs, q, n)),
        forall|i: int|
            0 <= i < tally(objs, q, n).len() ==> name_matches(#[trigger] tally(objs, q, n)[i].0, q) && exists|k: int|
                0 <= k < n && #[trigger] item_name(objs[k]) == Some(tally(objs, q, n)[i].0),
        forall|k: int|
            0 <= k < n && (#[trigger] item_name(objs[k])) is Some && name_matches(item_name(objs[k])->0, q) ==> exists|i: int|
                0 <= i < tally(objs, q, n).len() && #[trigger] tally(objs, q, n)[i].0 == item_name(objs[k])->0,
    decreases n,
{
    if n > 0 {
        law_finder_names(objs, q, n - 1);
        let t = tally(objs, q, n - 1);
        let u = tally(objs, q, n);
        let o = objs[n - 1];
        match item_name(o) {
            Some(name) => {
                if name_matches(name, q) {
                    match line_of(t, name) {
                        Some(c) => {
                            assert(0 <= c < t.len() && t[c].0 == name);
                            assert(u.len() == t.len());
                            assert forall|i: int| 0 <= i < u.len() implies u[i].0 == t[i].0 by {}
                            assert forall|i: int| 0 <= i < u.len() implies name_matches(#[trigger] u[i].0, q)
                                && exists|k: int| 0 <= k < n && #[trigger] item_name(objs[k]) == Some(u[i].0) by {
                                assert(u[i].0 == t[i].0);
                                assert(name_matches(t[i].0, q));
                                let k = choose|k: int| 0 <= k < n - 1 && #[trigger] item_name(objs[k]) == Some(t[i].0);
                                assert(item_name(objs[k]) == Some(u[i].0));
                            }
                            assert forall|k: int|
                                0 <= k < n && (#[trigger] item_name(objs[k])) is Some && name_matches(item_name(objs[k])->0, q)
                                implies exists|i: int| 0 <= i < u.len() && #[trigger] u[i].0 == item_name(objs[k])->0 by {
                                if k == n - 1 {
                                    assert(u[c].0 == name);
                                } else {
                                    let i = choose|i: int| 0 <= i < t.len() && #[trigger] t[i].0 == item_name(objs[k])->0;
                                    assert(u[i].0 == t[i].0);
                                }
                            }
                        },
                        None => {
                            assert(!(exists|i: int| 0 <= i < t.len() && t[i].0 == name));
                            assert(u == t.push((name, if o.kind == ObjectKind::HiddenItem { 0nat } else { 1nat }, if o.kind == ObjectKind::HiddenItem { 1nat } else { 0nat })));
                            assert forall|i: int| 0 <= i < u.len() implies name_matches(#[trigger] u[i].0, q)
                                && exists|k: int| 0 <= k < n && #[trigger] item_name(objs[k]) == Some(u[i].0) by {
                                if i == t.len() {
                                    assert(item_name(objs[n - 1]) == Some(u[i].0));
                                } else {
                                    assert(u[i] == t[i]);
                                    assert(name_matches(t[i].0, q));
                                    let k = choose|k: int| 0 <= k < n - 1 && #[trigger] item_name(objs[k]) == Some(t[i].0);
                                    assert(item_name(objs[k]) == Some(u[i].0));
                                }
                            }
                            assert forall|k: int|
                                0 <= k < n && (#[trigger] item_name(objs[k])) is Some && name_matches(item_name(objs[k])->0, q)
                                implies exists|i: int| 0 <= i < u.len() && #[trigger] u[i].0 == item_name(objs[k])->0 by {
                                if k == n - 1 {
                                    assert(u[t.len() as int].0 == name);
                                } else {
                                    let i = choose|i: int| 0 <= i < t.len() && #[trigger] t[i].0 == item_name(objs[k])->0;
                                    assert(u[i] == t[i]);
                                }
                            }
                        },
                    }
                } else {
                    assert(u == t);
                    assert forall|i: int| 0 <= i < u.len() implies name_matches(#[trigger] u[i].0, q)
                        && exists|k: int| 0 <= k < n && #[trigger] item_name(objs[k]) == Some(u[i].0) by {
                        let k = choose|k: int| 0 <= k < n - 1 && #[trigger] item_name(objs[k]) == Some(t[i].0);
                        assert(item_name(objs[k]) == Some(u[i].0));
                    }
                }
            },
            None => {
                assert(u == t);
                assert forall|i: int| 0 <= i < u.len() implies name_matches(#[trigger] u[i].0, q)
                    && exists|k: int| 0 <= k < n && #[trigger] item_name(objs[k]) == Some(u[i].0) by {
                    let k = choose|k: int| 0 <= k < n - 1 && #[trigger] item_name(objs[k]) == Some(t[i].0);
                    assert(item_name(objs[k]) == Some(u[i].0));
                }
            },
        }
    }
}

/// `needle` is found in `hay` starting at some position.
pub open spec fn somewhere_in(hay: Seq<char>, needle: Seq<char>) -> bool {
    exists|p: int| 0 <= p && p + needle.len() <= hay.len() && #[trigger] hay.subrange(p, p + needle.len()) == needle
}

/// The finder matches the typed text anywhere in a name, ignoring case:
/// a real item whose lowercase name holds the trimmed lowercase query at
/// any position `i` has a line among the finder's lines, and every line's
/// lowercase name holds the query somewhere (any name, for an empty one).
pub proof fn law_finder_matches_anywhere(objs: Seq<PlacedObject>, query: Seq<char>, k: int, i: int)
    requires
        0 <= k < objs.len(),
        item_name(objs[k]) is Some,
        0 <= i,
        i + lowercase(trim_seq(query)).len() <= lowercase(item_name(objs[k])->0).len(),
        lowercase(item_name(objs[k])->0).subrange(i, i + lowercase(trim_seq(query)).len()) == lowercase(
            trim_seq(query),
        ),
    ensures
        exists|j: int|
            0 <= j < sorted_lines(tally(objs, lowercase(trim_seq(query)), objs.len() as int)).len() && (#[trigger] sorted_lines(
                tally(objs, lowercase(trim_seq(query)), objs.len() as int),
            )[j]).0 == item_name(objs[k])->0,
        forall|j: int|
            0 <= j < sorted_lines(tally(objs, lowercase(trim_seq(query)), objs.len() as int)).len()
                ==> lowercase(trim_seq(query)).len() == 0 || somewhere_in(
                lowercase((#[trigger] sorted_lines(tally(objs, lowercase(trim_seq(query)), objs.len() as int))[j]).0),
                lowercase(trim_seq(query)),
            ),
{
    broadcast use vstd::seq_lib::group_to_multiset_ensures;

    let q = lowercase(trim_seq(query));
    let n = item_name(objs[k])->0;
    let t = tally(objs, q, objs.len() as int);
    let s = sorted_lines(t);
    assert(occurs_at(lowercase(n), q, i));
    assert(name_matches(n, q));
    law_finder_names(objs, q, objs.len() as int);
    law_sorted_lines(t);
    let c = choose|c: int| 0 <= c < t.len() && #[trigger] t[c].0 == item_name(objs[k])->0;
    assert(t.contains(t[c]));
    assert(t.to_multiset().count(t[c]) > 0);
    assert(s.to_multiset().count(t[c]) > 0);
    assert(s.contains(t[c]));
    let j = choose|j: int| 0 <= j < s.len() && s[j] == t[c];
    assert(s[j].0 == n);
    assert forall|j: int| 0 <= j < s.len() implies q.len() == 0 || somewhere_in(lowercase((#[trigger] s[j]).0), q) by {
        assert(s.contains(s[j]));
        assert(s.to_multiset().count(s[j]) > 0);
        assert(t.to_multiset().count(s[j]) > 0);
        assert(t.contains(s[j]));
        let c2 = choose|c2: int| 0 <= c2 < t.len() && t[c2] == s[j];
        assert(name_matches(t[c2].0, q));
        if q.len() > 0 {
            assert(contains_seq(lowercase(t[c2].0), q));
            let p = choose|p: int| occurs_at(lowercase(t[c2].0), q, p);
            assert(lowercase(s[j].0).subrange(p, p + q.len()) == q);
            assert(somewhere_in(lowercase(s[j].0), q));
        }
    }
}

/// Where `x` goes among `s`: before the first line with a greater key.
proof fn lemma_insert_at(s: Seq<Tally>, x: Tally, p: int)
    requires
        0 <= p <= s.len(),
        forall|j: int| 0 <= j < p ==> !lex_lt(line_key(x), line_key(s[j])),
        p == s.len() || lex_lt(line_key(x), line_key(s[p])),
    ensures
        insert_sorted(s, x) == s.insert(p, x),
    decreases s.len(),
{
    if s.len() == 0 {
        assert(s.insert(p, x) =~= seq![x]);
    } else if p == 0 {
        assert(s.insert(0, x) =~= seq![x] + s);
    } else {
        let rest = s.drop_first();
        assert forall|j: int| 0 <= j < p - 1 implies !lex_lt(line_key(x), line_key(rest[j])) by {
            assert(rest[j] == s[j + 1]);
        }
        if p - 1 < rest.len() {
            assert(rest[p - 1] == s[p]);
        }
        lemma_insert_at(rest, x, p - 1);
        assert(s.insert(p, x) =~= seq![s[0]] + rest.insert(p - 1, x));
    }
}

/// `lex_lt` on strings, comparing characters by code point.
pub fn less_than(a: &str, b: &str) -> (r: bool)
    ensures
        r == lex_lt(a@, b@),
{
    let x = chars_of(a);
    let y = chars_of(b);
    let mut i: usize = 0;
    proof {
        assert(a@.subrange(0, a@.len() as int) =~= a@);
        assert(b@.subrange(0, b@.len() as int) =~= b@);
    }
    while i < x.len() && i < y.len() && x[i] == y[i]
        invariant
            x@ == a@,
            y@ == b@,
            i <= x.len(),
            i <= y.len(),
            lex_lt(a@, b@) == lex_lt(a@.subrange(i as int, a@.len() as int), b@.subrange(i as int, b@.len() as int)),
        decreases x.len() - i,
    {
        proof {
            let sa = a@.subrange(i as int, a@.len() as int);
            let sb = b@.subrange(i as int, b@.len() as int);
            assert(sa.drop_first() =~= a@.subrange(i + 1, a@.len() as int));
            assert(sb.drop_first() =~= b@.subrange(i + 1, b@.len() as int));
        }
        i = i + 1;
    }
    if i == x.len() {
        i < y.len()
    } else if i == y.len() {
        false
    } else {
        x[i] < y[i]
    }
}

// ---------------------------------------------------------------------------
// the finder
// ---------------------------------------------------------------------------

/// The view of a finder line.
pub open spec fn hit_view(h: ItemHit) -> Tally {
    (h.name@, h.balls as nat, h.hidden as nat)
}

/// `find`: the finder's lines for the query, sorted.
pub fn find(objects: &Vec<PlacedObject>, query: &str) -> (r: Vec<ItemHit>)
    requires
        objects.len() <= isize::MAX,
    ensures
        r@.map_values(|h: ItemHit| hit_view(h)) == sorted_lines(
            tally(objects@, lowercase(trim_seq(query@)), objects@.len() as int),
        ),
{
    let t = trim(query);
    let q = to_lowercase(t.as_str());
    let ghost qv = lowercase(trim_seq(query@));
    let mut out: Vec<ItemHit> = Vec::new();
    let mut i: usize = 0;
    while i < objects.len()
        invariant
            i <= objects.len() <= isize::MAX,
            q@ == qv,
            out@.map_values(|h: ItemHit| hit_view(h)) == tally(objects@, qv, i as int),
            distinct_names(tally(objects@, qv, i as int)),
            forall|k: int| 0 <= k < out.len() ==> #[trigger] out@[k].balls + out@[k].hidden <= i,
        decreases objects.len() - i,
    {
        let ghost before = out@.map_values(|h: ItemHit| hit_view(h));
        let o = &objects[i];
        match item_of(o) {
            Some(name) => {
                let low = to_lowercase(name.as_str());
                let hit = q.unicode_len() == 0 || contains_str(low.as_str(), q.as_str());
                if hit {
                    let hidden = o.kind == ObjectKind::HiddenItem;
                    let mut p: usize = 0;
                    while p < out.len() && !eq_str(&out[p].name, name.as_str())
                        invariant
                            p <= out.len(),
                            forall|k: int| 0 <= k < p ==> out@[k].name@ != name@,
                        decreases out.len() - p,
                    {
                        p = p + 1;
                    }
                    if p < out.len() {
                        proof {
                            assert(before[p as int].0 == name@);
                            let c = choose|c: int| 0 <= c < before.len() && before[c].0 == name@;
                            assert(c == p as int) by {
                                if c != p as int {
                                    assert(before[c].0 != before[p as int].0 || c == p);
                                }
                            }
                        }
                        let mut h = ItemHit { name: out[p].name.clone(), balls: out[p].balls, hidden: out[p].hidden };
                        if hidden {
                            h.hidden = h.hidden + 1;
                        } else {
                            h.balls = h.balls + 1;
                        }
                        out.set(p, h);
                        proof {
                            assert(out@.map_values(|h: ItemHit| hit_view(h)) =~= before.update(
                                p as int,
                                (name@, if hidden { before[p as int].1 } else { before[p as int].1 + 1 }, if hidden {
                                    before[p as int].2 + 1
                                } else {
                                    before[p as int].2
                                }),
                            ));
                        }
                    } else {
                        proof {
                            assert(!(exists|c: int| 0 <= c < before.len() && before[c].0 == name@)) by {
                                if exists|c: int| 0 <= c < before.len() && before[c].0 == name@ {
                                    let c = choose|c: int| 0 <= c < before.len() && before[c].0 == name@;
                                    assert(out@[c].name@ == name@);
                                }
                            }
                        }
                        let h = if hidden {
                            ItemHit { name: name.clone(), balls: 0, hidden: 1 }
                        } else {
                            ItemHit { name: name.clone(), balls: 1, hidden: 0 }
                        };
                        out.push(h);
                        proof {
                            assert(out@.map_values(|h: ItemHit| hit_view(h)) =~= before.push(
                                (name@, if hidden { 0nat } else { 1nat }, if hidden { 1nat } else { 0nat }),
                            ));
                        }
                    }
                }
            },
            None => {},
        }
        i = i + 1;
    }
    let mut sorted: Vec<ItemHit> = Vec::new();
    let ghost lines = out@.map_values(|h: ItemHit| hit_view(h));
    let mut k: usize = 0;
    while k < out.len()
        invariant
            k <= out.len(),
            lines == out@.map_values(|h: ItemHit| hit_view(h)),
            sorted@.map_values(|h: ItemHit| hit_view(h)) == sorted_lines(lines.subrange(0, k as int)),
        decreases out.len() - k,
    {
        let ghost s0 = sorted@.map_values(|h: ItemHit| hit_view(h));
        let x = ItemHit { name: out[k].name.clone(), balls: out[k].balls, hidden: out[k].hidden };
        let key = to_lowercase(x.name.as_str());
        let mut p: usize = 0;
        while p < sorted.len() && !less_than(key.as_str(), to_lowercase(sorted[p].name.as_str()).as_str())
            invariant
                p <= sorted.len(),
                s0 == sorted@.map_values(|h: ItemHit| hit_view(h)),
                key@ == line_key(hit_view(x)),
                forall|j: int| 0 <= j < p ==> !lex_lt(line_key(hit_view(x)), line_key(s0[j])),
            decreases sorted.len() - p,
        {
            p = p + 1;
        }
        proof {
            let pre = lines.subrange(0, k + 1);
            assert(pre.drop_last() =~= lines.subrange(0, k as int));
            assert(pre.last() == hit_view(x));
            if p < sorted.len() {
                assert(lex_lt(line_key(hit_view(x)), line_key(s0[p as int])));
            }
            lemma_insert_at(s0, hit_view(x), p as int);
        }
        sorted.insert(p, x);
        proof {
            assert(sorted@.map_values(|h: ItemHit| hit_view(h)) =~= s0.insert(p as int, hit_view(x)));
        }
        k = k + 1;
    }
    proof {
        assert(lines.subrange(0, out.len() as int) =~= lines);
    }
    sorted
}

} // verus!
