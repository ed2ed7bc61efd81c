//! Narrowing a list of names by what the user typed: a case-insensitive
//! substring match, and the sentinel entry that stands in for an empty
//! result.

use vstd::prelude::*;

use crate::option_menu::{contains_name, has_name};
use crate::text::{
    contains_seq, contains_str, decimal_digits, lemma_decimal_digits_injective, lowercase, to_lowercase,
    trim, trim_seq, u64_text,
};

verus! {

/// The names of `names` whose lowercase form contains `needle`, in order.
pub open spec fn names_containing(names: Seq<Seq<char>>, needle: Seq<char>) -> Seq<Seq<char>>
    decreases names.len(),
{
    if names.len() == 0 {
        Seq::empty()
    } else {
        let rest = names_containing(names.drop_last(), needle);
        if contains_seq(lowercase(names.last()), needle) {
            rest.push(names.last())
        } else {
            rest
        }
    }
}

/// What a filter box keeps of `names`: everything when the trimmed filter
/// is empty, else the names containing its lowercase form.
pub open spec fn filtered_names(names: Seq<Seq<char>>, filter: Seq<char>) -> Seq<Seq<char>> {
    let f = lowercase(trim_seq(filter));
    if f.len() == 0 {
        names
    } else {
        names_containing(names, f)
    }
}

/// The list a menu shows: the filtered names, or the sentinel alone when
/// nothing is left.
pub open spec fn or_sentinel(names: Seq<Seq<char>>, sentinel: Seq<char>) -> Seq<Seq<char>> {
    if names.len() == 0 {
        seq![sentinel]
    } else {
        names
    }
}

/// The names of `names` whose lowercase form contains `needle`.
pub fn keep_containing(names: &Vec<String>, needle: &str) -> (r: Vec<String>)
    ensures
        r.deep_view() == names_containing(names.deep_view(), needle@),
{
    let mut out: Vec<String> = Vec::new();
    let mut i: usize = 0;
    while i < names.len()
        invariant
            i <= names.len(),
            out.deep_view() == names_containing(names.deep_view().subrange(0, i as int), needle@),
        decreases names.len() - i,
    {
        let low = to_lowercase(names[i].as_str());
        let keep = contains_str(low.as_str(), needle);
        let ghost before = out.deep_view();
        if keep {
            out.push(names[i].clone());
            assert(out.deep_view() =~= before.push(names.deep_view()[i as int]));
        }
        proof {
            let pre = names.deep_view().subrange(0, i + 1);
            assert(pre.drop_last() =~= names.deep_view().subrange(0, i as int));
            assert(pre.last() == names.deep_view()[i as int]);
        }
        i = i + 1;
    }
    assert(names.deep_view().subrange(0, names.len() as int) =~= names.deep_view());
    out
}

/// What a filter box keeps of `names`.
pub fn filter_names(names: Vec<String>, filter: &str) -> (r: Vec<String>)
    ensures
        r.deep_view() == filtered_names(names.deep_view(), filter@),
{
    let t = trim(filter);
    let f = to_lowercase(t.as_str());
    if f.unicode_len() == 0 {
        names
    } else {
        keep_containing(&names, f.as_str())
    }
}

/// `names`, or the sentinel alone when it is empty.
pub fn with_sentinel(names: Vec<String>, sentinel: &str) -> (r: Vec<String>)
    ensures
        r.deep_view() == or_sentinel(names.deep_view(), sentinel@),
{
    if names.len() == 0 {
        let r = vec![String::from_str(sentinel)];
        assert(r.deep_view() =~= seq![sentinel@]);
        r
    } else {
        names
    }
}

/// Narrowing never invents a name: every name kept was in the list.
pub proof fn law_filter_keeps_only_listed(names: Seq<Seq<char>>, filter: Seq<char>, i: int)
    requires
        0 <= i < filtered_names(names, filter).len(),
    ensures
        names.contains(filtered_names(names, filter)[i]),
{
    let f = lowercase(trim_seq(filter));
    if f.len() == 0 {
        assert(names[i] == filtered_names(names, filter)[i]);
    } else {
        lemma_containing_is_listed(names, f, i);
    }
}

proof fn lemma_containing_is_listed(names: Seq<Seq<char>>, needle: Seq<char>, i: int)
    requires
        0 <= i < names_containing(names, needle).len(),
    ensures
        names.contains(names_containing(names, needle)[i]),
    decreases names.len(),
{
    let rest = names_containing(names.drop_last(), needle);
    if i < rest.len() {
        lemma_containing_is_listed(names.drop_last(), needle, i);
        let j = choose|j: int| 0 <= j < names.drop_last().len() && names.drop_last()[j] == rest[i];
        assert(names[j] == rest[i]);
    } else {
        assert(names[names.len() - 1] == names.last());
    }
}


/// The names of `names` that are also in `allowed`, in order.
pub open spec fn names_within(names: Seq<Seq<char>>, allowed: Seq<Seq<char>>) -> Seq<Seq<char>>
    decreases names.len(),
{
    if names.len() == 0 {
        Seq::empty()
    } else {
        let rest = names_within(names.drop_last(), allowed);
        if allowed.contains(names.last()) {
            rest.push(names.last())
        } else {
            rest
        }
    }
}

/// The names of `names` that are also in `allowed`.
pub fn keep_within(names: &Vec<String>, allowed: &Vec<String>) -> (r: Vec<String>)
    ensures
        r.deep_view() == names_within(names.deep_view(), allowed.deep_view()),
{
    let mut out: Vec<String> = Vec::new();
    let mut i: usize = 0;
    while i < names.len()
        invariant
            i <= names.len(),
            out.deep_view() == names_within(names.deep_view().subrange(0, i as int), allowed.deep_view()),
        decreases names.len() - i,
    {
        let keep = crate::option_menu::contains_name(allowed, names[i].as_str());
        let ghost before = out.deep_view();
        if keep {
            out.push(names[i].clone());
            assert(out.deep_view() =~= before.push(names.deep_view()[i as int]));
        }
        proof {
            let pre = names.deep_view().subrange(0, i + 1);
            assert(pre.drop_last() =~= names.deep_view().subrange(0, i as int));
            assert(pre.last() == names.deep_view()[i as int]);
            if allowed.deep_view().contains(names.deep_view()[i as int]) {
                let j = choose|j: int| 0 <= j < allowed.deep_view().len() && allowed.deep_view()[j] == names.deep_view()[i as int];
                assert(crate::option_menu::has_name(allowed.deep_view(), names.deep_view()[i as int]));
            }
        }
        i = i + 1;
    }
    assert(names.deep_view().subrange(0, names.len() as int) =~= names.deep_view());
    out
}


// ---------------------------------------------------------------------------
// a name nobody has yet
// ---------------------------------------------------------------------------

/// The `n`-th name tried for something new: `base` itself, then `base`
/// with the number `n` between `open` and `close`.
pub open spec fn numbered_name(base: Seq<char>, open: Seq<char>, close: Seq<char>, n: nat) -> Seq<char> {
    if n <= 1 {
        base
    } else {
        base + open + decimal_digits(n) + close
    }
}

/// Numbered names differ.
proof fn lemma_numbered_names_differ(base: Seq<char>, open: Seq<char>, close: Seq<char>, a: nat, b: nat)
    requires
        a >= 2,
        b >= 2,
        numbered_name(base, open, close, a) == numbered_name(base, open, close, b),
    ensures
        a == b,
{
    let na = numbered_name(base, open, close, a);
    let nb = numbered_name(base, open, close, b);
    let start = (base.len() + open.len()) as int;
    assert(na.subrange(start, na.len() - close.len()) =~= decimal_digits(a));
    assert(nb.subrange(start, nb.len() - close.len()) =~= decimal_digits(b));
    lemma_decimal_digits_injective(a, b);
}

/// While the numbered names `2..=n` are all taken, at least `n - 1` names
/// are taken.
proof fn lemma_taken_bound(existing: Seq<Seq<char>>, base: Seq<char>, open: Seq<char>, close: Seq<char>, n: nat)
    requires
        n >= 2,
        forall|m: nat| 2 <= m <= n ==> existing.contains(#[trigger] numbered_name(base, open, close, m)),
    ensures
        n - 1 <= existing.len(),
{
    let c = Seq::new((n - 1) as nat, |i: int| numbered_name(base, open, close, (i + 2) as nat));
    assert(c.no_duplicates()) by {
        assert forall|i: int, j: int| 0 <= i < c.len() && 0 <= j < c.len() && i != j implies c[i] != c[j] by {
            if c[i] == c[j] {
                lemma_numbered_names_differ(base, open, close, (i + 2) as nat, (j + 2) as nat);
            }
        }
    }
    c.unique_seq_to_set();
    assert(c.to_set().subset_of(existing.to_set())) by {
        assert forall|x: Seq<char>| c.to_set().contains(x) implies existing.to_set().contains(x) by {
            let i = choose|i: int| 0 <= i < c.len() && c[i] == x;
            assert(existing.contains(numbered_name(base, open, close, (i + 2) as nat)));
        }
    }
    vstd::set_lib::lemma_len_subset(c.to_set(), existing.to_set());
    existing.lemma_cardinality_of_set();
}

/// The first numbered name of `base` that `existing` does not hold.
pub fn first_free_name(base: &str, open: &str, close: &str, existing: &Vec<String>) -> (r: String)
    requires
        existing.len() <= isize::MAX,
    ensures
        !existing.deep_view().contains(r@),
        exists|k: nat|
            k >= 1 && r@ == numbered_name(base@, open@, close@, k) && forall|m: nat|
                1 <= m < k ==> existing.deep_view().contains(#[trigger] numbered_name(base@, open@, close@, m)),
{
    let ghost e = existing.deep_view();
    let first = String::from_str(base);
    if !contains_name(existing, first.as_str()) {
        proof {
            assert(first@ == numbered_name(base@, open@, close@, 1));
            assert(!e.contains(first@)) by {
                if e.contains(first@) {
                    let i = choose|i: int| 0 <= i < e.len() && e[i] == first@;
                    assert(has_name(e, first@));
                }
            }
        }
        return first;
    }
    let mut n: u64 = 2;
    proof {
        assert(has_name(e, first@));
        let i = choose|i: int| 0 <= i < e.len() && e[i] == first@;
        assert(e.contains(numbered_name(base@, open@, close@, 1)));
    }
    loop
        invariant
            2 <= n <= existing.len() + 2,
            existing.len() <= isize::MAX,
            e == existing.deep_view(),
            forall|m: nat| 1 <= m < n ==> e.contains(#[trigger] numbered_name(base@, open@, close@, m)),
        decreases existing.len() + 2 - n,
    {
        let mut c = String::from_str(base);
        c.append(open);
        c.append(u64_text(n).as_str());
        c.append(close);
        assert(c@ =~= numbered_name(base@, open@, close@, n as nat));
        if !contains_name(existing, c.as_str()) {
            proof {
                assert(!e.contains(c@)) by {
                    if e.contains(c@) {
                        let i = choose|i: int| 0 <= i < e.len() && e[i] == c@;
                        assert(has_name(e, c@));
                    }
                }
            }
            return c;
        }
        proof {
            let i = choose|i: int| 0 <= i < e.len() && e[i] == c@;
            assert(e.contains(numbered_name(base@, open@, close@, n as nat)));
            assert forall|m: nat| 2 <= m <= n implies e.contains(#[trigger] numbered_name(base@, open@, close@, m)) by {
                if m < n {
                    assert(1 <= m < n);
                }
            }
            lemma_taken_bound(e, base@, open@, close@, n as nat);
        }
        n = n + 1;
    }
}

/// A copy of a list of names.
pub fn copy_names(v: &Vec<String>) -> (r: Vec<String>)
    ensures
        r.deep_view() == v.deep_view(),
{
    let mut r: Vec<String> = Vec::new();
    let mut i: usize = 0;
    while i < v.len()
        invariant
            i <= v.len(),
            r.deep_view() == v.deep_view().subrange(0, i as int),
        decreases v.len() - i,
    {
        let ghost before = r.deep_view();
        r.push(v[i].clone());
        assert(r.deep_view() =~= before.push(v.deep_view()[i as int]));
        assert(v.deep_view().subrange(0, i + 1) =~= v.deep_view().subrange(0, i as int).push(
            v.deep_view()[i as int],
        ));
        i = i + 1;
    }
    assert(v.deep_view().subrange(0, v.len() as int) =~= v.deep_view());
    r
}

} // verus!
