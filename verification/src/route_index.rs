//! The index of saved routes: one entry per route name (its game version,
//! solo species and recency), brought up to date with the saved-routes
//! folder, and the most recent route.

use vstd::prelude::*;

use crate::option_menu::{contains_name, has_name};
use crate::text::eq_str;
use crate::pages::{copy_entry, entries_view, entry_view, EntryView, RouteEntry};

verus! {

/// The entry named `name`: the last one with that name.
pub open spec fn find_entry(s: Seq<EntryView>, name: Seq<char>) -> Option<EntryView>
    decreases s.len(),
{
    if s.len() == 0 {
        None
    } else if s.last().0 == name {
        Some(s.last())
    } else {
        find_entry(s.drop_last(), name)
    }
}

/// No two entries share a name.
pub open spec fn names_unique(s: Seq<EntryView>) -> bool {
    forall|i: int, j: int| 0 <= i < j < s.len() ==> s[i].0 != s[j].0
}

/// The entries of `s` whose name is not `name`, in order.
pub open spec fn without_name(s: Seq<EntryView>, name: Seq<char>) -> Seq<EntryView>
    decreases s.len(),
{
    if s.len() == 0 {
        Seq::empty()
    } else if s.last().0 == name {
        without_name(s.drop_last(), name)
    } else {
        without_name(s.drop_last(), name).push(s.last())
    }
}

/// The entries of `s` whose name is listed, in order.
pub open spec fn listed_only(s: Seq<EntryView>, listed: Seq<Seq<char>>) -> Seq<EntryView>
    decreases s.len(),
{
    if s.len() == 0 {
        Seq::empty()
    } else if has_name(listed, s.last().0) {
        listed_only(s.drop_last(), listed).push(s.last())
    } else {
        listed_only(s.drop_last(), listed)
    }
}

/// What the index holds for `name` after a refresh: nothing for a route
/// that is no longer listed; else the entry just read for it, if any (the
/// last one), else the entry it held before.
pub open spec fn refreshed_entry(
    old: Seq<EntryView>,
    listed: Seq<Seq<char>>,
    fresh: Seq<EntryView>,
    name: Seq<char>,
) -> Option<EntryView> {
    if !has_name(listed, name) {
        None
    } else {
        match find_entry(fresh, name) {
            Some(f) => Some(f),
            None => find_entry(old, name),
        }
    }
}

proof fn lemma_find_some(s: Seq<EntryView>, name: Seq<char>)
    ensures
        find_entry(s, name) matches Some(e) ==> e.0 == name && s.contains(e),
        find_entry(s, name) is None ==> forall|i: int| 0 <= i < s.len() ==> s[i].0 != name,
    decreases s.len(),
{
    if s.len() > 0 {
        lemma_find_some(s.drop_last(), name);
        if s.last().0 != name {
            match find_entry(s.drop_last(), name) {
                Some(e) => {
                    let k = choose|k: int| 0 <= k < s.drop_last().len() && s.drop_last()[k] == e;
                    assert(s[k] == e);
                },
                None => {
                    assert forall|i: int| 0 <= i < s.len() implies s[i].0 != name by {
                        if i < s.len() - 1 {
                            assert(s[i] == s.drop_last()[i]);
                        }
                    }
                },
            }
        } else {
            assert(s[s.len() - 1] == s.last());
        }
    }
}

proof fn lemma_without_name(s: Seq<EntryView>, name: Seq<char>, other: Seq<char>)
    ensures
        other != name ==> find_entry(without_name(s, name), other) == find_entry(s, other),
        find_entry(without_name(s, name), name) is None,
        forall|i: int| 0 <= i < without_name(s, name).len() ==> without_name(s, name)[i].0 != name,
        names_unique(s) ==> names_unique(without_name(s, name)),
        forall|x: EntryView| without_name(s, name).contains(x) ==> s.contains(x),
        without_name(s, name).len() <= s.len(),
    decreases s.len(),
{
    if s.len() > 0 {
        let r = without_name(s.drop_last(), name);
        lemma_without_name(s.drop_last(), name, other);
        if names_unique(s) {
            assert(names_unique(s.drop_last())) by {
                assert forall|i: int, j: int| 0 <= i < j < s.drop_last().len() implies s.drop_last()[i].0
                    != s.drop_last()[j].0 by {
                    assert(s.drop_last()[i] == s[i] && s.drop_last()[j] == s[j]);
                }
            }
        }
        assert forall|x: EntryView| without_name(s, name).contains(x) implies s.contains(x) by {
            let k = choose|k: int| 0 <= k < without_name(s, name).len() && without_name(s, name)[k] == x;
            if s.last().0 != name && k == r.len() {
                assert(s[s.len() - 1] == x);
            } else {
                assert(r[k] == x);
                assert(r.contains(x));
                assert(s.drop_last().contains(x));
                let m = choose|m: int| 0 <= m < s.drop_last().len() && s.drop_last()[m] == x;
                assert(s[m] == x);
            }
        }
        if s.last().0 != name {
            let w = r.push(s.last());
            assert(w.drop_last() =~= r);
            if names_unique(s) {
                assert forall|i: int, j: int| 0 <= i < j < w.len() implies w[i].0 != w[j].0 by {
                    if j == w.len() - 1 {
                        assert(w[i] == r[i]);
                        assert(r.contains(r[i]));
                        assert(s.drop_last().contains(r[i]));
                        let m = choose|m: int| 0 <= m < s.drop_last().len() && s.drop_last()[m] == r[i];
                        assert(s[m] == r[i]);
                        assert(s[s.len() - 1] == s.last());
                    } else {
                        assert(w[i] == r[i] && w[j] == r[j]);
                    }
                }
            }
        }
    }
}

proof fn lemma_listed_only(s: Seq<EntryView>, listed: Seq<Seq<char>>, name: Seq<char>)
    ensures
        find_entry(listed_only(s, listed), name) == (if has_name(listed, name) {
            find_entry(s, name)
        } else {
            None
        }),
        names_unique(s) ==> names_unique(listed_only(s, listed)),
        forall|x: EntryView| listed_only(s, listed).contains(x) ==> s.contains(x),
        listed_only(s, listed).len() <= s.len(),
    decreases s.len(),
{
    if s.len() > 0 {
        let r = listed_only(s.drop_last(), listed);
        lemma_listed_only(s.drop_last(), listed, name);
        if names_unique(s) {
            assert(names_unique(s.drop_last())) by {
                assert forall|i: int, j: int| 0 <= i < j < s.drop_last().len() implies s.drop_last()[i].0
                    != s.drop_last()[j].0 by {
                    assert(s.drop_last()[i] == s[i] && s.drop_last()[j] == s[j]);
                }
            }
        }
        if has_name(listed, s.last().0) {
            let w = r.push(s.last());
            assert(w.drop_last() =~= r);
            if s.last().0 == name {
                assert(has_name(listed, name));
            }
        }
        assert forall|x: EntryView| listed_only(s, listed).contains(x) implies s.contains(x) by {
            let k = choose|k: int| 0 <= k < listed_only(s, listed).len() && listed_only(s, listed)[k] == x;
            if has_name(listed, s.last().0) && k == r.len() {
                assert(s[s.len() - 1] == x);
            } else {
                assert(r[k] == x);
                assert(r.contains(x));
                assert(s.drop_last().contains(x));
                let m = choose|m: int| 0 <= m < s.drop_last().len() && s.drop_last()[m] == x;
                assert(s[m] == x);
            }
        }
        if names_unique(s) && has_name(listed, s.last().0) {
            let w = r.push(s.last());
            assert forall|i: int, j: int| 0 <= i < j < w.len() implies w[i].0 != w[j].0 by {
                if j == w.len() - 1 {
                    assert(w[i] == r[i]);
                    assert(r.contains(r[i]));
                    assert(s.drop_last().contains(r[i]));
                    let m = choose|m: int| 0 <= m < s.drop_last().len() && s.drop_last()[m] == r[i];
                    assert(s[m] == r[i]);
                    assert(s[s.len() - 1] == s.last());
                } else {
                    assert(w[i] == r[i] && w[j] == r[j]);
                }
            }
        }
    }
}

/// The entry at `i` is the first whose recency no entry exceeds.
pub open spec fn most_recent_at(s: Seq<EntryView>, i: int) -> bool {
    &&& 0 <= i < s.len()
    &&& forall|j: int| 0 <= j < s.len() ==> s[j].3 <= s[i].3
    &&& forall|j: int| 0 <= j < i ==> s[j].3 < s[i].3
}

/// The index: one entry per route name. `loaded` once it was read from
/// disk or brought up to date.
pub struct RouteIndex {
    pub entries: Vec<RouteEntry>,
    pub loaded: bool,
}

impl RouteIndex {
    pub open spec fn view_entries(&self) -> Seq<EntryView> {
        entries_view(self.entries@)
    }

    /// No two entries share a name.
    pub open spec fn wf(&self) -> bool {
        names_unique(self.view_entries())
    }

    /// An empty index, not loaded.
    pub fn new() -> (r: RouteIndex)
        ensures
            r.wf(),
            r.entries@.len() == 0,
            !r.loaded,
    {
        RouteIndex { entries: Vec::new(), loaded: false }
    }

    /// The index as read from disk: the entries it held, loaded. An entry
    /// read later under the same name replaces an earlier one.
    pub fn from_saved(entries: Vec<RouteEntry>) -> (r: RouteIndex)
        ensures
            r.wf(),
            r.loaded,
            forall|name: Seq<char>| find_entry(r.view_entries(), name) == find_entry(entries_view(entries@), name),
    {
        let mut idx = RouteIndex::new();
        let ghost src = entries_view(entries@);
        let mut i: usize = 0;
        while i < entries.len()
            invariant
                i <= entries.len(),
                src == entries_view(entries@),
                idx.wf(),
                forall|name: Seq<char>| find_entry(idx.view_entries(), name) == find_entry(src.subrange(0, i as int), name),
            decreases entries.len() - i,
        {
            idx.upsert(copy_entry(&entries[i]));
            proof {
                let pre = src.subrange(0, i + 1);
                assert(pre.drop_last() =~= src.subrange(0, i as int));
                assert(pre.last() == src[i as int]);
            }
            i = i + 1;
        }
        assert(src.subrange(0, entries.len() as int) =~= src);
        idx.loaded = true;
        idx
    }

    /// The entry named `name`.
    pub fn get(&self, name: &str) -> (r: Option<&RouteEntry>)
        requires
            self.wf(),
        ensures
            match r {
                Some(e) => find_entry(self.view_entries(), name@) == Some(entry_view(*e)),
                None => find_entry(self.view_entries(), name@) is None,
            },
    {
        let ghost s = self.view_entries();
        let mut i: usize = self.entries.len();
        assert(s.subrange(0, i as int) =~= s);
        while i > 0
            invariant
                i <= self.entries.len(),
                s == self.view_entries(),
                find_entry(s, name@) == find_entry(s.subrange(0, i as int), name@),
            decreases i,
        {
            proof {
                let pre = s.subrange(0, i as int);
                assert(pre.drop_last() =~= s.subrange(0, i - 1));
                assert(pre.last() == s[i - 1]);
            }
            if eq_str(&self.entries[i - 1].name, name) {
                return Some(&self.entries[i - 1]);
            }
            i = i - 1;
        }
        None
    }

    /// Add or replace the entry of `e`'s route.
    pub fn upsert(&mut self, e: RouteEntry)
        requires
            old(self).wf(),
        ensures
            final(self).wf(),
            final(self).loaded == old(self).loaded,
            forall|name: Seq<char>|
                find_entry(final(self).view_entries(), name) == (if name == e.name@ {
                    Some(entry_view(e))
                } else {
                    find_entry(old(self).view_entries(), name)
                }),
    {
        let ghost s = self.view_entries();
        let ghost ev = entry_view(e);
        let mut kept: Vec<RouteEntry> = Vec::new();
        let mut i: usize = 0;
        while i < self.entries.len()
            invariant
                i <= self.entries.len(),
                s == self.view_entries(),
                ev == entry_view(e),
                entries_view(kept@) == without_name(s.subrange(0, i as int), ev.0),
            decreases self.entries.len() - i,
        {
            let ghost before = entries_view(kept@);
            if !(self.entries[i].name == e.name) {
                kept.push(copy_entry(&self.entries[i]));
                assert(entries_view(kept@) =~= before.push(s[i as int]));
            }
            proof {
                let pre = s.subrange(0, i + 1);
                assert(pre.drop_last() =~= s.subrange(0, i as int));
                assert(pre.last() == s[i as int]);
            }
            i = i + 1;
        }
        assert(s.subrange(0, self.entries.len() as int) =~= s);
        let ghost base = entries_view(kept@);
        kept.push(e);
        proof {
            assert(entries_view(kept@) =~= base.push(ev));
            let w = base.push(ev);
            assert(w.drop_last() =~= base);
            assert forall|name: Seq<char>| find_entry(w, name) == (if name == ev.0 {
                Some(ev)
            } else {
                find_entry(s, name)
            }) by {
                lemma_without_name(s, ev.0, name);
            }
            lemma_without_name(s, ev.0, ev.0);
            assert forall|i: int, j: int| 0 <= i < j < w.len() implies w[i].0 != w[j].0 by {
                if j == w.len() - 1 {
                    assert(w[i] == base[i]);
                } else {
                    assert(w[i] == base[i] && w[j] == base[j]);
                }
            }
        }
        self.entries = kept;
    }

    /// Drop the entries of routes that are not listed. Returns whether any
    /// was dropped.
    pub fn retain_listed(&mut self, listed: &Vec<String>) -> (dropped: bool)
        requires
            old(self).wf(),
        ensures
            final(self).wf(),
            final(self).loaded == old(self).loaded,
            final(self).view_entries() == listed_only(old(self).view_entries(), listed.deep_view()),
            dropped == (final(self).entries@.len() != old(self).entries@.len()),
            forall|name: Seq<char>|
                find_entry(final(self).view_entries(), name) == (if has_name(listed.deep_view(), name) {
                    find_entry(old(self).view_entries(), name)
                } else {
                    None
                }),
    {
        let ghost s = self.view_entries();
        let mut kept: Vec<RouteEntry> = Vec::new();
        let mut i: usize = 0;
        while i < self.entries.len()
            invariant
                i <= self.entries.len(),
                s == self.view_entries(),
                entries_view(kept@) == listed_only(s.subrange(0, i as int), listed.deep_view()),
            decreases self.entries.len() - i,
        {
            let ghost before = entries_view(kept@);
            if contains_name(listed, self.entries[i].name.as_str()) {
                kept.push(copy_entry(&self.entries[i]));
                assert(entries_view(kept@) =~= before.push(s[i as int]));
            }
            proof {
                let pre = s.subrange(0, i + 1);
                assert(pre.drop_last() =~= s.subrange(0, i as int));
                assert(pre.last() == s[i as int]);
            }
            i = i + 1;
        }
        assert(s.subrange(0, self.entries.len() as int) =~= s);
        proof {
            assert forall|name: Seq<char>| find_entry(entries_view(kept@), name) == (if has_name(
                listed.deep_view(),
                name,
            ) {
                find_entry(s, name)
            } else {
                None
            }) by {
                lemma_listed_only(s, listed.deep_view(), name);
            }
            lemma_listed_only(s, listed.deep_view(), Seq::empty());
        }
        let dropped = kept.len() != self.entries.len();
        self.entries = kept;
        dropped
    }

    /// Bring the index up to date: `listed` are the routes in the folder,
    /// `fresh` the entries just read for the routes whose files changed.
    /// Returns whether the index changed (and is to be saved).
    pub fn apply_refresh(&mut self, listed: &Vec<String>, fresh: Vec<RouteEntry>) -> (changed: bool)
        requires
            old(self).wf(),
        ensures
            final(self).wf(),
            final(self).loaded,
            forall|name: Seq<char>|
                find_entry(final(self).view_entries(), name) == refreshed_entry(
                    old(self).view_entries(),
                    listed.deep_view(),
                    entries_view(fresh@),
                    name,
                ),
            fresh@.len() > 0 ==> changed,
            fresh@.len() == 0 ==> changed == (final(self).entries@.len() != old(self).entries@.len()),
    {
        let ghost s = self.view_entries();
        let ghost f = entries_view(fresh@);
        let mut i: usize = 0;
        while i < fresh.len()
            invariant
                i <= fresh.len(),
                f == entries_view(fresh@),
                self.wf(),
                fresh.len() == 0 ==> self.entries@ == old(self).entries@,
                forall|name: Seq<char>|
                    find_entry(self.view_entries(), name) == (match find_entry(f.subrange(0, i as int), name) {
                        Some(x) => Some(x),
                        None => find_entry(s, name),
                    }),
            decreases fresh.len() - i,
        {
            self.upsert(copy_entry(&fresh[i]));
            proof {
                let pre = f.subrange(0, i + 1);
                assert(pre.drop_last() =~= f.subrange(0, i as int));
                assert(pre.last() == f[i as int]);
            }
            i = i + 1;
        }
        assert(f.subrange(0, fresh.len() as int) =~= f);
        let ghost len_before = self.entries@.len();
        let dropped = self.retain_listed(listed);
        self.loaded = true;
        if fresh.len() > 0 {
            true
        } else {
            proof {
                assert(len_before == old(self).entries@.len());
            }
            dropped
        }
    }

    /// The most recent route: the first entry whose recency no entry
    /// exceeds.
    pub fn most_recent(&self) -> (r: Option<String>)
        ensures
            self.entries@.len() == 0 ==> r is None,
            self.entries@.len() > 0 ==> (r matches Some(n) && exists|i: int|
                #[trigger] most_recent_at(self.view_entries(), i) && self.view_entries()[i].0 == n@),
    {
        if self.entries.len() == 0 {
            return None;
        }
        let mut best: usize = 0;
        let mut i: usize = 1;
        while i < self.entries.len()
            invariant
                1 <= i <= self.entries.len(),
                best < i,
                forall|j: int| 0 <= j < i ==> self.entries@[j].recency <= self.entries@[best as int].recency,
                forall|j: int| 0 <= j < best ==> self.entries@[j].recency < self.entries@[best as int].recency,
            decreases self.entries.len() - i,
        {
            if self.entries[i].recency > self.entries[best].recency {
                best = i;
            }
            i = i + 1;
        }
        let name = self.entries[best].name.clone();
        proof {
            let v = self.view_entries();
            assert(v[best as int] == entry_view(self.entries@[best as int]));
            assert forall|j: int| 0 <= j < v.len() implies v[j].3 <= v[best as int].3 by {
                assert(v[j] == entry_view(self.entries@[j]));
            }
            assert forall|j: int| 0 <= j < best implies v[j].3 < v[best as int].3 by {
                assert(v[j] == entry_view(self.entries@[j]));
            }
            assert(most_recent_at(v, best as int));
        }
        Some(name)
    }
}

} // verus!
