//! A combo box's option list and selection: only a
//! value that is one of the options can be selected.

use vstd::prelude::*;

use crate::text::eq_str;

verus! {

/// Whether `x` occurs in `names`.
pub open spec fn has_name(names: Seq<Seq<char>>, x: Seq<char>) -> bool {
    exists|i: int| 0 <= i < names.len() && names[i] == x
}

/// The position of the first `x` in `names`, if any.
pub open spec fn first_position(names: Seq<Seq<char>>, x: Seq<char>, i: int) -> bool {
    0 <= i < names.len() && names[i] == x && forall|j: int| 0 <= j < i ==> names[j] != x
}

/// The position of the first element of `v` equal to `s`.
pub fn position_of(v: &Vec<String>, s: &str) -> (r: Option<usize>)
    ensures
        match r {
            Some(i) => first_position(v.deep_view(), s@, i as int),
            None => !has_name(v.deep_view(), s@),
        },
{
    let mut i: usize = 0;
    while i < v.len()
        invariant
            i <= v.len(),
            forall|j: int| 0 <= j < i ==> v.deep_view()[j] != s@,
        decreases v.len() - i,
    {
        if eq_str(&v[i], s) {
            return Some(i);
        }
        i = i + 1;
    }
    None
}

/// Whether `v` holds `s`.
pub fn contains_name(v: &Vec<String>, s: &str) -> (r: bool)
    ensures
        r == has_name(v.deep_view(), s@),
{
    match position_of(v, s) {
        Some(_) => true,
        None => false,
    }
}

/// Whether two lists hold the same strings in the same order.
pub fn same_names(a: &Vec<String>, b: &Vec<String>) -> (r: bool)
    ensures
        r == (a.deep_view() == b.deep_view()),
{
    if a.len() != b.len() {
        assert(a.deep_view().len() != b.deep_view().len());
        return false;
    }
    let mut i: usize = 0;
    while i < a.len()
        invariant
            a.len() == b.len(),
            i <= a.len(),
            forall|j: int| 0 <= j < i ==> a.deep_view()[j] == b.deep_view()[j],
        decreases a.len() - i,
    {
        if !(a[i] == b[i]) {
            assert(a.deep_view()[i as int] != b.deep_view()[i as int]);
            return false;
        }
        i = i + 1;
    }
    assert(a.deep_view() =~= b.deep_view());
    true
}

/// The selection `new_values(options, default)` leaves: with an unchanged
/// option list only a known `default` moves it; with a new list it is the
/// known `default`, else the first option, else nothing.
pub open spec fn selection_after(
    old_options: Seq<Seq<char>>,
    old_current: Seq<char>,
    options: Seq<Seq<char>>,
    default: Option<Seq<char>>,
) -> Seq<char> {
    match default {
        Some(d) if has_name(options, d) => d,
        _ => if options == old_options {
            old_current
        } else if options.len() > 0 {
            options[0]
        } else {
            Seq::empty()
        },
    }
}

#[derive(Clone, Debug)]
pub struct OptionMenu {
    pub options: Vec<String>,
    pub current: String,
}

impl Default for OptionMenu {
    fn default() -> (m: OptionMenu)
        ensures
            m.options@.len() == 0,
            m.current@ == Seq::<char>::empty(),
    {
        OptionMenu { options: Vec::new(), current: String::new() }
    }
}

impl OptionMenu {
    /// The option list as character sequences.
    pub open spec fn names(&self) -> Seq<Seq<char>> {
        self.options.deep_view()
    }

    /// A menu over `options`, selecting `default_val` when it is one of
    /// them, else the first option.
    pub fn new(options: Vec<String>, default_val: Option<&str>) -> (m: OptionMenu)
        ensures
            m.names() == options.deep_view(),
            m.current@ == selection_after(
                Seq::empty(),
                Seq::empty(),
                options.deep_view(),
                match default_val {
                    Some(d) => Some(d@),
                    None => None,
                },
            ),
    {
        let mut m = OptionMenu::default();
        m.new_values(options, default_val);
        m
    }

    /// `new_values(option_list, default_val)`.
    pub fn new_values(&mut self, options: Vec<String>, default_val: Option<&str>)
        ensures
            final(self).names() == options.deep_view(),
            final(self).current@ == selection_after(
                old(self).names(),
                old(self).current@,
                options.deep_view(),
                match default_val {
                    Some(d) => Some(d@),
                    None => None,
                },
            ),
    {
        if same_names(&options, &self.options) {
            if let Some(d) = default_val {
                if contains_name(&self.options, d) {
                    self.current = String::from_str(d);
                }
            }
            return;
        }
        self.options = options;
        let mut chosen = false;
        if let Some(d) = default_val {
            if contains_name(&self.options, d) {
                self.current = String::from_str(d);
                chosen = true;
            }
        }
        if !chosen {
            if self.options.len() > 0 {
                self.current = self.options[0].clone();
            } else {
                self.current = String::new();
            }
        }
    }

    /// `set(val)`: only known values are accepted.
    pub fn set(&mut self, val: &str)
        ensures
            final(self).names() == old(self).names(),
            final(self).current@ == (if has_name(old(self).names(), val@) {
                val@
            } else {
                old(self).current@
            }),
    {
        if contains_name(&self.options, val) {
            self.current = String::from_str(val);
        }
    }

    pub fn get(&self) -> (r: &str)
        ensures
            r@ == self.current@,
    {
        self.current.as_str()
    }

    /// The position of the selection among the options.
    pub fn index(&self) -> (r: Option<usize>)
        ensures
            match r {
                Some(i) => first_position(self.names(), self.current@, i as int),
                None => !has_name(self.names(), self.current@),
            },
    {
        position_of(&self.options, self.current.as_str())
    }
}

/// Loading a new, non-empty option list always leaves a selection that is
/// one of the options.
pub proof fn law_new_list_selects_an_option(
    old_options: Seq<Seq<char>>,
    old_current: Seq<char>,
    options: Seq<Seq<char>>,
    default: Option<Seq<char>>,
)
    requires
        options != old_options,
        options.len() > 0,
    ensures
        has_name(options, selection_after(old_options, old_current, options, default)),
{
    let c = selection_after(old_options, old_current, options, default);
    match default {
        Some(d) if has_name(options, d) => {},
        _ => {
            assert(options[0] == c);
        },
    }
}

/// Reloading the same option list without a default keeps the selection.
pub proof fn law_same_list_keeps_selection(options: Seq<Seq<char>>, current: Seq<char>)
    ensures
        selection_after(options, current, options, None) == current,
{
}

} // verus!
