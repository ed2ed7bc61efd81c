//! The map viewer's smaller decisions: the trip discs' labels, the
//! navigator's drag, what Enter in the item box does, the trainers a map
//! still offers, when a game's map data has to be loaded, the scope a map
//! opens in, and the arrow keys' pan.

use vstd::prelude::*;

use crate::option_menu::{contains_name, has_name};
use crate::text::{chars_of, contains_seq, contains_str, decimal_digits, lowercase, to_lowercase, trim, trim_seq, u64_text};

verus! {

/// A disc's label: its place in the trip, or the range it spans ("3–5").
pub open spec fn disc_label_spec(first: usize, last: usize) -> Seq<char> {
    if first == last {
        decimal_digits(first as nat)
    } else {
        decimal_digits(first as nat) + "–"@ + decimal_digits(last as nat)
    }
}

pub fn disc_label(first: usize, last: usize) -> (r: String)
    ensures
        r@ == disc_label_spec(first, last),
{
    let mut s = u64_text(first as u64);
    if first != last {
        s.append("–");
        let b = u64_text(last as u64);
        s.append(b.as_str());
    }
    s
}

/// The event a click on a disc selects: the first of its events.
pub fn disc_event(ids: &Vec<i64>) -> (r: Option<i64>)
    ensures
        ids@.len() == 0 ==> r is None,
        ids@.len() > 0 ==> r == Some(ids@[0]),
{
    if ids.len() > 0 {
        Some(ids[0])
    } else {
        None
    }
}

/// The navigator's pointer: a release ends a drag, a press over the panel
/// starts one; while the button is down only a drag begun on the panel is
/// the navigator's, otherwise hovering over it is. Returns whether a drag
/// goes on and whether the navigator has the pointer.
pub fn navigator_pointer(dragging: bool, over: bool, down: bool, pressed: bool, released: bool) -> (r: (bool, bool))
    ensures
        r.0 == ((dragging && !released) || (pressed && over)),
        r.1 == (if down {
            r.0
        } else {
            over
        }),
{
    let mut d = dragging;
    if released {
        d = false;
    }
    if pressed && over {
        d = true;
    }
    let active = if down {
        d
    } else {
        over
    };
    (d, active)
}

/// An ASCII letter made lowercase; every other character as it is.
pub open spec fn ascii_lower(c: char) -> char {
    if 'A' <= c <= 'Z' {
        ((c as u32) + 32) as char
    } else {
        c
    }
}

/// Whether two strings are equal ignoring ASCII case.
pub open spec fn eq_ignore_ascii_case_spec(a: Seq<char>, b: Seq<char>) -> bool {
    a.len() == b.len() && forall|i: int| 0 <= i < a.len() ==> ascii_lower(#[trigger] a[i]) == ascii_lower(b[i])
}

fn lower_char(c: char) -> (r: char)
    ensures
        r == ascii_lower(c),
{
    if 'A' <= c && c <= 'Z' {
        let n: u8 = ((c as u32) + 32) as u8;
        n as char
    } else {
        c
    }
}

/// `str::eq_ignore_ascii_case`.
pub fn eq_ignore_ascii_case(a: &str, b: &str) -> (r: bool)
    ensures
        r == eq_ignore_ascii_case_spec(a@, b@),
{
    let x = chars_of(a);
    let y = chars_of(b);
    if x.len() != y.len() {
        return false;
    }
    let mut i: usize = 0;
    while i < x.len()
        invariant
            x@ == a@,
            y@ == b@,
            x.len() == y.len(),
            i <= x.len(),
            forall|k: int| 0 <= k < i ==> ascii_lower(#[trigger] a@[k]) == ascii_lower(b@[k]),
        decreases x.len() - i,
    {
        if lower_char(x[i]) != lower_char(y[i]) {
            return false;
        }
        i = i + 1;
    }
    true
}

/// What Enter in the item box does.
pub enum ItemEnter {
    /// step to the next place of the item already being looped through
    StepFocus,
    /// focus every place of this item
    Choose(String),
    /// nothing matches
    Nothing,
}

/// Enter in the item box: while the item being looped through is the one
/// focused and still typed (ignoring ASCII case), step to its next place;
/// else choose the hit named like the query, or the first hit.
pub fn item_enter(active: Option<&str>, focused: Option<&str>, query: &str, hits: &Vec<String>) -> (r: ItemEnter)
    ensures
        ({
            let q = trim_seq(query@);
            let looping = match (active, focused) {
                (Some(a), Some(f)) => a@ == f@ && eq_ignore_ascii_case_spec(a@, q),
                _ => false,
            };
            if looping {
                r is StepFocus
            } else if exists|i: int| 0 <= i < hits@.len() && eq_ignore_ascii_case_spec(hits@[i]@, q) {
                r matches ItemEnter::Choose(name) && exists|i: int|
                    0 <= i < hits@.len() && eq_ignore_ascii_case_spec(hits@[i]@, q) && name@ == hits@[i]@ && forall|j: int|
                        0 <= j < i ==> !eq_ignore_ascii_case_spec(#[trigger] hits@[j]@, q)
            } else if hits@.len() > 0 {
                r matches ItemEnter::Choose(name) && name@ == hits@[0]@
            } else {
                r is Nothing
            }
        }),
{
    let q = trim(query);
    let looping = match (active, focused) {
        (Some(a), Some(f)) => {
            let af = String::from_str(a);
            crate::text::eq_str(&af, f) && eq_ignore_ascii_case(a, q.as_str())
        },
        _ => false,
    };
    if looping {
        return ItemEnter::StepFocus;
    }
    let mut i: usize = 0;
    while i < hits.len()
        invariant
            i <= hits.len(),
            q@ == trim_seq(query@),
            !(match (active, focused) {
                (Some(a), Some(f)) => a@ == f@ && eq_ignore_ascii_case_spec(a@, q@),
                _ => false,
            }),
            forall|j: int| 0 <= j < i ==> !eq_ignore_ascii_case_spec(#[trigger] hits@[j]@, q@),
        decreases hits.len() - i,
    {
        if eq_ignore_ascii_case(hits[i].as_str(), q.as_str()) {
            assert(eq_ignore_ascii_case_spec(hits@[i as int]@, q@));
            return ItemEnter::Choose(hits[i].clone());
        }
        i = i + 1;
    }
    if hits.len() > 0 {
        ItemEnter::Choose(hits[0].clone())
    } else {
        ItemEnter::Nothing
    }
}

/// The trainers a map still offers to add: each trainer object's first
/// name, unless fought already, each once, in object order.
pub open spec fn trainers_to_add_spec(objs: Seq<Option<Seq<char>>>, defeated: Seq<Seq<char>>) -> Seq<Seq<char>>
    decreases objs.len(),
{
    if objs.len() == 0 {
        Seq::empty()
    } else {
        let rest = trainers_to_add_spec(objs.drop_last(), defeated);
        match objs.last() {
            Some(n) => if !has_name(defeated, n) && !has_name(rest, n) {
                rest.push(n)
            } else {
                rest
            },
            None => rest,
        }
    }
}

pub open spec fn names_view(objs: Seq<Option<String>>) -> Seq<Option<Seq<char>>> {
    objs.map_values(
        |o: Option<String>|
            match o {
                Some(s) => Some(s@),
                None => None,
            },
    )
}

/// The trainers a map still offers to add (`trainers[i]`: the first name
/// of the map's `i`-th trainer object, if it has one).
pub fn trainers_to_add(trainers: &Vec<Option<String>>, defeated: &Vec<String>) -> (r: Vec<String>)
    ensures
        r.deep_view() == trainers_to_add_spec(names_view(trainers@), defeated.deep_view()),
{
    let ghost v = names_view(trainers@);
    let mut out: Vec<String> = Vec::new();
    let mut i: usize = 0;
    while i < trainers.len()
        invariant
            i <= trainers.len(),
            v == names_view(trainers@),
            out.deep_view() == trainers_to_add_spec(v.subrange(0, i as int), defeated.deep_view()),
        decreases trainers.len() - i,
    {
        let ghost before = out.deep_view();
        proof {
            let pre = v.subrange(0, i + 1);
            assert(pre.drop_last() =~= v.subrange(0, i as int));
            assert(pre.last() == v[i as int]);
        }
        match &trainers[i] {
            Some(n) => {
                if !contains_name(defeated, n.as_str()) && !contains_name(&out, n.as_str()) {
                    out.push(n.clone());
                    assert(out.deep_view() =~= before.push(n@));
                }
            },
            None => {},
        }
        i = i + 1;
    }
    assert(v.subrange(0, trainers.len() as int) =~= v);
    out
}

/// Whether the map data of `game` has to be loaded: it is neither the
/// game shown nor the game being loaded.
pub fn needs_load(shown: Option<&str>, loading: Option<&str>, game: &str) -> (r: bool)
    ensures
        r == !((match shown {
            Some(s) => s@ == game@,
            None => false,
        }) || (match loading {
            Some(l) => l@ == game@,
            None => false,
        })),
{
    let g = String::from_str(game);
    let a = match shown {
        Some(s) => crate::text::eq_str(&g, s),
        None => false,
    };
    let b = match loading {
        Some(l) => crate::text::eq_str(&g, l),
        None => false,
    };
    !(a || b)
}

/// The scope a map opens in: the world for an outdoor map placed in it,
/// else the map on its own (`Some(id)`; `None` is the world).
pub fn scope_of_map(id: u32, outdoor: bool, in_world: bool) -> (r: Option<u32>)
    ensures
        r == (if outdoor && in_world {
            None
        } else {
            Some(id)
        }),
{
    if outdoor && in_world {
        None
    } else {
        Some(id)
    }
}

/// The arrow keys' pan of the camera, in screen pixels: 60 a key, the view
/// moving against the arrow.
pub fn arrow_pan(left: bool, right: bool, up: bool, down: bool) -> (r: (i32, i32))
    ensures
        r.0 == (if left { 60int } else { 0 }) - (if right { 60int } else { 0 }),
        r.1 == (if up { 60int } else { 0 }) - (if down { 60int } else { 0 }),
{
    let mut x: i32 = 0;
    let mut y: i32 = 0;
    if left {
        x = x + 60;
    }
    if right {
        x = x - 60;
    }
    if up {
        y = y + 60;
    }
    if down {
        y = y - 60;
    }
    (x, y)
}

/// At most this many trainers, and as many items, are listed for a search.
pub const MAX_FINDER_HITS: usize = 25;

/// The positions of the names the finder lists for the search `needle`
/// (trimmed and lowercase): the names that contain it and have a place on
/// the map (`placed`), in order, the first 25 such.
pub open spec fn finder_hits_spec(names: Seq<Seq<char>>, placed: Seq<bool>, needle: Seq<char>, n: int) -> Seq<usize>
    decreases n,
{
    if n <= 0 || needle.len() == 0 {
        Seq::empty()
    } else {
        let rest = finder_hits_spec(names, placed, needle, n - 1);
        if rest.len() < MAX_FINDER_HITS && contains_seq(lowercase(names[n - 1]), needle) && placed[n - 1] {
            rest.push((n - 1) as usize)
        } else {
            rest
        }
    }
}

/// The names the finder lists for the search typed (`placed[i]`: the
/// `i`-th name has a place on the map), by their positions.
pub fn finder_hits(names: &Vec<String>, placed: &Vec<bool>, search: &str) -> (r: Vec<usize>)
    requires
        placed.len() == names.len(),
    ensures
        r@ == finder_hits_spec(names.deep_view(), placed@, lowercase(trim_seq(search@)), names.len() as int),
        r@.len() <= MAX_FINDER_HITS,
{
    let t = trim(search);
    let q = to_lowercase(t.as_str());
    let mut out: Vec<usize> = Vec::new();
    if q.unicode_len() == 0 {
        return out;
    }
    let mut i: usize = 0;
    while i < names.len()
        invariant
            i <= names.len(),
            placed.len() == names.len(),
            q@ == lowercase(trim_seq(search@)),
            q@.len() > 0,
            out@ == finder_hits_spec(names.deep_view(), placed@, q@, i as int),
            out@.len() <= MAX_FINDER_HITS,
        decreases names.len() - i,
    {
        if out.len() < MAX_FINDER_HITS {
            let low = to_lowercase(names[i].as_str());
            if contains_str(low.as_str(), q.as_str()) && placed[i] {
                out.push(i);
            }
        }
        i = i + 1;
    }
    proof {
        lemma_hits_stop(names.deep_view(), placed@, q@, names.len() as int);
    }
    out
}

proof fn lemma_hits_stop(names: Seq<Seq<char>>, placed: Seq<bool>, needle: Seq<char>, n: int)
    ensures
        finder_hits_spec(names, placed, needle, n).len() <= MAX_FINDER_HITS,
    decreases n,
{
    if n > 0 && needle.len() > 0 {
        lemma_hits_stop(names, placed, needle, n - 1);
    }
}

/// The folder a marquee selection's trainers go to: the name of the map
/// under the selection's centre, or "Selection".
pub fn selection_folder(map_name: Option<String>) -> (r: String)
    ensures
        r@ == match map_name {
            Some(n) => if n@.len() > 0 {
                n@
            } else {
                "Selection"@
            },
            None => "Selection"@,
        },
{
    match map_name {
        Some(n) => {
            if n.unicode_len() > 0 {
                n
            } else {
                String::from_str("Selection")
            }
        },
        None => String::from_str("Selection"),
    }
}

/// Whether the camera follows the selected route event: following is on,
/// the event has a place on the map, and the selection changed since the
/// camera last followed it.
pub fn should_follow(follow: bool, has_anchor: bool, selected: Option<i64>, last_followed: Option<i64>) -> (r: bool)
    ensures
        r == (follow && has_anchor && selected is Some && selected != last_followed),
{
    follow && has_anchor && selected.is_some() && selected != last_followed
}

/// The toolbar's two search boxes and their popups: the map list and the
/// item finder.
pub struct SearchPopups {
    pub list_open: bool,
    pub items_open: bool,
}

impl SearchPopups {
    /// One frame of the toolbar. A box is activated when it is typed in,
    /// clicked or focused; the map box opens the map list, the item box
    /// opens the finder and closes the list; Escape in a box closes its
    /// popup; an open map list closes the finder.
    pub fn frame(&mut self, map_activated: bool, map_escape: bool, item_activated: bool, item_escape: bool)
        ensures
            ({
                let l1 = if map_escape {
                    false
                } else if map_activated {
                    true
                } else {
                    old(self).list_open
                };
                let l2 = if item_activated {
                    false
                } else {
                    l1
                };
                let i1 = if item_escape {
                    false
                } else if item_activated {
                    true
                } else {
                    old(self).items_open
                };
                &&& final(self).list_open == l2
                &&& final(self).items_open == (i1 && !l2)
            }),
    {
        if map_activated {
            self.list_open = true;
        }
        if map_escape {
            self.list_open = false;
        }
        if item_activated {
            self.items_open = true;
            self.list_open = false;
        }
        if item_escape {
            self.items_open = false;
        }
        if self.list_open {
            self.items_open = false;
        }
    }
}

/// The card a click opens.
#[derive(Clone, Copy, Debug, PartialEq, Eq, Structural)]
pub enum MapCard {
    /// the object under the pointer
    Object { idx: u32 },
    /// the encounters of a tall-grass or water step
    Tile { map: u32, x: i32, y: i32, water: bool, grass: bool },
    /// the map's own card
    WholeMap { map: u32 },
}

impl MapCard {
    /// The map a card is about (an object's card names none: 0).
    pub fn map(&self) -> (r: u32)
        ensures
            r == match *self {
                MapCard::Object { .. } => 0,
                MapCard::Tile { map, .. } => map,
                MapCard::WholeMap { map } => map,
            },
    {
        match self {
            MapCard::Object { .. } => 0,
            MapCard::Tile { map, .. } => *map,
            MapCard::WholeMap { map } => *map,
        }
    }
}

/// The card of a step: its encounters on grass or water, else its map.
pub fn step_card(map: u32, x: i32, y: i32, grass: bool, water: bool) -> (r: MapCard)
    ensures
        r == (if grass || water {
            MapCard::Tile { map, x, y, water, grass }
        } else {
            MapCard::WholeMap { map }
        }),
{
    if grass || water {
        MapCard::Tile { map, x, y, water, grass }
    } else {
        MapCard::WholeMap { map }
    }
}

/// The card a click opens: the object under the pointer, else the step
/// under it (`step`: its map, coordinates, grass and water), else none.
pub fn click_card(hover: Option<u32>, step: Option<(u32, i32, i32, bool, bool)>) -> (r: Option<MapCard>)
    ensures
        r == match hover {
            Some(idx) => Some(MapCard::Object { idx }),
            None => match step {
                Some((map, x, y, grass, water)) => Some(
                    if grass || water {
                        MapCard::Tile { map, x, y, water, grass }
                    } else {
                        MapCard::WholeMap { map }
                    },
                ),
                None => None,
            },
        },
{
    match hover {
        Some(idx) => Some(MapCard::Object { idx }),
        None => match step {
            Some((map, x, y, grass, water)) => Some(step_card(map, x, y, grass, water)),
            None => None,
        },
    }
}

/// What a plain click on the map leaves open. `hit` is the card the click
/// would open (see `click_card`); `shows_same` tells whether the open card
/// already shows what it would show. A hit that the open card already
/// shows closes the card, as does a click on nothing; any other hit opens
/// its card and selects its object (an object clears the focus banner).
/// Returns the card, the selected object and whether the focus clears.
pub fn click_outcome(hit: Option<MapCard>, card_open: bool, shows_same: bool) -> (r: (Option<MapCard>, Option<u32>, bool))
    ensures
        match hit {
            Some(c) => if card_open && shows_same {
                r == (None::<MapCard>, None::<u32>, false)
            } else {
                r.0 == Some(c) && r.1 == (match c {
                    MapCard::Object { idx } => Some(idx),
                    _ => None,
                }) && r.2 == (c is Object)
            },
            None => r == (None::<MapCard>, None::<u32>, false),
        },
{
    match hit {
        Some(c) => {
            if card_open && shows_same {
                (None, None, false)
            } else {
                let sel = match c {
                    MapCard::Object { idx } => Some(idx),
                    _ => None,
                };
                let clear = sel.is_some();
                (Some(c), sel, clear)
            }
        },
        None => (None, None, false),
    }
}

/// The first town in the drawing order, where a fresh view of the world
/// starts: the first map whose constant name holds "TOWN".
pub fn first_town(const_names: &Vec<String>) -> (r: Option<usize>)
    ensures
        match r {
            Some(i) => i < const_names@.len() && contains_seq(const_names@[i as int]@, "TOWN"@) && forall|j: int|
                0 <= j < i ==> !contains_seq(const_names@[j]@, "TOWN"@),
            None => forall|j: int| 0 <= j < const_names@.len() ==> !contains_seq(const_names@[j]@, "TOWN"@),
        },
{
    let mut i: usize = 0;
    while i < const_names.len()
        invariant
            i <= const_names.len(),
            forall|j: int| 0 <= j < i ==> !contains_seq(const_names@[j]@, "TOWN"@),
        decreases const_names.len() - i,
    {
        if contains_str(const_names[i].as_str(), "TOWN") {
            return Some(i);
        }
        i = i + 1;
    }
    None
}

} // verus!
