//! The map list under the map's search box: the maps in three groups
//! (cities and towns, routes, indoors and dungeons), narrowed by the search,
//! the first two groups ordered by the decimal text of the map's id; and the
//! toolbar's title and focus wording.

use vstd::prelude::*;

use crate::map_finder::{less_than, lex_lt};
use crate::text::{contains_seq, contains_str, decimal_digits, lowercase, to_lowercase, trim, trim_seq, u64_text};

verus! {

/// The map list's groups, in the order they are shown.
#[derive(Clone, Copy, Debug, PartialEq, Eq, Structural)]
pub enum MapGroup {
    Cities,
    Routes,
    Indoors,
}

impl MapGroup {
    pub open spec fn title_spec(self) -> Seq<char> {
        match self {
            MapGroup::Cities => "Cities & Towns"@,
            MapGroup::Routes => "Routes"@,
            MapGroup::Indoors => "Indoors & Dungeons"@,
        }
    }

    /// The group's heading.
    pub fn title(&self) -> (r: &'static str)
        ensures
            r@ == self.title_spec(),
    {
        match self {
            MapGroup::Cities => "Cities & Towns",
            MapGroup::Routes => "Routes",
            MapGroup::Indoors => "Indoors & Dungeons",
        }
    }
}

/// What the list reads of a map: its id, its constant name, the name it is
/// shown by, whether it is outdoors, and whether it has block data.
pub struct MapEntry {
    pub id: u32,
    pub const_name: String,
    pub display: String,
    pub outdoor: bool,
    pub has_blocks: bool,
}

/// The group of a map: a route by its names; an outdoor town, city or
/// island by its names (and the first eleven outdoor maps of the first
/// generation); everything else indoors.
pub open spec fn group_spec(m: MapEntry, gen: u8) -> MapGroup {
    let c = m.const_name@;
    let lower = lowercase(m.display@);
    if contains_seq(c, "ROUTE"@) || contains_seq(lower, "route "@) {
        MapGroup::Routes
    } else if m.outdoor && (contains_seq(c, "_TOWN"@) || contains_seq(c, "_CITY"@) || contains_seq(lower, " town"@)
        || contains_seq(lower, " city"@) || contains_seq(lower, "island"@)) {
        MapGroup::Cities
    } else if m.outdoor && gen == 1 && m.id < 11 {
        MapGroup::Cities
    } else {
        MapGroup::Indoors
    }
}

/// The group of a map.
pub fn group_of(m: &MapEntry, gen: u8) -> (r: MapGroup)
    ensures
        r == group_spec(*m, gen),
{
    let c = m.const_name.as_str();
    let lower = to_lowercase(m.display.as_str());
    if contains_str(c, "ROUTE") || contains_str(lower.as_str(), "route ") {
        return MapGroup::Routes;
    }
    if m.outdoor && (contains_str(c, "_TOWN") || contains_str(c, "_CITY") || contains_str(lower.as_str(), " town")
        || contains_str(lower.as_str(), " city") || contains_str(lower.as_str(), "island")) {
        return MapGroup::Cities;
    }
    if m.outdoor && gen == 1 && m.id < 11 {
        return MapGroup::Cities;
    }
    MapGroup::Indoors
}

/// Whether the list shows a map in `group` for the search `needle` (already
/// trimmed and lowercase): a map with blocks or outdoors, of the group,
/// whose shown or constant name contains the search.
pub open spec fn listed(m: MapEntry, gen: u8, group: MapGroup, needle: Seq<char>) -> bool {
    &&& m.has_blocks || m.outdoor
    &&& group_spec(m, gen) == group
    &&& needle.len() == 0 || contains_seq(lowercase(m.display@), needle) || contains_seq(
        lowercase(m.const_name@),
        needle,
    )
}

/// The ids of the maps of `s` that the list shows, in order.
pub open spec fn listed_ids(s: Seq<MapEntry>, gen: u8, group: MapGroup, needle: Seq<char>) -> Seq<u32>
    decreases s.len(),
{
    if s.len() == 0 {
        Seq::empty()
    } else {
        let rest = listed_ids(s.drop_last(), gen, group, needle);
        if listed(s.last(), gen, group, needle) {
            rest.push(s.last().id)
        } else {
            rest
        }
    }
}

/// `x` among ids in order of their decimal text: before the first id whose
/// text comes after its own.
pub open spec fn insert_by_text(s: Seq<u32>, x: u32) -> Seq<u32>
    decreases s.len(),
{
    if s.len() == 0 {
        seq![x]
    } else if lex_lt(decimal_digits(x as nat), decimal_digits(s[0] as nat)) {
        seq![x] + s
    } else {
        seq![s[0]] + insert_by_text(s.drop_first(), x)
    }
}

/// The ids in order of their decimal text ("10" before "9").
pub open spec fn sorted_by_text(s: Seq<u32>) -> Seq<u32>
    decreases s.len(),
{
    if s.len() == 0 {
        Seq::empty()
    } else {
        insert_by_text(sorted_by_text(s.drop_last()), s.last())
    }
}

/// The rows of a group: its maps, ordered by the text of their ids except
/// indoors, where they keep the pack's order.
pub open spec fn group_rows(s: Seq<MapEntry>, gen: u8, group: MapGroup, search: Seq<char>) -> Seq<u32> {
    let ids = listed_ids(s, gen, group, lowercase(trim_seq(search)));
    if group == MapGroup::Indoors {
        ids
    } else {
        sorted_by_text(ids)
    }
}

proof fn lemma_insert_by_text_at(s: Seq<u32>, x: u32, p: int)
    requires
        0 <= p <= s.len(),
        forall|j: int| 0 <= j < p ==> !lex_lt(decimal_digits(x as nat), decimal_digits(s[j] as nat)),
        p == s.len() || lex_lt(decimal_digits(x as nat), decimal_digits(s[p] as nat)),
    ensures
        insert_by_text(s, x) == s.insert(p, x),
    decreases s.len(),
{
    if s.len() == 0 {
        assert(s.insert(p, x) =~= seq![x]);
    } else if p == 0 {
        assert(s.insert(0, x) =~= seq![x] + s);
    } else {
        let rest = s.drop_first();
        assert forall|j: int| 0 <= j < p - 1 implies !lex_lt(decimal_digits(x as nat), decimal_digits(rest[j] as nat)) by {
            assert(rest[j] == s[j + 1]);
        }
        if p - 1 < rest.len() {
            assert(rest[p - 1] == s[p]);
        }
        lemma_insert_by_text_at(rest, x, p - 1);
        assert(s.insert(p, x) =~= seq![s[0]] + rest.insert(p - 1, x));
    }
}

/// The ids in order of their decimal text.
pub fn sort_by_text(ids: &Vec<u32>) -> (r: Vec<u32>)
    ensures
        r@ == sorted_by_text(ids@),
{
    let mut sorted: Vec<u32> = Vec::new();
    let mut texts: Vec<String> = Vec::new();
    let mut k: usize = 0;
    while k < ids.len()
        invariant
            k <= ids.len(),
            sorted@ == sorted_by_text(ids@.subrange(0, k as int)),
            texts@.len() == sorted@.len(),
            forall|j: int| 0 <= j < sorted@.len() ==> #[trigger] texts@[j]@ == decimal_digits(sorted@[j] as nat),
        decreases ids.len() - k,
    {
        let ghost s0 = sorted@;
        let x = ids[k];
        let key = u64_text(x as u64);
        let mut p: usize = 0;
        while p < sorted.len() && !less_than(key.as_str(), texts[p].as_str())
            invariant
                p <= sorted.len(),
                s0 == sorted@,
                texts@.len() == sorted@.len(),
                key@ == decimal_digits(x as nat),
                forall|j: int| 0 <= j < sorted@.len() ==> #[trigger] texts@[j]@ == decimal_digits(sorted@[j] as nat),
                forall|j: int| 0 <= j < p ==> !lex_lt(decimal_digits(x as nat), decimal_digits(s0[j] as nat)),
            decreases sorted.len() - p,
        {
            assert(texts@[p as int]@ == decimal_digits(sorted@[p as int] as nat));
            p = p + 1;
        }
        proof {
            let pre = ids@.subrange(0, k + 1);
            assert(pre.drop_last() =~= ids@.subrange(0, k as int));
            assert(pre.last() == x);
            if p < sorted.len() {
                assert(texts@[p as int]@ == decimal_digits(sorted@[p as int] as nat));
            }
            lemma_insert_by_text_at(s0, x, p as int);
        }
        let ghost t0 = texts@;
        sorted.insert(p, x);
        texts.insert(p, key);
        proof {
            assert forall|j: int| 0 <= j < sorted@.len() implies #[trigger] texts@[j]@ == decimal_digits(
                sorted@[j] as nat,
            ) by {
                if j < p {
                    assert(texts@[j] == t0[j] && sorted@[j] == s0[j]);
                } else if j > p {
                    assert(texts@[j] == t0[j - 1] && sorted@[j] == s0[j - 1]);
                }
            }
        }
        k = k + 1;
    }
    assert(ids@.subrange(0, ids.len() as int) =~= ids@);
    sorted
}

/// The rows of a group for the search typed.
pub fn map_rows(maps: &Vec<MapEntry>, gen: u8, group: MapGroup, search: &str) -> (r: Vec<u32>)
    ensures
        r@ == group_rows(maps@, gen, group, search@),
{
    let t = trim(search);
    let needle = to_lowercase(t.as_str());
    let mut ids: Vec<u32> = Vec::new();
    let mut i: usize = 0;
    while i < maps.len()
        invariant
            i <= maps.len(),
            needle@ == lowercase(trim_seq(search@)),
            ids@ == listed_ids(maps@.subrange(0, i as int), gen, group, needle@),
        decreases maps.len() - i,
    {
        let m = &maps[i];
        let mut keep = (m.has_blocks || m.outdoor) && group_of(m, gen) == group;
        if keep && needle.unicode_len() > 0 {
            let d = to_lowercase(m.display.as_str());
            let c = to_lowercase(m.const_name.as_str());
            keep = contains_str(d.as_str(), needle.as_str()) || contains_str(c.as_str(), needle.as_str());
        }
        proof {
            let pre = maps@.subrange(0, i + 1);
            assert(pre.drop_last() =~= maps@.subrange(0, i as int));
            assert(pre.last() == maps@[i as int]);
        }
        if keep {
            ids.push(m.id);
        }
        i = i + 1;
    }
    assert(maps@.subrange(0, maps.len() as int) =~= maps@);
    if group == MapGroup::Indoors {
        ids
    } else {
        sort_by_text(&ids)
    }
}

/// Trainers and items are searched too once the search has two characters
/// or more.
pub fn searches_names(search: &str) -> (r: bool)
    ensures
        r == (lowercase(trim_seq(search@)).len() >= 2),
{
    let t = trim(search);
    let f = to_lowercase(t.as_str());
    f.unicode_len() >= 2
}

/// The toolbar's title of the whole world of a game.
pub fn world_title(gen: u8, game: &str) -> (r: &'static str)
    ensures
        gen == 1 ==> r@ == "Kanto"@,
        gen == 2 ==> r@ == "Johto & Kanto"@,
        gen != 1 && gen != 2 && game@ == "firered_leafgreen"@ ==> r@ == "Kanto & Sevii Islands"@,
        gen != 1 && gen != 2 && game@ != "firered_leafgreen"@ ==> r@ == "Hoenn"@,
{
    if gen == 1 {
        "Kanto"
    } else if gen == 2 {
        "Johto & Kanto"
    } else {
        let g = String::from_str(game);
        if crate::text::eq_str(&g, "firered_leafgreen") {
            "Kanto & Sevii Islands"
        } else {
            "Hoenn"
        }
    }
}

/// Where the focus banner says the focused place is: the map's name (on
/// the map somewhere when the place is the whole map), and what kind of
/// item spot it is.
pub open spec fn focus_place_spec(map_name: Seq<char>, whole_map: bool, item: Option<bool>) -> Seq<char> {
    let base = if whole_map {
        map_name + " (somewhere on this map)"@
    } else {
        map_name
    };
    match item {
        Some(false) => base + " · item ball"@,
        Some(true) => base + " · hidden item"@,
        None => base,
    }
}

/// Where the focus banner says the focused place is (`item`: the spot holds
/// an item ball, `Some(false)`, or a hidden item, `Some(true)`).
pub fn focus_place(map_name: &str, whole_map: bool, item: Option<bool>) -> (r: String)
    ensures
        r@ == focus_place_spec(map_name@, whole_map, item),
{
    let mut s = String::from_str(map_name);
    if whole_map {
        s.append(" (somewhere on this map)");
    }
    match item {
        Some(false) => s.append(" · item ball"),
        Some(true) => s.append(" · hidden item"),
        None => {},
    }
    s
}

/// The focus banner's count: "— place (k of n)".
pub fn focus_count(place: &str, idx: usize, n: usize) -> (r: String)
    requires
        idx < n,
    ensures
        r@ == "— "@ + place@ + " ("@ + decimal_digits((idx + 1) as nat) + " of "@ + decimal_digits(n as nat)
            + ")"@,
{
    let mut s = String::from_str("— ");
    s.append(place);
    s.append(" (");
    let a = u64_text((idx + 1) as u64);
    s.append(a.as_str());
    s.append(" of ");
    let b = u64_text(n as u64);
    s.append(b.as_str());
    s.append(")");
    s
}

/// The notice when the map knows no place for what was asked.
pub fn no_location_notice(label: &str) -> (r: String)
    ensures
        r@ == "No map location known for "@ + label@,
{
    let mut s = String::from_str("No map location known for ");
    s.append(label);
    s
}

} // verus!
