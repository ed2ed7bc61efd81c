//! The new-route page: the table of games (the official games in the page's
//! own order, then the custom games by name), the choice of a game, and the
//! base-route menu (the empty route, the game's presets, then its saved
//! routes by name).

use vstd::prelude::*;

use crate::map_finder::{lemma_lex_irreflexive, lemma_lex_transitive, less_than, lex_lt};
use crate::names::{copy_names, filter_names, filtered_names, or_sentinel, with_sentinel};
use crate::option_menu::{has_name, position_of, selection_after, OptionMenu};
use crate::pages::{copy_entry, entries_view, sort_routes, sorted_routes, EntryView, RouteEntry, RouteSort};
use crate::text::{decimal_digits, eq_str, starts_with_seq, starts_with_str, u64_text};

verus! {

// ---------------------------------------------------------------------------
// the official games
// ---------------------------------------------------------------------------

/// The official games, in the order the page lists them.
#[derive(Clone, Copy, Debug, PartialEq, Eq, Structural)]
pub enum GameVersion {
    Red,
    Blue,
    Yellow,
    Gold,
    Silver,
    Crystal,
    Ruby,
    Sapphire,
    Emerald,
    FireRed,
    LeafGreen,
    Diamond,
    Pearl,
    Platinum,
    HeartGold,
    SoulSilver,
    Black,
    White,
    Black2,
    White2,
}

/// The console a game runs on, as the table shows it.
#[derive(Clone, Copy, Debug, PartialEq, Eq, Structural)]
pub enum Platform {
    GbGbc,
    Gbc,
    Gba,
    Nds,
    Custom,
    Unknown,
}

/// How far the game recorder supports a game.
#[derive(Clone, Copy, Debug, PartialEq, Eq, Structural)]
pub enum RecorderStatus {
    Available,
    InBeta,
    InAlpha,
    Unavailable,
    Unknown,
}

/// The generation, console and recorder status of an official game.
pub open spec fn game_info_spec(v: GameVersion) -> (u64, Platform, RecorderStatus) {
    match v {
        GameVersion::Red | GameVersion::Blue | GameVersion::Yellow => (1, Platform::GbGbc, RecorderStatus::Available),
        GameVersion::Gold | GameVersion::Silver | GameVersion::Crystal => (2, Platform::Gbc, RecorderStatus::Available),
        GameVersion::Ruby | GameVersion::Sapphire | GameVersion::Emerald | GameVersion::FireRed
        | GameVersion::LeafGreen => (3, Platform::Gba, RecorderStatus::Available),
        GameVersion::Diamond | GameVersion::Pearl => (4, Platform::Nds, RecorderStatus::Unavailable),
        GameVersion::Platinum => (4, Platform::Nds, RecorderStatus::InBeta),
        GameVersion::HeartGold | GameVersion::SoulSilver => (4, Platform::Nds, RecorderStatus::InAlpha),
        GameVersion::Black | GameVersion::White | GameVersion::Black2 | GameVersion::White2 => (
            5,
            Platform::Nds,
            RecorderStatus::InAlpha,
        ),
    }
}

pub fn game_info(v: GameVersion) -> (r: (u64, Platform, RecorderStatus))
    ensures
        r == game_info_spec(v),
{
    match v {
        GameVersion::Red | GameVersion::Blue | GameVersion::Yellow => (1, Platform::GbGbc, RecorderStatus::Available),
        GameVersion::Gold | GameVersion::Silver | GameVersion::Crystal => (2, Platform::Gbc, RecorderStatus::Available),
        GameVersion::Ruby | GameVersion::Sapphire | GameVersion::Emerald | GameVersion::FireRed
        | GameVersion::LeafGreen => (3, Platform::Gba, RecorderStatus::Available),
        GameVersion::Diamond | GameVersion::Pearl => (4, Platform::Nds, RecorderStatus::Unavailable),
        GameVersion::Platinum => (4, Platform::Nds, RecorderStatus::InBeta),
        GameVersion::HeartGold | GameVersion::SoulSilver => (4, Platform::Nds, RecorderStatus::InAlpha),
        GameVersion::Black | GameVersion::White | GameVersion::Black2 | GameVersion::White2 => (
            5,
            Platform::Nds,
            RecorderStatus::InAlpha,
        ),
    }
}

pub open spec fn page_order_spec() -> Seq<GameVersion> {
    seq![
        GameVersion::Red,
        GameVersion::Blue,
        GameVersion::Yellow,
        GameVersion::Gold,
        GameVersion::Silver,
        GameVersion::Crystal,
        GameVersion::Ruby,
        GameVersion::Sapphire,
        GameVersion::Emerald,
        GameVersion::FireRed,
        GameVersion::LeafGreen,
        GameVersion::Diamond,
        GameVersion::Pearl,
        GameVersion::Platinum,
        GameVersion::HeartGold,
        GameVersion::SoulSilver,
        GameVersion::Black,
        GameVersion::White,
        GameVersion::Black2,
        GameVersion::White2,
    ]
}

/// The official games in the page's order (Red before Yellow).
pub fn page_order() -> (r: Vec<GameVersion>)
    ensures
        r@ == page_order_spec(),
{
    let r = vec![
        GameVersion::Red,
        GameVersion::Blue,
        GameVersion::Yellow,
        GameVersion::Gold,
        GameVersion::Silver,
        GameVersion::Crystal,
        GameVersion::Ruby,
        GameVersion::Sapphire,
        GameVersion::Emerald,
        GameVersion::FireRed,
        GameVersion::LeafGreen,
        GameVersion::Diamond,
        GameVersion::Pearl,
        GameVersion::Platinum,
        GameVersion::HeartGold,
        GameVersion::SoulSilver,
        GameVersion::Black,
        GameVersion::White,
        GameVersion::Black2,
        GameVersion::White2,
    ];
    assert(r@ =~= page_order_spec());
    r
}

impl Platform {
    pub open spec fn label_spec(self) -> Seq<char> {
        match self {
            Platform::GbGbc => "GB/GBC"@,
            Platform::Gbc => "GBC"@,
            Platform::Gba => "GBA"@,
            Platform::Nds => "NDS"@,
            Platform::Custom => "Custom"@,
            Platform::Unknown => "Unknown"@,
        }
    }

    pub fn label(&self) -> (r: &'static str)
        ensures
            r@ == self.label_spec(),
    {
        match self {
            Platform::GbGbc => "GB/GBC",
            Platform::Gbc => "GBC",
            Platform::Gba => "GBA",
            Platform::Nds => "NDS",
            Platform::Custom => "Custom",
            Platform::Unknown => "Unknown",
        }
    }
}

impl RecorderStatus {
    pub open spec fn label_spec(self) -> Seq<char> {
        match self {
            RecorderStatus::Available => "Available"@,
            RecorderStatus::InBeta => "In Beta"@,
            RecorderStatus::InAlpha => "In Alpha"@,
            RecorderStatus::Unavailable => "Unavailable"@,
            RecorderStatus::Unknown => "Unknown"@,
        }
    }

    pub fn label(&self) -> (r: &'static str)
        ensures
            r@ == self.label_spec(),
    {
        match self {
            RecorderStatus::Available => "Available",
            RecorderStatus::InBeta => "In Beta",
            RecorderStatus::InAlpha => "In Alpha",
            RecorderStatus::Unavailable => "Unavailable",
            RecorderStatus::Unknown => "Unknown",
        }
    }
}

/// An official game and the name the game data knows it by.
pub struct OfficialGame {
    pub name: String,
    pub version: GameVersion,
}

pub open spec fn official_names(official: Seq<OfficialGame>) -> Seq<Seq<char>> {
    official.map_values(|o: OfficialGame| o.name@)
}

/// What the game data tells of a custom game: its generation and the name
/// of the game it is based on, when it could be read.
pub struct CustomGame {
    pub generation: u64,
    pub base: Option<String>,
}

pub open spec fn custom_view(c: Option<CustomGame>) -> Option<(u64, Option<Seq<char>>)> {
    match c {
        Some(g) => Some(
            (
                g.generation,
                match g.base {
                    Some(b) => Some(b@),
                    None => None,
                },
            ),
        ),
        None => None,
    }
}

/// A line of the game table.
pub struct GameRow {
    pub name: String,
    /// `None` when the game data could not be read
    pub generation: Option<u64>,
    pub platform: Platform,
    pub recorder: RecorderStatus,
}

pub type RowView = (Seq<char>, Option<u64>, Platform, RecorderStatus);

pub open spec fn row_view(r: GameRow) -> RowView {
    (r.name@, r.generation, r.platform, r.recorder)
}

/// The first official game named `name`.
pub open spec fn official_named(official: Seq<OfficialGame>, name: Seq<char>) -> GameVersion {
    official[choose|i: int| first_named(official, name, i)].version
}

pub open spec fn first_named(official: Seq<OfficialGame>, name: Seq<char>, i: int) -> bool {
    0 <= i < official.len() && official[i].name@ == name && forall|j: int|
        0 <= j < i ==> official[j].name@ != name
}

/// The table line of the game `name`: an official game's facts; for a
/// custom game its generation, the custom console, and the recorder
/// status of the game it is based on; unknowns where the data could not be
/// read.
pub open spec fn row_spec(official: Seq<OfficialGame>, name: Seq<char>, custom: Option<(u64, Option<Seq<char>>)>) -> RowView {
    if has_name(official_names(official), name) {
        let info = game_info_spec(official_named(official, name));
        (name, Some(info.0), info.1, info.2)
    } else {
        match custom {
            Some((g, base)) => (
                name,
                Some(g),
                Platform::Custom,
                match base {
                    Some(b) if has_name(official_names(official), b) => game_info_spec(
                        official_named(official, b),
                    ).2,
                    _ => RecorderStatus::Unknown,
                },
            ),
            None => (name, None, Platform::Unknown, RecorderStatus::Unknown),
        }
    }
}

/// The official game named `name`, if any.
fn find_official(official: &Vec<OfficialGame>, name: &str) -> (r: Option<GameVersion>)
    ensures
        match r {
            Some(v) => has_name(official_names(official@), name@) && v == official_named(official@, name@),
            None => !has_name(official_names(official@), name@),
        },
{
    let mut i: usize = 0;
    while i < official.len()
        invariant
            i <= official.len(),
            forall|j: int| 0 <= j < i ==> official@[j].name@ != name@,
        decreases official.len() - i,
    {
        if eq_str(&official[i].name, name) {
            proof {
                assert(first_named(official@, name@, i as int));
                let k = choose|k: int| first_named(official@, name@, k);
                assert(k == i as int) by {
                    if k < i {
                        assert(official@[k].name@ != name@);
                    } else if k > i {
                        assert(official@[i as int].name@ != name@);
                    }
                }
                assert(official_names(official@)[i as int] == name@);
            }
            return Some(official[i].version);
        }
        i = i + 1;
    }
    proof {
        assert forall|j: int| 0 <= j < official_names(official@).len() implies official_names(official@)[j]
            != name@ by {
            assert(official_names(official@)[j] == official@[j].name@);
        }
    }
    None
}

/// The table line of the game `name`.
pub fn game_row(official: &Vec<OfficialGame>, name: &String, custom: &Option<CustomGame>) -> (r: GameRow)
    ensures
        row_view(r) == row_spec(official@, name@, custom_view(*custom)),
{
    match find_official(official, name.as_str()) {
        Some(v) => {
            let info = game_info(v);
            GameRow { name: name.clone(), generation: Some(info.0), platform: info.1, recorder: info.2 }
        },
        None => match custom {
            Some(g) => {
                let recorder = match &g.base {
                    Some(b) => match find_official(official, b.as_str()) {
                        Some(bv) => game_info(bv).2,
                        None => RecorderStatus::Unknown,
                    },
                    None => RecorderStatus::Unknown,
                };
                GameRow { name: name.clone(), generation: Some(g.generation), platform: Platform::Custom, recorder }
            },
            None => GameRow {
                name: name.clone(),
                generation: None,
                platform: Platform::Unknown,
                recorder: RecorderStatus::Unknown,
            },
        },
    }
}

impl GameRow {
    pub open spec fn generation_label_spec(self) -> Seq<char> {
        match self.generation {
            Some(g) => "Generation "@ + decimal_digits(g as nat),
            None => "Unknown"@,
        }
    }

    /// The table's generation cell.
    pub fn generation_label(&self) -> (r: String)
        ensures
            r@ == self.generation_label_spec(),
    {
        match self.generation {
            Some(g) => {
                let mut l = String::from_str("Generation ");
                let n = u64_text(g);
                l.append(n.as_str());
                l
            },
            None => String::from_str("Unknown"),
        }
    }
}

// ---------------------------------------------------------------------------
// the order of the table
// ---------------------------------------------------------------------------

/// The official names that the game data offers, in the page's order.
pub open spec fn offered_official(official: Seq<Seq<char>>, all: Seq<Seq<char>>) -> Seq<Seq<char>>
    decreases official.len(),
{
    if official.len() == 0 {
        Seq::empty()
    } else {
        let rest = offered_official(official.drop_last(), all);
        if has_name(all, official.last()) {
            rest.push(official.last())
        } else {
            rest
        }
    }
}

/// The names of `all` that are not official, in their order.
pub open spec fn custom_names(all: Seq<Seq<char>>, official: Seq<Seq<char>>) -> Seq<Seq<char>>
    decreases all.len(),
{
    if all.len() == 0 {
        Seq::empty()
    } else {
        let rest = custom_names(all.drop_last(), official);
        if has_name(official, all.last()) {
            rest
        } else {
            rest.push(all.last())
        }
    }
}

/// `x` among names sorted by character: before the first greater name.
pub open spec fn insert_name(s: Seq<Seq<char>>, x: Seq<char>) -> Seq<Seq<char>>
    decreases s.len(),
{
    if s.len() == 0 {
        seq![x]
    } else if lex_lt(x, s[0]) {
        seq![x] + s
    } else {
        seq![s[0]] + insert_name(s.drop_first(), x)
    }
}

/// The names sorted character by character.
pub open spec fn sorted_names(s: Seq<Seq<char>>) -> Seq<Seq<char>>
    decreases s.len(),
{
    if s.len() == 0 {
        Seq::empty()
    } else {
        insert_name(sorted_names(s.drop_last()), s.last())
    }
}

pub open spec fn names_ascend(s: Seq<Seq<char>>) -> bool {
    forall|i: int, j: int| 0 <= i < j < s.len() ==> !lex_lt(s[j], s[i])
}

/// The table's order of games: the offered official games in the page's
/// order, then the custom games sorted by name.
pub open spec fn game_order_spec(all: Seq<Seq<char>>, official: Seq<Seq<char>>) -> Seq<Seq<char>> {
    offered_official(official, all) + sorted_names(custom_names(all, official))
}

proof fn lemma_lex_asym(a: Seq<char>, b: Seq<char>)
    requires
        lex_lt(a, b),
    ensures
        !lex_lt(b, a),
{
    if lex_lt(b, a) {
        lemma_lex_transitive(a, b, a);
        lemma_lex_irreflexive(a);
    }
}

proof fn lemma_insert_name_keeps_order(s: Seq<Seq<char>>, x: Seq<char>)
    requires
        names_ascend(s),
    ensures
        names_ascend(insert_name(s, x)),
        insert_name(s, x).to_multiset() == s.to_multiset().insert(x),
        insert_name(s, x).len() == s.len() + 1,
    decreases s.len(),
{
    broadcast use vstd::seq_lib::group_to_multiset_ensures;

    if s.len() == 0 {
        assert(insert_name(s, x) =~= seq![x]);
        assert(seq![x] =~= Seq::<Seq<char>>::empty().push(x));
    } else if lex_lt(x, s[0]) {
        let r = seq![x] + s;
        assert forall|i: int, j: int| 0 <= i < j < r.len() implies !lex_lt(r[j], r[i]) by {
            if i == 0 {
                if j > 1 {
                    assert(!lex_lt(s[j - 1], s[0]));
                    if lex_lt(s[j - 1], x) {
                        lemma_lex_transitive(s[j - 1], x, s[0]);
                    }
                } else {
                    lemma_lex_asym(x, s[0]);
                }
            } else {
                assert(r[i] == s[i - 1] && r[j] == s[j - 1]);
            }
        }
        assert(r =~= s.insert(0, x));
    } else {
        let rest = s.drop_first();
        assert(names_ascend(rest)) by {
            assert forall|i: int, j: int| 0 <= i < j < rest.len() implies !lex_lt(rest[j], rest[i]) by {
                assert(rest[i] == s[i + 1] && rest[j] == s[j + 1]);
            }
        }
        lemma_insert_name_keeps_order(rest, x);
        let t = insert_name(rest, x);
        let r = seq![s[0]] + t;
        assert forall|i: int, j: int| 0 <= i < j < r.len() implies !lex_lt(r[j], r[i]) by {
            if i == 0 {
                assert(r[j] == t[j - 1]);
                assert(t.to_multiset().contains(t[j - 1]));
                assert(rest.to_multiset().insert(x).contains(t[j - 1]));
                if t[j - 1] != x {
                    assert(rest.to_multiset().contains(t[j - 1]));
                    assert(rest.contains(t[j - 1]));
                    let k = choose|k: int| 0 <= k < rest.len() && rest[k] == t[j - 1];
                    assert(rest[k] == s[k + 1]);
                }
            } else {
                assert(r[i] == t[i - 1] && r[j] == t[j - 1]);
            }
        }
        assert((seq![s[0]] + t).to_multiset() =~= t.to_multiset().insert(s[0])) by {
            assert(seq![s[0]] + t =~= t.insert(0, s[0]));
        }
        assert(s.to_multiset() =~= rest.to_multiset().insert(s[0])) by {
            assert(s =~= rest.insert(0, s[0]));
        }
    }
}

/// Sorting names keeps the same names and puts them in ascending order.
pub proof fn law_sorted_names(s: Seq<Seq<char>>)
    ensures
        names_ascend(sorted_names(s)),
        sorted_names(s).to_multiset() == s.to_multiset(),
        sorted_names(s).len() == s.len(),
    decreases s.len(),
{
    broadcast use vstd::seq_lib::group_to_multiset_ensures;

    if s.len() > 0 {
        law_sorted_names(s.drop_last());
        lemma_insert_name_keeps_order(sorted_names(s.drop_last()), s.last());
        assert(s =~= s.drop_last().push(s.last()));
    }
}

proof fn lemma_insert_name_at(s: Seq<Seq<char>>, x: Seq<char>, p: int)
    requires
        0 <= p <= s.len(),
        forall|j: int| 0 <= j < p ==> !lex_lt(x, s[j]),
        p == s.len() || lex_lt(x, s[p]),
    ensures
        insert_name(s, x) == s.insert(p, x),
    decreases s.len(),
{
    if s.len() == 0 {
        assert(s.insert(p, x) =~= seq![x]);
    } else if p == 0 {
        assert(s.insert(0, x) =~= seq![x] + s);
    } else {
        let rest = s.drop_first();
        assert forall|j: int| 0 <= j < p - 1 implies !lex_lt(x, rest[j]) by {
            assert(rest[j] == s[j + 1]);
        }
        if p - 1 < rest.len() {
            assert(rest[p - 1] == s[p]);
        }
        lemma_insert_name_at(rest, x, p - 1);
        assert(s.insert(p, x) =~= seq![s[0]] + rest.insert(p - 1, x));
    }
}

/// The names sorted character by character (`Vec::sort` on strings).
pub fn sort_names(names: &Vec<String>) -> (r: Vec<String>)
    ensures
        r.deep_view() == sorted_names(names.deep_view()),
{
    let ghost lines = names.deep_view();
    let mut sorted: Vec<String> = Vec::new();
    let mut k: usize = 0;
    while k < names.len()
        invariant
            k <= names.len(),
            lines == names.deep_view(),
            sorted.deep_view() == sorted_names(lines.subrange(0, k as int)),
        decreases names.len() - k,
    {
        let ghost s0 = sorted.deep_view();
        let x = names[k].clone();
        let mut p: usize = 0;
        while p < sorted.len() && !less_than(x.as_str(), sorted[p].as_str())
            invariant
                p <= sorted.len(),
                s0 == sorted.deep_view(),
                forall|j: int| 0 <= j < p ==> !lex_lt(x@, s0[j]),
            decreases sorted.len() - p,
        {
            p = p + 1;
        }
        proof {
            let pre = lines.subrange(0, k + 1);
            assert(pre.drop_last() =~= lines.subrange(0, k as int));
            assert(pre.last() == x@);
            lemma_insert_name_at(s0, x@, p as int);
        }
        sorted.insert(p, x);
        proof {
            assert(sorted.deep_view() =~= s0.insert(p as int, x@));
        }
        k = k + 1;
    }
    proof {
        assert(lines.subrange(0, names.len() as int) =~= lines);
    }
    sorted
}

/// The order of the game table.
pub fn game_order(all: &Vec<String>, official: &Vec<OfficialGame>) -> (r: Vec<String>)
    ensures
        r.deep_view() == game_order_spec(all.deep_view(), official_names(official@)),
{
    let ghost names = official_names(official@);
    let mut out: Vec<String> = Vec::new();
    let mut i: usize = 0;
    while i < official.len()
        invariant
            i <= official.len(),
            names == official_names(official@),
            out.deep_view() == offered_official(names.subrange(0, i as int), all.deep_view()),
        decreases official.len() - i,
    {
        let ghost before = out.deep_view();
        if crate::option_menu::contains_name(all, official[i].name.as_str()) {
            out.push(official[i].name.clone());
            assert(out.deep_view() =~= before.push(names[i as int]));
        }
        proof {
            let pre = names.subrange(0, i + 1);
            assert(pre.drop_last() =~= names.subrange(0, i as int));
            assert(pre.last() == names[i as int]);
        }
        i = i + 1;
    }
    assert(names.subrange(0, official.len() as int) =~= names);
    let ghost firsts = out.deep_view();
    let mut custom: Vec<String> = Vec::new();
    let mut j: usize = 0;
    while j < all.len()
        invariant
            j <= all.len(),
            names == official_names(official@),
            custom.deep_view() == custom_names(all.deep_view().subrange(0, j as int), names),
        decreases all.len() - j,
    {
        let ghost before = custom.deep_view();
        let off = find_official(official, all[j].as_str());
        if off.is_none() {
            custom.push(all[j].clone());
            assert(custom.deep_view() =~= before.push(all.deep_view()[j as int]));
        }
        proof {
            let pre = all.deep_view().subrange(0, j + 1);
            assert(pre.drop_last() =~= all.deep_view().subrange(0, j as int));
            assert(pre.last() == all.deep_view()[j as int]);
        }
        j = j + 1;
    }
    assert(all.deep_view().subrange(0, all.len() as int) =~= all.deep_view());
    let sorted = sort_names(&custom);
    let mut k: usize = 0;
    while k < sorted.len()
        invariant
            k <= sorted.len(),
            out.deep_view() == firsts + sorted.deep_view().subrange(0, k as int),
        decreases sorted.len() - k,
    {
        let ghost before = out.deep_view();
        out.push(sorted[k].clone());
        assert(out.deep_view() =~= before.push(sorted.deep_view()[k as int]));
        assert(out.deep_view() =~= firsts + sorted.deep_view().subrange(0, k + 1));
        k = k + 1;
    }
    assert(sorted.deep_view().subrange(0, sorted.len() as int) =~= sorted.deep_view());
    out
}

/// The game table: the games in table order, each with what the game data
/// told of it (`custom[i]` for the game `order[i]`).
pub fn game_rows(order: &Vec<String>, official: &Vec<OfficialGame>, custom: &Vec<Option<CustomGame>>) -> (r: Vec<
    GameRow,
>)
    requires
        custom.len() == order.len(),
    ensures
        r.len() == order.len(),
        forall|i: int|
            0 <= i < order.len() ==> row_view(#[trigger] r@[i]) == row_spec(
                official@,
                order@[i]@,
                custom_view(custom@[i]),
            ),
{
    let mut rows: Vec<GameRow> = Vec::new();
    let mut i: usize = 0;
    while i < order.len()
        invariant
            i <= order.len(),
            custom.len() == order.len(),
            rows.len() == i,
            forall|k: int|
                0 <= k < i ==> row_view(#[trigger] rows@[k]) == row_spec(
                    official@,
                    order@[k]@,
                    custom_view(custom@[k]),
                ),
        decreases order.len() - i,
    {
        let row = game_row(official, &order[i], &custom[i]);
        rows.push(row);
        i = i + 1;
    }
    rows
}

// ---------------------------------------------------------------------------
// the page
// ---------------------------------------------------------------------------

/// The menu words of the page: the empty base route, the prefix of a
/// preset route, and the species menu's "no Pokémon" entry.
pub struct RouteWords {
    pub empty_route: String,
    pub preset_prefix: String,
    pub no_pokemon: String,
}

/// The route a new route starts from.
pub enum BaseRoute {
    Empty,
    /// a preset of the game, by its name without the prefix
    Preset(String),
    /// a saved route, by name
    Saved(String),
}

/// What choosing a game did.
pub enum GameChoice {
    /// the game was already chosen
    Unchanged,
    /// the game's data is missing; the message says so
    Missing(String),
    /// the game is chosen; `gen_changed` when its generation differs from
    /// the previous game's
    Chosen { gen_changed: bool },
}

pub open spec fn missing_game_text(game: Seq<char>) -> Seq<char> {
    "Could not load game version '"@ + game + "'. The base generation may not be available yet."@
}

pub open spec fn name_view(o: Option<String>) -> Option<Seq<char>> {
    match o {
        Some(s) => Some(s@),
        None => None,
    }
}

/// The saved routes of the game `game`, in their order.
pub open spec fn routes_of(s: Seq<EntryView>, game: Seq<char>) -> Seq<EntryView>
    decreases s.len(),
{
    if s.len() == 0 {
        Seq::empty()
    } else {
        let rest = routes_of(s.drop_last(), game);
        if s.last().1 == game {
            rest.push(s.last())
        } else {
            rest
        }
    }
}

/// The base-route choices of a game: the empty route, each preset with the
/// preset prefix, then the game's saved routes by lowercase name.
pub open spec fn base_route_list(
    empty: Seq<char>,
    prefix: Seq<char>,
    presets: Seq<Seq<char>>,
    entries: Seq<EntryView>,
    game: Seq<char>,
) -> Seq<Seq<char>> {
    seq![empty] + presets.map_values(|p: Seq<char>| prefix + p) + sorted_routes(
        RouteSort::Alphabetical,
        routes_of(entries, game),
    ).map_values(|e: EntryView| e.0)
}

pub struct NewRoutePage {
    pub games: Vec<GameRow>,
    pub selected_game: Option<String>,
    /// whether the chosen game's data could be read
    pub has_game_data: bool,
    pub current_gen_num: Option<u64>,
    pub pkmn_filter: String,
    pub solo_selector: OptionMenu,
    pub min_battles_filter: String,
    pub min_battles_cache: Vec<String>,
    pub min_battles_selector: OptionMenu,
    /// false while the base routes were listed before the route index
    /// finished loading (they are listed again once it has)
    pub base_routes_from_index: bool,
    pub words: RouteWords,
}

/// The base route the menu entry `selected` names: the empty route, a
/// preset (the entry starts with the preset prefix), or a saved route.
pub open spec fn base_route_named(r: BaseRoute, selected: Seq<char>, empty: Seq<char>, prefix: Seq<char>) -> bool {
    if selected == empty {
        r is Empty
    } else if starts_with_seq(selected, prefix) {
        r matches BaseRoute::Preset(rest) && rest@ == selected.subrange(prefix.len() as int, selected.len() as int)
    } else {
        r matches BaseRoute::Saved(name) && name@ == selected
    }
}

/// The saved routes of a game, by lowercase name.
fn saved_routes_of(entries: &Vec<RouteEntry>, game: &String) -> (r: Vec<RouteEntry>)
    ensures
        entries_view(r@) == sorted_routes(RouteSort::Alphabetical, routes_of(entries_view(entries@), game@)),
{
    let ghost all = entries_view(entries@);
    let mut kept: Vec<RouteEntry> = Vec::new();
    let mut i: usize = 0;
    while i < entries.len()
        invariant
            i <= entries.len(),
            all == entries_view(entries@),
            entries_view(kept@) == routes_of(all.subrange(0, i as int), game@),
        decreases entries.len() - i,
    {
        let ghost before = entries_view(kept@);
        if entries[i].version == *game {
            kept.push(copy_entry(&entries[i]));
            assert(entries_view(kept@) =~= before.push(all[i as int]));
        }
        proof {
            let pre = all.subrange(0, i + 1);
            assert(pre.drop_last() =~= all.subrange(0, i as int));
            assert(pre.last() == all[i as int]);
        }
        i = i + 1;
    }
    assert(all.subrange(0, entries.len() as int) =~= all);
    sort_routes(kept, RouteSort::Alphabetical)
}

/// The base-route choices of a game.
pub fn base_route_choices(words: &RouteWords, presets: &Vec<String>, entries: &Vec<RouteEntry>, game: &String) -> (r: Vec<
    String,
>)
    ensures
        r.deep_view() == base_route_list(
            words.empty_route@,
            words.preset_prefix@,
            presets.deep_view(),
            entries_view(entries@),
            game@,
        ),
{
    let ghost ps = presets.deep_view().map_values(|p: Seq<char>| words.preset_prefix@ + p);
    let mut all: Vec<String> = vec![words.empty_route.clone()];
    assert(all.deep_view() =~= seq![words.empty_route@]);
    let mut i: usize = 0;
    while i < presets.len()
        invariant
            i <= presets.len(),
            ps == presets.deep_view().map_values(|p: Seq<char>| words.preset_prefix@ + p),
            all.deep_view() == seq![words.empty_route@] + ps.subrange(0, i as int),
        decreases presets.len() - i,
    {
        let ghost before = all.deep_view();
        let mut name = words.preset_prefix.clone();
        name.append(presets[i].as_str());
        all.push(name);
        assert(all.deep_view() =~= before.push(ps[i as int]));
        assert(all.deep_view() =~= seq![words.empty_route@] + ps.subrange(0, i + 1));
        i = i + 1;
    }
    assert(ps.subrange(0, presets.len() as int) =~= ps);
    let ghost head = all.deep_view();
    let saved = saved_routes_of(entries, game);
    let ghost names = entries_view(saved@).map_values(|e: EntryView| e.0);
    let mut k: usize = 0;
    while k < saved.len()
        invariant
            k <= saved.len(),
            names == entries_view(saved@).map_values(|e: EntryView| e.0),
            all.deep_view() == head + names.subrange(0, k as int),
        decreases saved.len() - k,
    {
        let ghost before = all.deep_view();
        all.push(saved[k].name.clone());
        assert(names[k as int] == saved@[k as int].name@);
        assert(all.deep_view() =~= before.push(names[k as int]));
        assert(all.deep_view() =~= head + names.subrange(0, k + 1));
        k = k + 1;
    }
    assert(names.subrange(0, saved.len() as int) =~= names);
    all
}

/// The base route the menu entry `selected` names.
pub fn base_route_for(selected: &String, words: &RouteWords) -> (r: BaseRoute)
    ensures
        base_route_named(r, selected@, words.empty_route@, words.preset_prefix@),
{
    if *selected == words.empty_route {
        BaseRoute::Empty
    } else if starts_with_str(selected.as_str(), words.preset_prefix.as_str()) {
        let n = selected.unicode_len();
        let p = words.preset_prefix.unicode_len();
        let rest = selected.as_str().substring_char(p, n);
        BaseRoute::Preset(String::from_str(rest))
    } else {
        BaseRoute::Saved(selected.clone())
    }
}

impl NewRoutePage {
    /// A page with no game chosen: the species menu shows "no Pokémon" and
    /// the base-route menu the empty route.
    pub fn new(words: RouteWords) -> (r: NewRoutePage)
        ensures
            r.games@.len() == 0,
            r.selected_game is None,
            !r.has_game_data,
            r.current_gen_num is None,
            r.pkmn_filter@ == Seq::<char>::empty(),
            r.solo_selector.names() == seq![words.no_pokemon@],
            r.solo_selector.current@ == words.no_pokemon@,
            r.min_battles_filter@ == Seq::<char>::empty(),
            r.min_battles_cache.deep_view() == seq![words.empty_route@],
            r.min_battles_selector.names() == seq![words.empty_route@],
            r.min_battles_selector.current@ == words.empty_route@,
            r.base_routes_from_index,
            r.words == words,
    {
        let solo = vec![words.no_pokemon.clone()];
        assert(solo.deep_view() =~= seq![words.no_pokemon@]);
        let cache = vec![words.empty_route.clone()];
        assert(cache.deep_view() =~= seq![words.empty_route@]);
        let base = vec![words.empty_route.clone()];
        assert(base.deep_view() =~= seq![words.empty_route@]);
        NewRoutePage {
            games: Vec::new(),
            selected_game: None,
            has_game_data: false,
            current_gen_num: None,
            pkmn_filter: String::new(),
            solo_selector: OptionMenu::new(solo, None),
            min_battles_filter: String::new(),
            min_battles_cache: cache,
            min_battles_selector: OptionMenu::new(base, None),
            base_routes_from_index: true,
            words,
        }
    }

    /// The game table is filled the first time the page is drawn.
    pub fn needs_games(&self) -> (r: bool)
        ensures
            r == (self.games@.len() == 0),
    {
        self.games.len() == 0
    }

    /// The first game of the table, the one chosen when no other is.
    pub fn first_game(&self) -> (r: Option<String>)
        ensures
            self.games@.len() == 0 ==> r is None,
            self.games@.len() > 0 ==> name_view(r) == Some(self.games@[0].name@),
    {
        if self.games.len() > 0 {
            Some(self.games[0].name.clone())
        } else {
            None
        }
    }

    /// After the game list is read again: the game to choose, the first
    /// game when the chosen one is gone from the table.
    pub fn game_after_refresh(&self) -> (r: Option<String>)
        ensures
            (match self.selected_game {
                Some(c) => exists|i: int| 0 <= i < self.games@.len() && self.games@[i].name@ == c@,
                None => false,
            }) ==> r is None,
            !(match self.selected_game {
                Some(c) => exists|i: int| 0 <= i < self.games@.len() && self.games@[i].name@ == c@,
                None => false,
            }) ==> (self.games@.len() == 0 ==> r is None) && (self.games@.len() > 0 ==> name_view(r) == Some(
                self.games@[0].name@,
            )),
    {
        match &self.selected_game {
            Some(c) => {
                let mut i: usize = 0;
                while i < self.games.len()
                    invariant
                        i <= self.games.len(),
                        name_view(self.selected_game) == Some(c@),
                        forall|k: int| 0 <= k < i ==> self.games@[k].name@ != c@,
                    decreases self.games.len() - i,
                {
                    if self.games[i].name == *c {
                        assert(self.games@[i as int].name@ == c@);
                        return None;
                    }
                    i = i + 1;
                }
            },
            None => {},
        }
        self.first_game()
    }

    /// Choose the game `game`; `generation` is its generation, or `None`
    /// when its data could not be read.
    pub fn select_game(&mut self, game: &str, generation: Option<u64>) -> (r: GameChoice)
        ensures
            name_view(old(self).selected_game) == Some(game@) ==> r is Unchanged && *final(self) == *old(self),
            name_view(old(self).selected_game) != Some(game@) ==> {
                &&& name_view(final(self).selected_game) == Some(game@)
                &&& match generation {
                    None => {
                        &&& r matches GameChoice::Missing(m) && m@ == missing_game_text(game@)
                        &&& !final(self).has_game_data
                        &&& final(self).current_gen_num == old(self).current_gen_num
                    },
                    Some(g) => {
                        &&& r matches GameChoice::Chosen { gen_changed } && gen_changed == (
                        old(self).current_gen_num != Some(g))
                        &&& final(self).has_game_data
                        &&& final(self).current_gen_num == Some(g)
                    },
                }
                &&& final(self).games == old(self).games
                &&& final(self).pkmn_filter == old(self).pkmn_filter
                &&& final(self).solo_selector == old(self).solo_selector
                &&& final(self).min_battles_filter == old(self).min_battles_filter
                &&& final(self).min_battles_cache == old(self).min_battles_cache
                &&& final(self).min_battles_selector == old(self).min_battles_selector
                &&& final(self).base_routes_from_index == old(self).base_routes_from_index
                &&& final(self).words == old(self).words
            },
    {
        let same = match &self.selected_game {
            Some(c) => eq_str(c, game),
            None => false,
        };
        if same {
            return GameChoice::Unchanged;
        }
        self.selected_game = Some(String::from_str(game));
        match generation {
            None => {
                self.has_game_data = false;
                let mut m = String::from_str("Could not load game version '");
                m.append(game);
                m.append("'. The base generation may not be available yet.");
                GameChoice::Missing(m)
            },
            Some(g) => {
                let gen_changed = match self.current_gen_num {
                    Some(c) => c != g,
                    None => true,
                };
                self.current_gen_num = Some(g);
                self.has_game_data = true;
                GameChoice::Chosen { gen_changed }
            },
        }
    }

    /// The base-route menu after its filter changed: the choices that
    /// contain the filter (every choice for an empty filter), or the empty
    /// route alone.
    pub fn base_route_filter_changed(&mut self)
        ensures
            final(self).min_battles_selector.names() == or_sentinel(
                filtered_names(old(self).min_battles_cache.deep_view(), old(self).min_battles_filter@),
                old(self).words.empty_route@,
            ),
            final(self).min_battles_selector.current@ == selection_after(
                old(self).min_battles_selector.names(),
                old(self).min_battles_selector.current@,
                final(self).min_battles_selector.names(),
                None,
            ),
            final(self).games == old(self).games,
            final(self).selected_game == old(self).selected_game,
            final(self).has_game_data == old(self).has_game_data,
            final(self).current_gen_num == old(self).current_gen_num,
            final(self).pkmn_filter == old(self).pkmn_filter,
            final(self).solo_selector == old(self).solo_selector,
            final(self).min_battles_filter == old(self).min_battles_filter,
            final(self).min_battles_cache == old(self).min_battles_cache,
            final(self).base_routes_from_index == old(self).base_routes_from_index,
            final(self).words == old(self).words,
    {
        let all = copy_names(&self.min_battles_cache);
        let kept = filter_names(all, self.min_battles_filter.as_str());
        let vals = with_sentinel(kept, self.words.empty_route.as_str());
        self.min_battles_selector.new_values(vals, None);
    }

    /// The base routes listed again for the chosen game: its presets and
    /// its saved routes from the route index (`loaded`: whether the index
    /// has finished loading). Nothing changes while no game with data is
    /// chosen.
    pub fn rebuild_base_routes(&mut self, presets: &Vec<String>, entries: &Vec<RouteEntry>, loaded: bool)
        ensures
            !(old(self).selected_game is Some && old(self).has_game_data) ==> *final(self) == *old(self),
            old(self).selected_game is Some && old(self).has_game_data ==> {
                &&& final(self).min_battles_cache.deep_view() == base_route_list(
                    old(self).words.empty_route@,
                    old(self).words.preset_prefix@,
                    presets.deep_view(),
                    entries_view(entries@),
                    old(self).selected_game->0@,
                )
                &&& final(self).base_routes_from_index == loaded
                &&& final(self).min_battles_selector.names() == or_sentinel(
                    filtered_names(final(self).min_battles_cache.deep_view(), old(self).min_battles_filter@),
                    old(self).words.empty_route@,
                )
                &&& final(self).min_battles_selector.current@ == selection_after(
                    old(self).min_battles_selector.names(),
                    old(self).min_battles_selector.current@,
                    final(self).min_battles_selector.names(),
                    None,
                )
                &&& final(self).games == old(self).games
                &&& final(self).selected_game == old(self).selected_game
                &&& final(self).has_game_data == old(self).has_game_data
                &&& final(self).current_gen_num == old(self).current_gen_num
                &&& final(self).pkmn_filter == old(self).pkmn_filter
                &&& final(self).solo_selector == old(self).solo_selector
                &&& final(self).min_battles_filter == old(self).min_battles_filter
                &&& final(self).words == old(self).words
            },
    {
        if !self.has_game_data {
            return;
        }
        let game = match &self.selected_game {
            Some(g) => g.clone(),
            None => {
                return;
            },
        };
        self.min_battles_cache = base_route_choices(&self.words, presets, entries, &game);
        self.base_routes_from_index = loaded;
        self.base_route_filter_changed();
    }

    /// Whether the base routes have to be listed again: they were listed
    /// before the route index had loaded, and now it has.
    pub fn needs_base_rebuild(&self, loaded: bool) -> (r: bool)
        ensures
            r == (!self.base_routes_from_index && loaded),
    {
        !self.base_routes_from_index && loaded
    }

    /// The species chosen in the species menu, unless it is empty or the
    /// "no Pokémon" entry.
    pub fn chosen_species(&self) -> (r: Option<String>)
        ensures
            (self.solo_selector.current@.len() > 0 && self.solo_selector.current@ != self.words.no_pokemon@)
                ==> name_view(r) == Some(self.solo_selector.current@),
            !(self.solo_selector.current@.len() > 0 && self.solo_selector.current@ != self.words.no_pokemon@)
                ==> r is None,
    {
        let selected = &self.solo_selector.current;
        if selected.unicode_len() > 0 && !(*selected == self.words.no_pokemon) {
            Some(selected.clone())
        } else {
            None
        }
    }

    /// "Create Route": the base route of the new route, once a game with
    /// data is chosen.
    pub fn base_route(&self) -> (r: Option<BaseRoute>)
        ensures
            !(self.selected_game is Some && self.has_game_data) ==> r is None,
            self.selected_game is Some && self.has_game_data ==> (r matches Some(b) && base_route_named(
                b,
                self.min_battles_selector.current@,
                self.words.empty_route@,
                self.words.preset_prefix@,
            )),
    {
        if self.selected_game.is_none() || !self.has_game_data {
            return None;
        }
        Some(base_route_for(&self.min_battles_selector.current, &self.words))
    }

    /// The form emptied, with a new game table. Returns the game to choose
    /// next, the table's first; with an empty table the menus fall back to
    /// "no Pokémon" and the empty route.
    pub fn reset_form(&mut self, games: Vec<GameRow>) -> (r: Option<String>)
        ensures
            final(self).pkmn_filter@ == Seq::<char>::empty(),
            final(self).min_battles_filter@ == Seq::<char>::empty(),
            final(self).games == games,
            final(self).selected_game is None,
            !final(self).has_game_data,
            final(self).current_gen_num is None,
            games@.len() > 0 ==> {
                &&& name_view(r) == Some(games@[0].name@)
                &&& final(self).solo_selector == old(self).solo_selector
                &&& final(self).min_battles_selector == old(self).min_battles_selector
            },
            games@.len() == 0 ==> {
                &&& r is None
                &&& final(self).solo_selector.names() == seq![old(self).words.no_pokemon@]
                &&& final(self).solo_selector.current@ == selection_after(
                    old(self).solo_selector.names(),
                    old(self).solo_selector.current@,
                    seq![old(self).words.no_pokemon@],
                    None,
                )
                &&& final(self).min_battles_selector.names() == seq![old(self).words.empty_route@]
                &&& final(self).min_battles_selector.current@ == selection_after(
                    old(self).min_battles_selector.names(),
                    old(self).min_battles_selector.current@,
                    seq![old(self).words.empty_route@],
                    None,
                )
            },
            final(self).min_battles_cache == old(self).min_battles_cache,
            final(self).base_routes_from_index == old(self).base_routes_from_index,
            final(self).words == old(self).words,
    {
        self.pkmn_filter = String::new();
        self.min_battles_filter = String::new();
        self.games = games;
        self.selected_game = None;
        self.has_game_data = false;
        self.current_gen_num = None;
        if self.games.len() > 0 {
            Some(self.games[0].name.clone())
        } else {
            let solo = vec![self.words.no_pokemon.clone()];
            assert(solo.deep_view() =~= seq![self.words.no_pokemon@]);
            self.solo_selector.new_values(solo, None);
            let base = vec![self.words.empty_route.clone()];
            assert(base.deep_view() =~= seq![self.words.empty_route@]);
            self.min_battles_selector.new_values(base, None);
            None
        }
    }
}

} // verus!
