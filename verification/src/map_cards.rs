//! The texts of the map's info cards: the heading and subtitle of an
//! object's card, a trainer's line, the notes under an item, the buttons
//! a fight offers, the title of a grass or water step's card, the summary
//! of a map's card, and the headings and rows of an encounter table.

use vstd::prelude::*;

use crate::map_state::RouteMapState;
use crate::option_menu::has_name;
use crate::text::{
    decimal_digits, i64_text, int_text, push_char, starts_with_seq, starts_with_str, to_uppercase, u64_text, uppercase,
};

verus! {

// ---------------------------------------------------------------------------
// object cards
// ---------------------------------------------------------------------------

/// Where an item lies.
#[derive(Clone, Copy, Debug, PartialEq, Eq, Structural)]
pub enum ItemSpot {
    /// a ball on the ground
    Ball,
    Hidden,
    Berry,
}

/// What a clicked object is, as far as its card tells.
pub enum CardSubject {
    /// a trainer the router has no trainer for (`raw`: the game's label)
    UnknownTrainer { raw: Option<String> },
    /// an NPC who does not fight (`label`: its name, when it has one)
    Npc { label: Option<String> },
    /// an item (`name` when it is a bag item; `fake` for a Pokémon or a
    /// decoy; `raw` the game's label)
    Item { spot: ItemSpot, name: Option<String>, raw: Option<String>, fake: bool },
    Sign,
    /// a warp to `dest` (the map's name, or its constant name), to its
    /// warp number `warp`
    Warp { dest: Option<String>, warp: Option<u32> },
    Other,
}

pub open spec fn or_empty(s: Option<String>) -> Seq<char> {
    match s {
        Some(t) => t@,
        None => Seq::empty(),
    }
}

pub open spec fn spot_title(spot: ItemSpot) -> Seq<char> {
    match spot {
        ItemSpot::Hidden => "Hidden item"@,
        ItemSpot::Berry => "Berry tree"@,
        ItemSpot::Ball => "Item"@,
    }
}

/// The heading and subtitle of an object's card.
pub open spec fn card_header_spec(subject: CardSubject, map_name: Seq<char>) -> (Seq<char>, Seq<char>) {
    match subject {
        CardSubject::UnknownTrainer { raw } => ("Trainer"@, map_name + " · no router trainer for "@ + or_empty(raw)),
        CardSubject::Npc { label } => (
            match label {
                Some(l) => l@,
                None => "NPC"@,
            },
            map_name,
        ),
        CardSubject::Item { spot, name, raw, fake } => match name {
            Some(n) => (n@, map_name),
            None => (
                spot_title(spot),
                map_name + " · "@ + if fake {
                    "not a bag item (a Pokémon or a decoy)"@
                } else {
                    "unknown item "@ + or_empty(raw)
                },
            ),
        },
        CardSubject::Sign => ("Sign"@, map_name),
        CardSubject::Warp { dest, warp } => (
            "Warp"@,
            map_name + " → "@ + match dest {
                Some(d) => d@,
                None => "?"@,
            } + match warp {
                Some(w) => " (warp "@ + decimal_digits(w as nat) + ")"@,
                None => Seq::empty(),
            },
        ),
        CardSubject::Other => ("Object"@, map_name),
    }
}

fn text_of(s: &Option<String>) -> (r: String)
    ensures
        r@ == or_empty(*s),
{
    match s {
        Some(t) => t.clone(),
        None => String::new(),
    }
}

/// The heading and subtitle of an object's card, on the map `map_name`.
pub fn card_header(subject: &CardSubject, map_name: &str) -> (r: (String, String))
    ensures
        (r.0@, r.1@) == card_header_spec(*subject, map_name@),
{
    match subject {
        CardSubject::UnknownTrainer { raw } => {
            let mut sub = String::from_str(map_name);
            sub.append(" · no router trainer for ");
            sub.append(text_of(raw).as_str());
            (String::from_str("Trainer"), sub)
        },
        CardSubject::Npc { label } => {
            let title = match label {
                Some(l) => l.clone(),
                None => String::from_str("NPC"),
            };
            (title, String::from_str(map_name))
        },
        CardSubject::Item { spot, name, raw, fake } => match name {
            Some(n) => (n.clone(), String::from_str(map_name)),
            None => {
                let title = match spot {
                    ItemSpot::Hidden => String::from_str("Hidden item"),
                    ItemSpot::Berry => String::from_str("Berry tree"),
                    ItemSpot::Ball => String::from_str("Item"),
                };
                let mut sub = String::from_str(map_name);
                sub.append(" · ");
                if *fake {
                    sub.append("not a bag item (a Pokémon or a decoy)");
                } else {
                    sub.append("unknown item ");
                    sub.append(text_of(raw).as_str());
                }
                (title, sub)
            },
        },
        CardSubject::Sign => (String::from_str("Sign"), String::from_str(map_name)),
        CardSubject::Warp { dest, warp } => {
            let mut sub = String::from_str(map_name);
            sub.append(" → ");
            match dest {
                Some(d) => sub.append(d.as_str()),
                None => sub.append("?"),
            }
            if let Some(w) = warp {
                sub.append(" (warp ");
                sub.append(u64_text(*w as u64).as_str());
                sub.append(")");
            }
            (String::from_str("Warp"), sub)
        },
        CardSubject::Other => (String::from_str("Object"), String::from_str(map_name)),
    }
}

/// The notes under an item's heading: picked up already on this route, and
/// for a hidden item, how to find it in the game.
pub fn item_notes(acquired: bool, hidden: bool) -> (r: Vec<&'static str>)
    ensures
        r@.map_values(|s: &'static str| s@) == (if acquired {
            seq!["Already picked up in this route"@]
        } else {
            Seq::empty()
        }) + (if hidden {
            seq!["Use the Itemfinder to locate it in-game"@]
        } else {
            Seq::empty()
        }),
{
    let mut v: Vec<&'static str> = Vec::new();
    if acquired {
        v.push("Already picked up in this route");
    }
    if hidden {
        v.push("Use the Itemfinder to locate it in-game");
    }
    proof {
        assert(v@.map_values(|s: &'static str| s@) =~= (if acquired {
            seq!["Already picked up in this route"@]
        } else {
            Seq::empty()
        }) + (if hidden {
            seq!["Use the Itemfinder to locate it in-game"@]
        } else {
            Seq::empty()
        }));
    }
    v
}

// ---------------------------------------------------------------------------
// trainer cards
// ---------------------------------------------------------------------------

/// A trainer's line under its name: class, location when known, prize
/// money, and whether the fight is a double battle.
pub open spec fn trainer_line(class: Seq<char>, location: Seq<char>, money: int, double: bool) -> Seq<char> {
    class + (if location.len() == 0 {
        Seq::empty()
    } else {
        " · "@ + location
    }) + " · ¥"@ + int_text(money) + (if double {
        " · Double"@
    } else {
        Seq::empty()
    })
}

/// The subtitle of a trainer's card: the trainer's line when the game
/// data knows the trainer (`facts`: class, location, money, double
/// battle), else the map's name. `double` marks the object's own fight as
/// a double battle.
pub fn trainer_subtitle(facts: Option<(&str, &str, i64, bool)>, double: bool, map_name: &str) -> (r: String)
    ensures
        r@ == match facts {
            Some((class, location, money, dbl)) => trainer_line(class@, location@, money as int, double || dbl),
            None => map_name@,
        },
{
    match facts {
        Some((class, location, money, dbl)) => {
            let mut out = String::from_str(class);
            if location.unicode_len() > 0 {
                out.append(" · ");
                out.append(location);
            }
            out.append(" · ¥");
            out.append(i64_text(money).as_str());
            if double || dbl {
                out.append(" · Double");
            }
            out
        },
        None => String::from_str(map_name),
    }
}

/// `Add Brock`.
pub open spec fn add_label(name: Seq<char>) -> Seq<char> {
    "Add "@ + name
}

/// The buttons a fight's card offers: one per trainer when the fight
/// depends on the run (more than one trainer), else one to add it.
pub fn fight_buttons(names: &Vec<String>) -> (r: Vec<String>)
    ensures
        names@.len() > 1 ==> r@.len() == names@.len() && forall|i: int|
            0 <= i < r@.len() ==> #[trigger] r@[i]@ == add_label(names@[i]@),
        names@.len() <= 1 ==> r@.len() == 1 && r@[0]@ == "Add to route"@,
{
    let mut out: Vec<String> = Vec::new();
    if names.len() > 1 {
        let mut i: usize = 0;
        while i < names.len()
            invariant
                i <= names.len(),
                out@.len() == i,
                forall|t: int| 0 <= t < i ==> #[trigger] out@[t]@ == add_label(names@[t]@),
            decreases names.len() - i,
        {
            let mut b = String::from_str("Add ");
            b.append(names[i].as_str());
            out.push(b);
            i = i + 1;
        }
    } else {
        out.push(String::from_str("Add to route"));
    }
    out
}

/// The route event already covering an object (for "Select in list"): the
/// event found for its first trainer that has one.
pub fn routed_event(found: &Vec<Option<i64>>) -> (r: Option<i64>)
    ensures
        match r {
            Some(id) => exists|i: int|
                0 <= i < found@.len() && found@[i] == Some(id) && forall|j: int| 0 <= j < i ==> found@[j] is None,
            None => forall|i: int| 0 <= i < found@.len() ==> found@[i] is None,
        },
{
    let mut i: usize = 0;
    while i < found.len()
        invariant
            i <= found.len(),
            forall|j: int| 0 <= j < i ==> found@[j] is None,
        decreases found.len() - i,
    {
        if let Some(id) = found[i] {
            return Some(id);
        }
        i = i + 1;
    }
    None
}

// ---------------------------------------------------------------------------
// step and map cards
// ---------------------------------------------------------------------------

pub open spec fn terrain_word(water: bool, grass: bool) -> Seq<char> {
    if water {
        "Water"@
    } else if grass {
        "Tall grass"@
    } else {
        "Wild Pokémon"@
    }
}

/// The heading of a step's encounter card: `Water — Route 4`.
pub fn tile_title(water: bool, grass: bool, map_name: &str) -> (r: String)
    ensures
        r@ == terrain_word(water, grass) + " — "@ + map_name@,
{
    let mut out = if water {
        String::from_str("Water")
    } else if grass {
        String::from_str("Tall grass")
    } else {
        String::from_str("Wild Pokémon")
    };
    out.append(" — ");
    out.append(map_name);
    out
}

/// How many of `names` the route has not fought yet.
pub open spec fn unfought(names: Seq<Seq<char>>, defeated: Seq<Seq<char>>) -> nat
    decreases names.len(),
{
    if names.len() == 0 {
        0
    } else {
        unfought(names.drop_last(), defeated) + if has_name(defeated, names.last()) {
            0nat
        } else {
            1nat
        }
    }
}

/// The trainers of a map the route has not fought yet.
pub fn unfought_count(names: &Vec<String>, state: &RouteMapState) -> (r: usize)
    ensures
        r == unfought(names.deep_view(), state.defeated.deep_view()),
{
    let ghost v = names.deep_view();
    let mut n: usize = 0;
    let mut i: usize = 0;
    while i < names.len()
        invariant
            i <= names.len(),
            v == names.deep_view(),
            n == unfought(v.subrange(0, i as int), state.defeated.deep_view()),
            n <= i,
        decreases names.len() - i,
    {
        proof {
            let pre = v.subrange(0, i + 1);
            assert(pre.drop_last() =~= v.subrange(0, i as int));
            assert(pre.last() == names@[i as int]@);
        }
        if !state.is_defeated(names[i].as_str()) {
            n = n + 1;
        }
        i = i + 1;
    }
    assert(v.subrange(0, names.len() as int) =~= v);
    n
}

/// `3 trainers (1 not yet fought) · 2 items`: the line under a map card's
/// heading.
pub fn map_summary(trainers: usize, remaining: usize, items: usize) -> (r: String)
    ensures
        r@ == decimal_digits(trainers as nat) + " trainers ("@ + decimal_digits(remaining as nat)
            + " not yet fought) · "@ + decimal_digits(items as nat) + " items"@,
{
    let mut out = u64_text(trainers as u64);
    out.append(" trainers (");
    out.append(u64_text(remaining as u64).as_str());
    out.append(" not yet fought) · ");
    out.append(u64_text(items as u64).as_str());
    out.append(" items");
    out
}

// ---------------------------------------------------------------------------
// encounter tables
// ---------------------------------------------------------------------------

/// The encounter methods found in water: surfing and the three rods.
pub open spec fn water_method(name: Seq<char>) -> bool {
    starts_with_seq(name, "surf"@) || starts_with_seq(name, "old_rod"@) || starts_with_seq(name, "good_rod"@)
        || starts_with_seq(name, "super_rod"@)
}

/// Whether an encounter method is found in water.
pub fn is_water_method(name: &str) -> (r: bool)
    ensures
        r == water_method(name@),
{
    starts_with_str(name, "surf") || starts_with_str(name, "old_rod") || starts_with_str(name, "good_rod")
        || starts_with_str(name, "super_rod")
}

/// Whether a card lists a method: a step's card only the methods of its
/// terrain (`only_terrain`, water or not), a map's card all of them.
pub fn shows_method(name: &str, water: bool, only_terrain: bool) -> (r: bool)
    ensures
        r == !(only_terrain && water_method(name@) != water),
{
    !(only_terrain && is_water_method(name) != water)
}

/// A method's name with its underscores as spaces.
pub open spec fn spaced(name: Seq<char>) -> Seq<char> {
    name.map_values(|c: char| if c == '_' { ' ' } else { c })
}

/// A method's heading once upper-cased (`upper`): with its base rate when
/// the table gives one, `OLD ROD  ·  rate 25`.
pub fn heading_with_rate(upper: &str, rate: Option<u32>) -> (r: String)
    ensures
        r@ == upper@ + match rate {
            Some(n) => "  ·  rate "@ + decimal_digits(n as nat),
            None => Seq::empty(),
        },
{
    let mut out = String::from_str(upper);
    if let Some(n) = rate {
        out.append("  ·  rate ");
        out.append(u64_text(n as u64).as_str());
    }
    out
}

/// The heading of an encounter method: its name spaced and upper-cased,
/// then its base rate.
pub fn method_heading(name: &str, rate: Option<u32>) -> (r: String)
    ensures
        r@ == uppercase(spaced(name@)) + match rate {
            Some(n) => "  ·  rate "@ + decimal_digits(n as nat),
            None => Seq::empty(),
        },
{
    let cs = crate::text::chars_of(name);
    let mut spaced_name = String::new();
    let mut i: usize = 0;
    while i < cs.len()
        invariant
            i <= cs.len(),
            cs@ == name@,
            spaced_name@ == spaced(name@.subrange(0, i as int)),
        decreases cs.len() - i,
    {
        let c = cs[i];
        push_char(&mut spaced_name, if c == '_' { ' ' } else { c });
        assert(spaced(name@.subrange(0, i + 1)) =~= spaced(name@.subrange(0, i as int)).push(
            if c == '_' { ' ' } else { c },
        ));
        i = i + 1;
    }
    assert(name@.subrange(0, cs.len() as int) =~= name@);
    let upper = to_uppercase(spaced_name.as_str());
    heading_with_rate(upper.as_str(), rate)
}

/// `Lv.5`, or `Lv.3-5` for a range.
pub open spec fn level_text(min: u32, max: u32) -> Seq<char> {
    if min == max {
        "Lv."@ + decimal_digits(min as nat)
    } else {
        "Lv."@ + decimal_digits(min as nat) + "-"@ + decimal_digits(max as nat)
    }
}

/// The level of an encounter slot.
pub fn level_label(min: u32, max: u32) -> (r: String)
    ensures
        r@ == level_text(min, max),
{
    let mut out = String::from_str("Lv.");
    out.append(u64_text(min as u64).as_str());
    if min != max {
        out.append("-");
        out.append(u64_text(max as u64).as_str());
    }
    out
}

/// What an encounter card says when it lists nothing: the map has no
/// table, or none of its methods fits the terrain.
pub fn encounter_notice(has_table: bool, any_listed: bool) -> (r: Option<&'static str>)
    ensures
        !has_table ==> (r matches Some(s) && s@ == "No wild Pokémon here"@),
        has_table && !any_listed ==> (r matches Some(s) && s@ == "No wild Pokémon for this terrain"@),
        has_table && any_listed ==> r is None,
{
    if !has_table {
        Some("No wild Pokémon here")
    } else if !any_listed {
        Some("No wild Pokémon for this terrain")
    } else {
        None
    }
}

} // verus!
