//! The quick-add popover opened from the route list: its trainer, item and
//! wild pages, what their buttons allow, and the events they insert.

use vstd::prelude::*;

use crate::editors::{field_value, parse_field, wild_valid, MenuWords};
use crate::event_draft::{EventDraft, HoldDraft, ItemDraft, TrainerDraft, WildDraft};
use crate::names::{
    filter_names, filtered_names, first_free_name, keep_within, names_within, numbered_name, or_sentinel,
    with_sentinel,
};
use crate::option_menu::{has_name, OptionMenu};
use crate::text::{
    chars_of, eq_str, i128_text, int_text, parse_i64_spec, starts_with_seq, starts_with_str, trim, trim_seq,
};

verus! {

/// A list with one name.
fn single(name: &String) -> (r: Vec<String>)
    ensures
        r.deep_view() == seq![name@],
{
    let r = vec![name.clone()];
    assert(r.deep_view() =~= seq![name@]);
    r
}

/// `first` followed by `rest`.
fn with_first(first: &String, rest: Vec<String>) -> (r: Vec<String>)
    ensures
        r.deep_view() == seq![first@] + rest.deep_view(),
{
    let mut r: Vec<String> = vec![first.clone()];
    let ghost head = r.deep_view();
    let mut i: usize = 0;
    while i < rest.len()
        invariant
            i <= rest.len(),
            head == seq![first@],
            r.deep_view() == head + rest.deep_view().subrange(0, i as int),
        decreases rest.len() - i,
    {
        let ghost before = r.deep_view();
        r.push(rest[i].clone());
        assert(r.deep_view() =~= before.push(rest.deep_view()[i as int]));
        assert(before.push(rest.deep_view()[i as int]) =~= head + rest.deep_view().subrange(0, i + 1));
        i = i + 1;
    }
    assert(rest.deep_view().subrange(0, rest.len() as int) =~= rest.deep_view());
    assert(head =~= seq![first@]);
    r
}

// ---------------------------------------------------------------------------
// trainers
// ---------------------------------------------------------------------------

/// The trainer named by a trainer menu entry `(exp/sec) Name`: what
/// follows the first `)`, trimmed, or the whole entry trimmed.
pub open spec fn entry_trainer(s: Seq<char>) -> Seq<char> {
    if s.contains(')') {
        trim_seq(s.subrange(s.index_of_first(')')->0 + 1, s.len() as int))
    } else {
        trim_seq(s)
    }
}

/// A trainer entry shows its experience per second before the name,
/// `(12.5) Lass Janice`: the name read from such an entry is the name
/// itself, whatever the prefix holds (short of a `)`).
pub proof fn law_entry_gives_the_name(eps: Seq<char>, name: Seq<char>)
    requires
        !eps.contains(')'),
        trim_seq(name) == name,
    ensures
        entry_trainer(seq!['('] + eps + seq![')', ' '] + name) == name,
{
    let s = seq!['('] + eps + seq![')', ' '] + name;
    let k: int = eps.len() as int + 1;
    assert(s[k] == ')');
    assert(s.contains(')'));
    s.index_of_first_ensures(')');
    let f = s.index_of_first(')')->0;
    assert(f == k) by {
        if f < k {
            if f > 0 {
                assert(s[f] == eps[f - 1]);
                assert(eps.contains(')'));
            }
        } else if f > k {
            assert(s[k] != ')');
        }
    }
    let rest = s.subrange(k + 1, s.len() as int);
    assert(rest =~= seq![' '] + name);
    assert(rest.drop_first() =~= name);
    assert(crate::text::is_ws(' '));
    assert(crate::text::trim_start_seq(rest) == crate::text::trim_start_seq(name));
}

/// The name a new trip folder takes: the trainer's location (`New Folder`
/// when it has none), then `Location Trip:2`, `Location Trip:3`, ...
pub open spec fn trip_base(location: Seq<char>) -> Seq<char> {
    if trim_seq(location).len() == 0 {
        "New Folder"@
    } else {
        location
    }
}

/// The trainer page: location, class and trainer menus, the rematch
/// switch, and the partner picked for a multi battle.
pub struct QuickTrainerAdd {
    pub loc: OptionMenu,
    pub class: OptionMenu,
    pub trainers: OptionMenu,
    pub show_rematches: bool,
    pub multi_setup_mode: bool,
    pub saved_partner: Option<String>,
    pub ignore_preview: bool,
}

impl QuickTrainerAdd {
    pub fn new(words: &MenuWords) -> (r: QuickTrainerAdd)
        ensures
            r.loc.names() == seq![words.all_trainers@],
            r.class.names() == seq![words.all_trainers@],
            r.trainers.names() == seq![words.no_trainers@],
            !r.show_rematches,
            !r.multi_setup_mode,
            r.saved_partner is None,
    {
        QuickTrainerAdd {
            loc: OptionMenu::new(single(&words.all_trainers), None),
            class: OptionMenu::new(single(&words.all_trainers), None),
            trainers: OptionMenu::new(single(&words.no_trainers), None),
            show_rematches: false,
            multi_setup_mode: false,
            saved_partner: None,
            ignore_preview: false,
        }
    }

    /// `get_trainer_name`: the trainer the menu's entry names.
    pub fn get_trainer_name(&self) -> (r: String)
        ensures
            r@ == entry_trainer(self.trainers.current@),
    {
        let cs = chars_of(self.trainers.current.as_str());
        let n = cs.len();
        let mut i: usize = 0;
        while i < n && cs[i] != ')'
            invariant
                cs@ == self.trainers.current@,
                n == cs.len(),
                i <= n,
                forall|j: int| 0 <= j < i ==> cs@[j] != ')',
            decreases n - i,
        {
            i = i + 1;
        }
        proof {
            let s = self.trainers.current@;
            s.index_of_first_ensures(')');
            if i < n {
                assert(s[i as int] == ')');
                assert(s.contains(')'));
                let f = s.index_of_first(')')->0;
                assert(f == i as int) by {
                    if f < i {
                    } else if f > i {
                        assert(s[i as int] != ')');
                    }
                }
            } else {
                assert(!s.contains(')')) by {
                    if s.contains(')') {
                        let j = choose|j: int| 0 <= j < s.len() && s[j] == ')';
                    }
                }
            }
        }
        if i < n {
            let mut rest = String::new();
            let mut k: usize = i + 1;
            while k < n
                invariant
                    cs@ == self.trainers.current@,
                    n == cs.len(),
                    i < n,
                    i + 1 <= k <= n,
                    rest@ == cs@.subrange(i + 1, k as int),
                decreases n - k,
            {
                crate::text::push_char(&mut rest, cs[k]);
                assert(rest@ =~= cs@.subrange(i + 1, k + 1));
                k = k + 1;
            }
            trim(rest.as_str())
        } else {
            trim(self.trainers.current.as_str())
        }
    }

    /// A new route's lists: the locations and classes (sorted), "all
    /// trainers" first; the multi setup is left.
    pub fn update_pkmn_version(&mut self, locations: Vec<String>, classes: Vec<String>, words: &MenuWords)
        ensures
            final(self).loc.names() == seq![words.all_trainers@] + locations.deep_view(),
            final(self).class.names() == seq![words.all_trainers@] + classes.deep_view(),
            !final(self).multi_setup_mode,
            final(self).saved_partner is None,
            final(self).trainers == old(self).trainers,
    {
        self.loc.new_values(with_first(&words.all_trainers, locations), None);
        self.class.new_values(with_first(&words.all_trainers, classes), None);
        self.multi_setup_mode = false;
        self.saved_partner = None;
    }

    /// The trainers beaten so far, and the partner picked for a multi.
    pub fn excluded_trainers(&self, defeated: Vec<String>) -> (r: Vec<String>)
        ensures
            r@ == (match self.saved_partner {
                Some(p) => defeated@.push(p),
                None => defeated@,
            }),
    {
        let mut r = defeated;
        match &self.saved_partner {
            Some(p) => r.push(p.clone()),
            None => {},
        }
        r
    }

    /// The trainer lookup came back: the trainer menu lists `valid` (the
    /// trainers of the chosen location and class not excluded), or "no
    /// trainers" alone.
    pub fn trainers_found(&mut self, valid: Vec<String>, words: &MenuWords)
        ensures
            final(self).trainers.names() == or_sentinel(valid.deep_view(), words.no_trainers@),
            !final(self).ignore_preview,
            final(self).loc == old(self).loc,
            final(self).class == old(self).class,
            final(self).multi_setup_mode == old(self).multi_setup_mode,
            final(self).saved_partner == old(self).saved_partner,
    {
        let list = with_sentinel(valid, words.no_trainers.as_str());
        self.trainers.new_values(list, None);
        self.ignore_preview = false;
    }

    /// `set_multi_setup_mode`: turning it on picks the selected trainer as
    /// the partner (when there is one and it can fight a multi battle,
    /// `can_multi`) and moves to its `location`; turning it off forgets the
    /// partner. Returns whether the mode is on.
    pub fn set_multi_setup_mode(&mut self, on: bool, can_multi: bool, location: Option<&str>, words: &MenuWords) -> (r: bool)
        ensures
            r == final(self).multi_setup_mode,
            !on ==> !r && final(self).saved_partner is None && final(self).loc == old(self).loc,
            on && (entry_trainer(old(self).trainers.current@) == words.no_trainers@ || !can_multi)
                ==> final(self).multi_setup_mode == old(self).multi_setup_mode && final(self).saved_partner
                == old(self).saved_partner && final(self).loc == old(self).loc,
            on && entry_trainer(old(self).trainers.current@) != words.no_trainers@ && can_multi ==> r
                && (match final(self).saved_partner {
                Some(p) => p@ == entry_trainer(old(self).trainers.current@),
                None => false,
            }) && final(self).loc.names() == old(self).loc.names() && final(self).loc.current@ == (
            match location {
                Some(l) => if has_name(old(self).loc.names(), l@) {
                    l@
                } else {
                    old(self).loc.current@
                },
                None => old(self).loc.current@,
            }),
            final(self).trainers == old(self).trainers,
    {
        if on {
            let selected = self.get_trainer_name();
            if eq_str(&selected, words.no_trainers.as_str()) || !can_multi {
                return self.multi_setup_mode;
            }
            self.saved_partner = Some(selected);
            self.multi_setup_mode = true;
            if let Some(l) = location {
                self.loc.set(l);
            }
            true
        } else {
            self.multi_setup_mode = false;
            self.saved_partner = None;
            false
        }
    }

    /// Which buttons are on: Add Trainer, Add Area, Multi Partner. Nothing
    /// can be added where nothing can be inserted; with no trainer only
    /// leaving a multi setup; Add Area needs a location and no multi setup;
    /// Multi Partner needs gen 3 or later and a trainer that can fight one
    /// (`multi_possible`).
    pub fn buttons(&self, can_insert: bool, multi_possible: bool, words: &MenuWords) -> (r: (bool, bool, bool))
        ensures
            r == (if !can_insert {
                (false, false, false)
            } else if entry_trainer(self.trainers.current@) == words.no_trainers@ {
                (false, false, self.multi_setup_mode)
            } else {
                (true, self.loc.current@ != words.all_trainers@ && !self.multi_setup_mode, multi_possible)
            }),
    {
        if !can_insert {
            return (false, false, false);
        }
        let selected = self.get_trainer_name();
        if eq_str(&selected, words.no_trainers.as_str()) {
            (false, false, self.multi_setup_mode)
        } else {
            let area = !eq_str(&self.loc.current, words.all_trainers.as_str()) && !self.multi_setup_mode;
            (true, area, multi_possible)
        }
    }

    /// The trainer to preview after the menus changed, unless the change
    /// asked for none.
    pub fn preview(&self, words: &MenuWords) -> (r: Option<String>)
        ensures
            match r {
                Some(t) => t@ == entry_trainer(self.trainers.current@) && t@ != words.no_trainers@
                    && !self.ignore_preview,
                None => entry_trainer(self.trainers.current@) == words.no_trainers@ || self.ignore_preview,
            },
    {
        let sel = self.get_trainer_name();
        if !eq_str(&sel, words.no_trainers.as_str()) && !self.ignore_preview {
            Some(sel)
        } else {
            None
        }
    }

    /// The multi battle Add Multi inserts: the partner with the selected
    /// trainer as second, every one of the `mon_count` mons splitting its
    /// exp in two; nothing without a partner.
    pub fn multi_fight(&self, mon_count: usize) -> (r: Option<EventDraft>)
        ensures
            match self.saved_partner {
                None => r is None,
                Some(p) => r matches Some(EventDraft::Trainer(d)) && d.trainer_name@ == p@
                    && d.second_trainer@ == entry_trainer(self.trainers.current@) && d.exp_split@
                    == Seq::new(mon_count as nat, |i: int| 2i64) && d.mon_order.len() == 0
                    && d.pay_day_amount is None && d.thief_mons.len() == 0,
            },
    {
        match &self.saved_partner {
            None => None,
            Some(p) => Some(
                EventDraft::Trainer(
                    TrainerDraft {
                        trainer_name: p.clone(),
                        second_trainer: self.get_trainer_name(),
                        exp_split: twos(mon_count),
                        mon_order: Vec::new(),
                        pay_day_amount: None,
                        thief_mons: Vec::new(),
                    },
                ),
            ),
        }
    }

    /// The fight Add Trainer inserts: the selected trainer, a double battle
    /// splitting each of its `mon_count` mons' exp in two.
    pub fn single_fight(&self, double_battle: bool, mon_count: usize) -> (r: EventDraft)
        ensures
            r matches EventDraft::Trainer(d) && d.trainer_name@ == entry_trainer(self.trainers.current@)
                && d.second_trainer@.len() == 0 && d.exp_split@ == (if double_battle {
                Seq::new(mon_count as nat, |i: int| 2i64)
            } else {
                Seq::empty()
            }) && d.mon_order.len() == 0 && d.pay_day_amount is None && d.thief_mons.len() == 0,
    {
        let split = if double_battle { twos(mon_count) } else { Vec::new() };
        EventDraft::Trainer(
            TrainerDraft {
                trainer_name: self.get_trainer_name(),
                second_trainer: String::new(),
                exp_split: split,
                mon_order: Vec::new(),
                pay_day_amount: None,
                thief_mons: Vec::new(),
            },
        )
    }
}

/// `n` twos.
fn twos(n: usize) -> (r: Vec<i64>)
    ensures
        r@ == Seq::new(n as nat, |i: int| 2i64),
{
    let mut r: Vec<i64> = Vec::new();
    let mut i: usize = 0;
    while i < n
        invariant
            i <= n,
            r@ == Seq::new(i as nat, |j: int| 2i64),
        decreases n - i,
    {
        r.push(2);
        i = i + 1;
        assert(r@ =~= Seq::new(i as nat, |j: int| 2i64));
    }
    r
}

/// The folder a trainer added onto a folder goes in: named after its
/// location, numbered `Trip:n` when the name is taken.
pub fn trip_folder_name(location: &str, existing: &Vec<String>) -> (r: String)
    requires
        existing.len() <= isize::MAX,
    ensures
        !existing.deep_view().contains(r@),
        exists|k: nat|
            k >= 1 && r@ == numbered_name(trip_base(location@), " Trip:"@, ""@, k) && forall|m: nat|
                1 <= m < k ==> existing.deep_view().contains(
                    #[trigger] numbered_name(trip_base(location@), " Trip:"@, ""@, m),
                ),
{
    let t = trim(location);
    let base = if t.unicode_len() == 0 { String::from_str("New Folder") } else { String::from_str(location) };
    let r = first_free_name(base.as_str(), " Trip:", "", existing);
    proof {
        assert(base@ == trip_base(location@));
        let k = choose|k: nat|
            k >= 1 && r@ == numbered_name(base@, " Trip:"@, ""@, k) && forall|m: nat|
                1 <= m < k ==> existing.deep_view().contains(#[trigger] numbered_name(base@, " Trip:"@, ""@, m));
        assert forall|m: nat| 1 <= m < k implies existing.deep_view().contains(
            #[trigger] numbered_name(trip_base(location@), " Trip:"@, ""@, m),
        ) by {
            assert(existing.deep_view().contains(numbered_name(base@, " Trip:"@, ""@, m)));
        }
    }
    r
}

// ---------------------------------------------------------------------------
// items
// ---------------------------------------------------------------------------

/// What a button of the item page does.
#[derive(Clone, Copy, Debug, PartialEq, Eq, Structural)]
pub enum ItemAction {
    Get,
    Drop,
    Use,
    Hold,
    Buy,
    Sell,
}

/// What the item page knows of the picked item from the item database.
pub struct ItemFacts {
    /// a vitamin or an EV berry
    pub is_vitamin: bool,
    /// a PP item (an Ether, an Elixir, a PP Up, ...)
    pub is_pp_item: bool,
    /// a PP item that acts on one move
    pub pp_needs_target: bool,
}

/// The item page: the search box, type, item and mart menus, the amount,
/// the price lines and the move a single-target PP item goes on.
pub struct QuickItemAdd {
    pub filter: String,
    pub item_type: OptionMenu,
    pub items: OptionMenu,
    pub mart: OptionMenu,
    pub amount: String,
    pub purchase_cost: String,
    pub sell_cost: String,
    pub pp_move: OptionMenu,
}

/// The amount the item page's buttons use: the number typed, else one.
pub open spec fn amount_or_one(raw: Seq<char>) -> i64 {
    match parse_i64_spec(trim_seq(raw)) {
        Some(v) => v,
        None => 1,
    }
}

impl QuickItemAdd {
    pub fn new(item_types: Vec<String>, words: &MenuWords, all_items: &String) -> (r: QuickItemAdd)
        ensures
            r.item_type.names() == item_types.deep_view(),
            r.items.names() == seq![words.no_item@],
            r.mart.names() == seq![all_items@],
            r.amount@ == "1"@,
            r.filter@.len() == 0,
    {
        QuickItemAdd {
            filter: String::new(),
            item_type: OptionMenu::new(item_types, None),
            items: OptionMenu::new(single(&words.no_item), None),
            mart: OptionMenu::new(single(all_items), None),
            amount: String::from_str("1"),
            purchase_cost: String::new(),
            sell_cost: String::new(),
            pp_move: OptionMenu::default(),
        }
    }

    /// A new route's lists: every item, and the marts after "all items".
    pub fn update_pkmn_version(&mut self, item_names: Vec<String>, marts: Vec<String>, all_items: &String)
        ensures
            final(self).items.names() == item_names.deep_view(),
            final(self).mart.names() == seq![all_items@] + marts.deep_view(),
            final(self).amount == old(self).amount,
    {
        self.items.new_values(item_names, None);
        self.mart.new_values(with_first(all_items, marts), None);
    }

    /// The item list to ask the database for: the chosen type (all items
    /// for the backpack, narrowed afterwards) and the mart.
    pub fn item_query(&self, all_items: &str, backpack_items: &str) -> (r: (String, bool))
        ensures
            r.1 == (self.item_type.current@ == backpack_items@),
            r.0@ == (if r.1 { all_items@ } else { self.item_type.current@ }),
    {
        if eq_str(&self.item_type.current, backpack_items) {
            (String::from_str(all_items), true)
        } else {
            (self.item_type.current.clone(), false)
        }
    }

    /// The item candidates came back: the item menu lists `candidates`, narrowed
    /// to the bag (`backpack`, none without a route state) when asked, then
    /// by the search box; "no item" when nothing is left.
    pub fn narrow_items(&mut self, candidates: Vec<String>, backpack: Option<&Vec<String>>, backpack_filter: bool, words: &MenuWords)
        ensures
            final(self).items.names() == or_sentinel(
                filtered_names(
                    if backpack_filter {
                        match backpack {
                            Some(b) => names_within(candidates.deep_view(), b.deep_view()),
                            None => Seq::empty(),
                        }
                    } else {
                        candidates.deep_view()
                    },
                    old(self).filter@,
                ),
                words.no_item@,
            ),
            final(self).filter == old(self).filter,
            final(self).amount == old(self).amount,
    {
        let base: Vec<String> = if backpack_filter {
            match backpack {
                Some(b) => keep_within(&candidates, b),
                None => {
                    let e: Vec<String> = Vec::new();
                    assert(e.deep_view() =~= Seq::<Seq<char>>::empty());
                    e
                },
            }
        } else {
            candidates
        };
        let kept = filter_names(base, self.filter.as_str());
        let list = with_sentinel(kept, words.no_item.as_str());
        self.items.new_values(list, None);
    }

    /// `item_selector_callback`: the price lines, the buying and selling
    /// prices (`prices`, `None` for an unknown item) times the amount;
    /// empty when either is missing.
    pub fn item_selector_callback(&mut self, prices: Option<(i64, i64)>)
        ensures
            match (parse_i64_spec(trim_seq(old(self).amount@)), prices) {
                (Some(a), Some((buy, sell))) => final(self).purchase_cost@ == int_text(buy * a)
                    && final(self).sell_cost@ == int_text(sell * a),
                _ => final(self).purchase_cost@.len() == 0 && final(self).sell_cost@.len() == 0,
            },
            final(self).amount == old(self).amount,
            final(self).items == old(self).items,
    {
        match (parse_field(self.amount.as_str()), prices) {
            (Ok(a), Some((buy, sell))) => {
                assert(-0x8000_0000_0000_0000_0000_0000_0000_0000 <= (buy as i128) * (a as i128)
                    <= 0x7fff_ffff_ffff_ffff_ffff_ffff_ffff_ffff) by (nonlinear_arith)
                    requires
                        i64::MIN <= buy <= i64::MAX,
                        i64::MIN <= a <= i64::MAX,
                ;
                assert(-0x8000_0000_0000_0000_0000_0000_0000_0000 <= (sell as i128) * (a as i128)
                    <= 0x7fff_ffff_ffff_ffff_ffff_ffff_ffff_ffff) by (nonlinear_arith)
                    requires
                        i64::MIN <= sell <= i64::MAX,
                        i64::MIN <= a <= i64::MAX,
                ;
                self.purchase_cost = i128_text((buy as i128) * (a as i128));
                self.sell_cost = i128_text((sell as i128) * (a as i128));
            },
            _ => {
                self.purchase_cost = String::new();
                self.sell_cost = String::new();
            },
        }
    }

    /// The move menu of a single-target PP item: the moves the mon knows
    /// at the insertion point (`moves`, none without a route state).
    pub fn set_pp_moves(&mut self, moves: &Vec<Option<String>>)
        ensures
            final(self).pp_move.names() == known_moves(moves@),
            final(self).items == old(self).items,
            final(self).amount == old(self).amount,
    {
        let mut list: Vec<String> = Vec::new();
        let mut i: usize = 0;
        while i < moves.len()
            invariant
                i <= moves.len(),
                list.deep_view() == known_moves(moves@.subrange(0, i as int)),
            decreases moves.len() - i,
        {
            let ghost before = list.deep_view();
            let ghost pre = moves@.subrange(0, i + 1);
            assert(pre.drop_last() =~= moves@.subrange(0, i as int));
            match &moves[i] {
                Some(m) => {
                    if m.unicode_len() > 0 {
                        list.push(m.clone());
                        assert(list.deep_view() =~= before.push(m@));
                    }
                },
                None => {},
            }
            i = i + 1;
        }
        assert(moves@.subrange(0, moves.len() as int) =~= moves@);
        self.pp_move.new_values(list, None);
    }

    /// Which buttons are on: (Get/Drop/Buy/Sell, Use, Hold, TM/HM). None
    /// where nothing can be inserted or the item is unknown (`known`); Use
    /// for vitamins, rare candies and PP items, Hold after gen 1, TM/HM for
    /// an item that teaches a move.
    pub fn buttons(&self, can_insert: bool, known: bool, facts: &ItemFacts, gen_one: bool, teaches_move: bool, words: &MenuWords) -> (r: (bool, bool, bool, bool))
        ensures
            r == (if can_insert && known {
                (
                    true,
                    facts.is_vitamin || self.items.current@ == words.rare_candy@ || facts.is_pp_item,
                    !gen_one,
                    teaches_move,
                )
            } else {
                (false, false, false, false)
            }),
    {
        if can_insert && known {
            let use_ok = facts.is_vitamin || eq_str(&self.items.current, words.rare_candy.as_str()) || facts.is_pp_item;
            (true, use_ok, !gen_one, teaches_move)
        } else {
            (false, false, false, false)
        }
    }

    /// The event a button inserts (nothing for a Use of an item that is
    /// none of a vitamin, a candy or a PP item).
    pub fn item_event(&self, action: ItemAction, facts: &ItemFacts, words: &MenuWords) -> (r: Option<EventDraft>)
        ensures
            ({
                let name = self.items.current@;
                let amt = amount_or_one(self.amount@);
                match action {
                    ItemAction::Get => r matches Some(EventDraft::Item(d)) && d.item_name@ == name && d.amount
                        == amt && d.is_acquire && !d.with_money && d.target_move is None && !d.no_effect,
                    ItemAction::Drop => r matches Some(EventDraft::Item(d)) && d.item_name@ == name
                        && d.amount == amt && !d.is_acquire && !d.with_money && d.target_move is None
                        && d.no_effect == facts.is_pp_item,
                    ItemAction::Buy => r matches Some(EventDraft::Item(d)) && d.item_name@ == name && d.amount
                        == amt && d.is_acquire && d.with_money && d.target_move is None && !d.no_effect,
                    ItemAction::Sell => r matches Some(EventDraft::Item(d)) && d.item_name@ == name
                        && d.amount == amt && !d.is_acquire && d.with_money && d.target_move is None
                        && !d.no_effect,
                    ItemAction::Hold => r matches Some(EventDraft::Hold(h)) && !h.consumed && (match h.item_name {
                        Some(n) => n@ == name,
                        None => false,
                    }),
                    ItemAction::Use => if facts.is_vitamin {
                        r matches Some(EventDraft::Vitamin { name: n, amount }) && n@ == name && amount == amt
                    } else if name == words.rare_candy@ {
                        r matches Some(EventDraft::RareCandy(amount)) && amount == amt
                    } else if facts.is_pp_item {
                        r matches Some(EventDraft::Item(d)) && d.item_name@ == name && d.amount == amt
                            && !d.is_acquire && !d.with_money && !d.no_effect && match d.target_move {
                            Some(t) => facts.pp_needs_target && t@ == self.pp_move.current@ && t@.len() > 0,
                            None => !(facts.pp_needs_target && self.pp_move.current@.len() > 0),
                        }
                    } else {
                        r is None
                    },
                }
            }),
    {
        let name = self.items.current.clone();
        let amt: i64 = match parse_field(self.amount.as_str()) {
            Ok(v) => v,
            Err(_) => 1,
        };
        let item = |acquire: bool, money: bool, tossed: bool| -> (d: ItemDraft)
            ensures
                d.item_name@ == name@ && d.amount == amt && d.is_acquire == acquire && d.with_money == money
                    && d.target_move is None && d.no_effect == tossed,
        {
            ItemDraft {
                item_name: name.clone(),
                amount: amt,
                is_acquire: acquire,
                with_money: money,
                target_move: None,
                no_effect: tossed,
            }
        };
        match action {
            ItemAction::Get => Some(EventDraft::Item(item(true, false, false))),
            ItemAction::Drop => Some(EventDraft::Item(item(false, false, facts.is_pp_item))),
            ItemAction::Buy => Some(EventDraft::Item(item(true, true, false))),
            ItemAction::Sell => Some(EventDraft::Item(item(false, true, false))),
            ItemAction::Hold => Some(EventDraft::Hold(HoldDraft { item_name: Some(name.clone()), consumed: false })),
            ItemAction::Use => {
                if facts.is_vitamin {
                    Some(EventDraft::Vitamin { name: name.clone(), amount: amt })
                } else if eq_str(&name, words.rare_candy.as_str()) {
                    Some(EventDraft::RareCandy(amt))
                } else if facts.is_pp_item {
                    let target = if facts.pp_needs_target && self.pp_move.current.unicode_len() > 0 {
                        Some(self.pp_move.current.clone())
                    } else {
                        None
                    };
                    Some(
                        EventDraft::Item(
                            ItemDraft {
                                item_name: name.clone(),
                                amount: amt,
                                is_acquire: false,
                                with_money: false,
                                target_move: target,
                                no_effect: false,
                            },
                        ),
                    )
                } else {
                    None
                }
            },
        }
    }
}

/// The move names of a move list, empty slots left out.
pub open spec fn known_moves(moves: Seq<Option<String>>) -> Seq<Seq<char>>
    decreases moves.len(),
{
    if moves.len() == 0 {
        Seq::empty()
    } else {
        let rest = known_moves(moves.drop_last());
        match moves.last() {
            Some(m) => if m@.len() > 0 {
                rest.push(m@)
            } else {
                rest
            },
            None => rest,
        }
    }
}

// ---------------------------------------------------------------------------
// wild mons
// ---------------------------------------------------------------------------

/// The wild page: the search box, the species menu, the level and the
/// number of mons.
pub struct QuickWildPkmn {
    pub filter: String,
    pub pkmn: OptionMenu,
    pub level: String,
    pub quantity: String,
}

impl QuickWildPkmn {
    pub fn new(words: &MenuWords) -> (r: QuickWildPkmn)
        ensures
            r.pkmn.names() == seq![words.no_pokemon@],
            r.level@ == "5"@,
            r.quantity@ == "1"@,
            r.filter@.len() == 0,
    {
        QuickWildPkmn {
            filter: String::new(),
            pkmn: OptionMenu::new(single(&words.no_pokemon), None),
            level: String::from_str("5"),
            quantity: String::from_str("1"),
        }
    }

    /// `update_pkmn_version`: every species of the new route's game.
    pub fn update_pkmn_version(&mut self, names: Vec<String>)
        ensures
            final(self).pkmn.names() == names.deep_view(),
            final(self).level == old(self).level,
            final(self).quantity == old(self).quantity,
    {
        self.pkmn.new_values(names, None);
    }

    /// Whether the buttons are on: something can be inserted and the
    /// fields make a valid wild fight.
    pub fn valid(&self, can_insert: bool, words: &MenuWords) -> (r: bool)
        ensures
            r == (can_insert && wild_valid(self.level@, self.quantity@, self.pkmn.current@, words.no_pokemon@)),
    {
        if !can_insert {
            return false;
        }
        let species = trim(self.pkmn.current.as_str());
        if starts_with_str(species.as_str(), words.no_pokemon.as_str()) {
            return false;
        }
        let level_ok = match parse_field(self.level.as_str()) {
            Ok(l) => 2 <= l && l <= 100,
            Err(_) => false,
        };
        let qty_ok = match parse_field(self.quantity.as_str()) {
            Ok(q) => q >= 1,
            Err(_) => false,
        };
        level_ok && qty_ok
    }

    /// The fight a button inserts (`trainer_pkmn`: Add Trainer Pkmn).
    pub fn wild_event(&self, trainer_pkmn: bool) -> (r: EventDraft)
        ensures
            r matches EventDraft::Wild(w) && w.name@ == self.pkmn.current@ && w.level == (match parse_i64_spec(
                trim_seq(self.level@),
            ) {
                Some(l) => l,
                None => 5,
            }) && w.quantity == amount_or_one(self.quantity@) && w.trainer_pkmn == trainer_pkmn,
    {
        let level: i64 = match parse_field(self.level.as_str()) {
            Ok(l) => l,
            Err(_) => 5,
        };
        let quantity: i64 = match parse_field(self.quantity.as_str()) {
            Ok(q) => q,
            Err(_) => 1,
        };
        EventDraft::Wild(WildDraft { name: self.pkmn.current.clone(), level, quantity, trainer_pkmn })
    }
}

// ---------------------------------------------------------------------------
// the popover
// ---------------------------------------------------------------------------

/// The quick-add popover's state: whether it is open, the category shown
/// (trainers, items, moves, wild Pokémon, the rest), and whether it opened
/// this frame (the click that opened it does not close it).
pub struct QuickAddPopover {
    pub open: bool,
    pub category: Option<usize>,
    pub opened_frame: bool,
}

impl QuickAddPopover {
    pub fn new() -> (r: QuickAddPopover)
        ensures
            !r.open && r.category is None && !r.opened_frame,
    {
        QuickAddPopover { open: false, category: None, opened_frame: false }
    }

    /// Open on `category` (the forms then read the game's lists).
    pub fn show_above(&mut self, category: Option<usize>)
        ensures
            final(self).open && final(self).opened_frame && final(self).category == category,
    {
        self.category = category;
        self.open = true;
        self.opened_frame = true;
    }

    pub fn close(&mut self)
        ensures
            !final(self).open,
            final(self).category == old(self).category,
            final(self).opened_frame == old(self).opened_frame,
    {
        self.open = false;
    }

    /// The route changed: the popover closes.
    pub fn on_route_change(&mut self)
        ensures
            !final(self).open,
            final(self).category == old(self).category,
            final(self).opened_frame == old(self).opened_frame,
    {
        if self.open {
            self.open = false;
        }
    }

    /// One frame of the open popover: Q to T pick the category (the last
    /// pressed wins), Escape or Space close it, so does a click outside
    /// unless it opened this frame; nothing reaches it behind a dialog.
    /// Returns whether it is still open.
    pub fn frame(&mut self, keys: [bool; 5], escape_or_space: bool, clicked_outside: bool, blocked: bool) -> (open: bool)
        requires
            old(self).open,
        ensures
            open == final(self).open,
            !final(self).opened_frame,
            blocked ==> final(self).category == old(self).category,
            !blocked ==> final(self).category == (if keys[4] {
                Some(4usize)
            } else if keys[3] {
                Some(3usize)
            } else if keys[2] {
                Some(2usize)
            } else if keys[1] {
                Some(1usize)
            } else if keys[0] {
                Some(0usize)
            } else {
                old(self).category
            }),
            final(self).open == !((!blocked && escape_or_space) || (!old(self).opened_frame && !blocked
                && clicked_outside)),
    {
        let mut close = false;
        if !blocked {
            let mut k: usize = 0;
            while k < 5
                invariant
                    k <= 5,
                    self.category == (if k > 4 && keys[4] {
                        Some(4usize)
                    } else if k > 3 && keys[3] {
                        Some(3usize)
                    } else if k > 2 && keys[2] {
                        Some(2usize)
                    } else if k > 1 && keys[1] {
                        Some(1usize)
                    } else if k > 0 && keys[0] {
                        Some(0usize)
                    } else {
                        old(self).category
                    }),
                    self.open == old(self).open,
                    self.opened_frame == old(self).opened_frame,
                decreases 5 - k,
            {
                if keys[k] {
                    self.category = Some(k);
                }
                k = k + 1;
            }
            if escape_or_space {
                close = true;
            }
        }
        if !self.opened_frame && !blocked && clicked_outside {
            close = true;
        }
        self.opened_frame = false;
        if close {
            self.open = false;
        }
        self.open
    }
}

/// The TM the moves category's "Add TM/HM Move" teaches: the first of the
/// TM list, unless the list only holds the "no item" entry.
pub fn first_tm(tms: &Vec<String>, no_item: &str) -> (r: Option<String>)
    ensures
        tms@.len() == 0 ==> r is None,
        tms@.len() > 0 ==> (if tms@[0]@ == no_item@ {
            r is None
        } else {
            r matches Some(t) && t@ == tms@[0]@
        }),
{
    if tms.len() == 0 {
        return None;
    }
    if crate::text::eq_str(&tms[0], no_item) {
        None
    } else {
        Some(tms[0].clone())
    }
}

} // verus!
