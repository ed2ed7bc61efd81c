//! The kinds of route event, and the filter bar over the route list: the
//! order of its toggles, each toggle's label, icon, tooltip and shortcut,
//! and what a click on a toggle does to the active filters.

use vstd::prelude::*;

verus! {

/// A kind of route event, plus the filter bar's two pseudo-kinds (major
/// battles and events with errors).
#[derive(Clone, Copy, Debug, PartialEq, Eq, Structural, Hash)]
pub enum EventKind {
    TrainerBattle,
    RareCandy,
    Vitamin,
    LearnMoveLevelUp,
    LearnMoveTm,
    FightWildPkmn,
    HoldItem,
    GetFreeItem,
    PurchaseItem,
    SellItem,
    UseItem,
    Save,
    Heal,
    Blackout,
    Evolution,
    NotesOnly,
    ReorderBag,
    EvOverride,
    MajorBattleFilter,
    ErrorSearch,
}

/// The toggles of the filter bar, left to right.
pub open spec fn toggle_order_spec() -> Seq<EventKind> {
    seq![
        EventKind::MajorBattleFilter,
        EventKind::TrainerBattle,
        EventKind::RareCandy,
        EventKind::Vitamin,
        EventKind::LearnMoveLevelUp,
        EventKind::LearnMoveTm,
        EventKind::FightWildPkmn,
        EventKind::HoldItem,
        EventKind::GetFreeItem,
        EventKind::PurchaseItem,
        EventKind::SellItem,
        EventKind::UseItem,
        EventKind::Blackout,
        EventKind::Heal,
        EventKind::Evolution,
        EventKind::NotesOnly,
        EventKind::ErrorSearch,
    ]
}

pub fn toggle_order() -> (r: Vec<EventKind>)
    ensures
        r@ == toggle_order_spec(),
{
    let r = vec![
        EventKind::MajorBattleFilter,
        EventKind::TrainerBattle,
        EventKind::RareCandy,
        EventKind::Vitamin,
        EventKind::LearnMoveLevelUp,
        EventKind::LearnMoveTm,
        EventKind::FightWildPkmn,
        EventKind::HoldItem,
        EventKind::GetFreeItem,
        EventKind::PurchaseItem,
        EventKind::SellItem,
        EventKind::UseItem,
        EventKind::Blackout,
        EventKind::Heal,
        EventKind::Evolution,
        EventKind::NotesOnly,
        EventKind::ErrorSearch,
    ];
    assert(r@ =~= toggle_order_spec());
    r
}

/// The two letters drawn on a toggle that has no icon.
pub open spec fn short_label_text(et: EventKind) -> Seq<char> {
    match et {
        EventKind::MajorBattleFilter => "MB"@,
        EventKind::TrainerBattle => "Tr"@,
        EventKind::LearnMoveLevelUp => "Lv"@,
        EventKind::SellItem => "Se"@,
        EventKind::NotesOnly => "No"@,
        EventKind::HoldItem => "Hd"@,
        EventKind::RareCandy => "RC"@,
        EventKind::FightWildPkmn => "Wi"@,
        EventKind::GetFreeItem => "Gt"@,
        EventKind::PurchaseItem => "Bu"@,
        EventKind::UseItem => "Us"@,
        EventKind::Vitamin => "Vt"@,
        EventKind::Save => "Sv"@,
        EventKind::Heal => "He"@,
        EventKind::Blackout => "BO"@,
        EventKind::Evolution => "Ev"@,
        EventKind::LearnMoveTm => "TM"@,
        EventKind::ErrorSearch => "Er"@,
        _ => "??"@,
    }
}

pub fn short_label(et: EventKind) -> (r: &'static str)
    ensures
        r@ == short_label_text(et),
{
    match et {
        EventKind::MajorBattleFilter => "MB",
        EventKind::TrainerBattle => "Tr",
        EventKind::LearnMoveLevelUp => "Lv",
        EventKind::SellItem => "Se",
        EventKind::NotesOnly => "No",
        EventKind::HoldItem => "Hd",
        EventKind::RareCandy => "RC",
        EventKind::FightWildPkmn => "Wi",
        EventKind::GetFreeItem => "Gt",
        EventKind::PurchaseItem => "Bu",
        EventKind::UseItem => "Us",
        EventKind::Vitamin => "Vt",
        EventKind::Save => "Sv",
        EventKind::Heal => "He",
        EventKind::Blackout => "BO",
        EventKind::Evolution => "Ev",
        EventKind::LearnMoveTm => "TM",
        EventKind::ErrorSearch => "Er",
        _ => "??",
    }
}

/// The icon file of a toggle, when it has one.
pub open spec fn icon_file_text(et: EventKind) -> Option<Seq<char>> {
    match et {
        EventKind::TrainerBattle => Some("TASK_TRAINER_BATTLE"@),
        EventKind::LearnMoveLevelUp => Some("TASK_LEARN_MOVE_LEVELUP"@),
        EventKind::SellItem => Some("TASK_SELL_ITEM"@),
        EventKind::NotesOnly => Some("TASK_NOTES_ONLY"@),
        EventKind::HoldItem => Some("TASK_HOLD_ITEM"@),
        EventKind::RareCandy => Some("TASK_RARE_CANDY"@),
        EventKind::FightWildPkmn => Some("TASK_FIGHT_WILD_PKMN"@),
        EventKind::GetFreeItem => Some("TASK_GET_FREE_ITEM"@),
        EventKind::PurchaseItem => Some("TASK_PURCHASE_ITEM"@),
        EventKind::UseItem => Some("TASK_USE_ITEM"@),
        EventKind::Vitamin => Some("TASK_VITAMIN"@),
        EventKind::Heal => Some("TASK_HEAL"@),
        EventKind::Blackout => Some("TASK_BLACKOUT"@),
        EventKind::Evolution => Some("TASK_EVOLUTION"@),
        EventKind::LearnMoveTm => Some("TASK_LEARN_MOVE_TM"@),
        EventKind::ErrorSearch => Some("ERROR_SEARCH"@),
        _ => None,
    }
}

pub fn icon_file(et: EventKind) -> (r: Option<&'static str>)
    ensures
        match r {
            Some(f) => icon_file_text(et) == Some(f@),
            None => icon_file_text(et) is None,
        },
{
    match et {
        EventKind::TrainerBattle => Some("TASK_TRAINER_BATTLE"),
        EventKind::LearnMoveLevelUp => Some("TASK_LEARN_MOVE_LEVELUP"),
        EventKind::SellItem => Some("TASK_SELL_ITEM"),
        EventKind::NotesOnly => Some("TASK_NOTES_ONLY"),
        EventKind::HoldItem => Some("TASK_HOLD_ITEM"),
        EventKind::RareCandy => Some("TASK_RARE_CANDY"),
        EventKind::FightWildPkmn => Some("TASK_FIGHT_WILD_PKMN"),
        EventKind::GetFreeItem => Some("TASK_GET_FREE_ITEM"),
        EventKind::PurchaseItem => Some("TASK_PURCHASE_ITEM"),
        EventKind::UseItem => Some("TASK_USE_ITEM"),
        EventKind::Vitamin => Some("TASK_VITAMIN"),
        EventKind::Heal => Some("TASK_HEAL"),
        EventKind::Blackout => Some("TASK_BLACKOUT"),
        EventKind::Evolution => Some("TASK_EVOLUTION"),
        EventKind::LearnMoveTm => Some("TASK_LEARN_MOVE_TM"),
        EventKind::ErrorSearch => Some("ERROR_SEARCH"),
        _ => None,
    }
}

/// The hover text of a toggle.
pub open spec fn tooltip_text(et: EventKind) -> Seq<char> {
    match et {
        EventKind::MajorBattleFilter => "Major Battles"@,
        EventKind::TrainerBattle => "Trainer Battle"@,
        EventKind::LearnMoveLevelUp => "Level Up Move"@,
        EventKind::SellItem => "Sell Item"@,
        EventKind::NotesOnly => "Notes Only"@,
        EventKind::HoldItem => "Hold Item"@,
        EventKind::RareCandy => "Rare Candy"@,
        EventKind::FightWildPkmn => "Wild Pkmn"@,
        EventKind::GetFreeItem => "Get Free Item"@,
        EventKind::PurchaseItem => "Purchase Item"@,
        EventKind::UseItem => "Use / Drop Item"@,
        EventKind::Vitamin => "Vitamin"@,
        EventKind::Save => "Save"@,
        EventKind::Heal => "Heal"@,
        EventKind::Blackout => "Blackout"@,
        EventKind::Evolution => "Evolution"@,
        EventKind::LearnMoveTm => "TM / HM"@,
        EventKind::ErrorSearch => "Invalid Events"@,
        _ => ""@,
    }
}

pub fn tooltip(et: EventKind) -> (r: &'static str)
    ensures
        r@ == tooltip_text(et),
{
    match et {
        EventKind::MajorBattleFilter => "Major Battles",
        EventKind::TrainerBattle => "Trainer Battle",
        EventKind::LearnMoveLevelUp => "Level Up Move",
        EventKind::SellItem => "Sell Item",
        EventKind::NotesOnly => "Notes Only",
        EventKind::HoldItem => "Hold Item",
        EventKind::RareCandy => "Rare Candy",
        EventKind::FightWildPkmn => "Wild Pkmn",
        EventKind::GetFreeItem => "Get Free Item",
        EventKind::PurchaseItem => "Purchase Item",
        EventKind::UseItem => "Use / Drop Item",
        EventKind::Vitamin => "Vitamin",
        EventKind::Save => "Save",
        EventKind::Heal => "Heal",
        EventKind::Blackout => "Blackout",
        EventKind::Evolution => "Evolution",
        EventKind::LearnMoveTm => "TM / HM",
        EventKind::ErrorSearch => "Invalid Events",
        _ => "",
    }
}

/// The id of the keyboard shortcut that toggles a filter, when it has one.
pub open spec fn shortcut_id_text(et: EventKind) -> Option<Seq<char>> {
    match et {
        EventKind::TrainerBattle => Some("filter_trainer"@),
        EventKind::RareCandy => Some("filter_rare_candy"@),
        EventKind::LearnMoveTm => Some("filter_tm_hm"@),
        EventKind::Vitamin => Some("filter_vitamin"@),
        EventKind::FightWildPkmn => Some("filter_wild_pkmn"@),
        EventKind::GetFreeItem => Some("filter_acquire_item"@),
        EventKind::PurchaseItem => Some("filter_purchase_item"@),
        EventKind::UseItem => Some("filter_use_item"@),
        EventKind::SellItem => Some("filter_sell_item"@),
        EventKind::HoldItem => Some("filter_hold_item"@),
        EventKind::LearnMoveLevelUp => Some("filter_levelup_move"@),
        EventKind::Save => Some("filter_save"@),
        EventKind::Heal => Some("filter_heal"@),
        EventKind::Blackout => Some("filter_blackout"@),
        EventKind::Evolution => Some("filter_evolution"@),
        EventKind::NotesOnly => Some("filter_notes"@),
        _ => None,
    }
}

pub fn shortcut_id(et: EventKind) -> (r: Option<&'static str>)
    ensures
        match r {
            Some(f) => shortcut_id_text(et) == Some(f@),
            None => shortcut_id_text(et) is None,
        },
{
    match et {
        EventKind::TrainerBattle => Some("filter_trainer"),
        EventKind::RareCandy => Some("filter_rare_candy"),
        EventKind::LearnMoveTm => Some("filter_tm_hm"),
        EventKind::Vitamin => Some("filter_vitamin"),
        EventKind::FightWildPkmn => Some("filter_wild_pkmn"),
        EventKind::GetFreeItem => Some("filter_acquire_item"),
        EventKind::PurchaseItem => Some("filter_purchase_item"),
        EventKind::UseItem => Some("filter_use_item"),
        EventKind::SellItem => Some("filter_sell_item"),
        EventKind::HoldItem => Some("filter_hold_item"),
        EventKind::LearnMoveLevelUp => Some("filter_levelup_move"),
        EventKind::Save => Some("filter_save"),
        EventKind::Heal => Some("filter_heal"),
        EventKind::Blackout => Some("filter_blackout"),
        EventKind::Evolution => Some("filter_evolution"),
        EventKind::NotesOnly => Some("filter_notes"),
        _ => None,
    }
}

/// The first position of `et` in `s`.
pub open spec fn first_index(s: Seq<EventKind>, et: EventKind, p: int) -> bool {
    0 <= p < s.len() && s[p] == et && forall|j: int| 0 <= j < p ==> s[j] != et
}

/// What a click on the toggle of `et` makes of the active filters: the
/// first `et` leaves, or `et` joins at the end.
pub open spec fn toggled(s: Seq<EventKind>, et: EventKind) -> Seq<EventKind> {
    if s.contains(et) {
        s.remove(choose|p: int| first_index(s, et, p))
    } else {
        s.push(et)
    }
}

/// Each kind at most once.
pub open spec fn no_repeats(s: Seq<EventKind>) -> bool {
    forall|i: int, j: int| 0 <= i < j < s.len() ==> s[i] != s[j]
}

/// The search box and the toggles above the route list.
pub struct FilterBar {
    pub search_text: String,
    /// when the search is applied to the list, on the caller's clock in
    /// milliseconds
    pub search_deadline: Option<u64>,
}

/// How long the search box waits after the last keystroke before the list
/// is searched, in milliseconds.
pub const SEARCH_DELAY_MS: u64 = 300;

/// A toggle's tooltip, with its shortcut key when it has one.
pub fn tooltip_with_key(tip: &str, key: &str) -> (r: String)
    ensures
        key@.len() == 0 ==> r@ == tip@,
        key@.len() > 0 ==> r@ == tip@ + " ("@ + key@ + ")"@,
{
    let mut t = String::from_str(tip);
    if key.unicode_len() > 0 {
        t.append(" (");
        t.append(key);
        t.append(")");
    }
    t
}

impl FilterBar {
    /// An empty search.
    pub fn new() -> (r: FilterBar)
        ensures
            r.search_text@ == Seq::<char>::empty(),
            r.search_deadline is None,
    {
        FilterBar { search_text: String::new(), search_deadline: None }
    }

    /// The search box changed at time `now`: the list is searched once the
    /// delay has passed with no further change.
    pub fn search_edited(&mut self, text: String, now: u64)
        ensures
            final(self).search_text@ == text@,
            final(self).search_deadline == Some(
                (if now + SEARCH_DELAY_MS <= u64::MAX {
                    (now + SEARCH_DELAY_MS) as u64
                } else {
                    u64::MAX
                }),
            ),
    {
        self.search_text = text;
        self.search_deadline = Some(now.saturating_add(SEARCH_DELAY_MS));
    }

    /// The bar's clock tick at time `now`: once the deadline has passed the
    /// search is handed back to be applied, and the deadline is cleared.
    pub fn tick(&mut self, now: u64) -> (apply: Option<String>)
        ensures
            final(self).search_text == old(self).search_text,
            match old(self).search_deadline {
                Some(d) if now >= d => final(self).search_deadline is None && (apply matches Some(t) && t@
                    == old(self).search_text@),
                _ => final(self).search_deadline == old(self).search_deadline && apply is None,
            },
    {
        match self.search_deadline {
            Some(d) => {
                if now >= d {
                    self.search_deadline = None;
                    Some(self.search_text.clone())
                } else {
                    None
                }
            },
            None => None,
        }
    }

    /// A click on the toggle of `event_type` (or its shortcut).
    pub fn toggle_filter_type(active: &mut Vec<EventKind>, event_type: EventKind)
        ensures
            final(active)@ == toggled(old(active)@, event_type),
    {
        let n = active.len();
        let mut i: usize = 0;
        while i < n
            invariant
                n == active.len(),
                i <= n,
                active@ == old(active)@,
                forall|j: int| 0 <= j < i ==> active@[j] != event_type,
            decreases n - i,
        {
            if active[i] == event_type {
                proof {
                    assert(first_index(active@, event_type, i as int));
                    assert(active@.contains(event_type));
                    let p = choose|p: int| first_index(active@, event_type, p);
                    assert(p == i as int) by {
                        if p < i {
                        } else if p > i {
                        }
                    }
                }
                active.remove(i);
                return;
            }
            i = i + 1;
        }
        proof {
            assert(!active@.contains(event_type)) by {
                if active@.contains(event_type) {
                    let j = choose|j: int| 0 <= j < active@.len() && active@[j] == event_type;
                }
            }
        }
        active.push(event_type);
    }
}

/// A click flips whether the kind is active, as long as no kind is listed
/// twice (which clicks alone never cause).
pub proof fn law_toggle_flips_membership(s: Seq<EventKind>, et: EventKind)
    requires
        no_repeats(s),
    ensures
        toggled(s, et).contains(et) == !s.contains(et),
{
    if s.contains(et) {
        let p = choose|p: int| first_index(s, et, p);
        assert(first_index(s, et, p)) by {
            let j = choose|j: int| 0 <= j < s.len() && s[j] == et;
            lemma_first_index_exists(s, et, j);
        }
        let r = s.remove(p);
        if r.contains(et) {
            let q = choose|q: int| 0 <= q < r.len() && r[q] == et;
            if q < p {
                assert(s[q] == et);
            } else {
                assert(s[q + 1] == et);
            }
        }
    } else {
        assert(s.push(et)[s.len() as int] == et);
    }
}

/// Clicks never list a kind twice.
pub proof fn law_toggle_keeps_no_repeats(s: Seq<EventKind>, et: EventKind)
    requires
        no_repeats(s),
    ensures
        no_repeats(toggled(s, et)),
{
    if s.contains(et) {
        let p = choose|p: int| first_index(s, et, p);
        assert(first_index(s, et, p)) by {
            let j = choose|j: int| 0 <= j < s.len() && s[j] == et;
            lemma_first_index_exists(s, et, j);
        }
        let r = s.remove(p);
        assert forall|i: int, j: int| 0 <= i < j < r.len() implies r[i] != r[j] by {
            let a = if i < p { i } else { i + 1 };
            let b = if j < p { j } else { j + 1 };
            assert(r[i] == s[a]);
            assert(r[j] == s[b]);
        }
    } else {
        let r = s.push(et);
        assert forall|i: int, j: int| 0 <= i < j < r.len() implies r[i] != r[j] by {
            if j == s.len() {
                assert(s[i] == r[i]);
            }
        }
    }
}

/// Two clicks on a kind that was not active give back the same filters.
pub proof fn law_toggle_twice_restores(s: Seq<EventKind>, et: EventKind)
    requires
        !s.contains(et),
    ensures
        toggled(toggled(s, et), et) == s,
{
    let t = s.push(et);
    assert(t[s.len() as int] == et);
    assert(t.contains(et));
    assert(first_index(t, et, s.len() as int)) by {
        assert forall|j: int| 0 <= j < s.len() implies t[j] != et by {
            assert(t[j] == s[j]);
        }
    }
    let p = choose|p: int| first_index(t, et, p);
    assert(p == s.len()) by {
        if p < s.len() {
            assert(t[p] == s[p]);
        }
    }
    assert(t.remove(p) =~= s);
}

proof fn lemma_first_index_exists(s: Seq<EventKind>, et: EventKind, j: int)
    requires
        0 <= j < s.len(),
        s[j] == et,
    ensures
        exists|p: int| first_index(s, et, p),
    decreases j,
{
    if forall|k: int| 0 <= k < j ==> s[k] != et {
        assert(first_index(s, et, j));
    } else {
        let k = choose|k: int| 0 <= k < j && s[k] == et;
        lemma_first_index_exists(s, et, k);
    }
}

} // verus!
