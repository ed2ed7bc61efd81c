//! The compact create/edit strip over the route list: the event type
//! menu, the few fields of each type, Tab/Enter focus movement, and the
//! event the strip builds.

use vstd::prelude::*;

use crate::editors::{
    destination_entries, destination_menu, field_value, inline_destination, parse_dest, parse_field,
    MenuWords,
};
use crate::event_draft::{EventDraft, HoldDraft, ItemDraft, LearnDraft, MoveLevel, TrainerDraft, WildDraft};
use crate::event_kind::EventKind;
use crate::names::copy_names;
use crate::option_menu::{contains_name, has_name};
use crate::text::{eq_str, i64_text, int_text};

verus! {

/// The event types the strip offers.
#[derive(Clone, Copy, Debug, PartialEq, Eq, Structural)]
pub enum InlineKind {
    Trainer,
    GetItem,
    BuyItem,
    SellItem,
    UseItem,
    HoldItem,
    ReorderBag,
    WildPkmn,
    RareCandy,
    Vitamin,
    TmMove,
    TutorMove,
    Save,
    Heal,
    Blackout,
    Evolve,
    EvOverride,
    Notes,
}

/// The type menu, in order.
pub open spec fn inline_kinds() -> Seq<InlineKind> {
    seq![
        InlineKind::Trainer,
        InlineKind::GetItem,
        InlineKind::BuyItem,
        InlineKind::SellItem,
        InlineKind::UseItem,
        InlineKind::HoldItem,
        InlineKind::ReorderBag,
        InlineKind::WildPkmn,
        InlineKind::RareCandy,
        InlineKind::Vitamin,
        InlineKind::TmMove,
        InlineKind::TutorMove,
        InlineKind::Save,
        InlineKind::Heal,
        InlineKind::Blackout,
        InlineKind::Evolve,
        InlineKind::EvOverride,
        InlineKind::Notes,
    ]
}

/// A type's internal key.
pub open spec fn key_text(k: InlineKind) -> Seq<char> {
    match k {
        InlineKind::Trainer => "trainer"@,
        InlineKind::GetItem => "get_item"@,
        InlineKind::BuyItem => "buy_item"@,
        InlineKind::SellItem => "sell_item"@,
        InlineKind::UseItem => "use_item"@,
        InlineKind::HoldItem => "hold_item"@,
        InlineKind::ReorderBag => "reorder_bag"@,
        InlineKind::WildPkmn => "wild_pkmn"@,
        InlineKind::RareCandy => "rare_candy"@,
        InlineKind::Vitamin => "vitamin"@,
        InlineKind::TmMove => "tm_move"@,
        InlineKind::TutorMove => "tutor_move"@,
        InlineKind::Save => "save"@,
        InlineKind::Heal => "heal"@,
        InlineKind::Blackout => "blackout"@,
        InlineKind::Evolve => "evolve"@,
        InlineKind::EvOverride => "ev_override"@,
        InlineKind::Notes => "notes"@,
    }
}

/// A type's name in the menu.
pub open spec fn display_text(k: InlineKind) -> Seq<char> {
    match k {
        InlineKind::Trainer => "Fight Trainer"@,
        InlineKind::GetItem => "Get Item"@,
        InlineKind::BuyItem => "Buy Item"@,
        InlineKind::SellItem => "Sell Item"@,
        InlineKind::UseItem => "Use/Drop Item"@,
        InlineKind::HoldItem => "Hold Item"@,
        InlineKind::ReorderBag => "Reorder Bag"@,
        InlineKind::WildPkmn => "Wild Pkmn"@,
        InlineKind::RareCandy => "Rare Candy"@,
        InlineKind::Vitamin => "Vitamin"@,
        InlineKind::TmMove => "TM/HM Move"@,
        InlineKind::TutorMove => "Tutor Move"@,
        InlineKind::Save => "Save"@,
        InlineKind::Heal => "Heal"@,
        InlineKind::Blackout => "Blackout"@,
        InlineKind::Evolve => "Evolve"@,
        InlineKind::EvOverride => "EV Override"@,
        InlineKind::Notes => "Notes"@,
    }
}

impl InlineKind {
    pub fn key(self) -> (r: &'static str)
        ensures
            r@ == key_text(self),
    {
        match self {
            InlineKind::Trainer => "trainer",
            InlineKind::GetItem => "get_item",
            InlineKind::BuyItem => "buy_item",
            InlineKind::SellItem => "sell_item",
            InlineKind::UseItem => "use_item",
            InlineKind::HoldItem => "hold_item",
            InlineKind::ReorderBag => "reorder_bag",
            InlineKind::WildPkmn => "wild_pkmn",
            InlineKind::RareCandy => "rare_candy",
            InlineKind::Vitamin => "vitamin",
            InlineKind::TmMove => "tm_move",
            InlineKind::TutorMove => "tutor_move",
            InlineKind::Save => "save",
            InlineKind::Heal => "heal",
            InlineKind::Blackout => "blackout",
            InlineKind::Evolve => "evolve",
            InlineKind::EvOverride => "ev_override",
            InlineKind::Notes => "notes",
        }
    }

    pub fn display(self) -> (r: &'static str)
        ensures
            r@ == display_text(self),
    {
        match self {
            InlineKind::Trainer => "Fight Trainer",
            InlineKind::GetItem => "Get Item",
            InlineKind::BuyItem => "Buy Item",
            InlineKind::SellItem => "Sell Item",
            InlineKind::UseItem => "Use/Drop Item",
            InlineKind::HoldItem => "Hold Item",
            InlineKind::ReorderBag => "Reorder Bag",
            InlineKind::WildPkmn => "Wild Pkmn",
            InlineKind::RareCandy => "Rare Candy",
            InlineKind::Vitamin => "Vitamin",
            InlineKind::TmMove => "TM/HM Move",
            InlineKind::TutorMove => "Tutor Move",
            InlineKind::Save => "Save",
            InlineKind::Heal => "Heal",
            InlineKind::Blackout => "Blackout",
            InlineKind::Evolve => "Evolve",
            InlineKind::EvOverride => "EV Override",
            InlineKind::Notes => "Notes",
        }
    }
}

/// The type menu's kinds, in order.
pub fn event_types() -> (r: Vec<InlineKind>)
    ensures
        r@ == inline_kinds(),
{
    let r = vec![
        InlineKind::Trainer,
        InlineKind::GetItem,
        InlineKind::BuyItem,
        InlineKind::SellItem,
        InlineKind::UseItem,
        InlineKind::HoldItem,
        InlineKind::ReorderBag,
        InlineKind::WildPkmn,
        InlineKind::RareCandy,
        InlineKind::Vitamin,
        InlineKind::TmMove,
        InlineKind::TutorMove,
        InlineKind::Save,
        InlineKind::Heal,
        InlineKind::Blackout,
        InlineKind::Evolve,
        InlineKind::EvOverride,
        InlineKind::Notes,
    ];
    assert(r@ =~= inline_kinds());
    r
}

/// The first kind of the menu whose key (`by_key`) or name is `s`.
pub open spec fn first_kind_with(s: Seq<char>, by_key: bool, k: InlineKind) -> bool {
    exists|i: int|
        0 <= i < 18 && inline_kinds()[i] == k && (if by_key {
            key_text(k)
        } else {
            display_text(k)
        }) == s && forall|j: int|
            0 <= j < i ==> (if by_key {
                key_text(inline_kinds()[j])
            } else {
                display_text(inline_kinds()[j])
            }) != s
}

/// The kind whose key (`by_key`) or menu name is `text`.
pub fn kind_named(text: &str, by_key: bool) -> (r: Option<InlineKind>)
    ensures
        match r {
            Some(k) => first_kind_with(text@, by_key, k),
            None => forall|i: int|
                0 <= i < 18 ==> (if by_key {
                    key_text(inline_kinds()[i])
                } else {
                    display_text(inline_kinds()[i])
                }) != text@,
        },
{
    let kinds = event_types();
    let t = String::from_str(text);
    let mut i: usize = 0;
    while i < kinds.len()
        invariant
            kinds@ == inline_kinds(),
            t@ == text@,
            i <= 18,
            forall|j: int|
                0 <= j < i ==> (if by_key {
                    key_text(inline_kinds()[j])
                } else {
                    display_text(inline_kinds()[j])
                }) != text@,
        decreases kinds.len() - i,
    {
        let k = kinds[i];
        let name = if by_key { k.key() } else { k.display() };
        if eq_str(&t, name) {
            assert(inline_kinds()[i as int] == k);
            return Some(k);
        }
        i = i + 1;
    }
    None
}

/// `display_for_key`: the menu name of the kind with key `key`.
pub fn display_for_key(key: &str) -> (r: Option<&'static str>)
    ensures
        match r {
            Some(d) => exists|k: InlineKind| first_kind_with(key@, true, k) && d@ == display_text(k),
            None => forall|i: int| 0 <= i < 18 ==> key_text(inline_kinds()[i]) != key@,
        },
{
    match kind_named(key, true) {
        Some(k) => Some(k.display()),
        None => None,
    }
}

/// The strip's type for an event of `kind`; a machine move taught by a
/// tutor is a tutor move.
pub open spec fn inline_kind_of(kind: EventKind, tutor: bool) -> Option<InlineKind> {
    match kind {
        EventKind::TrainerBattle => Some(InlineKind::Trainer),
        EventKind::GetFreeItem => Some(InlineKind::GetItem),
        EventKind::PurchaseItem => Some(InlineKind::BuyItem),
        EventKind::SellItem => Some(InlineKind::SellItem),
        EventKind::UseItem => Some(InlineKind::UseItem),
        EventKind::HoldItem => Some(InlineKind::HoldItem),
        EventKind::ReorderBag => Some(InlineKind::ReorderBag),
        EventKind::FightWildPkmn => Some(InlineKind::WildPkmn),
        EventKind::RareCandy => Some(InlineKind::RareCandy),
        EventKind::Vitamin => Some(InlineKind::Vitamin),
        EventKind::LearnMoveTm => Some(if tutor { InlineKind::TutorMove } else { InlineKind::TmMove }),
        EventKind::Save => Some(InlineKind::Save),
        EventKind::Heal => Some(InlineKind::Heal),
        EventKind::Blackout => Some(InlineKind::Blackout),
        EventKind::Evolution => Some(InlineKind::Evolve),
        EventKind::EvOverride => Some(InlineKind::EvOverride),
        EventKind::NotesOnly => Some(InlineKind::Notes),
        _ => None,
    }
}

/// `key_for_event_type`: the strip's type for an event kind.
pub fn key_for_event_type(kind: EventKind) -> (r: Option<InlineKind>)
    ensures
        r == inline_kind_of(kind, false),
{
    match kind {
        EventKind::TrainerBattle => Some(InlineKind::Trainer),
        EventKind::GetFreeItem => Some(InlineKind::GetItem),
        EventKind::PurchaseItem => Some(InlineKind::BuyItem),
        EventKind::SellItem => Some(InlineKind::SellItem),
        EventKind::UseItem => Some(InlineKind::UseItem),
        EventKind::HoldItem => Some(InlineKind::HoldItem),
        EventKind::ReorderBag => Some(InlineKind::ReorderBag),
        EventKind::FightWildPkmn => Some(InlineKind::WildPkmn),
        EventKind::RareCandy => Some(InlineKind::RareCandy),
        EventKind::Vitamin => Some(InlineKind::Vitamin),
        EventKind::LearnMoveTm => Some(InlineKind::TmMove),
        EventKind::Save => Some(InlineKind::Save),
        EventKind::Heal => Some(InlineKind::Heal),
        EventKind::Blackout => Some(InlineKind::Blackout),
        EventKind::Evolution => Some(InlineKind::Evolve),
        EventKind::EvOverride => Some(InlineKind::EvOverride),
        EventKind::NotesOnly => Some(InlineKind::Notes),
        _ => None,
    }
}

/// The strip's type for an event being edited: a machine move whose
/// source is the tutor is edited as a tutor move.
pub fn kind_for_event(kind: EventKind, tutor_source: bool) -> (r: Option<InlineKind>)
    ensures
        r == inline_kind_of(kind, tutor_source),
{
    match key_for_event_type(kind) {
        Some(InlineKind::TmMove) => Some(if tutor_source { InlineKind::TutorMove } else { InlineKind::TmMove }),
        other => other,
    }
}

/// The strip's focus targets, in layout order.
#[derive(Clone, Copy, Debug, PartialEq, Eq, Structural)]
pub enum Field {
    Type,
    Loc,
    Cls,
    Trainer,
    Item,
    Qty,
    /// the move a single-target PP item is used on
    PpMove,
    Pkmn,
    Level,
    Vitamin,
    Tm,
    Move,
    Dest,
    Note,
}

/// The fields a type shows, in Tab order.
pub open spec fn fields_of(kind: Option<InlineKind>, pp_needs_target: bool) -> Seq<Field> {
    seq![Field::Type] + match kind {
        Some(InlineKind::Trainer) => seq![Field::Loc, Field::Cls, Field::Trainer],
        Some(InlineKind::UseItem) => if pp_needs_target {
            seq![Field::Item, Field::Qty, Field::PpMove]
        } else {
            seq![Field::Item, Field::Qty]
        },
        Some(InlineKind::GetItem) | Some(InlineKind::BuyItem) | Some(InlineKind::SellItem) => seq![
            Field::Item,
            Field::Qty,
        ],
        Some(InlineKind::HoldItem) => seq![Field::Item],
        Some(InlineKind::WildPkmn) => seq![Field::Pkmn, Field::Level, Field::Qty],
        Some(InlineKind::RareCandy) => seq![Field::Qty],
        Some(InlineKind::Vitamin) => seq![Field::Vitamin, Field::Qty],
        Some(InlineKind::TmMove) => seq![Field::Tm, Field::Dest],
        Some(InlineKind::TutorMove) => seq![Field::Move, Field::Dest],
        Some(InlineKind::Notes) => seq![Field::Note],
        _ => Seq::empty(),
    }
}

/// The field a type's strip starts at.
pub open spec fn primary_field(kind: Option<InlineKind>) -> Field {
    match kind {
        Some(InlineKind::Trainer) => Field::Trainer,
        Some(InlineKind::GetItem) | Some(InlineKind::BuyItem) | Some(InlineKind::SellItem) | Some(
            InlineKind::UseItem,
        ) | Some(InlineKind::HoldItem) => Field::Item,
        Some(InlineKind::WildPkmn) => Field::Pkmn,
        Some(InlineKind::Vitamin) => Field::Vitamin,
        Some(InlineKind::RareCandy) => Field::Qty,
        Some(InlineKind::TmMove) => Field::Tm,
        Some(InlineKind::TutorMove) => Field::Move,
        Some(InlineKind::Notes) => Field::Note,
        _ => Field::Type,
    }
}

/// The per-type fields' contents.
pub struct InlineConfig {
    pub loc: String,
    pub cls: String,
    pub trainer: String,
    pub trainers: Vec<String>,
    pub item: String,
    pub items: Vec<String>,
    pub qty: String,
    pub pkmn: String,
    pub level: String,
    pub vitamin: String,
    pub tm: String,
    pub tms: Vec<String>,
    pub mv: String,
    pub dest: String,
    pub dest_options: Vec<String>,
    pub note: String,
    /// the bag order of a reorder being edited (arranged in the details
    /// panel, kept by the strip)
    pub bag_order: Option<Vec<String>>,
    /// a use of a PP item that acts on one move: the move menu shows
    pub pp_needs_target: bool,
    pub pp_move: String,
    pub pp_moves: Vec<String>,
    /// an edited use was marked tossed (kept by the strip)
    pub pp_tossed: bool,
}

impl InlineConfig {
    /// Every field empty.
    pub fn new() -> (r: InlineConfig)
        ensures
            r.loc@.len() == 0 && r.cls@.len() == 0 && r.trainer@.len() == 0 && r.item@.len() == 0,
            r.qty@.len() == 0 && r.pkmn@.len() == 0 && r.level@.len() == 0 && r.vitamin@.len() == 0,
            r.tm@.len() == 0 && r.mv@.len() == 0 && r.dest@.len() == 0 && r.note@.len() == 0,
            r.trainers.len() == 0 && r.items.len() == 0 && r.tms.len() == 0 && r.dest_options.len() == 0,
            r.bag_order is None,
            !r.pp_needs_target && !r.pp_tossed && r.pp_moves.len() == 0 && r.pp_move@.len() == 0,
    {
        InlineConfig {
            loc: String::new(),
            cls: String::new(),
            trainer: String::new(),
            trainers: Vec::new(),
            item: String::new(),
            items: Vec::new(),
            qty: String::new(),
            pkmn: String::new(),
            level: String::new(),
            vitamin: String::new(),
            tm: String::new(),
            tms: Vec::new(),
            mv: String::new(),
            dest: String::new(),
            dest_options: Vec::new(),
            note: String::new(),
            bag_order: None,
            pp_needs_target: false,
            pp_move: String::new(),
            pp_moves: Vec::new(),
            pp_tossed: false,
        }
    }
}

/// What a type change leaves for the caller to look up and hand back.
#[derive(Clone, Copy, Debug, PartialEq, Eq, Structural)]
pub enum Refresh {
    Nothing,
    /// the trainers of the chosen location and class (`refresh_trainers`)
    Trainers,
    /// the PP move menu of a use (`refresh_pp`)
    PpMoves,
    /// the destination menu of a move (`refresh_dest`)
    Destination,
}

/// The strip's state: the type, its fields, the field to focus next
/// frame, and the menus' full lists.
pub struct InlineEventCreator {
    pub insert_after_id: Option<u64>,
    pub dest_folder_name: Option<String>,
    pub editing_group_id: Option<u64>,
    pub type_text: String,
    pub type_key: Option<InlineKind>,
    pub cfg: InlineConfig,
    pub focus_request: Option<Field>,
    pub locations: Vec<String>,
    pub classes: Vec<String>,
    pub vitamins: Vec<String>,
    pub all_pkmn: Vec<String>,
    pub all_moves: Vec<String>,
    pub all_items: Vec<String>,
}

/// The first name of a list, or nothing.
fn first_or_empty(v: &Vec<String>) -> (r: String)
    ensures
        r@ == (if v.len() > 0 {
            v@[0]@
        } else {
            Seq::<char>::empty()
        }),
{
    if v.len() > 0 {
        v[0].clone()
    } else {
        String::new()
    }
}

/// What a step from the field `from` does among the fields `fs`: from
/// the last field forward, with `create_at_end`, it asks to create;
/// otherwise the focus moves to the next (or previous) field, wrapping. A
/// field that is not shown, or a lone field, moves nothing.
pub open spec fn advance_result(
    fs: Seq<Field>,
    focus: Option<Field>,
    from: Field,
    forward: bool,
    create_at_end: bool,
) -> (bool, Option<Field>) {
    match fs.index_of_first(from) {
        None => (false, focus),
        Some(cur) => if forward && create_at_end && cur == fs.len() - 1 {
            (true, focus)
        } else if fs.len() < 2 {
            (false, focus)
        } else {
            (
                false,
                Some(
                    fs[if forward {
                        (cur + 1) % (fs.len() as int)
                    } else {
                        (cur + fs.len() - 1) % (fs.len() as int)
                    }],
                ),
            )
        },
    }
}

impl InlineEventCreator {
    /// A strip at a point of the route (`editing_group_id`: the group
    /// being edited), with the menus' lists: the locations and classes
    /// ("all trainers" first), the vitamins and EV berries, every species,
    /// move and item (the "no item" entry alone when there are none). The
    /// type menu has the focus.
    pub fn new(
        insert_after_id: Option<u64>,
        dest_folder_name: Option<String>,
        editing_group_id: Option<u64>,
        locations: Vec<String>,
        classes: Vec<String>,
        vitamins: Vec<String>,
        all_pkmn: Vec<String>,
        all_moves: Vec<String>,
        all_items: Vec<String>,
        no_item: &str,
    ) -> (r: InlineEventCreator)
        ensures
            r.insert_after_id == insert_after_id,
            r.dest_folder_name == dest_folder_name,
            r.editing_group_id == editing_group_id,
            r.type_key is None,
            r.type_text@.len() == 0,
            r.focus_request == Some(Field::Type),
            r.locations == locations,
            r.classes == classes,
            r.vitamins == vitamins,
            r.all_pkmn == all_pkmn,
            r.all_moves == all_moves,
            r.all_items.deep_view() == (if all_items.len() == 0 {
                seq![no_item@]
            } else {
                all_items.deep_view()
            }),
    {
        let items = if all_items.len() == 0 {
            let v = vec![String::from_str(no_item)];
            assert(v.deep_view() =~= seq![no_item@]);
            v
        } else {
            all_items
        };
        InlineEventCreator {
            insert_after_id,
            dest_folder_name,
            editing_group_id,
            type_text: String::new(),
            type_key: None,
            cfg: InlineConfig::new(),
            focus_request: Some(Field::Type),
            locations,
            classes,
            vitamins,
            all_pkmn,
            all_moves,
            all_items: items,
        }
    }

    /// The fields the current type shows, in Tab order.
    pub fn fields(&self) -> (r: Vec<Field>)
        ensures
            r@ == fields_of(self.type_key, self.cfg.pp_needs_target),
    {
        let mut f: Vec<Field> = vec![Field::Type];
        match self.type_key {
            Some(InlineKind::Trainer) => {
                f.push(Field::Loc);
                f.push(Field::Cls);
                f.push(Field::Trainer);
            },
            Some(InlineKind::UseItem) => {
                f.push(Field::Item);
                f.push(Field::Qty);
                if self.cfg.pp_needs_target {
                    f.push(Field::PpMove);
                }
            },
            Some(InlineKind::GetItem) | Some(InlineKind::BuyItem) | Some(InlineKind::SellItem) => {
                f.push(Field::Item);
                f.push(Field::Qty);
            },
            Some(InlineKind::HoldItem) => f.push(Field::Item),
            Some(InlineKind::WildPkmn) => {
                f.push(Field::Pkmn);
                f.push(Field::Level);
                f.push(Field::Qty);
            },
            Some(InlineKind::RareCandy) => f.push(Field::Qty),
            Some(InlineKind::Vitamin) => {
                f.push(Field::Vitamin);
                f.push(Field::Qty);
            },
            Some(InlineKind::TmMove) => {
                f.push(Field::Tm);
                f.push(Field::Dest);
            },
            Some(InlineKind::TutorMove) => {
                f.push(Field::Move);
                f.push(Field::Dest);
            },
            Some(InlineKind::Notes) => f.push(Field::Note),
            _ => {},
        }
        assert(f@ =~= fields_of(self.type_key, self.cfg.pp_needs_target));
        f
    }

    /// `focus_primary_field`: focus the type's first field of note.
    pub fn focus_primary_field(&mut self)
        ensures
            final(self).focus_request == Some(primary_field(old(self).type_key)),
            final(self).type_key == old(self).type_key,
            final(self).cfg == old(self).cfg,
    {
        self.focus_request = Some(
            match self.type_key {
                Some(InlineKind::Trainer) => Field::Trainer,
                Some(InlineKind::GetItem) | Some(InlineKind::BuyItem) | Some(InlineKind::SellItem) | Some(
                    InlineKind::UseItem,
                ) | Some(InlineKind::HoldItem) => Field::Item,
                Some(InlineKind::WildPkmn) => Field::Pkmn,
                Some(InlineKind::Vitamin) => Field::Vitamin,
                Some(InlineKind::RareCandy) => Field::Qty,
                Some(InlineKind::TmMove) => Field::Tm,
                Some(InlineKind::TutorMove) => Field::Move,
                Some(InlineKind::Notes) => Field::Note,
                _ => Field::Type,
            },
        );
    }

    /// `advance`: Tab (`forward`) or Shift+Tab from `from`. Enter on the
    /// last field (`create_at_end`) asks to create instead; otherwise the
    /// focus moves to the next field, wrapping around. Returns whether to
    /// create.
    pub fn advance(&mut self, from: Field, forward: bool, create_at_end: bool) -> (create: bool)
        ensures
            (create, final(self).focus_request) == advance_result(
                fields_of(old(self).type_key, old(self).cfg.pp_needs_target),
                old(self).focus_request,
                from,
                forward,
                create_at_end,
            ),
            final(self).type_key == old(self).type_key,
            final(self).cfg == old(self).cfg,
    {
        let fields = self.fields();
        let n = fields.len();
        let mut cur: usize = 0;
        while cur < n && fields[cur] != from
            invariant
                n == fields.len(),
                cur <= n,
                forall|j: int| 0 <= j < cur ==> fields@[j] != from,
            decreases n - cur,
        {
            cur = cur + 1;
        }
        proof {
            fields@.index_of_first_ensures(from);
            if cur < n {
                assert(fields@[cur as int] == from);
                assert(fields@.contains(from));
                let i = fields@.index_of_first(from)->0;
                assert(i == cur as int) by {
                    if i < cur {
                    } else if i > cur {
                        assert(fields@[cur as int] != from);
                    }
                }
            } else {
                assert(!fields@.contains(from)) by {
                    if fields@.contains(from) {
                        let j = choose|j: int| 0 <= j < fields@.len() && fields@[j] == from;
                    }
                }
            }
        }
        if cur == n {
            return false;
        }
        if forward && create_at_end && cur == n - 1 {
            return true;
        }
        if n < 2 {
            return false;
        }
        let next = if forward { (cur + 1) % n } else { (cur + n - 1) % n };
        self.focus_request = Some(fields[next]);
        false
    }

    /// Whether Create (or Confirm) is on: a trainer, an item, a machine or
    /// a move is picked, or the type needs none.
    pub fn can_create(&self, words: &MenuWords) -> (r: bool)
        ensures
            r == creatable(*self, *words),
            r == match self.type_key {
                Some(InlineKind::Trainer) => self.cfg.trainer@ != words.no_trainers@,
                Some(InlineKind::GetItem) | Some(InlineKind::BuyItem) | Some(InlineKind::SellItem) | Some(
                    InlineKind::UseItem,
                ) | Some(InlineKind::HoldItem) => self.cfg.item@ != words.no_item@,
                Some(InlineKind::TmMove) => self.cfg.tm@ != words.no_item@,
                Some(InlineKind::TutorMove) => self.cfg.mv@.len() > 0,
                Some(_) => true,
                None => false,
            },
    {
        match self.type_key {
            Some(InlineKind::Trainer) => !eq_str(&self.cfg.trainer, words.no_trainers.as_str()),
            Some(InlineKind::GetItem) | Some(InlineKind::BuyItem) | Some(InlineKind::SellItem) | Some(
                InlineKind::UseItem,
            ) | Some(InlineKind::HoldItem) => !eq_str(&self.cfg.item, words.no_item.as_str()),
            Some(InlineKind::TmMove) => !eq_str(&self.cfg.tm, words.no_item.as_str()),
            Some(InlineKind::TutorMove) => self.cfg.mv.unicode_len() > 0,
            Some(_) => true,
            None => false,
        }
    }
}

/// Whether Create (or Confirm) is on (see `can_create`).
pub open spec fn creatable(c: InlineEventCreator, words: MenuWords) -> bool {
    match c.type_key {
        Some(InlineKind::Trainer) => c.cfg.trainer@ != words.no_trainers@,
        Some(InlineKind::GetItem) | Some(InlineKind::BuyItem) | Some(InlineKind::SellItem) | Some(InlineKind::UseItem)
        | Some(InlineKind::HoldItem) => c.cfg.item@ != words.no_item@,
        Some(InlineKind::TmMove) => c.cfg.tm@ != words.no_item@,
        Some(InlineKind::TutorMove) => c.cfg.mv@.len() > 0,
        Some(_) => true,
        None => false,
    }
}

/// The type menu's names: every type but Reorder Bag, which shows only
/// for a game that reorders its bag or while it is the strip's type.
pub open spec fn type_menu_names(bag_reorder: bool, cur: Option<InlineKind>) -> Seq<Seq<char>> {
    inline_kinds().filter(|k: InlineKind| bag_reorder || cur == Some(InlineKind::ReorderBag) || k != InlineKind::ReorderBag).map_values(
        |k: InlineKind| display_text(k),
    )
}

/// How a frame of the strip ends: whether it creates its event, the
/// location whose trainers are all added (the strip then closes), and
/// whether the strip closes.
#[derive(Debug, PartialEq, Eq)]
pub struct StripEnd {
    pub create: bool,
    pub add_area: Option<String>,
    pub discarded: bool,
}

impl InlineEventCreator {
    /// The names the type menu lists (`bag_reorder`: the game reorders its
    /// bag).
    pub fn type_menu(&self, bag_reorder: bool) -> (r: Vec<String>)
        ensures
            r.deep_view() == type_menu_names(bag_reorder, self.type_key),
    {
        let show_bag = bag_reorder || self.type_key == Some(InlineKind::ReorderBag);
        let kinds = event_types();
        let ghost keep = |k: InlineKind| show_bag || k != InlineKind::ReorderBag;
        let mut out: Vec<String> = Vec::new();
        let mut i: usize = 0;
        while i < kinds.len()
            invariant
                i <= kinds.len(),
                kinds@ == inline_kinds(),
                keep == (|k: InlineKind| show_bag || k != InlineKind::ReorderBag),
                out.deep_view() == kinds@.subrange(0, i as int).filter(keep).map_values(|k: InlineKind| display_text(k)),
            decreases kinds.len() - i,
        {
            let ghost before = out.deep_view();
            let k = kinds[i];
            let ghost prev = kinds@.subrange(0, i as int);
            proof {
                assert(kinds@.subrange(0, i + 1) =~= prev.push(k));
                prev.lemma_filter_push(k, keep);
            }
            if show_bag || k != InlineKind::ReorderBag {
                out.push(String::from_str(k.display()));
                proof {
                    assert(out.deep_view() =~= before.push(display_text(k)));
                    assert(prev.filter(keep).push(k).map_values(|k: InlineKind| display_text(k)) =~= prev.filter(
                        keep,
                    ).map_values(|k: InlineKind| display_text(k)).push(display_text(k)));
                }
            }
            i = i + 1;
        }
        proof {
            assert(kinds@.subrange(0, kinds.len() as int) =~= kinds@);
            assert(keep =~= (|k: InlineKind| bag_reorder || self.type_key == Some(InlineKind::ReorderBag) || k != InlineKind::ReorderBag));
        }
        out
    }

    /// The create button's label: Confirm while a group is edited, else
    /// Create.
    pub fn create_label(&self) -> (r: &'static str)
        ensures
            r@ == (if self.editing_group_id is Some { "Confirm"@ } else { "Create"@ }),
    {
        if self.editing_group_id.is_some() {
            "Confirm"
        } else {
            "Create"
        }
    }

    /// Whether "Add all trainers" shows: a new trainer fight at a chosen
    /// location.
    pub fn shows_add_all(&self, words: &MenuWords) -> (r: bool)
        ensures
            r == (self.type_key == Some(InlineKind::Trainer) && self.editing_group_id is None && self.cfg.loc@
                != words.all_trainers@),
    {
        self.type_key == Some(InlineKind::Trainer) && self.editing_group_id.is_none() && !eq_str(
            &self.cfg.loc,
            words.all_trainers.as_str(),
        )
    }

    /// The end of a frame: Create (a click, or Enter on the last field)
    /// creates when it can; "Add all trainers" adds the location's
    /// trainers, when one is chosen, and closes the strip; Discard or
    /// Escape closes it.
    pub fn end_frame(&self, create_now: bool, add_all: bool, discard: bool, escape: bool, words: &MenuWords) -> (r: StripEnd)
        ensures
            r.create == (create_now && creatable(*self, *words)),
            r.add_area is Some == (add_all && self.cfg.loc@.len() > 0 && self.cfg.loc@ != words.all_trainers@),
            r.add_area matches Some(l) ==> l@ == self.cfg.loc@,
            r.discarded == (discard || escape || r.add_area is Some),
    {
        let create = create_now && self.can_create(words);
        let add_area = if add_all && self.cfg.loc.unicode_len() > 0 && !eq_str(&self.cfg.loc, words.all_trainers.as_str()) {
            Some(self.cfg.loc.clone())
        } else {
            None
        };
        let discarded = discard || escape || add_area.is_some();
        StripEnd { create, add_area, discarded }
    }
}

/// The PP move menu of a use: "no particular move", then the moves the
/// mon knows at the insertion point.
pub open spec fn pp_menu(moves: Seq<Option<String>>, none_entry: Seq<char>) -> Seq<Seq<char>>
    decreases moves.len(),
{
    if moves.len() == 0 {
        seq![none_entry]
    } else {
        let rest = pp_menu(moves.drop_last(), none_entry);
        match moves.last() {
            Some(m) => if m@.len() > 0 {
                rest.push(m@)
            } else {
                rest
            },
            None => rest,
        }
    }
}

/// The first name of `names`, or nothing.
pub open spec fn first_name(names: Seq<Seq<char>>) -> Seq<char> {
    if names.len() > 0 {
        names[0]
    } else {
        Seq::empty()
    }
}

/// What a change of type to `key` makes of the strip: the type and its
/// name, the type's default fields, and what is left to look up.
pub open spec fn type_reset(
    before: InlineEventCreator,
    after: InlineEventCreator,
    key: InlineKind,
    machines: Seq<Seq<char>>,
    words: MenuWords,
    r: Refresh,
) -> bool {
    let c = after.cfg;
    let is_item = key == InlineKind::GetItem || key == InlineKind::BuyItem || key == InlineKind::SellItem || key
        == InlineKind::UseItem || key == InlineKind::HoldItem;
    &&& after.type_key == Some(key)
    &&& after.type_text@ == display_text(key)
    &&& r == match key {
        InlineKind::Trainer => Refresh::Trainers,
        InlineKind::GetItem | InlineKind::BuyItem | InlineKind::SellItem | InlineKind::UseItem
        | InlineKind::HoldItem => Refresh::PpMoves,
        InlineKind::TmMove | InlineKind::TutorMove => Refresh::Destination,
        _ => Refresh::Nothing,
    }
    // every field starts empty, but for the type's own defaults
    &&& c.loc@ == (if key == InlineKind::Trainer { words.all_trainers@ } else { Seq::empty() })
    &&& c.cls@ == (if key == InlineKind::Trainer { words.all_trainers@ } else { Seq::empty() })
    &&& c.trainer@.len() == 0 && c.trainers.len() == 0
    &&& c.items.deep_view() == (if is_item { before.all_items.deep_view() } else { Seq::empty() })
    &&& c.item@ == (if is_item { first_name(before.all_items.deep_view()) } else { Seq::empty() })
    &&& c.qty@ == (if is_item || key == InlineKind::WildPkmn || key == InlineKind::RareCandy || key
        == InlineKind::Vitamin {
        "1"@
    } else {
        Seq::empty()
    })
    &&& c.pkmn@ == (if key == InlineKind::WildPkmn { first_name(before.all_pkmn.deep_view()) } else { Seq::empty() })
    &&& c.level@ == (if key == InlineKind::WildPkmn { "5"@ } else { Seq::empty() })
    &&& c.vitamin@ == (if key == InlineKind::Vitamin { first_name(before.vitamins.deep_view()) } else { Seq::empty() })
    &&& c.tms.deep_view() == (if key == InlineKind::TmMove {
        if machines.len() == 0 || machines[0] == words.no_item@ {
            seq![words.no_item@]
        } else {
            machines
        }
    } else {
        Seq::empty()
    })
    &&& c.tm@ == (if key == InlineKind::TmMove { c.tms.deep_view()[0] } else { Seq::empty() })
    &&& c.mv@ == (if key == InlineKind::TutorMove { first_name(before.all_moves.deep_view()) } else { Seq::empty() })
    &&& c.dest@.len() == 0 && c.dest_options.len() == 0
    &&& c.note@.len() == 0
    &&& c.bag_order is None
    &&& !c.pp_needs_target && !c.pp_tossed
    &&& c.pp_move@.len() == 0 && c.pp_moves.len() == 0
    // the rest of the strip is left as it was
    &&& after.insert_after_id == before.insert_after_id
    &&& after.dest_folder_name == before.dest_folder_name
    &&& after.editing_group_id == before.editing_group_id
    &&& after.focus_request == before.focus_request
    &&& after.locations == before.locations
    &&& after.classes == before.classes
    &&& after.vitamins == before.vitamins
    &&& after.all_pkmn == before.all_pkmn
    &&& after.all_moves == before.all_moves
    &&& after.all_items == before.all_items
}

/// The move slots handed in, or none when no team is known.
pub open spec fn moves_of(moves: Option<Seq<Option<String>>>) -> Seq<Option<String>> {
    match moves {
        Some(m) => m,
        None => Seq::empty(),
    }
}

/// `b` is `a` after `refresh_trainers`: the trainer menu and its pick are
/// new, every other field of the strip is as it was.
pub open spec fn trainers_refreshed(a: InlineEventCreator, b: InlineEventCreator, trainers: Seq<Seq<char>>, words: MenuWords) -> bool {
    &&& b.cfg.trainers.deep_view() == (if trainers.len() == 0 { seq![words.no_trainers@] } else { trainers })
    &&& b.cfg.trainer@ == b.cfg.trainers@[0]@
    &&& b == (InlineEventCreator {
        cfg: InlineConfig { trainer: b.cfg.trainer, trainers: b.cfg.trainers, ..a.cfg },
        ..a
    })
}

/// `b` is `a` after `refresh_pp`: the PP target menu, its pick and whether
/// it shows are new, every other field of the strip is as it was.
pub open spec fn pp_refreshed(
    a: InlineEventCreator,
    b: InlineEventCreator,
    needs: bool,
    moves: Option<Seq<Option<String>>>,
    keep: Option<String>,
    words: MenuWords,
) -> bool {
    &&& b.cfg.pp_needs_target == (a.type_key == Some(InlineKind::UseItem) && needs)
    &&& b.cfg.pp_moves.deep_view() == pp_menu(moves_of(moves), words.pp_target_none@)
    &&& b.cfg.pp_move@ == (match keep {
        Some(k) => if has_name(b.cfg.pp_moves.deep_view(), k@) {
            k@
        } else {
            b.cfg.pp_moves@[0]@
        },
        None => b.cfg.pp_moves@[0]@,
    })
    &&& b == (InlineEventCreator {
        cfg: InlineConfig {
            pp_needs_target: b.cfg.pp_needs_target,
            pp_moves: b.cfg.pp_moves,
            pp_move: b.cfg.pp_move,
            ..a.cfg
        },
        ..a
    })
}

/// `b` is `a` after `refresh_dest`: the destination menu and its pick are
/// new, every other field of the strip is as it was.
pub open spec fn dest_refreshed(
    a: InlineEventCreator,
    b: InlineEventCreator,
    moves: Option<Seq<Option<String>>>,
    engine_slot: Option<i64>,
    words: MenuWords,
) -> bool {
    &&& b.cfg.dest_options.deep_view() == destination_menu(moves_of(moves), words.dont_learn@)
    &&& b.cfg.dest@ == (match engine_slot {
        Some(d) => if 0 <= d + 1 < b.cfg.dest_options@.len() {
            b.cfg.dest_options@[d + 1]@
        } else {
            words.dont_learn@
        },
        None => words.dont_learn@,
    })
    &&& b == (InlineEventCreator {
        cfg: InlineConfig { dest: b.cfg.dest, dest_options: b.cfg.dest_options, ..a.cfg },
        ..a
    })
}

/// `b` is `a` after `pick_destination`: only the destination pick may
/// change.
pub open spec fn dest_picked(a: InlineEventCreator, b: InlineEventCreator, dest: Option<i64>) -> bool {
    &&& b.cfg.dest@ == (match dest {
        Some(d) => if 0 <= d + 1 < a.cfg.dest_options@.len() {
            a.cfg.dest_options@[d + 1]@
        } else {
            a.cfg.dest@
        },
        None => a.cfg.dest@,
    })
    &&& b == (InlineEventCreator { cfg: InlineConfig { dest: b.cfg.dest, ..a.cfg }, ..a })
}

/// A listed name replaces the field's value; anything else leaves it.
pub open spec fn picked_if_listed(list: Seq<Seq<char>>, name: Seq<char>, cur: Seq<char>) -> Seq<char> {
    if has_name(list, name) {
        name
    } else {
        cur
    }
}

/// What the strip knows, when it builds, from outside its fields.
pub struct BuildFacts {
    /// the item picked for a use is a vitamin or an EV berry
    pub item_is_vitamin: bool,
    /// the move the picked TM/HM teaches (`None`: the item is unknown)
    pub tm_move: Option<Option<String>>,
    /// the mon's species at the insertion point
    pub species: String,
    /// the mon's unrealized stat exp at the insertion point
    pub stat_xp: Option<[i64; 6]>,
}

impl InlineEventCreator {
    /// `set_type`: a new type resets every field to the type's defaults
    /// (`machines`: the TM/HM list, "no item" alone when it has none);
    /// returns what the caller must look up next.
    pub fn set_type(&mut self, key: InlineKind, machines: Vec<String>, words: &MenuWords) -> (r: Refresh)
        ensures
            old(self).type_key == Some(key) ==> r == Refresh::Nothing && *final(self) == *old(self),
            old(self).type_key != Some(key) ==> type_reset(*old(self), *final(self), key, machines.deep_view(), *words, r),
            final(self).all_items == old(self).all_items,
            final(self).all_moves == old(self).all_moves,
            final(self).all_pkmn == old(self).all_pkmn,
            final(self).vitamins == old(self).vitamins,
            final(self).locations == old(self).locations,
            final(self).classes == old(self).classes,
            final(self).editing_group_id == old(self).editing_group_id,
    {
        if self.type_key == Some(key) {
            return Refresh::Nothing;
        }
        self.type_key = Some(key);
        self.type_text = String::from_str(key.display());
        self.cfg = InlineConfig::new();
        proof {
            assert(self.cfg.items.deep_view() =~= Seq::<Seq<char>>::empty());
            assert(self.cfg.tms.deep_view() =~= Seq::<Seq<char>>::empty());
            assert(self.cfg.loc@ =~= Seq::<char>::empty());
            assert(self.cfg.cls@ =~= Seq::<char>::empty());
            assert(self.cfg.item@ =~= Seq::<char>::empty());
            assert(self.cfg.qty@ =~= Seq::<char>::empty());
            assert(self.cfg.pkmn@ =~= Seq::<char>::empty());
            assert(self.cfg.level@ =~= Seq::<char>::empty());
            assert(self.cfg.vitamin@ =~= Seq::<char>::empty());
            assert(self.cfg.tm@ =~= Seq::<char>::empty());
            assert(self.cfg.mv@ =~= Seq::<char>::empty());
        }
        match key {
            InlineKind::Trainer => {
                self.cfg.loc = words.all_trainers.clone();
                self.cfg.cls = words.all_trainers.clone();
                Refresh::Trainers
            },
            InlineKind::GetItem | InlineKind::BuyItem | InlineKind::SellItem | InlineKind::UseItem
            | InlineKind::HoldItem => {
                self.cfg.items = copy_names(&self.all_items);
                self.cfg.item = first_or_empty(&self.cfg.items);
                self.cfg.qty = String::from_str("1");
                Refresh::PpMoves
            },
            InlineKind::WildPkmn => {
                self.cfg.pkmn = first_or_empty(&self.all_pkmn);
                self.cfg.level = String::from_str("5");
                self.cfg.qty = String::from_str("1");
                Refresh::Nothing
            },
            InlineKind::RareCandy => {
                self.cfg.qty = String::from_str("1");
                Refresh::Nothing
            },
            InlineKind::Vitamin => {
                self.cfg.vitamin = first_or_empty(&self.vitamins);
                self.cfg.qty = String::from_str("1");
                Refresh::Nothing
            },
            InlineKind::TmMove => {
                let tms = if machines.len() == 0 || eq_str(&machines[0], words.no_item.as_str()) {
                    let v = vec![words.no_item.clone()];
                    assert(v.deep_view() =~= seq![words.no_item@]);
                    v
                } else {
                    machines
                };
                self.cfg.tm = tms[0].clone();
                self.cfg.tms = tms;
                Refresh::Destination
            },
            InlineKind::TutorMove => {
                self.cfg.mv = first_or_empty(&self.all_moves);
                Refresh::Destination
            },
            _ => Refresh::Nothing,
        }
    }

    /// The trainer menu: `trainers` (those of the chosen location and class
    /// not yet beaten), or the "no trainers" entry alone; the first is
    /// picked.
    pub fn refresh_trainers(&mut self, trainers: Vec<String>, words: &MenuWords)
        ensures
            final(self).cfg.trainers.deep_view() == (if trainers.len() == 0 {
                seq![words.no_trainers@]
            } else {
                trainers.deep_view()
            }),
            final(self).cfg.trainer@ == final(self).cfg.trainers@[0]@,
            final(self).type_key == old(self).type_key,
            final(self).cfg.loc == old(self).cfg.loc,
            final(self).cfg.cls == old(self).cfg.cls,
            *final(self) == (InlineEventCreator {
                cfg: InlineConfig { trainer: final(self).cfg.trainer, trainers: final(self).cfg.trainers, ..old(self).cfg },
                ..*old(self)
            }),
            trainers_refreshed(*old(self), *final(self), trainers.deep_view(), *words),
    {
        let list = if trainers.len() == 0 {
            let v = vec![words.no_trainers.clone()];
            assert(v.deep_view() =~= seq![words.no_trainers@]);
            v
        } else {
            trainers
        };
        self.cfg.trainer = list[0].clone();
        self.cfg.trainers = list;
    }

    /// The PP move menu of a use: shown when the strip is on a use of an
    /// item that acts on one move (`item_needs_target`); it lists the moves
    /// known at the insertion point (`moves`, none without a route state)
    /// and keeps `keep` picked when it is listed.
    pub fn refresh_pp(&mut self, item_needs_target: bool, moves: Option<&Vec<Option<String>>>, keep: Option<String>, words: &MenuWords)
        ensures
            final(self).cfg.pp_needs_target == (old(self).type_key == Some(InlineKind::UseItem)
                && item_needs_target),
            final(self).cfg.pp_moves.deep_view() == pp_menu(
                match moves {
                    Some(m) => m@,
                    None => Seq::empty(),
                },
                words.pp_target_none@,
            ),
            final(self).cfg.pp_move@ == (match keep {
                Some(k) => if has_name(final(self).cfg.pp_moves.deep_view(), k@) {
                    k@
                } else {
                    final(self).cfg.pp_moves@[0]@
                },
                None => final(self).cfg.pp_moves@[0]@,
            }),
            final(self).type_key == old(self).type_key,
            final(self).cfg.item == old(self).cfg.item,
            final(self).cfg.qty == old(self).cfg.qty,
            *final(self) == (InlineEventCreator {
                cfg: InlineConfig { pp_needs_target: final(self).cfg.pp_needs_target, pp_moves: final(self).cfg.pp_moves, pp_move: final(self).cfg.pp_move, ..old(self).cfg },
                ..*old(self)
            }),
            pp_refreshed(
                *old(self),
                *final(self),
                item_needs_target,
                match moves {
                    Some(m) => Some(m@),
                    None => None,
                },
                keep,
                *words,
            ),
    {
        let needs = match self.type_key {
            Some(InlineKind::UseItem) => item_needs_target,
            _ => false,
        };
        self.cfg.pp_needs_target = needs;
        let mut list: Vec<String> = vec![words.pp_target_none.clone()];
        let ghost ms: Seq<Option<String>> = match moves {
            Some(m) => m@,
            None => Seq::empty(),
        };
        proof {
            assert(list.deep_view() =~= pp_menu(ms.subrange(0, 0), words.pp_target_none@));
        }
        match moves {
            Some(m) => {
                let mut i: usize = 0;
                while i < m.len()
                    invariant
                        i <= m.len(),
                        ms == m@,
                        list.deep_view() == pp_menu(ms.subrange(0, i as int), words.pp_target_none@),
                    decreases m.len() - i,
                {
                    let ghost before = list.deep_view();
                    let ghost pre = ms.subrange(0, i + 1);
                    assert(pre.drop_last() =~= ms.subrange(0, i as int));
                    match &m[i] {
                        Some(name) => {
                            if name.unicode_len() > 0 {
                                list.push(name.clone());
                                assert(list.deep_view() =~= before.push(name@));
                            }
                        },
                        None => {},
                    }
                    i = i + 1;
                }
                assert(ms.subrange(0, m.len() as int) =~= ms);
            },
            None => {},
        }
        proof {
            lemma_pp_menu_starts_with_none(ms, words.pp_target_none@);
            assert(list.deep_view().len() == list.len());
        }
        self.cfg.pp_move = match keep {
            Some(k) => if contains_name(&list, k.as_str()) {
                k
            } else {
                list[0].clone()
            },
            None => list[0].clone(),
        };
        proof {
            lemma_pp_menu_starts_with_none(ms, words.pp_target_none@);
        }
        self.cfg.pp_moves = list;
    }

    /// The move whose destination the route engine is asked for: the move
    /// the picked TM/HM teaches (`tm_move`, from the item database), or the
    /// tutor move unless it deletes.
    pub fn dest_move(&self, tm_move: Option<String>, words: &MenuWords) -> (r: Option<String>)
        ensures
            r == match self.type_key {
                Some(InlineKind::TmMove) => if self.cfg.tm@ != words.no_item@ {
                    tm_move
                } else {
                    None
                },
                Some(InlineKind::TutorMove) => if self.cfg.mv@.len() > 0 && self.cfg.mv@ != words.delete_move@ {
                    Some(self.cfg.mv)
                } else {
                    None
                },
                _ => None,
            },
    {
        match self.type_key {
            Some(InlineKind::TmMove) => if !eq_str(&self.cfg.tm, words.no_item.as_str()) {
                tm_move
            } else {
                None
            },
            Some(InlineKind::TutorMove) => if self.cfg.mv.unicode_len() > 0 && !eq_str(
                &self.cfg.mv,
                words.delete_move.as_str(),
            ) {
                Some(self.cfg.mv.clone())
            } else {
                None
            },
            _ => None,
        }
    }

    /// The destination menu over the mon's `moves` (none without a route
    /// state), "don't learn" picked unless the engine puts the move in slot
    /// `engine_slot`.
    pub fn refresh_dest(&mut self, moves: Option<&Vec<Option<String>>>, engine_slot: Option<i64>, words: &MenuWords)
        requires
            moves matches Some(m) ==> m.len() <= isize::MAX,
        ensures
            final(self).cfg.dest_options.deep_view() == destination_menu(
                match moves {
                    Some(m) => m@,
                    None => Seq::empty(),
                },
                words.dont_learn@,
            ),
            final(self).cfg.dest@ == (match engine_slot {
                Some(d) => if 0 <= d + 1 < final(self).cfg.dest_options@.len() {
                    final(self).cfg.dest_options@[d + 1]@
                } else {
                    words.dont_learn@
                },
                None => words.dont_learn@,
            }),
            final(self).type_key == old(self).type_key,
            final(self).cfg.tm == old(self).cfg.tm,
            final(self).cfg.mv == old(self).cfg.mv,
            *final(self) == (InlineEventCreator {
                cfg: InlineConfig { dest: final(self).cfg.dest, dest_options: final(self).cfg.dest_options, ..old(self).cfg },
                ..*old(self)
            }),
            dest_refreshed(
                *old(self),
                *final(self),
                match moves {
                    Some(m) => Some(m@),
                    None => None,
                },
                engine_slot,
                *words,
            ),
    {
        let empty: Vec<Option<String>> = Vec::new();
        let options = match moves {
            Some(m) => destination_entries(m, words.dont_learn.as_str()),
            None => destination_entries(&empty, words.dont_learn.as_str()),
        };
        proof {
            if moves is None {
                assert(empty@ =~= Seq::<Option<String>>::empty());
            }
        }
        proof {
            assert(options.deep_view().len() == options.len());
            assert(options.deep_view()[0] == options@[0]@);
            assert(destination_menu(
                match moves {
                    Some(m) => m@,
                    None => Seq::empty(),
                },
                words.dont_learn@,
            )[0] == words.dont_learn@);
        }
        self.cfg.dest = options[0].clone();
        match engine_slot {
            Some(d) => {
                if -1 <= d {
                    let k64: u64 = ((d as i128) + 1) as u64;
                    if k64 < (options.len() as u64) {
                        self.cfg.dest = options[k64 as usize].clone();
                    }
                }
            },
            None => {},
        }
        self.cfg.dest_options = options;
    }

    /// Pick the loaded destination: the entry of slot `d` when there is one.
    pub fn pick_destination(&mut self, dest: Option<i64>)
        ensures
            final(self).cfg.dest@ == (match dest {
                Some(d) => if 0 <= d + 1 < old(self).cfg.dest_options@.len() {
                    old(self).cfg.dest_options@[d + 1]@
                } else {
                    old(self).cfg.dest@
                },
                None => old(self).cfg.dest@,
            }),
            final(self).cfg.dest_options == old(self).cfg.dest_options,
            final(self).type_key == old(self).type_key,
            *final(self) == (InlineEventCreator {
                cfg: InlineConfig { dest: final(self).cfg.dest, ..old(self).cfg },
                ..*old(self)
            }),
            dest_picked(*old(self), *final(self), dest),
    {
        match dest {
            Some(d) => {
                if -1 <= d {
                    let k64: u64 = ((d as i128) + 1) as u64;
                    if k64 < (self.cfg.dest_options.len() as u64) {
                        self.cfg.dest = self.cfg.dest_options[k64 as usize].clone();
                    }
                }
            },
            None => {},
        }
    }

    /// An edited fight: the trainer's location, when it is one of the
    /// menu's, is picked (the trainers are then refreshed).
    pub fn load_trainer_location(&mut self, location: &str)
        ensures
            final(self).cfg.loc@ == (if location@.len() > 0 && has_name(old(self).locations.deep_view(), location@) {
                location@
            } else {
                old(self).cfg.loc@
            }),
            final(self).type_key == old(self).type_key,
            final(self).locations == old(self).locations,
            *final(self) == (InlineEventCreator {
                cfg: InlineConfig { loc: final(self).cfg.loc, ..old(self).cfg },
                ..*old(self)
            }),
    {
        if location.unicode_len() > 0 && contains_name(&self.locations, location) {
            self.cfg.loc = String::from_str(location);
        }
    }

    /// An edited fight's trainer, picked when the menu lists it.
    pub fn select_trainer(&mut self, name: &str)
        ensures
            final(self).cfg.trainer@ == (if has_name(old(self).cfg.trainers.deep_view(), name@) {
                name@
            } else {
                old(self).cfg.trainer@
            }),
            final(self).cfg.trainers == old(self).cfg.trainers,
            final(self).type_key == old(self).type_key,
            *final(self) == (InlineEventCreator {
                cfg: InlineConfig { trainer: final(self).cfg.trainer, ..old(self).cfg },
                ..*old(self)
            }),
    {
        if contains_name(&self.cfg.trainers, name) {
            self.cfg.trainer = String::from_str(name);
        }
    }

    /// An edited item event: its item (when listed), amount and tossed flag
    /// (the PP move menu is then refreshed, keeping its target).
    pub fn load_item(&mut self, name: &str, amount: i64, tossed: bool)
        ensures
            final(self).cfg.item@ == (if has_name(old(self).cfg.items.deep_view(), name@) {
                name@
            } else {
                old(self).cfg.item@
            }),
            final(self).cfg.qty@ == int_text(amount as int),
            final(self).cfg.pp_tossed == tossed,
            final(self).cfg.items == old(self).cfg.items,
            final(self).type_key == old(self).type_key,
            *final(self) == (InlineEventCreator {
                cfg: InlineConfig { item: final(self).cfg.item, qty: final(self).cfg.qty, pp_tossed: final(self).cfg.pp_tossed, ..old(self).cfg },
                ..*old(self)
            }),
    {
        if contains_name(&self.cfg.items, name) {
            self.cfg.item = String::from_str(name);
        }
        self.cfg.qty = i64_text(amount);
        self.cfg.pp_tossed = tossed;
    }

    /// An edited hold: its item, when listed.
    pub fn load_hold(&mut self, name: Option<&str>)
        ensures
            final(self).cfg.item@ == (match name {
                Some(n) => if has_name(old(self).cfg.items.deep_view(), n@) {
                    n@
                } else {
                    old(self).cfg.item@
                },
                None => old(self).cfg.item@,
            }),
            final(self).type_key == old(self).type_key,
            *final(self) == (InlineEventCreator {
                cfg: InlineConfig { item: final(self).cfg.item, ..old(self).cfg },
                ..*old(self)
            }),
    {
        if let Some(n) = name {
            if contains_name(&self.cfg.items, n) {
                self.cfg.item = String::from_str(n);
            }
        }
    }

    /// An edited wild fight.
    pub fn load_wild(&mut self, name: &str, level: i64, quantity: i64)
        ensures
            final(self).cfg.pkmn@ == (if has_name(old(self).all_pkmn.deep_view(), name@) {
                name@
            } else {
                old(self).cfg.pkmn@
            }),
            final(self).cfg.level@ == int_text(level as int),
            final(self).cfg.qty@ == int_text(quantity as int),
            final(self).type_key == old(self).type_key,
            *final(self) == (InlineEventCreator {
                cfg: InlineConfig { pkmn: final(self).cfg.pkmn, level: final(self).cfg.level, qty: final(self).cfg.qty, ..old(self).cfg },
                ..*old(self)
            }),
    {
        if contains_name(&self.all_pkmn, name) {
            self.cfg.pkmn = String::from_str(name);
        }
        self.cfg.level = i64_text(level);
        self.cfg.qty = i64_text(quantity);
    }

    /// An edited rare candy or vitamin (`vitamin: None` for a candy).
    pub fn load_amount(&mut self, vitamin: Option<&str>, amount: i64)
        ensures
            final(self).cfg.vitamin@ == (match vitamin {
                Some(v) => if has_name(old(self).vitamins.deep_view(), v@) {
                    v@
                } else {
                    old(self).cfg.vitamin@
                },
                None => old(self).cfg.vitamin@,
            }),
            final(self).cfg.qty@ == int_text(amount as int),
            final(self).type_key == old(self).type_key,
            vitamin is None ==> final(self).cfg.vitamin == old(self).cfg.vitamin,
            *final(self) == (InlineEventCreator {
                cfg: InlineConfig { vitamin: final(self).cfg.vitamin, qty: final(self).cfg.qty, ..old(self).cfg },
                ..*old(self)
            }),
    {
        if let Some(v) = vitamin {
            if contains_name(&self.vitamins, v) {
                self.cfg.vitamin = String::from_str(v);
            }
        }
        self.cfg.qty = i64_text(amount);
    }

    /// An edited machine move: its TM/HM, when listed (the destination menu
    /// is then refreshed and the loaded slot picked).
    pub fn load_machine(&mut self, source: &str)
        ensures
            final(self).cfg.tm@ == (if has_name(old(self).cfg.tms.deep_view(), source@) {
                source@
            } else {
                old(self).cfg.tm@
            }),
            final(self).type_key == old(self).type_key,
            *final(self) == (InlineEventCreator {
                cfg: InlineConfig { tm: final(self).cfg.tm, ..old(self).cfg },
                ..*old(self)
            }),
    {
        if contains_name(&self.cfg.tms, source) {
            self.cfg.tm = String::from_str(source);
        }
    }

    /// An edited tutor move: its move, when listed.
    pub fn load_tutor(&mut self, mv: Option<&str>)
        ensures
            final(self).cfg.mv@ == (match mv {
                Some(m) => if has_name(old(self).all_moves.deep_view(), m@) {
                    m@
                } else {
                    old(self).cfg.mv@
                },
                None => old(self).cfg.mv@,
            }),
            final(self).type_key == old(self).type_key,
            *final(self) == (InlineEventCreator {
                cfg: InlineConfig { mv: final(self).cfg.mv, ..old(self).cfg },
                ..*old(self)
            }),
    {
        if let Some(m) = mv {
            if contains_name(&self.all_moves, m) {
                self.cfg.mv = String::from_str(m);
            }
        }
    }

    /// An edited note.
    pub fn load_note(&mut self, note: &str)
        ensures
            final(self).cfg.note@ == note@,
            final(self).type_key == old(self).type_key,
            *final(self) == (InlineEventCreator {
                cfg: InlineConfig { note: final(self).cfg.note, ..old(self).cfg },
                ..*old(self)
            }),
    {
        self.cfg.note = String::from_str(note);
    }

    /// An edited reorder: the order arranged in the details panel.
    pub fn load_bag_order(&mut self, order: Option<Vec<String>>)
        ensures
            final(self).cfg.bag_order == order,
            final(self).type_key == old(self).type_key,
            *final(self) == (InlineEventCreator {
                cfg: InlineConfig { bag_order: final(self).cfg.bag_order, ..old(self).cfg },
                ..*old(self)
            }),
    {
        self.cfg.bag_order = order;
    }
}

/// A built item event: the amount field's number, or its error.
pub open spec fn built_item(
    r: Result<Option<EventDraft>, String>,
    name: Seq<char>,
    qty: Seq<char>,
    acquire: bool,
    money: bool,
    target: Option<Seq<char>>,
    tossed: bool,
) -> bool {
    match field_value(qty) {
        Err(msg) => r matches Err(e) && e@ == msg,
        Ok(q) => r matches Ok(Some(EventDraft::Item(d))) && d.item_name@ == name && d.amount == q
            && d.is_acquire == acquire && d.with_money == money && d.no_effect == tossed && match (
            d.target_move,
            target,
        ) {
            (Some(t), Some(u)) => t@ == u,
            (None, None) => true,
            _ => false,
        },
    }
}

/// The move a use is aimed at: the picked PP move, when the item needs
/// one and a move is picked.
pub open spec fn use_target(cfg: InlineConfig, none_entry: Seq<char>) -> Option<Seq<char>> {
    if cfg.pp_needs_target && cfg.pp_move@ != none_entry {
        Some(cfg.pp_move@)
    } else {
        None
    }
}

impl InlineEventCreator {
    /// `build`: the event of the current type from its fields (`None`:
    /// nothing to create, such as the "no item" entry), or the error of a
    /// field that is not a number.
    pub fn build(&self, words: &MenuWords, facts: &BuildFacts) -> (r: Result<Option<EventDraft>, String>)
        ensures
            match self.type_key {
                None => r matches Ok(None),
                Some(InlineKind::Trainer) => if self.cfg.trainer@ == words.no_trainers@ {
                    r matches Ok(None)
                } else {
                    r matches Ok(Some(EventDraft::Trainer(d))) && d.trainer_name@ == self.cfg.trainer@
                        && d.second_trainer@.len() == 0 && d.exp_split.len() == 0 && d.mon_order.len()
                        == 0 && d.pay_day_amount is None && d.thief_mons.len() == 0
                },
                Some(InlineKind::GetItem) => if self.cfg.item@ == words.no_item@ {
                    r matches Ok(None)
                } else {
                    built_item(r, self.cfg.item@, self.cfg.qty@, true, false, None, false)
                },
                Some(InlineKind::BuyItem) => if self.cfg.item@ == words.no_item@ {
                    r matches Ok(None)
                } else {
                    built_item(r, self.cfg.item@, self.cfg.qty@, true, true, None, false)
                },
                Some(InlineKind::SellItem) => if self.cfg.item@ == words.no_item@ {
                    r matches Ok(None)
                } else {
                    built_item(r, self.cfg.item@, self.cfg.qty@, false, true, None, false)
                },
                Some(InlineKind::UseItem) => if self.cfg.item@ == words.no_item@ {
                    r matches Ok(None)
                } else {
                    match field_value(self.cfg.qty@) {
                        Err(msg) => r matches Err(e) && e@ == msg,
                        Ok(q) => if facts.item_is_vitamin {
                            r matches Ok(Some(EventDraft::Vitamin { name, amount })) && name@
                                == self.cfg.item@ && amount == q
                        } else if self.cfg.item@ == words.rare_candy@ {
                            r matches Ok(Some(EventDraft::RareCandy(amount))) && amount == q
                        } else {
                            built_item(
                                r,
                                self.cfg.item@,
                                self.cfg.qty@,
                                false,
                                false,
                                use_target(self.cfg, words.pp_target_none@),
                                self.cfg.pp_tossed,
                            )
                        },
                    }
                },
                Some(InlineKind::HoldItem) => if self.cfg.item@ == words.no_item@ {
                    r matches Ok(None)
                } else {
                    r matches Ok(Some(EventDraft::Hold(h))) && !h.consumed && (match h.item_name {
                        Some(n) => n@ == self.cfg.item@,
                        None => false,
                    })
                },
                Some(InlineKind::WildPkmn) => match (field_value(self.cfg.level@), field_value(self.cfg.qty@)) {
                    (Err(msg), _) => r matches Err(e) && e@ == msg,
                    (Ok(_), Err(msg)) => r matches Err(e) && e@ == msg,
                    (Ok(l), Ok(q)) => r matches Ok(Some(EventDraft::Wild(w))) && w.name@ == self.cfg.pkmn@
                        && w.level == l && w.quantity == q && !w.trainer_pkmn,
                },
                Some(InlineKind::RareCandy) => match field_value(self.cfg.qty@) {
                    Err(msg) => r matches Err(e) && e@ == msg,
                    Ok(q) => r matches Ok(Some(EventDraft::RareCandy(amount))) && amount == q,
                },
                Some(InlineKind::Vitamin) => match field_value(self.cfg.qty@) {
                    Err(msg) => r matches Err(e) && e@ == msg,
                    Ok(q) => r matches Ok(Some(EventDraft::Vitamin { name, amount })) && name@
                        == self.cfg.vitamin@ && amount == q,
                },
                Some(InlineKind::TmMove) => if self.cfg.tm@ == words.no_item@ {
                    r matches Ok(None)
                } else {
                    match facts.tm_move {
                        None => r matches Ok(None),
                        Some(m) => r matches Ok(Some(EventDraft::LearnMove(d))) && d.move_name == m
                            && d.source@ == self.cfg.tm@ && d.level == MoveLevel::Any && d.mon is None
                            && match d.destination {
                            Some(x) => inline_destination(self.cfg.dest@, words.dont_learn@) == Some(x as int),
                            None => inline_destination(self.cfg.dest@, words.dont_learn@) is None,
                        },
                    }
                },
                Some(InlineKind::TutorMove) => if self.cfg.mv@.len() == 0 {
                    r matches Ok(None)
                } else {
                    r matches Ok(Some(EventDraft::LearnMove(d))) && d.source@ == words.source_tutor@
                        && d.level == MoveLevel::Any && d.mon is None && match d.move_name {
                        Some(m) => m@ == self.cfg.mv@ && self.cfg.mv@ != words.delete_move@,
                        None => self.cfg.mv@ == words.delete_move@,
                    } && match d.destination {
                        Some(x) => inline_destination(self.cfg.dest@, words.dont_learn@) == Some(x as int),
                        None => inline_destination(self.cfg.dest@, words.dont_learn@) is None,
                    }
                },
                Some(InlineKind::Notes) => r matches Ok(Some(EventDraft::Notes(n))) && n@ == self.cfg.note@,
                Some(InlineKind::ReorderBag) => r matches Ok(Some(EventDraft::BagReorder(o))) && same_order(
                    o,
                    self.cfg.bag_order,
                ),
                Some(InlineKind::Save) => r matches Ok(Some(EventDraft::Save(l))) && l@.len() == 0,
                Some(InlineKind::Heal) => r matches Ok(Some(EventDraft::Heal(l))) && l@.len() == 0,
                Some(InlineKind::Blackout) => r matches Ok(Some(EventDraft::Blackout(l))) && l@.len() == 0,
                Some(InlineKind::Evolve) => r matches Ok(Some(EventDraft::Evolution { species, by_stone }))
                    && species@ == facts.species@ && by_stone is None,
                Some(InlineKind::EvOverride) => r matches Ok(Some(EventDraft::EvOverride(v))) && v == match facts.stat_xp {
                    Some(x) => x,
                    None => [0i64, 0, 0, 0, 0, 0],
                },
            },
    {
        match self.type_key {
            None => Ok(None),
            Some(InlineKind::Trainer) => {
                if eq_str(&self.cfg.trainer, words.no_trainers.as_str()) {
                    Ok(None)
                } else {
                    Ok(
                        Some(
                            EventDraft::Trainer(
                                TrainerDraft {
                                    trainer_name: self.cfg.trainer.clone(),
                                    second_trainer: String::new(),
                                    exp_split: Vec::new(),
                                    mon_order: Vec::new(),
                                    pay_day_amount: None,
                                    thief_mons: Vec::new(),
                                },
                            ),
                        ),
                    )
                }
            },
            Some(InlineKind::GetItem) | Some(InlineKind::BuyItem) | Some(InlineKind::SellItem) => {
                if eq_str(&self.cfg.item, words.no_item.as_str()) {
                    return Ok(None);
                }
                let (acquire, money) = match self.type_key {
                    Some(InlineKind::GetItem) => (true, false),
                    Some(InlineKind::BuyItem) => (true, true),
                    _ => (false, true),
                };
                let q = parse_field(self.cfg.qty.as_str())?;
                Ok(
                    Some(
                        EventDraft::Item(
                            ItemDraft {
                                item_name: self.cfg.item.clone(),
                                amount: q,
                                is_acquire: acquire,
                                with_money: money,
                                target_move: None,
                                no_effect: false,
                            },
                        ),
                    ),
                )
            },
            Some(InlineKind::UseItem) => {
                if eq_str(&self.cfg.item, words.no_item.as_str()) {
                    return Ok(None);
                }
                let q = parse_field(self.cfg.qty.as_str())?;
                if facts.item_is_vitamin {
                    Ok(Some(EventDraft::Vitamin { name: self.cfg.item.clone(), amount: q }))
                } else if eq_str(&self.cfg.item, words.rare_candy.as_str()) {
                    Ok(Some(EventDraft::RareCandy(q)))
                } else {
                    let target = if self.cfg.pp_needs_target && !eq_str(
                        &self.cfg.pp_move,
                        words.pp_target_none.as_str(),
                    ) {
                        Some(self.cfg.pp_move.clone())
                    } else {
                        None
                    };
                    Ok(
                        Some(
                            EventDraft::Item(
                                ItemDraft {
                                    item_name: self.cfg.item.clone(),
                                    amount: q,
                                    is_acquire: false,
                                    with_money: false,
                                    target_move: target,
                                    no_effect: self.cfg.pp_tossed,
                                },
                            ),
                        ),
                    )
                }
            },
            Some(InlineKind::HoldItem) => {
                if eq_str(&self.cfg.item, words.no_item.as_str()) {
                    Ok(None)
                } else {
                    Ok(Some(EventDraft::Hold(HoldDraft { item_name: Some(self.cfg.item.clone()), consumed: false })))
                }
            },
            Some(InlineKind::WildPkmn) => {
                let level = parse_field(self.cfg.level.as_str())?;
                let q = parse_field(self.cfg.qty.as_str())?;
                Ok(
                    Some(
                        EventDraft::Wild(
                            WildDraft { name: self.cfg.pkmn.clone(), level, quantity: q, trainer_pkmn: false },
                        ),
                    ),
                )
            },
            Some(InlineKind::RareCandy) => {
                let q = parse_field(self.cfg.qty.as_str())?;
                Ok(Some(EventDraft::RareCandy(q)))
            },
            Some(InlineKind::Vitamin) => {
                let q = parse_field(self.cfg.qty.as_str())?;
                Ok(Some(EventDraft::Vitamin { name: self.cfg.vitamin.clone(), amount: q }))
            },
            Some(InlineKind::TmMove) => {
                if eq_str(&self.cfg.tm, words.no_item.as_str()) {
                    return Ok(None);
                }
                match &facts.tm_move {
                    None => Ok(None),
                    Some(m) => {
                        let dest = parse_dest(self.cfg.dest.as_str(), words.dont_learn.as_str());
                        Ok(
                            Some(
                                EventDraft::LearnMove(
                                    LearnDraft {
                                        move_name: m.clone(),
                                        destination: dest,
                                        source: self.cfg.tm.clone(),
                                        level: MoveLevel::Any,
                                        mon: None,
                                    },
                                ),
                            ),
                        )
                    },
                }
            },
            Some(InlineKind::TutorMove) => {
                if self.cfg.mv.unicode_len() == 0 {
                    return Ok(None);
                }
                let mv = if eq_str(&self.cfg.mv, words.delete_move.as_str()) {
                    None
                } else {
                    Some(self.cfg.mv.clone())
                };
                let dest = parse_dest(self.cfg.dest.as_str(), words.dont_learn.as_str());
                Ok(
                    Some(
                        EventDraft::LearnMove(
                            LearnDraft {
                                move_name: mv,
                                destination: dest,
                                source: words.source_tutor.clone(),
                                level: MoveLevel::Any,
                                mon: None,
                            },
                        ),
                    ),
                )
            },
            Some(InlineKind::Notes) => Ok(Some(EventDraft::Notes(self.cfg.note.clone()))),
            Some(InlineKind::ReorderBag) => Ok(Some(EventDraft::BagReorder(copy_order(&self.cfg.bag_order)))),
            Some(InlineKind::Save) => Ok(Some(EventDraft::Save(String::new()))),
            Some(InlineKind::Heal) => Ok(Some(EventDraft::Heal(String::new()))),
            Some(InlineKind::Blackout) => Ok(Some(EventDraft::Blackout(String::new()))),
            Some(InlineKind::Evolve) => Ok(Some(EventDraft::Evolution { species: facts.species.clone(), by_stone: None })),
            Some(InlineKind::EvOverride) => {
                let v: [i64; 6] = match facts.stat_xp {
                    Some(x) => x,
                    None => [0, 0, 0, 0, 0, 0],
                };
                Ok(Some(EventDraft::EvOverride(v)))
            },
        }
    }
}

/// Two bag orders list the same items.
pub open spec fn same_order(a: Option<Vec<String>>, b: Option<Vec<String>>) -> bool {
    match (a, b) {
        (Some(x), Some(y)) => x@ == y@,
        (None, None) => true,
        _ => false,
    }
}

/// A copy of an arranged bag order.
fn copy_order(o: &Option<Vec<String>>) -> (r: Option<Vec<String>>)
    ensures
        same_order(r, *o),
{
    match o {
        None => None,
        Some(v) => {
            let mut out: Vec<String> = Vec::new();
            let mut i: usize = 0;
            while i < v.len()
                invariant
                    i <= v.len(),
                    out@ == v@.subrange(0, i as int),
                decreases v.len() - i,
            {
                out.push(v[i].clone());
                assert(out@ =~= v@.subrange(0, i + 1));
                i = i + 1;
            }
            assert(out@ =~= v@);
            Some(out)
        },
    }
}

proof fn lemma_pp_menu_starts_with_none(moves: Seq<Option<String>>, none_entry: Seq<char>)
    ensures
        pp_menu(moves, none_entry).len() >= 1,
        pp_menu(moves, none_entry)[0] == none_entry,
    decreases moves.len(),
{
    if moves.len() > 0 {
        lemma_pp_menu_starts_with_none(moves.drop_last(), none_entry);
    }
}

/// Tab then Shift+Tab (or the other way round) comes back to the field it
/// started from, whenever the type has two fields or more and the first
/// key did not ask to create.
pub proof fn law_tab_round_trip(fs: Seq<Field>, cur: int)
    requires
        fs.len() >= 2,
        0 <= cur < fs.len(),
    ensures
        ({
            let n = fs.len() as int;
            let next = (cur + 1) % n;
            let prev = (cur + n - 1) % n;
            &&& (next + n - 1) % n == cur
            &&& (prev + 1) % n == cur
        }),
{
    let n = fs.len() as int;
    if cur + 1 < n {
        assert((cur + 1) % n == cur + 1) by (nonlinear_arith)
            requires
                0 <= cur + 1 < n,
        ;
        assert((cur + 1 + n - 1) % n == cur) by (nonlinear_arith)
            requires
                0 <= cur < n,
        ;
    } else {
        assert((cur + 1) % n == 0) by (nonlinear_arith)
            requires
                cur + 1 == n,
                n > 0,
        ;
        assert((0 + n - 1) % n == cur) by (nonlinear_arith)
            requires
                cur == n - 1,
                n > 0,
        ;
    }
    if cur > 0 {
        assert((cur + n - 1) % n == cur - 1) by (nonlinear_arith)
            requires
                0 < cur < n,
        ;
        assert((cur - 1 + 1) % n == cur) by (nonlinear_arith)
            requires
                0 <= cur < n,
        ;
    } else {
        assert((cur + n - 1) % n == n - 1) by (nonlinear_arith)
            requires
                cur == 0,
                n >= 2,
        ;
        assert((n - 1 + 1) % n == 0) by (nonlinear_arith)
            requires
                n >= 2,
        ;
    }
}

/// Every type's fields start with the type menu and list no field twice,
/// so a field names one Tab stop.
pub proof fn law_fields_start_at_type(kind: Option<InlineKind>, pp: bool)
    ensures
        fields_of(kind, pp).len() >= 1,
        fields_of(kind, pp)[0] == Field::Type,
        forall|i: int, j: int|
            0 <= i < j < fields_of(kind, pp).len() ==> fields_of(kind, pp)[i] != fields_of(kind, pp)[j],
{
    let fs = fields_of(kind, pp);
    assert(fs[0] == Field::Type);
}

impl InlineEventCreator {
    /// Enter or Tab in a field steps forward (Enter on the last field asks
    /// to create); Shift+Tab steps back. Returns whether to create.
    pub fn handle_nav(&mut self, field: Field, enter: bool, tab: bool, backtab: bool) -> (create: bool)
        ensures
            final(self).type_key == old(self).type_key,
            final(self).cfg == old(self).cfg,
            (enter || tab) ==> (create, final(self).focus_request) == advance_result(
                fields_of(old(self).type_key, old(self).cfg.pp_needs_target),
                old(self).focus_request,
                field,
                true,
                enter,
            ),
            !(enter || tab) && backtab ==> !create && final(self).focus_request == advance_result(
                fields_of(old(self).type_key, old(self).cfg.pp_needs_target),
                old(self).focus_request,
                field,
                false,
                false,
            ).1,
            !(enter || tab) && !backtab ==> !create && final(self).focus_request == old(self).focus_request,
    {
        if enter || tab {
            self.advance(field, true, enter)
        } else if backtab {
            self.advance(field, false, false);
            false
        } else {
            false
        }
    }
}

// ---------------------------------------------------------------------------
// loading an event into the strip
// ---------------------------------------------------------------------------

/// What loading an event into the strip needs from outside it: the TM/HM
/// list, the trainer's location in the game data, the trainers the menus
/// then offer (those of the location and class picked, not yet beaten),
/// whether the item picked acts on one move, the mon's moves at the
/// insertion point, and the slot the route engine gives the move learned.
pub struct LoadFacts {
    pub machines: Vec<String>,
    pub trainer_location: Option<String>,
    pub trainers: Vec<String>,
    pub item_needs_target: bool,
    pub moves: Option<Vec<Option<String>>>,
    pub engine_slot: Option<i64>,
}

pub open spec fn facts_moves(f: LoadFacts) -> Option<Seq<Option<String>>> {
    match f.moves {
        Some(m) => Some(m@),
        None => None,
    }
}

/// A machine move whose source is the tutor is edited as a tutor move.
pub open spec fn tutor_draft(draft: EventDraft, words: MenuWords) -> bool {
    draft matches EventDraft::LearnMove(lm) && lm.source@ == words.source_tutor@
}

/// What `set_type` makes of the strip `a` for `key`.
pub open spec fn type_set(a: InlineEventCreator, b: InlineEventCreator, key: InlineKind, machines: Seq<Seq<char>>, words: MenuWords) -> bool {
    &&& a.type_key == Some(key) ==> b == a
    &&& a.type_key != Some(key) ==> exists|r: Refresh| type_reset(a, b, key, machines, words, r)
}

pub open spec fn machines_view_eq(a: Seq<Seq<char>>, b: Seq<Seq<char>>) -> bool {
    a == b
}

/// A stage of a load (names the intermediate strips in the contracts).
pub open spec fn stage(s: InlineEventCreator) -> bool {
    s.cfg.trainers.len() >= 0
}

pub open spec fn is_use_kind(key: InlineKind) -> bool {
    key == InlineKind::GetItem || key == InlineKind::BuyItem || key == InlineKind::SellItem || key
        == InlineKind::UseItem
}

/// The fields an event of type `key` loads into the strip `s0` (just set
/// to that type, `changed` when it was another before), giving `fin`: the
/// type's own fields from the event, the menus that follow from them
/// refreshed (where the type change or the event asks for it), and
/// nothing else touched. An event of another shape loads nothing.
pub open spec fn loaded_from(
    s0: InlineEventCreator,
    fin: InlineEventCreator,
    key: InlineKind,
    changed: bool,
    draft: EventDraft,
    facts: LoadFacts,
    words: MenuWords,
) -> bool {
    if key == InlineKind::Trainer {
        exists|s1: InlineEventCreator, s2: InlineEventCreator|
            #![trigger stage(s1), stage(s2)]
            {
                &&& s1.cfg.loc@ == (match (draft, facts.trainer_location) {
                    (EventDraft::Trainer(_), Some(l)) => if l@.len() > 0 && has_name(s0.locations.deep_view(), l@) {
                        l@
                    } else {
                        s0.cfg.loc@
                    },
                    _ => s0.cfg.loc@,
                })
                &&& s1 == (InlineEventCreator { cfg: InlineConfig { loc: s1.cfg.loc, ..s0.cfg }, ..s0 })
                &&& if changed || matches!(draft, EventDraft::Trainer(_)) {
                    trainers_refreshed(s1, s2, facts.trainers.deep_view(), words)
                } else {
                    s2 == s1
                }
                &&& fin.cfg.trainer@ == (match draft {
                    EventDraft::Trainer(t) => picked_if_listed(s2.cfg.trainers.deep_view(), t.trainer_name@, s2.cfg.trainer@),
                    _ => s2.cfg.trainer@,
                })
                &&& fin == (InlineEventCreator { cfg: InlineConfig { trainer: fin.cfg.trainer, ..s2.cfg }, ..s2 })
            }
    } else if is_use_kind(key) {
        exists|s1: InlineEventCreator|
            #![trigger stage(s1)]
            {
                &&& match draft {
                    EventDraft::Item(ie) => {
                        &&& s1.cfg.item@ == picked_if_listed(s0.cfg.items.deep_view(), ie.item_name@, s0.cfg.item@)
                        &&& s1.cfg.qty@ == int_text(ie.amount as int)
                        &&& s1.cfg.pp_tossed == ie.no_effect
                        &&& s1 == (InlineEventCreator {
                            cfg: InlineConfig { item: s1.cfg.item, qty: s1.cfg.qty, pp_tossed: s1.cfg.pp_tossed, ..s0.cfg },
                            ..s0
                        })
                    },
                    _ => s1 == s0,
                }
                &&& if changed || draft is Item {
                    pp_refreshed(
                        s1,
                        fin,
                        facts.item_needs_target,
                        facts_moves(facts),
                        match draft {
                            EventDraft::Item(ie) => ie.target_move,
                            _ => None,
                        },
                        words,
                    )
                } else {
                    fin == s1
                }
            }
    } else if key == InlineKind::HoldItem {
        exists|s1: InlineEventCreator|
            #![trigger stage(s1)]
            {
                &&& s1.cfg.item@ == (match draft {
                    EventDraft::Hold(h) => match h.item_name {
                        Some(n) => picked_if_listed(s0.cfg.items.deep_view(), n@, s0.cfg.item@),
                        None => s0.cfg.item@,
                    },
                    _ => s0.cfg.item@,
                })
                &&& s1 == (InlineEventCreator { cfg: InlineConfig { item: s1.cfg.item, ..s0.cfg }, ..s0 })
                &&& if changed {
                    pp_refreshed(s1, fin, facts.item_needs_target, facts_moves(facts), None, words)
                } else {
                    fin == s1
                }
            }
    } else if key == InlineKind::TmMove || key == InlineKind::TutorMove {
        exists|s1: InlineEventCreator, s2: InlineEventCreator|
            #![trigger stage(s1), stage(s2)]
            {
                &&& match draft {
                    EventDraft::LearnMove(lm) => if key == InlineKind::TmMove {
                        &&& s1.cfg.tm@ == picked_if_listed(s0.cfg.tms.deep_view(), lm.source@, s0.cfg.tm@)
                        &&& s1 == (InlineEventCreator { cfg: InlineConfig { tm: s1.cfg.tm, ..s0.cfg }, ..s0 })
                    } else {
                        &&& s1.cfg.mv@ == (match lm.move_name {
                            Some(m) => picked_if_listed(s0.all_moves.deep_view(), m@, s0.cfg.mv@),
                            None => s0.cfg.mv@,
                        })
                        &&& s1 == (InlineEventCreator { cfg: InlineConfig { mv: s1.cfg.mv, ..s0.cfg }, ..s0 })
                    },
                    _ => s1 == s0,
                }
                &&& if changed || draft is LearnMove {
                    dest_refreshed(s1, s2, facts_moves(facts), facts.engine_slot, words)
                } else {
                    s2 == s1
                }
                &&& match draft {
                    EventDraft::LearnMove(lm) => dest_picked(s2, fin, lm.destination),
                    _ => fin == s2,
                }
            }
    } else {
        match (key, draft) {
            (InlineKind::WildPkmn, EventDraft::Wild(w)) => {
                &&& fin.cfg.pkmn@ == picked_if_listed(s0.all_pkmn.deep_view(), w.name@, s0.cfg.pkmn@)
                &&& fin.cfg.level@ == int_text(w.level as int)
                &&& fin.cfg.qty@ == int_text(w.quantity as int)
                &&& fin == (InlineEventCreator {
                    cfg: InlineConfig { pkmn: fin.cfg.pkmn, level: fin.cfg.level, qty: fin.cfg.qty, ..s0.cfg },
                    ..s0
                })
            },
            (InlineKind::RareCandy, EventDraft::RareCandy(a)) => {
                &&& fin.cfg.qty@ == int_text(a as int)
                &&& fin == (InlineEventCreator { cfg: InlineConfig { qty: fin.cfg.qty, ..s0.cfg }, ..s0 })
            },
            (InlineKind::Vitamin, EventDraft::Vitamin { name, amount }) => {
                &&& fin.cfg.vitamin@ == picked_if_listed(s0.vitamins.deep_view(), name@, s0.cfg.vitamin@)
                &&& fin.cfg.qty@ == int_text(amount as int)
                &&& fin == (InlineEventCreator {
                    cfg: InlineConfig { vitamin: fin.cfg.vitamin, qty: fin.cfg.qty, ..s0.cfg },
                    ..s0
                })
            },
            (InlineKind::Notes, EventDraft::Notes(n)) => {
                &&& fin.cfg.note@ == n@
                &&& fin == (InlineEventCreator { cfg: InlineConfig { note: fin.cfg.note, ..s0.cfg }, ..s0 })
            },
            (InlineKind::ReorderBag, EventDraft::BagReorder(Some(o))) => {
                &&& fin.cfg.bag_order matches Some(v) && v.deep_view() == o.deep_view()
                &&& fin == (InlineEventCreator { cfg: InlineConfig { bag_order: fin.cfg.bag_order, ..s0.cfg }, ..s0 })
            },
            _ => fin == s0,
        }
    }
}

impl InlineEventCreator {
    /// Load an event into the strip: it takes the type of an event of kind
    /// `kind` being edited (a machine move taught by the tutor as a tutor
    /// move) and the event's fields (`draft`); an event the strip cannot
    /// edit leaves it as it is.
    pub fn load_event(&mut self, kind: EventKind, draft: &EventDraft, facts: &LoadFacts, words: &MenuWords)
        requires
            facts.moves matches Some(m) ==> m.len() <= isize::MAX,
        ensures
            match inline_kind_of(kind, tutor_draft(*draft, *words)) {
                None => *final(self) == *old(self),
                Some(key) => exists|s0: InlineEventCreator|
                    #![trigger stage(s0)]
                    type_set(*old(self), s0, key, facts.machines.deep_view(), *words) && loaded_from(
                        s0,
                        *final(self),
                        key,
                        old(self).type_key != Some(key),
                        *draft,
                        *facts,
                        *words,
                    ),
            },
    {
        let tutor = match draft {
            EventDraft::LearnMove(lm) => eq_str(&lm.source, words.source_tutor.as_str()),
            _ => false,
        };
        let key = match kind_for_event(kind, tutor) {
            Some(k) => k,
            None => return,
        };
        let changed = self.type_key != Some(key);
        assert(changed == (old(self).type_key != Some(key)));
        let machines = copy_names(&facts.machines);
        let ghost before = *self;
        let ghost mv = machines.deep_view();
        let r = self.set_type(key, machines, words);
        let ghost s0 = *self;
        proof {
            assert(stage(s0));
            if before.type_key != Some(key) {
                assert(type_reset(before, s0, key, mv, *words, r));
            }
            assert(type_set(before, s0, key, mv, *words));
        }
        match key {
            InlineKind::Trainer => {
                if let EventDraft::Trainer(_) = draft {
                    if let Some(l) = &facts.trainer_location {
                        self.load_trainer_location(l.as_str());
                    }
                }
                let ghost s1 = *self;
                if changed || matches!(draft, EventDraft::Trainer(_)) {
                    self.refresh_trainers(copy_names(&facts.trainers), words);
                }
                let ghost s2 = *self;
                if let EventDraft::Trainer(t) = draft {
                    self.select_trainer(t.trainer_name.as_str());
                }
                assert(loaded_from(s0, *self, key, changed, *draft, *facts, *words)) by {
                    assert(stage(s1));
                    assert(stage(s2));
                    assert(s1 == (InlineEventCreator { cfg: InlineConfig { loc: s1.cfg.loc, ..s0.cfg }, ..s0 }));
                    assert(*self == (InlineEventCreator { cfg: InlineConfig { trainer: self.cfg.trainer, ..s2.cfg }, ..s2 }));
                }
            },
            InlineKind::GetItem | InlineKind::BuyItem | InlineKind::SellItem | InlineKind::UseItem => {
                let mut keep: Option<String> = None;
                if let EventDraft::Item(ie) = draft {
                    self.load_item(ie.item_name.as_str(), ie.amount, ie.no_effect);
                    keep = ie.target_move.clone();
                }
                let ghost s1 = *self;
                if changed || matches!(draft, EventDraft::Item(_)) {
                    let moves = match &facts.moves {
                        Some(m) => Some(m),
                        None => None,
                    };
                    self.refresh_pp(facts.item_needs_target, moves, keep, words);
                }
                assert(loaded_from(s0, *self, key, changed, *draft, *facts, *words)) by {
                    assert(stage(s1));
                }
            },
            InlineKind::HoldItem => {
                if let EventDraft::Hold(h) = draft {
                    match &h.item_name {
                        Some(n) => self.load_hold(Some(n.as_str())),
                        None => {},
                    }
                }
                let ghost s1 = *self;
                if changed {
                    let moves = match &facts.moves {
                        Some(m) => Some(m),
                        None => None,
                    };
                    self.refresh_pp(facts.item_needs_target, moves, None, words);
                }
                assert(loaded_from(s0, *self, key, changed, *draft, *facts, *words)) by {
                    assert(stage(s1));
                    assert(s1 == (InlineEventCreator { cfg: InlineConfig { item: s1.cfg.item, ..s0.cfg }, ..s0 }));
                }
            },
            InlineKind::TmMove | InlineKind::TutorMove => {
                if let EventDraft::LearnMove(lm) = draft {
                    if key == InlineKind::TmMove {
                        self.load_machine(lm.source.as_str());
                    } else {
                        match &lm.move_name {
                            Some(m) => self.load_tutor(Some(m.as_str())),
                            None => {},
                        }
                    }
                }
                let ghost s1 = *self;
                if changed || matches!(draft, EventDraft::LearnMove(_)) {
                    let moves = match &facts.moves {
                        Some(m) => Some(m),
                        None => None,
                    };
                    self.refresh_dest(moves, facts.engine_slot, words);
                }
                let ghost s2 = *self;
                if let EventDraft::LearnMove(lm) = draft {
                    self.pick_destination(lm.destination);
                }
                assert(loaded_from(s0, *self, key, changed, *draft, *facts, *words)) by {
                    assert(stage(s1));
                    assert(stage(s2));
                }
            },
            InlineKind::WildPkmn => {
                if let EventDraft::Wild(w) = draft {
                    self.load_wild(w.name.as_str(), w.level, w.quantity);
                }
                assert(loaded_from(s0, *self, key, changed, *draft, *facts, *words));
            },
            InlineKind::RareCandy => {
                if let EventDraft::RareCandy(a) = draft {
                    self.load_amount(None, *a);
                }
                assert(loaded_from(s0, *self, key, changed, *draft, *facts, *words));
            },
            InlineKind::Vitamin => {
                if let EventDraft::Vitamin { name, amount } = draft {
                    self.load_amount(Some(name.as_str()), *amount);
                }
                assert(loaded_from(s0, *self, key, changed, *draft, *facts, *words));
            },
            InlineKind::Notes => {
                if let EventDraft::Notes(n) = draft {
                    self.load_note(n.as_str());
                }
                assert(loaded_from(s0, *self, key, changed, *draft, *facts, *words));
            },
            InlineKind::ReorderBag => {
                if let EventDraft::BagReorder(Some(o)) = draft {
                    self.load_bag_order(Some(copy_names(o)));
                }
                assert(loaded_from(s0, *self, key, changed, *draft, *facts, *words));
            },
            _ => {
                assert(loaded_from(s0, *self, key, changed, *draft, *facts, *words));
            },
        }
        proof {
            assert(tutor == tutor_draft(*draft, *words));
            assert(inline_kind_of(kind, tutor_draft(*draft, *words)) == Some(key));
            assert(machines_view_eq(mv, facts.machines.deep_view()));
            assert(type_set(*old(self), s0, key, facts.machines.deep_view(), *words));
            assert(loaded_from(s0, *self, key, old(self).type_key != Some(key), *draft, *facts, *words));
        }
    }
}

/// An amount loaded into the strip and built again is the same amount:
/// the field shows the number printed, and it reads back as that number.
pub proof fn law_loaded_amount_builds_back(a: i64)
    ensures
        field_value(int_text(a as int)) == Ok::<i64, Seq<char>>(a),
{
    crate::text::lemma_int_text_reads_back(a);
}

} // verus!
