//! What the event editors and the inline strip hand back to be saved: one
//! plain description per kind of event, with the fields the route engine
//! builds its definition from.

use vstd::prelude::*;

verus! {

/// A trainer fight: the trainer, and per enemy mon (in the trainer's own
/// order) its exp split and fight order, the Pay Day money and the mons
/// whose held item is stolen.
#[derive(Debug)]
pub struct TrainerDraft {
    pub trainer_name: String,
    /// the second trainer of a double battle, as the JSON text it was loaded with
    pub second_trainer: String,
    pub exp_split: Vec<i64>,
    pub mon_order: Vec<i64>,
    pub pay_day_amount: Option<i64>,
    pub thief_mons: Vec<i64>,
}

/// An item gained (`is_acquire`), bought or sold (`with_money`), or used.
#[derive(Debug)]
pub struct ItemDraft {
    pub item_name: String,
    pub amount: i64,
    pub is_acquire: bool,
    pub with_money: bool,
    /// the move a single-target PP item is used on
    pub target_move: Option<String>,
    /// the item was tossed rather than used
    pub no_effect: bool,
}

/// An item given to the mon to hold (`None`: take the held item off).
#[derive(Debug)]
pub struct HoldDraft {
    pub item_name: Option<String>,
    pub consumed: bool,
}

/// A wild fight.
#[derive(Debug)]
pub struct WildDraft {
    pub name: String,
    pub level: i64,
    pub quantity: i64,
    pub trainer_pkmn: bool,
}

/// The level a level-up move is learned at.
#[derive(Clone, Copy, Debug, PartialEq, Eq, Structural)]
pub enum MoveLevel {
    Any,
    At(i64),
}

/// A move learned (`move_name: None` deletes the move in the slot) into
/// `destination` (`None`: not learned), from a level-up, a tutor or a TM.
#[derive(Debug)]
pub struct LearnDraft {
    pub move_name: Option<String>,
    pub destination: Option<i64>,
    pub source: String,
    pub level: MoveLevel,
    pub mon: Option<String>,
}

/// One event to save.
#[derive(Debug)]
pub enum EventDraft {
    Trainer(TrainerDraft),
    Item(ItemDraft),
    Hold(HoldDraft),
    Wild(WildDraft),
    RareCandy(i64),
    Vitamin { name: String, amount: i64 },
    LearnMove(LearnDraft),
    Save(String),
    Heal(String),
    Blackout(String),
    Evolution { species: String, by_stone: Option<String> },
    /// the new bag order (`None`: the loaded reorder, unchanged)
    BagReorder(Option<Vec<String>>),
    EvOverride([i64; 6]),
    Notes(String),
    /// nothing to save for this kind
    Empty,
}

} // verus!
