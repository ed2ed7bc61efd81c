//! The quick-start panel ("Start Recording"): what it says in each phase of
//! the game connection, and which ways out it offers.

use vstd::prelude::*;

use crate::text::{decimal_digits, u64_text};

verus! {

/// Where the quick start stands. The species and level are those of the
/// Pokémon in the first party slot; `Done` carries the route's summary.
pub enum QuickStartPhase {
    Connecting(String),
    NoMapper,
    UnsupportedGame(String),
    WaitingForNewGame { species: String, level: u64 },
    WaitingForStarter,
    Settling { species: String, level: u64 },
    Done(String),
    Failed(String),
}

/// The colour a message is shown in.
#[derive(Clone, Copy, Debug, PartialEq, Eq, Structural)]
pub enum Tone {
    Plain,
    Good,
    Alarm,
}

pub open spec fn no_mapper_text() -> Seq<char> {
    "GameHook is connected but has no mapper loaded.\nOpen your game in the emulator and load its mapper in GameHook / Poke-A-Byte; the router picks it up automatically."@
}

pub open spec fn waiting_for_starter_text() -> Seq<char> {
    "Waiting for you to receive your first Pokémon...\nThe route takes its species, DVs/IVs, nature and ability from the game."@
}

pub open spec fn unsupported_text(name: Seq<char>) -> Seq<char> {
    "The loaded mapper ('"@ + name
        + "') is not a game the router supports.\nLoad the mapper of a supported game, then retry."@
}

pub open spec fn new_game_text(species: Seq<char>, level: u64) -> Seq<char> {
    "Party slot 1 already holds "@ + species + " (Lv "@ + decimal_digits(level as nat)
        + ").\nStart a new game: the route is set up, and recording begins, the moment you receive your first Pokémon."@
}

pub open spec fn settling_text(species: Seq<char>, level: u64) -> Seq<char> {
    "Received "@ + species + " (Lv "@ + decimal_digits(level as nat) + ")! Reading its stats..."@
}

pub open spec fn done_text(summary: Seq<char>) -> Seq<char> {
    "Creating the route: "@ + summary
}

impl QuickStartPhase {
    /// The spinner turns while the quick start is still working: in every
    /// phase but a failure and an unsupported game.
    pub open spec fn busy_spec(&self) -> bool {
        !(self is Failed || self is UnsupportedGame)
    }

    /// "Retry / Reload Mapper" is offered while connecting, without a
    /// mapper, for an unsupported game and after a failure.
    pub open spec fn retry_spec(&self) -> bool {
        self is Connecting || self is NoMapper || self is UnsupportedGame || self is Failed
    }

    /// The panel's message for this phase and its colour.
    pub open spec fn message_spec(&self) -> (Seq<char>, Tone) {
        match self {
            QuickStartPhase::Connecting(msg) => (msg@, Tone::Plain),
            QuickStartPhase::NoMapper => (no_mapper_text(), Tone::Plain),
            QuickStartPhase::UnsupportedGame(name) => (unsupported_text(name@), Tone::Alarm),
            QuickStartPhase::WaitingForNewGame { species, level } => (
                new_game_text(species@, *level),
                Tone::Plain,
            ),
            QuickStartPhase::WaitingForStarter => (waiting_for_starter_text(), Tone::Plain),
            QuickStartPhase::Settling { species, level } => (settling_text(species@, *level), Tone::Good),
            QuickStartPhase::Done(summary) => (done_text(summary@), Tone::Good),
            QuickStartPhase::Failed(msg) => (msg@, Tone::Alarm),
        }
    }

    pub fn busy(&self) -> (r: bool)
        ensures
            r == self.busy_spec(),
    {
        match self {
            QuickStartPhase::Failed(_) | QuickStartPhase::UnsupportedGame(_) => false,
            _ => true,
        }
    }

    pub fn offers_retry(&self) -> (r: bool)
        ensures
            r == self.retry_spec(),
    {
        match self {
            QuickStartPhase::Connecting(_) | QuickStartPhase::NoMapper | QuickStartPhase::UnsupportedGame(_)
            | QuickStartPhase::Failed(_) => true,
            _ => false,
        }
    }

    /// The panel's message and its colour.
    pub fn message(&self) -> (r: (String, Tone))
        ensures
            (r.0@, r.1) == self.message_spec(),
    {
        match self {
            QuickStartPhase::Connecting(msg) => (msg.clone(), Tone::Plain),
            QuickStartPhase::NoMapper => (
                String::from_str(
                    "GameHook is connected but has no mapper loaded.\nOpen your game in the emulator and load its mapper in GameHook / Poke-A-Byte; the router picks it up automatically.",
                ),
                Tone::Plain,
            ),
            QuickStartPhase::UnsupportedGame(name) => {
                let mut m = String::from_str("The loaded mapper ('");
                m.append(name.as_str());
                m.append("') is not a game the router supports.\nLoad the mapper of a supported game, then retry.");
                (m, Tone::Alarm)
            },
            QuickStartPhase::WaitingForNewGame { species, level } => {
                let mut m = String::from_str("Party slot 1 already holds ");
                m.append(species.as_str());
                m.append(" (Lv ");
                let n = u64_text(*level);
                m.append(n.as_str());
                m.append(
                    ").\nStart a new game: the route is set up, and recording begins, the moment you receive your first Pokémon.",
                );
                (m, Tone::Plain)
            },
            QuickStartPhase::WaitingForStarter => (
                String::from_str(
                    "Waiting for you to receive your first Pokémon...\nThe route takes its species, DVs/IVs, nature and ability from the game.",
                ),
                Tone::Plain,
            ),
            QuickStartPhase::Settling { species, level } => {
                let mut m = String::from_str("Received ");
                m.append(species.as_str());
                m.append(" (Lv ");
                let n = u64_text(*level);
                m.append(n.as_str());
                m.append(")! Reading its stats...");
                (m, Tone::Good)
            },
            QuickStartPhase::Done(summary) => {
                let mut m = String::from_str("Creating the route: ");
                m.append(summary.as_str());
                (m, Tone::Good)
            },
            QuickStartPhase::Failed(msg) => (msg.clone(), Tone::Alarm),
        }
    }

    /// The label of the button that takes the Pokémon already in the
    /// party, offered only while waiting for a new game.
    pub fn use_current_label(&self) -> (r: Option<String>)
        ensures
            match self {
                QuickStartPhase::WaitingForNewGame { species, .. } => r matches Some(l) && l@ == "Use this "@
                    + species@ + " instead"@,
                _ => r is None,
            },
    {
        match self {
            QuickStartPhase::WaitingForNewGame { species, .. } => {
                let mut l = String::from_str("Use this ");
                l.append(species.as_str());
                l.append(" instead");
                Some(l)
            },
            _ => None,
        }
    }
}

/// The line naming the game the mapper serves and the route version; a
/// sibling game that shares the data set is named too.
pub open spec fn game_line_spec(mapper: Seq<char>, version: Seq<char>, sibling: Option<Seq<char>>) -> Seq<char> {
    match sibling {
        None => "Game: "@ + mapper + "   (route version: "@ + version + ")"@,
        Some(other) => "Game: "@ + mapper + "   (route version: "@ + version + " — the mapper serves "@ + other
            + " too; both share one data set)"@,
    }
}

pub fn game_line(mapper: &str, version: &str, sibling: Option<&str>) -> (r: String)
    ensures
        r@ == game_line_spec(
            mapper@,
            version@,
            match sibling {
                Some(o) => Some(o@),
                None => None,
            },
        ),
{
    let mut l = String::from_str("Game: ");
    l.append(mapper);
    l.append("   (route version: ");
    l.append(version);
    match sibling {
        None => {
            l.append(")");
        },
        Some(other) => {
            l.append(" — the mapper serves ");
            l.append(other);
            l.append(" too; both share one data set)");
        },
    }
    l
}

/// The footer naming the GameHook address.
pub fn gamehook_line(url: &str) -> (r: String)
    ensures
        r@ == "GameHook: "@ + url@,
{
    let mut l = String::from_str("GameHook: ");
    l.append(url);
    l
}

} // verus!
