//! The event details panel's decisions: which tab shows (Pre-Event State,
//! Battle Summary, Map) as events are selected, the notes footer's forced
//! fold, the delayed save of an edited event, and the header's label of the
//! selected event.

use vstd::prelude::*;

use crate::editors::NotesEditor;
use crate::text::{chars_of, starts_with_seq, starts_with_str};

verus! {

pub const PRE_STATE_TAB: usize = 0;

pub const BATTLE_SUMMARY_TAB: usize = 1;

pub const MAP_TAB: usize = 2;

/// How long an edit waits before it is saved, in milliseconds.
pub const SAVE_DELAY_MS: u64 = 2000;

/// How long the battle summary waits before it shows its contents after
/// its tab is opened, in milliseconds.
pub const REVEAL_DELAY_MS: u64 = 300;

/// `now + delay`, or the clock's end.
pub open spec fn later(now: u64, delay: u64) -> u64 {
    if now + delay <= u64::MAX {
        (now + delay) as u64
    } else {
        u64::MAX
    }
}

/// The panel's state. Times are on the caller's clock, in milliseconds;
/// events are named by their node ids.
pub struct DetailsPanel {
    pub tab: usize,
    pub auto_switch: bool,
    pub suppress_battle_summary: bool,
    pub ignore_tab_switching: bool,
    /// whether the shown event may be edited
    pub allow_updates: bool,
    /// the event whose edit waits to be saved, and when it is due
    pub delayed_event: Option<i64>,
    pub delayed_deadline: Option<u64>,
    /// when the battle summary shows its contents
    pub reveal_at: Option<u64>,
    pub notes: NotesEditor,
}

/// The notes footer is folded on the battle summary unless the settings
/// keep notes visible there.
pub open spec fn notes_folded(tab: usize, notes_in_battle: bool) -> bool {
    tab == BATTLE_SUMMARY_TAB && !notes_in_battle
}

/// `new` is `old` switched to the tab `tab` at time `now`: the battle
/// summary's contents are due after the reveal delay, and the notes fold
/// follows the tab.
pub open spec fn switched(old: DetailsPanel, new: DetailsPanel, tab: usize, notes_in_battle: bool, now: u64) -> bool {
    &&& new.tab == tab
    &&& new.reveal_at == (if tab == BATTLE_SUMMARY_TAB {
        Some(later(now, REVEAL_DELAY_MS))
    } else {
        old.reveal_at
    })
    &&& new.notes.forced_collapsed == notes_folded(tab, notes_in_battle)
    &&& new.notes.collapsed == old.notes.collapsed
    &&& new.notes.text == old.notes.text
    &&& new.notes.visibility == old.notes.visibility
    &&& new.notes.enabled == old.notes.enabled
    &&& new.auto_switch == old.auto_switch
    &&& new.suppress_battle_summary == old.suppress_battle_summary
    &&& new.ignore_tab_switching == old.ignore_tab_switching
    &&& new.allow_updates == old.allow_updates
    &&& new.delayed_event == old.delayed_event
    &&& new.delayed_deadline == old.delayed_deadline
}

/// The tab a selected event asks for after the record-mode step: the map
/// stays; a suppressed summary forces the state tab; with auto-switch (or
/// while tab switching is ignored) an event with a battle opens the
/// summary, and one without opens the state tab unless recording.
pub open spec fn event_tab(
    on_map: bool,
    suppress: bool,
    switching: bool,
    record_mode: bool,
    has_battle: bool,
) -> Option<usize> {
    if on_map {
        None
    } else if suppress {
        Some(PRE_STATE_TAB)
    } else if switching {
        if has_battle {
            Some(BATTLE_SUMMARY_TAB)
        } else if record_mode {
            None
        } else {
            Some(PRE_STATE_TAB)
        }
    } else {
        None
    }
}

/// The edit that is due at time `now`: the pending one, once its
/// deadline has passed.
pub open spec fn due_save(p: DetailsPanel, now: u64) -> Option<i64> {
    match (p.delayed_event, p.delayed_deadline) {
        (Some(id), Some(d)) => if now >= d {
            Some(id)
        } else {
            None
        },
        _ => None,
    }
}

/// An edit scheduled at `t0` is handed back to be saved by any tick from
/// the save delay on, and by none before.
pub proof fn law_scheduled_save_comes_due(p: DetailsPanel, id: i64, t0: u64, t1: u64)
    ensures
        ({
            let q = DetailsPanel { delayed_event: Some(id), delayed_deadline: Some(later(t0, SAVE_DELAY_MS)), ..p };
            &&& t1 >= later(t0, SAVE_DELAY_MS) ==> due_save(q, t1) == Some(id)
            &&& t1 < later(t0, SAVE_DELAY_MS) ==> due_save(q, t1) is None
        }),
{
}

impl DetailsPanel {
    /// The panel on the state tab, nothing pending.
    pub fn new(auto_switch: bool, notes: NotesEditor) -> (r: DetailsPanel)
        ensures
            r.tab == PRE_STATE_TAB,
            r.auto_switch == auto_switch,
            !r.suppress_battle_summary,
            !r.ignore_tab_switching,
            !r.allow_updates,
            r.delayed_event is None,
            r.delayed_deadline is None,
            r.reveal_at is None,
            r.notes == notes,
    {
        DetailsPanel {
            tab: PRE_STATE_TAB,
            auto_switch,
            suppress_battle_summary: false,
            ignore_tab_switching: false,
            allow_updates: false,
            delayed_event: None,
            delayed_deadline: None,
            reveal_at: None,
            notes,
        }
    }

    pub fn is_battle_tab(&self) -> (r: bool)
        ensures
            r == (self.tab == BATTLE_SUMMARY_TAB),
    {
        self.tab == BATTLE_SUMMARY_TAB
    }

    pub fn is_map_tab(&self) -> (r: bool)
        ensures
            r == (self.tab == MAP_TAB),
    {
        self.tab == MAP_TAB
    }

    /// The notes fold follows the tab.
    pub fn update_notes_visibility(&mut self, notes_in_battle: bool)
        ensures
            final(self).notes.forced_collapsed == notes_folded(old(self).tab, notes_in_battle),
            final(self).notes.collapsed == old(self).notes.collapsed,
            final(self).notes.text == old(self).notes.text,
            final(self).notes.visibility == old(self).notes.visibility,
            final(self).notes.enabled == old(self).notes.enabled,
            final(self).tab == old(self).tab,
            final(self).auto_switch == old(self).auto_switch,
            final(self).suppress_battle_summary == old(self).suppress_battle_summary,
            final(self).ignore_tab_switching == old(self).ignore_tab_switching,
            final(self).allow_updates == old(self).allow_updates,
            final(self).delayed_event == old(self).delayed_event,
            final(self).delayed_deadline == old(self).delayed_deadline,
            final(self).reveal_at == old(self).reveal_at,
    {
        let fold = self.is_battle_tab() && !notes_in_battle;
        self.notes.force_collapsed(fold);
    }

    /// The tab became `self.tab`: the summary's contents are due after the
    /// reveal delay, the notes fold follows. Returns whether the summary is
    /// now showing (the window hides its contents otherwise).
    fn tab_changed(&mut self, notes_in_battle: bool, now: u64) -> (to_battle: bool)
        ensures
            switched(*old(self), *final(self), old(self).tab, notes_in_battle, now),
            to_battle == (old(self).tab == BATTLE_SUMMARY_TAB),
    {
        let is_battle = self.is_battle_tab();
        if is_battle {
            self.reveal_at = Some(now.saturating_add(REVEAL_DELAY_MS));
        }
        self.update_notes_visibility(notes_in_battle);
        is_battle
    }

    /// Switch to the tab `tab`. Returns, when the tab changed, whether the
    /// battle summary is now showing.
    pub fn set_tab(&mut self, tab: usize, notes_in_battle: bool, now: u64) -> (changed: Option<bool>)
        ensures
            old(self).tab == tab ==> changed is None && *final(self) == *old(self),
            old(self).tab != tab ==> changed == Some(tab == BATTLE_SUMMARY_TAB) && switched(
                *old(self),
                *final(self),
                tab,
                notes_in_battle,
                now,
            ),
    {
        if self.tab == tab {
            return None;
        }
        self.tab = tab;
        let b = self.tab_changed(notes_in_battle, now);
        Some(b)
    }

    /// The tab shortcut: from the summary to the state tab, from any other
    /// tab to the summary.
    pub fn change_tabs(&mut self, notes_in_battle: bool, now: u64) -> (to_battle: bool)
        ensures
            to_battle == (old(self).tab != BATTLE_SUMMARY_TAB),
            switched(
                *old(self),
                *final(self),
                if old(self).tab == BATTLE_SUMMARY_TAB {
                    PRE_STATE_TAB
                } else {
                    BATTLE_SUMMARY_TAB
                },
                notes_in_battle,
                now,
            ),
    {
        self.tab = if self.tab == BATTLE_SUMMARY_TAB {
            PRE_STATE_TAB
        } else {
            BATTLE_SUMMARY_TAB
        };
        self.tab_changed(notes_in_battle, now)
    }

    /// Whether the battle summary is suppressed; suppressing it moves to
    /// the state tab.
    pub fn set_suppress_battle_summary(&mut self, suppress: bool, notes_in_battle: bool, now: u64) -> (changed: Option<bool>)
        ensures
            final(self).suppress_battle_summary == suppress,
            !suppress ==> changed is None && *final(self) == (DetailsPanel {
                suppress_battle_summary: suppress,
                ..*old(self)
            }),
            suppress && old(self).tab == PRE_STATE_TAB ==> changed is None && *final(self) == (DetailsPanel {
                suppress_battle_summary: suppress,
                ..*old(self)
            }),
            suppress && old(self).tab != PRE_STATE_TAB ==> changed == Some(false) && switched(
                (DetailsPanel { suppress_battle_summary: suppress, ..*old(self) }),
                *final(self),
                PRE_STATE_TAB,
                notes_in_battle,
                now,
            ),
    {
        self.suppress_battle_summary = suppress;
        if suppress {
            self.set_tab(PRE_STATE_TAB, notes_in_battle, now)
        } else {
            None
        }
    }

    /// An event was selected (or record mode changed). `event` is
    /// `Some(has_battle)` for a selected trainer, item or group event, and
    /// `None` for no selection or a folder. While recording, the summary
    /// opens first unless the map is showing; then the event's own tab.
    /// Returns the last tab change, if any: whether the summary is showing.
    pub fn select_event(&mut self, record_mode: bool, event: Option<bool>, notes_in_battle: bool, now: u64) -> (changed: Option<bool>)
        ensures
            ({
                let t1 = if record_mode && old(self).tab != MAP_TAB {
                    BATTLE_SUMMARY_TAB
                } else {
                    old(self).tab
                };
                let target = match event {
                    Some(has_battle) => event_tab(
                        old(self).tab == MAP_TAB,
                        old(self).suppress_battle_summary,
                        old(self).ignore_tab_switching || old(self).auto_switch,
                        record_mode,
                        has_battle,
                    ),
                    None => None,
                };
                let t2 = match target {
                    Some(t) => t,
                    None => t1,
                };
                let moved = t1 != old(self).tab || t2 != t1;
                &&& final(self).tab == t2
                &&& changed == (if t2 != t1 {
                    Some(t2 == BATTLE_SUMMARY_TAB)
                } else if t1 != old(self).tab {
                    Some(t1 == BATTLE_SUMMARY_TAB)
                } else {
                    None
                })
                &&& final(self).reveal_at == (if (t1 != old(self).tab && t1 == BATTLE_SUMMARY_TAB) || (t2 != t1 && t2
                    == BATTLE_SUMMARY_TAB) {
                    Some(later(now, REVEAL_DELAY_MS))
                } else {
                    old(self).reveal_at
                })
                &&& final(self).notes.forced_collapsed == (if moved {
                    notes_folded(t2, notes_in_battle)
                } else {
                    old(self).notes.forced_collapsed
                })
            }),
            final(self).notes.collapsed == old(self).notes.collapsed,
            final(self).notes.text == old(self).notes.text,
            final(self).notes.visibility == old(self).notes.visibility,
            final(self).notes.enabled == old(self).notes.enabled,
            final(self).auto_switch == old(self).auto_switch,
            final(self).suppress_battle_summary == old(self).suppress_battle_summary,
            final(self).ignore_tab_switching == old(self).ignore_tab_switching,
            final(self).allow_updates == old(self).allow_updates,
            final(self).delayed_event == old(self).delayed_event,
            final(self).delayed_deadline == old(self).delayed_deadline,
    {
        let on_map = self.tab == MAP_TAB;
        let mut changed: Option<bool> = None;
        if record_mode && !on_map {
            changed = self.set_tab(BATTLE_SUMMARY_TAB, notes_in_battle, now);
        }
        match event {
            Some(has_battle) => {
                let target = if on_map {
                    None
                } else if self.suppress_battle_summary {
                    Some(PRE_STATE_TAB)
                } else if self.ignore_tab_switching || self.auto_switch {
                    if has_battle {
                        Some(BATTLE_SUMMARY_TAB)
                    } else if record_mode {
                        None
                    } else {
                        Some(PRE_STATE_TAB)
                    }
                } else {
                    None
                };
                match target {
                    Some(t) => {
                        let c = self.set_tab(t, notes_in_battle, now);
                        if c.is_some() {
                            changed = c;
                        }
                    },
                    None => {},
                }
            },
            None => {},
        }
        changed
    }

    /// An event is shown: it may be edited when allowed and not recording;
    /// the notes are enabled.
    pub fn show_event(&mut self, allow_updates: bool, record_mode: bool)
        ensures
            final(self).allow_updates == (allow_updates && !record_mode),
            final(self).notes.enabled,
            final(self).notes.collapsed == old(self).notes.collapsed,
            final(self).notes.forced_collapsed == old(self).notes.forced_collapsed,
            final(self).notes.text == old(self).notes.text,
            final(self).notes.visibility == old(self).notes.visibility,
            final(self).tab == old(self).tab,
            final(self).auto_switch == old(self).auto_switch,
            final(self).suppress_battle_summary == old(self).suppress_battle_summary,
            final(self).ignore_tab_switching == old(self).ignore_tab_switching,
            final(self).delayed_event == old(self).delayed_event,
            final(self).delayed_deadline == old(self).delayed_deadline,
            final(self).reveal_at == old(self).reveal_at,
    {
        self.allow_updates = allow_updates && !record_mode;
        self.notes.set_enabled(true);
    }

    /// The edit of `to_save` is saved after the save delay. Returns whether
    /// another event's edit was pending (it is dropped).
    pub fn schedule_save(&mut self, to_save: Option<i64>, now: u64) -> (switched_event: bool)
        ensures
            switched_event == (match old(self).delayed_event {
                Some(cur) => Some(cur) != to_save,
                None => false,
            }),
            final(self).delayed_event == to_save,
            final(self).delayed_deadline == Some(later(now, SAVE_DELAY_MS)),
            *final(self) == (DetailsPanel {
                delayed_event: to_save,
                delayed_deadline: Some(later(now, SAVE_DELAY_MS)),
                ..*old(self)
            }),
    {
        let switched_event = match self.delayed_event {
            Some(cur) => match to_save {
                Some(t) => cur != t,
                None => true,
            },
            None => false,
        };
        self.delayed_event = to_save;
        self.delayed_deadline = Some(now.saturating_add(SAVE_DELAY_MS));
        switched_event
    }

    /// An event is about to be saved: the pending save is cleared. Returns
    /// the event to save.
    pub fn take_update(&mut self, event: Option<i64>) -> (r: Option<i64>)
        ensures
            r == event,
            event is None ==> *final(self) == *old(self),
            event is Some ==> *final(self) == (DetailsPanel {
                delayed_event: None,
                delayed_deadline: None,
                ..*old(self)
            }),
    {
        match event {
            Some(id) => {
                self.delayed_event = None;
                self.delayed_deadline = None;
                Some(id)
            },
            None => None,
        }
    }

    /// Save a pending edit now (before another event is shown or the route
    /// is saved). Returns the event to save.
    pub fn force_and_clear(&mut self) -> (r: Option<i64>)
        ensures
            r == old(self).delayed_event,
            old(self).delayed_event is None ==> *final(self) == *old(self),
            old(self).delayed_event is Some ==> *final(self) == (DetailsPanel {
                delayed_event: None,
                delayed_deadline: None,
                ..*old(self)
            }),
    {
        let pending = self.delayed_event;
        self.take_update(pending)
    }

    /// The panel's clock tick at time `now`: a pending edit that is due is
    /// handed back to be saved, and the battle summary's contents show once
    /// due (the second value; the notes fold is brought up to date then).
    pub fn tick(&mut self, now: u64, notes_in_battle: bool) -> (r: (Option<i64>, bool))
        ensures
            r.0 == due_save(*old(self), now),
            ({
                let due = due_save(*old(self), now) is Some;
                let due_show = match old(self).reveal_at {
                    Some(d) => now >= d,
                    None => false,
                };
                &&& r.1 == due_show
                &&& final(self).delayed_event == (if due {
                    None
                } else {
                    old(self).delayed_event
                })
                &&& final(self).delayed_deadline == (if due {
                    None
                } else {
                    old(self).delayed_deadline
                })
                &&& final(self).reveal_at == (if due_show {
                    None
                } else {
                    old(self).reveal_at
                })
                &&& final(self).notes.forced_collapsed == (if due_show {
                    notes_folded(old(self).tab, notes_in_battle)
                } else {
                    old(self).notes.forced_collapsed
                })
            }),
            final(self).notes.collapsed == old(self).notes.collapsed,
            final(self).notes.text == old(self).notes.text,
            final(self).notes.visibility == old(self).notes.visibility,
            final(self).notes.enabled == old(self).notes.enabled,
            final(self).tab == old(self).tab,
            final(self).auto_switch == old(self).auto_switch,
            final(self).suppress_battle_summary == old(self).suppress_battle_summary,
            final(self).ignore_tab_switching == old(self).ignore_tab_switching,
            final(self).allow_updates == old(self).allow_updates,
    {
        let mut save: Option<i64> = None;
        match (self.delayed_event, self.delayed_deadline) {
            (Some(id), Some(d)) => {
                if now >= d {
                    save = self.take_update(Some(id));
                }
            },
            _ => {},
        }
        let mut show = false;
        match self.reveal_at {
            Some(d) => {
                if now >= d {
                    self.reveal_at = None;
                    show = true;
                    self.update_notes_visibility(notes_in_battle);
                }
            },
            None => {},
        }
        (save, show)
    }

    /// How long until the next tick has work, when anything is pending.
    pub fn next_wake(&self, now: u64) -> (r: Option<u64>)
        ensures
            ({
                let a = match self.delayed_deadline {
                    Some(d) if now < d => Some((d - now) as u64),
                    _ => None,
                };
                let b = match self.reveal_at {
                    Some(d) if now < d => Some((d - now) as u64),
                    _ => None,
                };
                r == match (a, b) {
                    (Some(x), Some(y)) => Some(if x <= y {
                        x
                    } else {
                        y
                    }),
                    (Some(x), None) => Some(x),
                    (None, y) => y,
                }
            }),
    {
        let a = match self.delayed_deadline {
            Some(d) => {
                if now < d {
                    Some(d - now)
                } else {
                    None
                }
            },
            None => None,
        };
        let b = match self.reveal_at {
            Some(d) => {
                if now < d {
                    Some(d - now)
                } else {
                    None
                }
            },
            None => None,
        };
        match (a, b) {
            (Some(x), Some(y)) => Some(
                if x <= y {
                    x
                } else {
                    y
                },
            ),
            (Some(x), None) => Some(x),
            (None, y) => y,
        }
    }
}

/// Whether a selected event may be edited: a group always, an item only
/// when it learns a level-up move.
pub fn allows_updates(is_group: bool, learns_levelup_move: bool) -> (r: bool)
    ensures
        r == (is_group || learns_levelup_move),
{
    is_group || learns_levelup_move
}

/// The node whose battle the summary shows: an item that learns no move
/// shows its group's battle.
pub fn battle_node(id: i64, is_item: bool, learns_move: bool, parent: Option<i64>) -> (r: i64)
    ensures
        r == (if is_item && !learns_move {
            match parent {
                Some(p) => p,
                None => id,
            }
        } else {
            id
        }),
{
    if is_item && !learns_move {
        match parent {
            Some(p) => p,
            None => id,
        }
    } else {
        id
    }
}

/// The tabs the panel offers: the map only for games with a map pack.
pub fn tab_titles(has_map: bool) -> (r: Vec<&'static str>)
    ensures
        has_map ==> r@.len() == 3 && r@[2]@ == "Map"@,
        !has_map ==> r@.len() == 2,
        r@[0]@ == "Pre-Event State"@,
        r@[1]@ == "Battle Summary"@,
{
    if has_map {
        vec!["Pre-Event State", "Battle Summary", "Map"]
    } else {
        vec!["Pre-Event State", "Battle Summary"]
    }
}

// ---------------------------------------------------------------------------
// the header's label
// ---------------------------------------------------------------------------

pub open spec fn ends_with_seq(hay: Seq<char>, suffix: Seq<char>) -> bool {
    suffix.len() <= hay.len() && hay.subrange(hay.len() - suffix.len(), hay.len() as int) == suffix
}

/// A battle's label without its "Trainer: " or "Multi: " prefix.
pub open spec fn without_battle_prefix(label: Seq<char>) -> Seq<char> {
    if starts_with_seq(label, "Trainer: "@) {
        label.subrange(9, label.len() as int)
    } else if starts_with_seq(label, "Multi: "@) {
        label.subrange(7, label.len() as int)
    } else {
        label
    }
}

/// `label` without the suffix ` (location)`, when it ends so.
pub open spec fn without_location(label: Seq<char>, location: Seq<char>) -> Seq<char> {
    let suffix = " ("@ + location + ")"@;
    if ends_with_seq(label, suffix) {
        label.subrange(0, label.len() - suffix.len())
    } else {
        label
    }
}

/// The header's label and location of a selected event: a battle's label
/// loses its prefix and, when the trainer has a location, the location in
/// brackets, which becomes the location; otherwise the enclosing folder.
pub open spec fn before_info_spec(
    label: Seq<char>,
    battle: bool,
    trainer_location: Option<Seq<char>>,
    folder: Option<Seq<char>>,
) -> (Seq<char>, Option<Seq<char>>) {
    if battle {
        let l = without_battle_prefix(label);
        match trainer_location {
            Some(loc) if loc.len() > 0 => (without_location(l, loc), Some(loc)),
            _ => (l, folder),
        }
    } else {
        (label, folder)
    }
}

/// `hay` ends with `suffix`.
fn ends_with_str(hay: &str, suffix: &str) -> (r: bool)
    ensures
        r == ends_with_seq(hay@, suffix@),
{
    let h = chars_of(hay);
    let s = chars_of(suffix);
    if s.len() > h.len() {
        return false;
    }
    let start = h.len() - s.len();
    let mut k: usize = 0;
    while k < s.len()
        invariant
            h@ == hay@,
            s@ == suffix@,
            start + s.len() == h.len(),
            k <= s.len(),
            forall|t: int| 0 <= t < k ==> h@[start + t] == #[trigger] s@[t],
        decreases s.len() - k,
    {
        if h[start + k] != s[k] {
            assert(hay@.subrange(start as int, hay@.len() as int)[k as int] != suffix@[k as int]);
            return false;
        }
        k = k + 1;
    }
    assert(hay@.subrange(start as int, hay@.len() as int) =~= suffix@);
    true
}

/// The header's label and location of a selected event.
pub fn before_info(label: &str, battle: bool, trainer_location: Option<&str>, folder: Option<String>) -> (r: (
    String,
    Option<String>,
))
    ensures
        (r.0@, match r.1 {
            Some(s) => Some(s@),
            None => None,
        }) == before_info_spec(
            label@,
            battle,
            match trainer_location {
                Some(s) => Some(s@),
                None => None,
            },
            match folder {
                Some(s) => Some(s@),
                None => None,
            },
        ),
{
    if !battle {
        return (String::from_str(label), folder);
    }
    proof {
        reveal_strlit("Trainer: ");
        reveal_strlit("Multi: ");
    }
    let n = label.unicode_len();
    let l: String = if starts_with_str(label, "Trainer: ") {
        String::from_str(label.substring_char(9, n))
    } else if starts_with_str(label, "Multi: ") {
        String::from_str(label.substring_char(7, n))
    } else {
        String::from_str(label)
    };
    match trainer_location {
        Some(loc) => {
            if loc.unicode_len() > 0 {
                let mut suffix = String::from_str(" (");
                suffix.append(loc);
                suffix.append(")");
                let shown = if ends_with_str(l.as_str(), suffix.as_str()) {
                    let m = l.unicode_len();
                    String::from_str(l.as_str().substring_char(0, m - suffix.unicode_len()))
                } else {
                    l
                };
                (shown, Some(String::from_str(loc)))
            } else {
                (l, folder)
            }
        },
        None => (l, folder),
    }
}

/// What a route node is.
#[derive(Clone, Copy, Debug, PartialEq, Eq, Structural)]
pub enum NodeKind {
    Folder,
    Group,
    Item,
}

/// Where the battle summary's team comes from.
#[derive(Clone, Copy, Debug, PartialEq, Eq, Structural)]
pub enum TeamSource {
    /// no team
    Empty,
    /// the fight group's own event
    FromEvent,
    /// the node's state before it, against the event's mons (`wild` for a
    /// wild encounter)
    FromState { wild: bool },
}

/// The team the battle summary loads for a node: a
/// trainer fight from its group's event, a lone fight item or a wild
/// encounter from the state before it (a wild one only with mons), else
/// none. `kind` is `None` for a node the route no longer holds;
/// `has_def` whether its event could be read.
pub fn team_source(
    kind: Option<NodeKind>,
    has_def: bool,
    has_trainer: bool,
    has_wild: bool,
    has_init: bool,
    wild_mons: usize,
) -> (r: TeamSource)
    ensures
        r == (if kind is None || !has_def {
            TeamSource::Empty
        } else if has_trainer {
            if kind == Some(NodeKind::Group) {
                TeamSource::FromEvent
            } else if has_init {
                TeamSource::FromState { wild: false }
            } else {
                TeamSource::Empty
            }
        } else if has_wild && has_init && wild_mons > 0 {
            TeamSource::FromState { wild: true }
        } else {
            TeamSource::Empty
        }),
{
    if kind.is_none() || !has_def {
        return TeamSource::Empty;
    }
    if has_trainer {
        match kind {
            Some(NodeKind::Group) => TeamSource::FromEvent,
            _ => if has_init {
                TeamSource::FromState { wild: false }
            } else {
                TeamSource::Empty
            },
        }
    } else if has_wild && has_init && wild_mons > 0 {
        TeamSource::FromState { wild: true }
    } else {
        TeamSource::Empty
    }
}

/// The warnings shown above the selected event's editor: a group's list, an
/// item's one message when it has one, nothing for a folder.
pub fn warnings_of(kind: Option<NodeKind>, group_warnings: Vec<String>, item_warning: Option<String>) -> (r: Vec<String>)
    ensures
        r@ == match kind {
            Some(NodeKind::Group) => group_warnings@,
            Some(NodeKind::Item) => match item_warning {
                Some(w) => seq![w],
                None => Seq::empty(),
            },
            _ => Seq::empty(),
        },
{
    match kind {
        Some(NodeKind::Group) => group_warnings,
        Some(NodeKind::Item) => match item_warning {
            Some(w) => {
                let mut v: Vec<String> = Vec::new();
                v.push(w);
                v
            },
            None => Vec::new(),
        },
        _ => Vec::new(),
    }
}

} // verus!
