//! The event editors of the details panel: each holds its widgets' state,
//! is loaded from an event and hands back an `EventDraft`. What they
//! report to the panel after a frame is an `EditorOutput`.

use vstd::prelude::*;

use crate::event_draft::{EventDraft, HoldDraft, ItemDraft, LearnDraft, MoveLevel, TrainerDraft};
use crate::event_kind::EventKind;
use crate::names::{filter_names, filtered_names, keep_within, names_within, or_sentinel, with_sentinel};
use crate::option_menu::{contains_name, has_name, OptionMenu};
use crate::text::{
    chars_of, digit_value, eq_str, i128_text, i64_text, int_text, invalid_int_error, invalid_int_message,
    is_digit, parse_i64, parse_i64_spec, trim, trim_seq,
};

verus! {

/// The sentinel entries the menus show, as the route engine names them.
pub struct MenuWords {
    /// the item menu's "no item" entry
    pub no_item: String,
    /// the trainer menu's entry when no trainer is left
    pub no_trainers: String,
    /// the location and class menus' "every trainer" entry
    pub all_trainers: String,
    /// the tutor menu's entry that deletes the move in the slot
    pub delete_move: String,
    /// the destination menu's entry for a move that is not learned
    pub dont_learn: String,
    /// the species menu's prefix of a "no match" entry
    pub no_pokemon: String,
    /// the move sources: a level-up, a tutor, a TM or HM
    pub source_levelup: String,
    pub source_tutor: String,
    pub source_tm_hm: String,
    /// the item that levels the mon up
    pub rare_candy: String,
    /// the PP move menu's entry for "no particular move"
    pub pp_target_none: String,
}

/// What an editor's frame reported to the panel.
#[derive(Clone, Copy, Debug, Default, PartialEq, Eq, Structural)]
pub struct EditorOutput {
    pub save: bool,
    pub delayed_save: bool,
    /// the title strip's "Map" button was clicked
    pub show_on_map: bool,
}

/// Two reports of one frame taken together: whatever either asked for.
pub open spec fn merged(a: EditorOutput, b: EditorOutput) -> EditorOutput {
    EditorOutput {
        save: a.save || b.save,
        delayed_save: a.delayed_save || b.delayed_save,
        show_on_map: a.show_on_map || b.show_on_map,
    }
}

impl EditorOutput {
    /// Save now.
    pub fn save() -> (r: EditorOutput)
        ensures
            r == (EditorOutput { save: true, delayed_save: false, show_on_map: false }),
    {
        EditorOutput { save: true, delayed_save: false, show_on_map: false }
    }

    /// Save after the typing pauses.
    pub fn delayed() -> (r: EditorOutput)
        ensures
            r == (EditorOutput { save: false, delayed_save: true, show_on_map: false }),
    {
        EditorOutput { save: false, delayed_save: true, show_on_map: false }
    }

    pub fn merge(&mut self, o: EditorOutput)
        ensures
            *final(self) == merged(*old(self), o),
    {
        self.save = self.save || o.save;
        self.delayed_save = self.delayed_save || o.delayed_save;
        self.show_on_map = self.show_on_map || o.show_on_map;
    }
}

/// Reports merge in any order and any grouping, a report merged twice
/// counts once, and the empty report changes nothing.
pub proof fn law_merge_is_a_join(a: EditorOutput, b: EditorOutput, c: EditorOutput)
    ensures
        merged(a, b) == merged(b, a),
        merged(merged(a, b), c) == merged(a, merged(b, c)),
        merged(a, a) == a,
        merged(a, EditorOutput { save: false, delayed_save: false, show_on_map: false }) == a,
{
}

/// `Move #N (Over X)`: a destination menu entry.
pub open spec fn slot_entry(idx: int, over: Seq<char>) -> Seq<char> {
    "Move #"@ + int_text(idx) + " (Over "@ + over + ")"@
}

pub fn slot_template(idx: i64, over: &str) -> (r: String)
    ensures
        r@ == slot_entry(idx as int, over@),
{
    let mut r = String::from_str("Move #");
    r.append(i64_text(idx).as_str());
    r.append(" (Over ");
    r.append(over);
    r.append(")");
    r
}

/// What follows the first `#` of `s`, if it has one.
pub open spec fn after_first_hash(s: Seq<char>) -> Option<Seq<char>>
    decreases s.len(),
{
    if s.len() == 0 {
        None
    } else if s[0] == '#' {
        Some(s.drop_first())
    } else {
        after_first_hash(s.drop_first())
    }
}

/// The digit right after the first `#` of a destination entry.
pub open spec fn slot_digit(s: Seq<char>) -> Option<int> {
    match after_first_hash(s) {
        Some(t) => if t.len() > 0 && is_digit(t[0]) {
            Some(digit_value(t[0]))
        } else {
            None
        },
        None => None,
    }
}

/// The digit after the first `#` of `text`.
pub fn slot_digit_of(text: &str) -> (r: Option<i64>)
    ensures
        match r {
            Some(d) => slot_digit(text@) == Some(d as int),
            None => slot_digit(text@) is None,
        },
{
    let cs = chars_of(text);
    let n = cs.len();
    let mut i: usize = 0;
    assert(text@.subrange(0, n as int) =~= text@);
    while i < n
        invariant
            cs@ == text@,
            n == cs.len(),
            i <= n,
            after_first_hash(text@) == after_first_hash(text@.subrange(i as int, n as int)),
        decreases n - i,
    {
        let ghost rest = text@.subrange(i as int, n as int);
        assert(rest.drop_first() =~= text@.subrange(i + 1, n as int));
        if cs[i] == '#' {
            assert(after_first_hash(rest) == Some(rest.drop_first()));
            if i + 1 < n {
                let c = cs[i + 1];
                assert(rest.drop_first()[0] == c);
                let cv: u32 = c as u32;
                if 48 <= cv && cv <= 57 {
                    let d: i64 = (cv - 48) as i64;
                    return Some(d);
                }
            }
            return None;
        }
        i = i + 1;
    }
    assert(text@.subrange(n as int, n as int).len() == 0);
    None
}

/// The slot a destination entry names (`None`: not learned), or the error
/// when the entry names none.
pub open spec fn destination_of(text: Seq<char>, dont_learn: Seq<char>) -> Result<Option<int>, Seq<char>> {
    if text == dont_learn {
        Ok(None)
    } else {
        match slot_digit(text) {
            Some(d) => Ok(Some(d - 1)),
            None => Err(
                "Failed to extract slot destination from string '"@ + text + "'"@,
            ),
        }
    }
}

/// The learn-move editor's reading of its destination menu.
pub fn slot_destination(text: &str, dont_learn: &str) -> (r: Result<Option<i64>, String>)
    ensures
        match r {
            Ok(Some(d)) => destination_of(text@, dont_learn@) == Ok::<Option<int>, Seq<char>>(
                Some(d as int),
            ),
            Ok(None) => destination_of(text@, dont_learn@) == Ok::<Option<int>, Seq<char>>(None),
            Err(e) => destination_of(text@, dont_learn@) == Err::<Option<int>, Seq<char>>(e@),
        },
{
    let owned = String::from_str(text);
    if eq_str(&owned, dont_learn) {
        return Ok(None);
    }
    match slot_digit_of(text) {
        Some(d) => Ok(Some(d - 1)),
        None => {
            let mut e = String::from_str("Failed to extract slot destination from string '");
            e.append(text);
            e.append("'");
            Err(e)
        },
    }
}

/// The inline strip's reading of its destination menu: a slot, `None`
/// when not learned, and the first slot when the entry names none.
pub open spec fn inline_destination(text: Seq<char>, dont_learn: Seq<char>) -> Option<int> {
    if text == dont_learn {
        None
    } else {
        match slot_digit(text) {
            Some(d) => Some(d - 1),
            None => Some(0),
        }
    }
}

pub fn parse_dest(text: &str, dont_learn: &str) -> (r: Option<i64>)
    ensures
        match r {
            Some(d) => inline_destination(text@, dont_learn@) == Some(d as int),
            None => inline_destination(text@, dont_learn@) is None,
        },
{
    let owned = String::from_str(text);
    if eq_str(&owned, dont_learn) {
        return None;
    }
    match slot_digit_of(text) {
        Some(d) => Some(d - 1),
        None => Some(0),
    }
}

/// The EV fields an override shows: gen 1 and 2 have one Special stat, so
/// the Sp. Def field (index 4) is hidden.
pub fn ev_field_indices(single_special: bool) -> (r: Vec<usize>)
    ensures
        r@ == (if single_special {
            seq![0usize, 1, 2, 3, 5]
        } else {
            seq![0usize, 1, 2, 3, 4, 5]
        }),
{
    if single_special {
        vec![0, 1, 2, 3, 5]
    } else {
        vec![0, 1, 2, 3, 4, 5]
    }
}

/// `s.trim().parse::<i64>()`, with the field's error message.
pub fn parse_field(raw: &str) -> (r: Result<i64, String>)
    ensures
        match r {
            Ok(v) => parse_i64_spec(trim_seq(raw@)) == Some(v),
            Err(e) => parse_i64_spec(trim_seq(raw@)) is None && e@ == invalid_int_message(raw@),
        },
{
    let t = trim(raw);
    match parse_i64(t.as_str()) {
        Some(v) => Ok(v),
        None => Err(invalid_int_error(raw)),
    }
}

/// What a field's text reads as, or its error message.
pub open spec fn field_value(raw: Seq<char>) -> Result<i64, Seq<char>> {
    match parse_i64_spec(trim_seq(raw)) {
        Some(v) => Ok(v),
        None => Err(invalid_int_message(raw)),
    }
}

/// The EV override editor: six stat fields (five in gen 1 and 2, where
/// Special stands for both special stats) and the values before the event.
pub struct EvOverrideEditor {
    pub values: Vec<String>,
    pub before: Option<[i64; 6]>,
    pub single_special: bool,
}

/// The six values an override reads from its fields: each field's number,
/// with Sp. Def copying Special in gen 1 and 2; the first bad field's
/// message otherwise.
pub open spec fn override_values(values: Seq<Seq<char>>, single_special: bool) -> Result<Seq<i64>, Seq<char>>
    recommends
        values.len() == 6,
{
    match first_bad_field(values, 6) {
        Some(i) => Err(invalid_int_message(values[i])),
        None => {
            let v = Seq::new(6, |i: int| parse_i64_spec(trim_seq(values[i]))->0);
            Ok(if single_special { v.update(4, v[3]) } else { v })
        },
    }
}

/// The first of the fields `0..n` that is not a number.
pub open spec fn first_bad_field(values: Seq<Seq<char>>, n: int) -> Option<int>
    decreases n,
{
    if n <= 0 {
        None
    } else {
        match first_bad_field(values, n - 1) {
            Some(i) => Some(i),
            None => if parse_i64_spec(trim_seq(values[n - 1])) is None {
                Some(n - 1)
            } else {
                None
            },
        }
    }
}

impl EvOverrideEditor {
    pub open spec fn texts(&self) -> Seq<Seq<char>> {
        self.values.deep_view()
    }

    /// Load an override: its own values, else the mon's before the event,
    /// else zeros.
    pub fn load_event(single_special: bool, before: Option<[i64; 6]>, loaded: Option<[i64; 6]>) -> (r: EvOverrideEditor)
        ensures
            r.single_special == single_special,
            r.before == before,
            r.values.len() == 6,
            forall|i: int|
                #![trigger r.texts()[i]]
                0 <= i < 6 ==> r.texts()[i] == int_text(
                    match (loaded, before) {
                        (Some(l), _) => l[i] as int,
                        (None, Some(b)) => b[i] as int,
                        (None, None) => 0,
                    },
                ),
    {
        let vals: [i64; 6] = match (loaded, before) {
            (Some(l), _) => l,
            (None, Some(b)) => b,
            (None, None) => [0, 0, 0, 0, 0, 0],
        };
        let mut values: Vec<String> = Vec::new();
        let mut i: usize = 0;
        while i < 6
            invariant
                i <= 6,
                values.len() == i,
                vals == (match (loaded, before) {
                    (Some(l), _) => l,
                    (None, Some(b)) => b,
                    (None, None) => [0i64, 0, 0, 0, 0, 0],
                }),
                forall|j: int| #![trigger values@[j]] 0 <= j < i ==> values@[j]@ == int_text(vals[j] as int),
            decreases 6 - i,
        {
            values.push(i64_text(vals[i]));
            i = i + 1;
        }
        EvOverrideEditor { values, before, single_special }
    }

    /// "Use current": the fields take the values before the event.
    pub fn use_current(&mut self) -> (used: bool)
        requires
            old(self).values.len() == 6,
        ensures
            used == old(self).before is Some,
            final(self).before == old(self).before,
            final(self).single_special == old(self).single_special,
            final(self).values.len() == 6,
            forall|i: int|
                #![trigger final(self).texts()[i]]
                0 <= i < 6 ==> final(self).texts()[i] == match old(self).before {
                    Some(b) => int_text(b[i] as int),
                    None => old(self).texts()[i],
                },
    {
        match self.before {
            None => false,
            Some(b) => {
                let mut i: usize = 0;
                while i < 6
                    invariant
                        i <= 6,
                        self.values.len() == 6,
                        self.before == Some(b),
                        self.single_special == old(self).single_special,
                        old(self).before == Some(b),
                        forall|j: int|
                            #![trigger self.values@[j]]
                            0 <= j < i ==> self.values@[j]@ == int_text(b[j] as int),
                        forall|j: int|
                            #![trigger self.values@[j]]
                            i <= j < 6 ==> self.values@[j] == old(self).values@[j],
                    decreases 6 - i,
                {
                    self.values.set(i, i64_text(b[i]));
                    i = i + 1;
                }
                true
            },
        }
    }

    /// The six values the fields read as.
    pub fn parsed(&self) -> (r: Result<[i64; 6], String>)
        requires
            self.values.len() == 6,
        ensures
            match r {
                Ok(v) => override_values(self.texts(), self.single_special) == Ok::<Seq<i64>, Seq<char>>(
                    v@,
                ),
                Err(e) => override_values(self.texts(), self.single_special) == Err::<Seq<i64>, Seq<char>>(
                    e@,
                ),
            },
    {
        let mut out: [i64; 6] = [0, 0, 0, 0, 0, 0];
        let mut i: usize = 0;
        while i < 6
            invariant
                i <= 6,
                self.values.len() == 6,
                first_bad_field(self.texts(), i as int) is None,
                forall|j: int|
                    0 <= j < i ==> parse_i64_spec(trim_seq(self.texts()[j])) == Some(#[trigger] out@[j]),
            decreases 6 - i,
        {
            match parse_field(self.values[i].as_str()) {
                Ok(v) => {
                    out[i] = v;
                },
                Err(e) => {
                    assert(first_bad_field(self.texts(), i + 1) == Some(i as int));
                    proof {
                        lemma_first_bad_field_stays(self.texts(), i + 1, 6);
                    }
                    return Err(e);
                },
            }
            i = i + 1;
        }
        if self.single_special {
            out[4] = out[3];
        }
        proof {
            let v = Seq::new(6, |j: int| parse_i64_spec(trim_seq(self.texts()[j]))->0);
            if self.single_special {
                assert(out@ =~= v.update(4, v[3]));
            } else {
                assert(out@ =~= v);
            }
        }
        Ok(out)
    }

    /// The event the editor describes.
    pub fn get_event(&self) -> (r: Result<EventDraft, String>)
        requires
            self.values.len() == 6,
        ensures
            match r {
                Ok(EventDraft::EvOverride(v)) => override_values(self.texts(), self.single_special)
                    == Ok::<Seq<i64>, Seq<char>>(v@),
                Ok(_) => false,
                Err(e) => override_values(self.texts(), self.single_special) == Err::<Seq<i64>, Seq<char>>(
                    e@,
                ),
            },
    {
        match self.parsed() {
            Ok(v) => Ok(EventDraft::EvOverride(v)),
            Err(e) => Err(e),
        }
    }
}

/// Once a field is bad, the first bad field stays the same however many
/// fields follow.
proof fn lemma_first_bad_field_stays(values: Seq<Seq<char>>, m: int, n: int)
    requires
        0 <= m <= n,
        first_bad_field(values, m) is Some,
    ensures
        first_bad_field(values, n) == first_bad_field(values, m),
    decreases n - m,
{
    if n > m {
        lemma_first_bad_field_stays(values, m, n - 1);
    }
}


// ---------------------------------------------------------------------------
// notes
// ---------------------------------------------------------------------------

/// The notes visibility menu, and the setting each entry stands for.
pub open spec fn notes_options_spec() -> Seq<Seq<char>> {
    seq!["Show when space allows"@, "Show at all times"@, "Never show"@]
}

pub open spec fn notes_modes_spec() -> Seq<Seq<char>> {
    seq!["when_space_allows"@, "always"@, "never"@]
}

pub fn notes_options() -> (r: Vec<String>)
    ensures
        r.deep_view() == notes_options_spec(),
{
    let r = vec![
        String::from_str("Show when space allows"),
        String::from_str("Show at all times"),
        String::from_str("Never show"),
    ];
    assert(r.deep_view() =~= notes_options_spec());
    r
}

/// The setting an entry of the menu stands for; an unknown entry reads as
/// the first.
pub open spec fn notes_mode_of(opt: Seq<char>) -> Seq<char> {
    if opt == notes_options_spec()[1] {
        notes_modes_spec()[1]
    } else if opt == notes_options_spec()[2] {
        notes_modes_spec()[2]
    } else {
        notes_modes_spec()[0]
    }
}

/// The entry that shows a setting; an unknown setting shows as the first.
pub open spec fn notes_option_of(mode: Seq<char>) -> Seq<char> {
    if mode == notes_modes_spec()[1] {
        notes_options_spec()[1]
    } else if mode == notes_modes_spec()[2] {
        notes_options_spec()[2]
    } else {
        notes_options_spec()[0]
    }
}

pub fn notes_mode_for_option(opt: &str) -> (r: &'static str)
    ensures
        r@ == notes_mode_of(opt@),
{
    let o = String::from_str(opt);
    if eq_str(&o, "Show at all times") {
        "always"
    } else if eq_str(&o, "Never show") {
        "never"
    } else {
        "when_space_allows"
    }
}

pub fn notes_option_for_mode(mode: &str) -> (r: &'static str)
    ensures
        r@ == notes_option_of(mode@),
{
    let m = String::from_str(mode);
    if eq_str(&m, "always") {
        "Show at all times"
    } else if eq_str(&m, "never") {
        "Never show"
    } else {
        "Show when space allows"
    }
}

/// Each entry of the menu and each setting map to each other: going from
/// an entry to its setting and back gives the entry, and from a setting to
/// its entry and back gives the setting.
pub proof fn law_notes_mode_round_trip(i: int)
    requires
        0 <= i < 3,
    ensures
        notes_option_of(notes_mode_of(notes_options_spec()[i])) == notes_options_spec()[i],
        notes_mode_of(notes_option_of(notes_modes_spec()[i])) == notes_modes_spec()[i],
{
    reveal_strlit("Show when space allows");
    reveal_strlit("Show at all times");
    reveal_strlit("Never show");
    reveal_strlit("when_space_allows");
    reveal_strlit("always");
    reveal_strlit("never");
    assert(notes_options_spec()[0][5] != notes_options_spec()[1][5]);
    assert(notes_options_spec()[0][0] != notes_options_spec()[2][0]);
    assert(notes_options_spec()[1] != notes_options_spec()[2]);
    assert(notes_modes_spec()[0][0] != notes_modes_spec()[1][0]);
    assert(notes_modes_spec()[0][0] != notes_modes_spec()[2][0]);
    assert(notes_modes_spec()[1][0] != notes_modes_spec()[2][0]);
}

/// The notes pane under the details: its text, whether it is folded (by
/// the user, or forced while the panel is short of room) and the
/// visibility menu.
pub struct NotesEditor {
    pub text: String,
    pub collapsed: bool,
    pub forced_collapsed: bool,
    pub visibility: OptionMenu,
    pub enabled: bool,
}

impl NotesEditor {
    /// A pane folded as the settings say, its menu showing `mode`.
    pub fn new(collapsed: bool, mode: &str) -> (r: NotesEditor)
        ensures
            r.text@ == Seq::<char>::empty(),
            r.collapsed == collapsed,
            !r.forced_collapsed,
            r.enabled,
            r.visibility.names() == notes_options_spec(),
            r.visibility.current@ == notes_option_of(mode@),
    {
        let opt = notes_option_for_mode(mode);
        let visibility = OptionMenu::new(notes_options(), Some(opt));
        proof {
            reveal_strlit("Show when space allows");
            reveal_strlit("Show at all times");
            reveal_strlit("Never show");
            assert(notes_options_spec()[0] == "Show when space allows"@);
            assert(has_name(notes_options_spec(), notes_option_of(mode@))) by {
                if mode@ == notes_modes_spec()[1] {
                    assert(notes_options_spec()[1] == notes_option_of(mode@));
                } else if mode@ == notes_modes_spec()[2] {
                    assert(notes_options_spec()[2] == notes_option_of(mode@));
                } else {
                    assert(notes_options_spec()[0] == notes_option_of(mode@));
                }
            }
        }
        NotesEditor { text: String::new(), collapsed, forced_collapsed: false, visibility, enabled: true }
    }

    pub fn force_collapsed(&mut self, collapsed: bool)
        ensures
            final(self).forced_collapsed == collapsed,
            final(self).collapsed == old(self).collapsed,
            final(self).text == old(self).text,
            final(self).visibility == old(self).visibility,
            final(self).enabled == old(self).enabled,
    {
        self.forced_collapsed = collapsed;
    }

    pub fn set_enabled(&mut self, e: bool)
        ensures
            final(self).enabled == e,
            final(self).collapsed == old(self).collapsed,
            final(self).forced_collapsed == old(self).forced_collapsed,
            final(self).text == old(self).text,
            final(self).visibility == old(self).visibility,
    {
        self.enabled = e;
    }

    /// Unfolded unless the user or the panel folded it.
    pub fn is_expanded(&self) -> (r: bool)
        ensures
            r == !(self.collapsed || self.forced_collapsed),
    {
        !(self.collapsed || self.forced_collapsed)
    }

    pub fn set_collapsed(&mut self, collapsed: bool)
        ensures
            final(self).collapsed == collapsed,
            final(self).forced_collapsed == old(self).forced_collapsed,
            final(self).text == old(self).text,
            final(self).visibility == old(self).visibility,
            final(self).enabled == old(self).enabled,
    {
        self.collapsed = collapsed;
    }

    /// A click on the header: the fold flips and the forced fold is lifted;
    /// returns the new fold for the settings.
    pub fn toggle_collapsed(&mut self) -> (r: bool)
        ensures
            r == !old(self).collapsed,
            final(self).collapsed == r,
            !final(self).forced_collapsed,
            final(self).text == old(self).text,
            final(self).visibility == old(self).visibility,
            final(self).enabled == old(self).enabled,
    {
        self.collapsed = !self.collapsed;
        self.forced_collapsed = false;
        self.collapsed
    }

    /// Show an event's notes (`None`: no event) and the menu for `mode`.
    pub fn load_event(&mut self, notes: Option<&str>, mode: &str)
        requires
            old(self).visibility.names() == notes_options_spec(),
        ensures
            final(self).text@ == match notes {
                Some(n) => n@,
                None => Seq::<char>::empty(),
            },
            final(self).visibility.names() == notes_options_spec(),
            final(self).visibility.current@ == notes_option_of(mode@),
            final(self).collapsed == old(self).collapsed,
            final(self).forced_collapsed == old(self).forced_collapsed,
            final(self).enabled == old(self).enabled,
    {
        self.text = match notes {
            Some(n) => String::from_str(n),
            None => String::new(),
        };
        let opt = notes_option_for_mode(mode);
        self.visibility.set(opt);
        proof {
            reveal_strlit("Show when space allows");
            reveal_strlit("Show at all times");
            reveal_strlit("Never show");
            assert(has_name(notes_options_spec(), notes_option_of(mode@))) by {
                if mode@ == notes_modes_spec()[1] {
                    assert(notes_options_spec()[1] == notes_option_of(mode@));
                } else if mode@ == notes_modes_spec()[2] {
                    assert(notes_options_spec()[2] == notes_option_of(mode@));
                } else {
                    assert(notes_options_spec()[0] == notes_option_of(mode@));
                }
            }
        }
    }

    /// The user picked `opt` in the visibility menu; returns the setting
    /// the menu now shows.
    pub fn pick_visibility(&mut self, opt: &str) -> (r: &'static str)
        ensures
            final(self).visibility.names() == old(self).visibility.names(),
            final(self).visibility.current@ == (if has_name(old(self).visibility.names(), opt@) {
                opt@
            } else {
                old(self).visibility.current@
            }),
            r@ == notes_mode_of(final(self).visibility.current@),
            final(self).text == old(self).text,
            final(self).collapsed == old(self).collapsed,
            final(self).forced_collapsed == old(self).forced_collapsed,
    {
        self.visibility.set(opt);
        notes_mode_for_option(self.visibility.get())
    }

    /// The notes as saved: the text, trimmed.
    pub fn get_event(&self) -> (r: EventDraft)
        ensures
            r matches EventDraft::Notes(t) && t@ == trim_seq(self.text@),
    {
        EventDraft::Notes(trim(self.text.as_str()))
    }
}

// ---------------------------------------------------------------------------
// vitamin, rare candy, wild fight
// ---------------------------------------------------------------------------

/// Whether an amount field holds a positive number (an edit that saves).
pub open spec fn positive_amount(raw: Seq<char>) -> bool {
    parse_i64_spec(trim_seq(raw)) matches Some(v) && v > 0
}

pub fn amount_ready(raw: &str) -> (r: bool)
    ensures
        r == positive_amount(raw@),
{
    match parse_field(raw) {
        Ok(v) => v > 0,
        Err(_) => false,
    }
}

/// The vitamin editor: which vitamin (or EV berry), and how many.
pub struct VitaminEditor {
    pub vitamin_types: OptionMenu,
    pub amount: String,
}

impl VitaminEditor {
    pub fn new() -> (r: VitaminEditor)
        ensures
            r.vitamin_types.names().len() == 0,
            r.amount@ == Seq::<char>::empty(),
    {
        VitaminEditor { vitamin_types: OptionMenu::default(), amount: String::new() }
    }

    /// The menu lists `names` (the vitamins, then the EV berries).
    pub fn configure(&mut self, names: Vec<String>)
        ensures
            final(self).vitamin_types.names() == names.deep_view(),
            final(self).amount == old(self).amount,
    {
        self.vitamin_types.new_values(names, None);
    }

    pub fn load_event(&mut self, vitamin: &str, amount: i64)
        ensures
            final(self).vitamin_types.names() == old(self).vitamin_types.names(),
            final(self).vitamin_types.current@ == (if has_name(old(self).vitamin_types.names(), vitamin@) {
                vitamin@
            } else {
                old(self).vitamin_types.current@
            }),
            final(self).amount@ == int_text(amount as int),
    {
        self.vitamin_types.set(vitamin);
        self.amount = i64_text(amount);
    }

    pub fn get_event(&self) -> (r: Result<EventDraft, String>)
        ensures
            match r {
                Ok(EventDraft::Vitamin { name, amount }) => name@ == self.vitamin_types.current@
                    && field_value(self.amount@) == Ok::<i64, Seq<char>>(amount),
                Ok(_) => false,
                Err(e) => field_value(self.amount@) == Err::<i64, Seq<char>>(e@),
            },
    {
        let amount = parse_field(self.amount.as_str())?;
        Ok(EventDraft::Vitamin { name: self.vitamin_types.current.clone(), amount })
    }
}

/// The rare candy editor: how many.
pub struct RareCandyEditor {
    pub amount: String,
}

impl RareCandyEditor {
    pub fn load_event(amount: i64) -> (r: RareCandyEditor)
        ensures
            r.amount@ == int_text(amount as int),
    {
        RareCandyEditor { amount: i64_text(amount) }
    }

    pub fn get_event(&self) -> (r: Result<EventDraft, String>)
        ensures
            match r {
                Ok(EventDraft::RareCandy(amount)) => field_value(self.amount@) == Ok::<i64, Seq<char>>(amount),
                Ok(_) => false,
                Err(e) => field_value(self.amount@) == Err::<i64, Seq<char>>(e@),
            },
    {
        let amount = parse_field(self.amount.as_str())?;
        Ok(EventDraft::RareCandy(amount))
    }
}

/// Whether a wild fight can be saved: a level from 2 to 100, at least one
/// mon, and a species rather than the "no match" entry.
pub open spec fn wild_valid(level: Seq<char>, quantity: Seq<char>, species: Seq<char>, no_pokemon: Seq<char>) -> bool {
    &&& parse_i64_spec(trim_seq(level)) matches Some(l) && 2 <= l <= 100
    &&& parse_i64_spec(trim_seq(quantity)) matches Some(q) && q >= 1
    &&& !crate::text::starts_with_seq(trim_seq(species), no_pokemon)
}

/// The wild fight editor.
pub struct WildPkmnEditor {
    pub pkmn_types: OptionMenu,
    pub pkmn_filter: String,
    pub level: String,
    pub quantity: String,
    pub trainer_flag: bool,
}

impl WildPkmnEditor {
    pub fn new() -> (r: WildPkmnEditor)
        ensures
            r.pkmn_types.names().len() == 0,
            r.pkmn_types.current@.len() == 0,
            r.pkmn_filter@.len() == 0,
            r.level@.len() == 0,
            r.quantity@.len() == 0,
            !r.trainer_flag,
    {
        WildPkmnEditor {
            pkmn_types: OptionMenu::default(),
            pkmn_filter: String::new(),
            level: String::new(),
            quantity: String::new(),
            trainer_flag: false,
        }
    }

    /// A new wild fight: level 1, one mon, not a trainer's; the species
    /// menu is filled with `all_names` the first time.
    pub fn configure(&mut self, all_names: Vec<String>)
        ensures
            final(self).pkmn_types.names() == (if old(self).pkmn_types.names().len() == 0 {
                all_names.deep_view()
            } else {
                old(self).pkmn_types.names()
            }),
            final(self).pkmn_filter@ == Seq::<char>::empty(),
            final(self).level@ == "1"@,
            final(self).quantity@ == "1"@,
            !final(self).trainer_flag,
    {
        if self.pkmn_types.options.len() == 0 {
            self.pkmn_types.new_values(all_names, None);
        }
        self.pkmn_filter = String::new();
        self.level = String::from_str("1");
        self.quantity = String::from_str("1");
        self.trainer_flag = false;
    }

    pub fn load_event(&mut self, all_names: Vec<String>, name: &str, level: i64, quantity: i64, trainer_pkmn: bool)
        ensures
            final(self).pkmn_types.names() == all_names.deep_view(),
            has_name(all_names.deep_view(), name@) ==> final(self).pkmn_types.current@ == name@,
            final(self).pkmn_filter@ == Seq::<char>::empty(),
            final(self).level@ == int_text(level as int),
            final(self).quantity@ == int_text(quantity as int),
            final(self).trainer_flag == trainer_pkmn,
    {
        self.pkmn_filter = String::new();
        self.pkmn_types.new_values(all_names, None);
        self.level = i64_text(level);
        self.pkmn_types.set(name);
        self.quantity = i64_text(quantity);
        self.trainer_flag = trainer_pkmn;
    }

    /// The species filter changed: the menu lists what matched.
    pub fn filter_changed(&mut self, matched: Vec<String>)
        ensures
            final(self).pkmn_types.names() == matched.deep_view(),
            final(self).level == old(self).level,
            final(self).quantity == old(self).quantity,
    {
        self.pkmn_types.new_values(matched, None);
    }

    pub fn valid(&self, no_pokemon: &str) -> (r: bool)
        ensures
            r == wild_valid(self.level@, self.quantity@, self.pkmn_types.current@, no_pokemon@),
    {
        let level_ok = match parse_field(self.level.as_str()) {
            Ok(l) => 2 <= l && l <= 100,
            Err(_) => false,
        };
        let qty_ok = match parse_field(self.quantity.as_str()) {
            Ok(q) => q >= 1,
            Err(_) => false,
        };
        let species = trim(self.pkmn_types.current.as_str());
        level_ok && qty_ok && !crate::text::starts_with_str(species.as_str(), no_pokemon)
    }

    pub fn get_event(&self) -> (r: Result<EventDraft, String>)
        ensures
            match r {
                Ok(EventDraft::Wild(w)) => w.name@ == self.pkmn_types.current@ && field_value(self.level@)
                    == Ok::<i64, Seq<char>>(w.level) && field_value(self.quantity@) == Ok::<i64, Seq<char>>(
                    w.quantity,
                ) && w.trainer_pkmn == self.trainer_flag,
                Ok(_) => false,
                Err(e) => match field_value(self.level@) {
                    Err(le) => e@ == le,
                    Ok(_) => field_value(self.quantity@) == Err::<i64, Seq<char>>(e@),
                },
            },
    {
        let level = parse_field(self.level.as_str())?;
        let quantity = parse_field(self.quantity.as_str())?;
        Ok(
            EventDraft::Wild(
                crate::event_draft::WildDraft {
                    name: self.pkmn_types.current.clone(),
                    level,
                    quantity,
                    trainer_pkmn: self.trainer_flag,
                },
            ),
        )
    }
}


// ---------------------------------------------------------------------------
// inventory
// ---------------------------------------------------------------------------

/// The item editor for gaining, buying, using, selling and holding items.
pub struct InventoryEventEditor {
    /// the kind of item event being edited (`None` until one is set)
    pub event_kind: Option<EventKind>,
    /// the event type's name as the route engine spells it (empty until a
    /// type is set); a refused `get_event` names it
    pub event_type: String,
    /// a held item may be "None" (nothing held)
    pub allow_none_item: bool,
    pub item_type: OptionMenu,
    pub mart: OptionMenu,
    pub item_filter: String,
    pub item_selector: OptionMenu,
    pub amount: String,
    pub cost_label: String,
    pub consume_held: bool,
    pub hold_nothing: bool,
}

/// Whether the item editor edits events of this kind.
pub open spec fn is_item_kind(kind: EventKind) -> bool {
    kind == EventKind::GetFreeItem || kind == EventKind::PurchaseItem || kind == EventKind::UseItem
        || kind == EventKind::SellItem || kind == EventKind::HoldItem
}

/// The cost line of a purchase or sale: the price times the amount.
pub open spec fn cost_line(kind: EventKind, buy: int, sell: int, amount: int) -> Option<Seq<char>> {
    if kind == EventKind::PurchaseItem {
        Some("Total Cost: "@ + int_text(buy * amount))
    } else if kind == EventKind::SellItem {
        Some("Total Profit: "@ + int_text(sell * amount))
    } else {
        None
    }
}

/// The event an item editor describes for `kind`.
pub open spec fn item_event(kind: EventKind, name: Seq<char>, amount: Result<i64, Seq<char>>, hold_nothing: bool, consumed: bool) -> Result<(Seq<char>, i64, bool, bool), Seq<char>> {
    match amount {
        Ok(a) => if kind == EventKind::GetFreeItem {
            Ok((name, a, true, false))
        } else if kind == EventKind::PurchaseItem {
            Ok((name, a, true, true))
        } else if kind == EventKind::UseItem {
            Ok((name, a, false, false))
        } else {
            Ok((name, a, false, true))
        },
        Err(e) => Err(e),
    }
}

impl InventoryEventEditor {
    pub fn new() -> (r: InventoryEventEditor)
        ensures
            r.event_kind is None,
            r.event_type@.len() == 0,
            !r.allow_none_item,
            r.item_type.names().len() == 0,
            r.item_type.current@.len() == 0,
            r.mart.names().len() == 0,
            r.mart.current@.len() == 0,
            r.item_filter@.len() == 0,
            r.item_selector.names().len() == 0,
            r.item_selector.current@.len() == 0,
            r.amount@.len() == 0,
            r.cost_label@.len() == 0,
            !r.consume_held,
            !r.hold_nothing,
    {
        InventoryEventEditor {
            event_kind: None,
            event_type: String::new(),
            allow_none_item: false,
            item_type: OptionMenu::default(),
            mart: OptionMenu::default(),
            item_filter: String::new(),
            item_selector: OptionMenu::default(),
            amount: String::new(),
            cost_label: String::new(),
            consume_held: false,
            hold_nothing: false,
        }
    }

    /// Edit events of `kind`, named `name` by the route engine; only the
    /// item kinds are taken, a held item may be none.
    pub fn set_event_type(&mut self, kind: EventKind, name: &str) -> (r: bool)
        ensures
            r == is_item_kind(kind),
            r ==> final(self).event_kind == Some(kind) && final(self).allow_none_item == (kind
                == EventKind::HoldItem) && final(self).event_type@ == name@,
            !r ==> final(self).event_kind == old(self).event_kind && final(self).allow_none_item
                == old(self).allow_none_item && final(self).event_type == old(self).event_type,
            final(self).item_selector == old(self).item_selector,
            final(self).item_type == old(self).item_type,
            final(self).mart == old(self).mart,
            final(self).item_filter == old(self).item_filter,
            final(self).amount == old(self).amount,
            final(self).cost_label == old(self).cost_label,
            final(self).consume_held == old(self).consume_held,
            final(self).hold_nothing == old(self).hold_nothing,
    {
        match kind {
            EventKind::GetFreeItem | EventKind::PurchaseItem | EventKind::UseItem | EventKind::SellItem => {
                self.event_kind = Some(kind);
                self.event_type = String::from_str(name);
                self.allow_none_item = false;
                true
            },
            EventKind::HoldItem => {
                self.event_kind = Some(kind);
                self.event_type = String::from_str(name);
                self.allow_none_item = true;
                true
            },
            _ => false,
        }
    }

    /// The menus' lists: the item types (once), the marts after "all
    /// items", and every item name (once).
    pub fn init_menus(&mut self, item_types: Vec<String>, all_items: &str, marts: Vec<String>, item_names: Vec<String>)
        ensures
            final(self).item_type.names() == (if old(self).item_type.names().len() == 0 {
                item_types.deep_view()
            } else {
                old(self).item_type.names()
            }),
            final(self).mart.names() == seq![all_items@] + marts.deep_view(),
            final(self).item_selector.names() == (if old(self).item_selector.names().len() == 0 {
                item_names.deep_view()
            } else {
                old(self).item_selector.names()
            }),
            final(self).event_kind == old(self).event_kind,
            final(self).event_type == old(self).event_type,
            final(self).amount == old(self).amount,
    {
        if self.item_type.options.len() == 0 {
            self.item_type.new_values(item_types, None);
        }
        let mut opts: Vec<String> = vec![String::from_str(all_items)];
        let mut i: usize = 0;
        let ghost first = opts.deep_view();
        while i < marts.len()
            invariant
                i <= marts.len(),
                first == seq![all_items@],
                opts.deep_view() == first + marts.deep_view().subrange(0, i as int),
            decreases marts.len() - i,
        {
            let ghost before = opts.deep_view();
            opts.push(marts[i].clone());
            proof {
                assert(opts.deep_view() =~= before.push(marts.deep_view()[i as int]));
                assert(before.push(marts.deep_view()[i as int]) =~= first + marts.deep_view().subrange(0, i + 1));
            }
            i = i + 1;
        }
        assert(marts.deep_view().subrange(0, marts.len() as int) =~= marts.deep_view());
        assert(first =~= seq![all_items@]);
        self.mart.new_values(opts, None);
        if self.item_selector.options.len() == 0 {
            self.item_selector.new_values(item_names, None);
        }
    }

    /// A new item event of `kind`: no filter, every type and mart, one item.
    pub fn configure(&mut self, kind: EventKind, name: &str, all_items: &str)
        ensures
            final(self).item_filter@ == Seq::<char>::empty(),
            final(self).amount@ == "1"@,
            has_name(old(self).mart.names(), all_items@) ==> final(self).mart.current@ == all_items@,
            has_name(old(self).item_type.names(), all_items@) ==> final(self).item_type.current@
                == all_items@,
            is_item_kind(kind) ==> final(self).event_kind == Some(kind) && final(self).event_type@ == name@,
    {
        self.item_filter = String::new();
        self.mart.set(all_items);
        self.item_type.set(all_items);
        self.amount = String::from_str("1");
        self.set_event_type(kind, name);
    }

    /// The item list to ask the item database for: the chosen type (all
    /// items for the backpack, which is narrowed afterwards) and the mart.
    pub fn item_query(&self, all_items: &str, backpack_items: &str) -> (r: (String, bool))
        ensures
            r.1 == (self.item_type.current@ == backpack_items@),
            r.0@ == (if r.1 { all_items@ } else { self.item_type.current@ }),
    {
        if eq_str(&self.item_type.current, backpack_items) {
            (String::from_str(all_items), true)
        } else {
            (self.item_type.current.clone(), false)
        }
    }

    /// Fill the item menu: `candidates` from the database, narrowed to
    /// the bag's items when `backpack` is asked for (none without a route
    /// state), then by the filter box; the sentinel when nothing is left.
    pub fn narrow_items(&mut self, candidates: Vec<String>, backpack: Option<&Vec<String>>, backpack_filter: bool, no_item: &str)
        ensures
            final(self).item_selector.names() == or_sentinel(
                filtered_names(
                    if backpack_filter {
                        match backpack {
                            Some(b) => names_within(candidates.deep_view(), b.deep_view()),
                            None => Seq::empty(),
                        }
                    } else {
                        candidates.deep_view()
                    },
                    old(self).item_filter@,
                ),
                if old(self).allow_none_item { "None"@ } else { no_item@ },
            ),
            final(self).item_filter == old(self).item_filter,
            final(self).event_kind == old(self).event_kind,
            final(self).event_type == old(self).event_type,
            final(self).allow_none_item == old(self).allow_none_item,
            final(self).amount == old(self).amount,
    {
        let base: Vec<String> = if backpack_filter {
            match backpack {
                Some(b) => keep_within(&candidates, b),
                None => {
                    let e: Vec<String> = Vec::new();
                    assert(e.deep_view() =~= Seq::<Seq<char>>::empty());
                    e
                },
            }
        } else {
            candidates
        };
        let kept = filter_names(base, self.item_filter.as_str());
        let sentinel: &str = if self.allow_none_item { "None" } else { no_item };
        let list = with_sentinel(kept, sentinel);
        self.item_selector.new_values(list, None);
    }

    /// After the item or the amount changed: the cost line of a purchase or
    /// sale, from the item's buying and selling prices (`None`: the item is
    /// unknown). Returns whether the edit is a valid one to save.
    pub fn update_cost(&mut self, prices: Option<(i64, i64)>) -> (r: bool)
        ensures
            r == (parse_i64_spec(trim_seq(old(self).amount@)) is Some && prices is Some),
            final(self).cost_label@ == (match (parse_i64_spec(trim_seq(old(self).amount@)), prices, old(
                self,
            ).event_kind) {
                (Some(a), Some((buy, sell)), Some(k)) => match cost_line(k, buy as int, sell as int, a as int) {
                    Some(line) => line,
                    None => old(self).cost_label@,
                },
                _ => old(self).cost_label@,
            }),
            final(self).item_selector == old(self).item_selector,
            final(self).amount == old(self).amount,
            final(self).event_kind == old(self).event_kind,
            final(self).event_type == old(self).event_type,
    {
        let amt = match parse_field(self.amount.as_str()) {
            Ok(a) => a,
            Err(_) => {
                return false;
            },
        };
        let (buy, sell) = match prices {
            Some(p) => p,
            None => {
                return false;
            },
        };
        match self.event_kind {
            Some(EventKind::PurchaseItem) => {
                assert(-0x8000_0000_0000_0000_0000_0000_0000_0000 <= (buy as i128) * (amt as i128)
                    <= 0x7fff_ffff_ffff_ffff_ffff_ffff_ffff_ffff) by (nonlinear_arith)
                    requires
                        i64::MIN <= buy <= i64::MAX,
                        i64::MIN <= amt <= i64::MAX,
                ;
                let total: i128 = (buy as i128) * (amt as i128);
                let mut line = String::from_str("Total Cost: ");
                line.append(i128_text(total).as_str());
                self.cost_label = line;
            },
            Some(EventKind::SellItem) => {
                assert(-0x8000_0000_0000_0000_0000_0000_0000_0000 <= (sell as i128) * (amt as i128)
                    <= 0x7fff_ffff_ffff_ffff_ffff_ffff_ffff_ffff) by (nonlinear_arith)
                    requires
                        i64::MIN <= sell <= i64::MAX,
                        i64::MIN <= amt <= i64::MAX,
                ;
                let total: i128 = (sell as i128) * (amt as i128);
                let mut line = String::from_str("Total Profit: ");
                line.append(i128_text(total).as_str());
                self.cost_label = line;
            },
            _ => {},
        }
        true
    }

    /// Load a gained, bought, used or sold item.
    pub fn load_item(&mut self, item_name: &str, amount: i64)
        ensures
            final(self).item_selector.names() == old(self).item_selector.names(),
            has_name(old(self).item_selector.names(), item_name@) ==> final(self).item_selector.current@
                == item_name@,
            final(self).amount@ == int_text(amount as int),
            final(self).event_kind == old(self).event_kind,
            final(self).event_type == old(self).event_type,
    {
        self.item_selector.set(item_name);
        self.amount = i64_text(amount);
    }

    /// Load a held item (`None`: nothing held).
    pub fn load_hold(&mut self, item_name: Option<&str>, consumed: bool)
        ensures
            final(self).item_selector.names() == old(self).item_selector.names(),
            (item_name matches Some(n) && has_name(old(self).item_selector.names(), n@))
                ==> final(self).item_selector.current@ == item_name->0@,
            item_name is None ==> final(self).item_selector.current == old(self).item_selector.current,
            final(self).consume_held == consumed,
            final(self).hold_nothing == item_name is None,
            final(self).event_kind == old(self).event_kind,
            final(self).event_type == old(self).event_type,
    {
        if let Some(n) = item_name {
            self.item_selector.set(n);
        }
        self.consume_held = consumed;
        self.hold_nothing = item_name.is_none();
    }

    /// The event the editor describes.
    pub fn get_event(&self) -> (r: Result<EventDraft, String>)
        ensures
            match self.event_kind {
                Some(EventKind::HoldItem) => r matches Ok(EventDraft::Hold(h)) && h.consumed
                    == self.consume_held && match h.item_name {
                    Some(n) => !self.hold_nothing && n@ == self.item_selector.current@,
                    None => self.hold_nothing,
                },
                Some(k) => if is_item_kind(k) { match r {
                    Ok(EventDraft::Item(d)) => item_event(
                        k,
                        self.item_selector.current@,
                        field_value(self.amount@),
                        self.hold_nothing,
                        self.consume_held,
                    ) == Ok::<(Seq<char>, i64, bool, bool), Seq<char>>(
                        (d.item_name@, d.amount, d.is_acquire, d.with_money),
                    ) && d.target_move is None && !d.no_effect,
                    Ok(_) => false,
                    Err(e) => field_value(self.amount@) == Err::<i64, Seq<char>>(e@),
                } } else {
                    r matches Err(e) && e@ == "Cannot generate inventory event for event type: "@ + self.event_type@
                },
                None => r matches Err(e) && e@ == "Cannot generate inventory event for event type: "@ + self.event_type@,
            },
    {
        let name = self.item_selector.current.clone();
        match self.event_kind {
            Some(EventKind::HoldItem) => {
                let held = if self.hold_nothing { None } else { Some(name) };
                Ok(EventDraft::Hold(HoldDraft { item_name: held, consumed: self.consume_held }))
            },
            Some(k) if matches!(k, EventKind::GetFreeItem | EventKind::PurchaseItem | EventKind::UseItem | EventKind::SellItem) => {
                let (acquire, money) = match k {
                    EventKind::GetFreeItem => (true, false),
                    EventKind::PurchaseItem => (true, true),
                    EventKind::UseItem => (false, false),
                    _ => (false, true),
                };
                let amount = parse_field(self.amount.as_str())?;
                Ok(
                    EventDraft::Item(
                        ItemDraft {
                            item_name: name,
                            amount,
                            is_acquire: acquire,
                            with_money: money,
                            target_move: None,
                            no_effect: false,
                        },
                    ),
                )
            },
            _ => {
                let mut e = String::from_str("Cannot generate inventory event for event type: ");
                e.append(self.event_type.as_str());
                Err(e)
            },
        }
    }
}

// ---------------------------------------------------------------------------
// save / heal / blackout location, evolution
// ---------------------------------------------------------------------------

/// The editor of a save, heal or blackout: where it happens.
pub struct LocationEditor {
    pub location: String,
}

impl LocationEditor {
    pub fn load_event(location: &str) -> (r: LocationEditor)
        ensures
            r.location@ == location@,
    {
        LocationEditor { location: String::from_str(location) }
    }

    /// The event: a save, a heal, and anything else a blackout.
    pub fn get_event(&self, kind: EventKind) -> (r: EventDraft)
        ensures
            match kind {
                EventKind::Save => r matches EventDraft::Save(l) && l@ == self.location@,
                EventKind::Heal => r matches EventDraft::Heal(l) && l@ == self.location@,
                _ => r matches EventDraft::Blackout(l) && l@ == self.location@,
            },
    {
        let loc = self.location.clone();
        match kind {
            EventKind::Save => EventDraft::Save(loc),
            EventKind::Heal => EventDraft::Heal(loc),
            _ => EventDraft::Blackout(loc),
        }
    }

    /// The field's label.
    pub fn label(kind: EventKind) -> (r: &'static str)
        ensures
            r@ == match kind {
                EventKind::Save => "Save Location"@,
                EventKind::Heal => "Heal Location"@,
                _ => "Black Out back to:"@,
            },
    {
        match kind {
            EventKind::Save => "Save Location",
            EventKind::Heal => "Heal Location",
            _ => "Black Out back to:",
        }
    }
}

/// The evolution editor: the species evolved into (same growth rate) and
/// the stone used, if any.
pub struct EvolutionEditor {
    pub growth_rate: String,
    pub pkmn_types: OptionMenu,
    pub pkmn_filter: String,
    pub item_selector: OptionMenu,
}

impl EvolutionEditor {
    pub fn new() -> (r: EvolutionEditor)
        ensures
            r.growth_rate@.len() == 0,
            r.pkmn_types.names().len() == 0,
            r.pkmn_types.current@.len() == 0,
            r.pkmn_filter@.len() == 0,
            r.item_selector.names().len() == 0,
            r.item_selector.current@.len() == 0,
    {
        EvolutionEditor {
            growth_rate: String::new(),
            pkmn_types: OptionMenu::default(),
            pkmn_filter: String::new(),
            item_selector: OptionMenu::default(),
        }
    }

    /// The stone menu: "no item", then the stones.
    pub fn configure(&mut self, stones: Vec<String>, no_item: &str)
        ensures
            final(self).item_selector.names() == seq![no_item@] + stones.deep_view(),
            final(self).pkmn_types == old(self).pkmn_types,
    {
        let mut opts: Vec<String> = vec![String::from_str(no_item)];
        let ghost first = opts.deep_view();
        let mut i: usize = 0;
        while i < stones.len()
            invariant
                i <= stones.len(),
                first == seq![no_item@],
                opts.deep_view() == first + stones.deep_view().subrange(0, i as int),
            decreases stones.len() - i,
        {
            let ghost before = opts.deep_view();
            opts.push(stones[i].clone());
            proof {
                assert(opts.deep_view() =~= before.push(stones.deep_view()[i as int]));
                assert(before.push(stones.deep_view()[i as int]) =~= first + stones.deep_view().subrange(0, i + 1));
            }
            i = i + 1;
        }
        assert(stones.deep_view().subrange(0, stones.len() as int) =~= stones.deep_view());
        assert(first =~= seq![no_item@]);
        self.item_selector.new_values(opts, None);
    }

    /// Load an evolution into `species` (one of `same_rate`, the species of
    /// its growth rate), by `stone` if one was used.
    pub fn load_event(&mut self, growth_rate: String, same_rate: Vec<String>, species: &str, stone: Option<&str>, no_item: &str)
        ensures
            final(self).growth_rate == growth_rate,
            final(self).pkmn_types.names() == same_rate.deep_view(),
            has_name(same_rate.deep_view(), species@) ==> final(self).pkmn_types.current@ == species@,
            final(self).pkmn_filter@ == Seq::<char>::empty(),
            final(self).item_selector.names() == old(self).item_selector.names(),
            final(self).item_selector.current@ == (match stone {
                Some(s) if s@.len() > 0 => if has_name(old(self).item_selector.names(), s@) {
                    s@
                } else {
                    old(self).item_selector.current@
                },
                _ => if has_name(old(self).item_selector.names(), no_item@) {
                    no_item@
                } else {
                    old(self).item_selector.current@
                },
            }),
    {
        self.growth_rate = growth_rate;
        self.pkmn_types.new_values(same_rate, Some(species));
        self.pkmn_filter = String::new();
        match stone {
            Some(s) if s.unicode_len() > 0 => self.item_selector.set(s),
            _ => self.item_selector.set(no_item),
        }
    }

    /// The species filter changed: the menu lists what matched.
    pub fn filter_changed(&mut self, matched: Vec<String>)
        ensures
            final(self).pkmn_types.names() == matched.deep_view(),
            final(self).item_selector == old(self).item_selector,
    {
        self.pkmn_types.new_values(matched, None);
    }

    pub fn get_event(&self, no_item: &str) -> (r: EventDraft)
        ensures
            r matches EventDraft::Evolution { species, by_stone } && species@ == self.pkmn_types.current@
                && match by_stone {
                Some(s) => s@ == self.item_selector.current@ && s@ != no_item@,
                None => self.item_selector.current@ == no_item@,
            },
    {
        let by_stone = if eq_str(&self.item_selector.current, no_item) {
            None
        } else {
            Some(self.item_selector.current.clone())
        };
        EventDraft::Evolution { species: self.pkmn_types.current.clone(), by_stone }
    }
}


// ---------------------------------------------------------------------------
// bag reorder
// ---------------------------------------------------------------------------

/// Where a row dropped before row `to` ends up when it came from row
/// `from`: the rows after it close up first.
pub open spec fn drop_slot(from: int, to: int) -> int {
    if to > from {
        to - 1
    } else {
        to
    }
}

/// Whether dropping row `from` before row `to` moves anything.
pub open spec fn drop_moves(len: int, from: int, to: int) -> bool {
    from < len && to <= len && drop_slot(from, to) != from
}

/// The rows after a drop.
pub open spec fn dropped<A>(rows: Seq<A>, from: int, to: int) -> Seq<A> {
    if drop_moves(rows.len() as int, from, to) {
        rows.remove(from).insert(drop_slot(from, to), rows[from])
    } else {
        rows
    }
}

/// The bag reorder editor (gen 1): the bag's rows in the order arranged,
/// the bag before the event, and whether the arrangement changed since it
/// was loaded.
pub struct BagReorderEditor {
    pub base: Vec<String>,
    pub order: Vec<(String, i64)>,
    pub modified: bool,
    /// the loaded reorder no longer applies cleanly to the bag
    pub stale: bool,
}

impl BagReorderEditor {
    /// The bag before the event (`base`), the rows the loaded reorder
    /// gives, and whether applying it warned.
    pub fn load_event(base: Vec<String>, rows: Vec<(String, i64)>, stale: bool) -> (r: BagReorderEditor)
        ensures
            r.base == base,
            r.order == rows,
            !r.modified,
            r.stale == stale,
    {
        BagReorderEditor { base, order: rows, modified: false, stale }
    }

    /// `move_item`: drop row `from` before row `to` (`to == len`: at the
    /// end); returns whether the order changed.
    pub fn move_item(&mut self, from: usize, to: usize) -> (r: bool)
        ensures
            r == drop_moves(old(self).order@.len() as int, from as int, to as int),
            final(self).order@ == dropped(old(self).order@, from as int, to as int),
            final(self).base == old(self).base,
            final(self).modified == old(self).modified,
            final(self).stale == old(self).stale,
    {
        if from >= self.order.len() || to > self.order.len() {
            return false;
        }
        let dest = if to > from { to - 1 } else { to };
        if dest == from {
            return false;
        }
        let item = self.order.remove(from);
        self.order.insert(dest, item);
        true
    }

    /// A drag and drop: the rows move, and a move marks the order as
    /// arranged by hand.
    pub fn drop_row(&mut self, from: usize, to: usize) -> (r: bool)
        ensures
            r == drop_moves(old(self).order@.len() as int, from as int, to as int),
            final(self).order@ == dropped(old(self).order@, from as int, to as int),
            final(self).modified == (old(self).modified || r),
            final(self).stale == (old(self).stale && !r),
            final(self).base == old(self).base,
    {
        let moved = self.move_item(from, to);
        if moved {
            self.modified = true;
            self.stale = false;
        }
        moved
    }

    /// A chevron: row `idx` swaps with the row above (`up`) or below.
    pub fn nudge(&mut self, idx: usize, up: bool)
        requires
            idx < old(self).order.len(),
            up ==> idx > 0,
            !up ==> idx + 1 < old(self).order.len(),
        ensures
            final(self).order@ == (if up {
                old(self).order@.update(idx - 1, old(self).order@[idx as int]).update(
                    idx as int,
                    old(self).order@[idx - 1],
                )
            } else {
                old(self).order@.update(idx + 1, old(self).order@[idx as int]).update(
                    idx as int,
                    old(self).order@[idx + 1],
                )
            }),
            final(self).modified,
            !final(self).stale,
            final(self).base == old(self).base,
    {
        let other = if up { idx - 1 } else { idx + 1 };
        let a = (self.order[idx].0.clone(), self.order[idx].1);
        let b = (self.order[other].0.clone(), self.order[other].1);
        self.order.set(other, a);
        self.order.set(idx, b);
        self.modified = true;
        self.stale = false;
    }

    /// The event: the loaded reorder when nothing was arranged, else the
    /// new order of the bag's items.
    pub fn get_event(&self) -> (r: EventDraft)
        ensures
            r matches EventDraft::BagReorder(o) && match o {
                None => !self.modified,
                Some(names) => self.modified && names.len() == self.order.len() && forall|i: int|
                    0 <= i < names.len() ==> #[trigger] names@[i]@ == self.order@[i].0@,
            },
    {
        if !self.modified {
            return EventDraft::BagReorder(None);
        }
        let mut names: Vec<String> = Vec::new();
        let mut i: usize = 0;
        while i < self.order.len()
            invariant
                i <= self.order.len(),
                names.len() == i,
                forall|j: int| 0 <= j < i ==> #[trigger] names@[j]@ == self.order@[j].0@,
            decreases self.order.len() - i,
        {
            names.push(self.order[i].0.clone());
            i = i + 1;
        }
        EventDraft::BagReorder(Some(names))
    }
}

/// A drop only rearranges the rows: the same rows, each as often as
/// before, and the dropped row lands at its slot.
pub proof fn law_drop_is_a_permutation<A>(rows: Seq<A>, from: int, to: int)
    requires
        0 <= from,
        0 <= to,
    ensures
        dropped(rows, from, to).to_multiset() == rows.to_multiset(),
        dropped(rows, from, to).len() == rows.len(),
        drop_moves(rows.len() as int, from, to) ==> dropped(rows, from, to)[drop_slot(from, to)]
            == rows[from],
{
    broadcast use vstd::seq_lib::group_to_multiset_ensures;

    if drop_moves(rows.len() as int, from, to) {
        let r = rows.remove(from);
        assert(r.to_multiset() == rows.to_multiset().remove(rows[from]));
        assert(r.insert(drop_slot(from, to), rows[from]).to_multiset() == r.to_multiset().insert(
            rows[from],
        ));
        assert(rows.to_multiset().contains(rows[from]));
        assert(rows.to_multiset().remove(rows[from]).insert(rows[from]) =~= rows.to_multiset());
    }
}

// ---------------------------------------------------------------------------
// learn move
// ---------------------------------------------------------------------------

/// The destination menu of a move: "don't learn", then one entry per
/// slot of the mon's move list.
pub open spec fn destination_menu(moves: Seq<Option<String>>, dont_learn: Seq<char>) -> Seq<Seq<char>> {
    seq![dont_learn] + Seq::new(
        moves.len(),
        |i: int|
            slot_entry(
                i + 1,
                match moves[i] {
                    Some(m) => m@,
                    None => "None"@,
                },
            ),
    )
}

pub fn destination_entries(moves: &Vec<Option<String>>, dont_learn: &str) -> (r: Vec<String>)
    requires
        moves.len() <= isize::MAX,
    ensures
        r.deep_view() == destination_menu(moves@, dont_learn@),
{
    let mut r: Vec<String> = vec![String::from_str(dont_learn)];
    let mut i: usize = 0;
    while i < moves.len()
        invariant
            i <= moves.len(),
            moves.len() <= isize::MAX,
            r.len() == i + 1,
            r@[0]@ == dont_learn@,
            forall|j: int|
                1 <= j <= i ==> #[trigger] r@[j]@ == slot_entry(
                    j,
                    match moves@[j - 1] {
                        Some(m) => m@,
                        None => "None"@,
                    },
                ),
        decreases moves.len() - i,
    {
        let entry = match &moves[i] {
            Some(m) => slot_template((i + 1) as i64, m.as_str()),
            None => slot_template((i + 1) as i64, "None"),
        };
        r.push(entry);
        i = i + 1;
    }
    assert(r.deep_view() =~= destination_menu(moves@, dont_learn@));
    r
}

/// Which list a change of move source shows.
#[derive(Clone, Copy, Debug, PartialEq, Eq, Structural)]
pub enum SourceList {
    /// a level-up move: nothing to pick
    LevelUp,
    /// a TM or HM: the item list
    Machines,
    /// a tutor: the move list
    Moves,
}

/// The learn-move editor: the move, where it goes, and where it comes
/// from (a level-up, a tutor, or the TM or HM picked in the item menu).
pub struct LearnMoveEditor {
    pub move_name_label: String,
    pub destination: OptionMenu,
    pub destination_enabled: bool,
    pub mv: Option<String>,
    pub level: MoveLevel,
    pub mon: Option<String>,
    pub source: OptionMenu,
    pub source_enabled: bool,
    pub item_filter: String,
    pub item_selector: OptionMenu,
    pub move_filter: String,
    pub move_selector: OptionMenu,
    pub show_tm: bool,
    pub show_tutor: bool,
}

/// `Move: X` (`None` when there is no move).
pub open spec fn move_label(mv: Option<Seq<char>>) -> Seq<char> {
    "Move: "@ + match mv {
        Some(m) => m,
        None => "None"@,
    }
}

fn move_label_of(mv: &Option<String>) -> (r: String)
    ensures
        r@ == move_label(
            match mv {
                Some(m) => Some(m@),
                None => None,
            },
        ),
{
    let mut r = String::from_str("Move: ");
    match mv {
        Some(m) => r.append(m.as_str()),
        None => r.append("None"),
    }
    r
}

impl LearnMoveEditor {
    pub fn new() -> (r: LearnMoveEditor)
        ensures
            r.destination_enabled,
            r.source_enabled,
            r.mv is None,
            r.level == MoveLevel::Any,
            r.mon is None,
            !r.show_tm,
            !r.show_tutor,
    {
        LearnMoveEditor {
            move_name_label: String::new(),
            destination: OptionMenu::default(),
            destination_enabled: true,
            mv: None,
            level: MoveLevel::Any,
            mon: None,
            source: OptionMenu::default(),
            source_enabled: true,
            item_filter: String::new(),
            item_selector: OptionMenu::default(),
            move_filter: String::new(),
            move_selector: OptionMenu::default(),
            show_tm: false,
            show_tutor: false,
        }
    }

    /// A new learn-move event over the mon's `moves`: a level-up move has
    /// one fixed source, any other a tutor or a TM/HM.
    pub fn configure(&mut self, moves: &Vec<Option<String>>, levelup: bool, words: &MenuWords)
        requires
            moves.len() <= isize::MAX,
        ensures
            final(self).destination.names() == destination_menu(moves@, words.dont_learn@),
            !final(self).show_tm,
            !final(self).show_tutor,
            final(self).source.names() == (if levelup {
                seq![words.source_levelup@]
            } else {
                seq![words.source_tutor@, words.source_tm_hm@]
            }),
            final(self).source_enabled == !levelup,
            final(self).mv == old(self).mv,
    {
        let entries = destination_entries(moves, words.dont_learn.as_str());
        self.destination.new_values(entries, None);
        self.show_tm = false;
        self.show_tutor = false;
        if levelup {
            let v = vec![words.source_levelup.clone()];
            assert(v.deep_view() =~= seq![words.source_levelup@]);
            self.source.new_values(v, None);
            self.source_enabled = false;
        } else {
            let v = vec![words.source_tutor.clone(), words.source_tm_hm.clone()];
            assert(v.deep_view() =~= seq![words.source_tutor@, words.source_tm_hm@]);
            self.source.new_values(v, None);
            self.source_enabled = true;
        }
    }

    /// The source changed: which list to show (and refill).
    pub fn source_changed(&mut self, words: &MenuWords) -> (r: SourceList)
        ensures
            r == (if old(self).source.current@ == words.source_levelup@ {
                SourceList::LevelUp
            } else if old(self).source.current@ == words.source_tm_hm@ {
                SourceList::Machines
            } else {
                SourceList::Moves
            }),
            r == SourceList::LevelUp ==> final(self).show_tm == old(self).show_tm
                && final(self).show_tutor == old(self).show_tutor,
            r == SourceList::Machines ==> final(self).show_tm && !final(self).show_tutor,
            r == SourceList::Moves ==> !final(self).show_tm && final(self).show_tutor,
            final(self).source == old(self).source,
            final(self).mv == old(self).mv,
    {
        if eq_str(&self.source.current, words.source_levelup.as_str()) {
            return SourceList::LevelUp;
        }
        if eq_str(&self.source.current, words.source_tm_hm.as_str()) {
            self.show_tm = true;
            self.show_tutor = false;
            SourceList::Machines
        } else {
            self.show_tm = false;
            self.show_tutor = true;
            SourceList::Moves
        }
    }

    /// A move was picked: for a TM/HM the move it teaches (`tm_move`, from
    /// the item database), for a tutor the picked move (deleting when it is
    /// the delete entry). `fixed` is where the route engine puts the move
    /// when the player has no choice (`(slot, allowed)`, none without a
    /// route state): the destination is then set and locked.
    pub fn move_selected(&mut self, tm_move: Option<String>, fixed: Option<(Option<i64>, bool)>, words: &MenuWords)
        requires
            fixed matches Some((Some(d), _)) ==> d < i64::MAX,
        ensures
            old(self).source.current@ == words.source_tm_hm@ ==> final(self).mv == tm_move,
            (old(self).source.current@ != words.source_tm_hm@ && old(self).source.current@
                == words.source_tutor@) ==> final(self).mv == (if old(self).move_selector.current@
                == words.delete_move@ {
                None
            } else {
                Some(old(self).move_selector.current)
            }),
            (old(self).source.current@ != words.source_tm_hm@ && old(self).source.current@
                != words.source_tutor@) ==> final(self).mv == old(self).mv,
            final(self).destination.names() == old(self).destination.names(),
            match fixed {
                Some((slot, false)) => {
                    let entry = match slot {
                        None => words.dont_learn@,
                        Some(d) => slot_entry(d + 1, "None"@),
                    };
                    &&& !final(self).destination_enabled
                    &&& final(self).destination.current@ == (if has_name(
                        old(self).destination.names(),
                        entry,
                    ) {
                        entry
                    } else {
                        old(self).destination.current@
                    })
                },
                Some((_, true)) => final(self).destination_enabled && final(self).destination
                    == old(self).destination,
                None => final(self).destination_enabled == old(self).destination_enabled
                    && final(self).destination == old(self).destination,
            },
            final(self).source == old(self).source,
    {
        if eq_str(&self.source.current, words.source_tm_hm.as_str()) {
            self.mv = tm_move;
            self.move_name_label = move_label_of(&self.mv);
        } else if eq_str(&self.source.current, words.source_tutor.as_str()) {
            let m = self.move_selector.current.clone();
            self.mv = if eq_str(&m, words.delete_move.as_str()) { None } else { Some(m) };
            self.move_name_label = move_label_of(&self.mv);
        }
        match fixed {
            Some((slot, allowed)) => {
                if !allowed {
                    match slot {
                        None => self.destination.set(words.dont_learn.as_str()),
                        Some(d) => {
                            let text = slot_template(d + 1, "None");
                            self.destination.set(text.as_str());
                        },
                    }
                    self.destination_enabled = false;
                } else {
                    self.destination_enabled = true;
                }
            },
            None => {},
        }
    }

    /// Fill the TM/HM menu: the machines matching the filter box, or "no
    /// item" alone.
    pub fn narrow_machines(&mut self, machines: Vec<String>, no_item: &str)
        ensures
            final(self).item_selector.names() == or_sentinel(
                filtered_names(machines.deep_view(), old(self).item_filter@),
                no_item@,
            ),
            final(self).item_filter == old(self).item_filter,
            final(self).source == old(self).source,
            final(self).destination == old(self).destination,
            final(self).mv == old(self).mv,
    {
        let kept = filter_names(machines, self.item_filter.as_str());
        let list = with_sentinel(kept, no_item);
        self.item_selector.new_values(list, None);
    }

    /// Fill the tutor menu with the moves matching the filter box.
    pub fn set_moves(&mut self, moves: Vec<String>)
        ensures
            final(self).move_selector.names() == moves.deep_view(),
            final(self).source == old(self).source,
            final(self).destination == old(self).destination,
            final(self).mv == old(self).mv,
    {
        self.move_selector.new_values(moves, None);
    }

    /// Load a level-up move: the move, the level and the mon that learns it.
    pub fn load_levelup(&mut self, mv: Option<String>, level: MoveLevel, mon: Option<String>)
        ensures
            final(self).mv == mv,
            final(self).level == level,
            final(self).mon == mon,
            final(self).move_name_label@ == move_label(
                match mv {
                    Some(m) => Some(m@),
                    None => None,
                },
            ),
            final(self).destination == old(self).destination,
            final(self).source == old(self).source,
    {
        self.mv = mv;
        self.move_name_label = move_label_of(&self.mv);
        self.level = level;
        self.mon = mon;
    }

    /// Load a tutor move (`None`: the move in the slot is deleted); the
    /// move menu is `moves`, the tutor list unfiltered.
    pub fn load_tutor(&mut self, mv: Option<&str>, moves: Vec<String>, words: &MenuWords)
        ensures
            has_name(old(self).source.names(), words.source_tutor@) ==> final(self).source.current@
                == words.source_tutor@,
            final(self).source.names() == old(self).source.names(),
            final(self).move_filter@ == Seq::<char>::empty(),
            final(self).move_selector.names() == moves.deep_view(),
            has_name(
                moves.deep_view(),
                (match mv {
                    Some(m) => m@,
                    None => words.delete_move@,
                }),
            ) ==> final(self).move_selector.current@ == (match mv {
                Some(m) => m@,
                None => words.delete_move@,
            }),
            final(self).level == MoveLevel::Any,
            final(self).mon is None,
            final(self).destination == old(self).destination,
    {
        self.source.set(words.source_tutor.as_str());
        self.move_filter = String::new();
        self.move_selector.new_values(moves, None);
        match mv {
            Some(m) => self.move_selector.set(m),
            None => self.move_selector.set(words.delete_move.as_str()),
        }
        self.level = MoveLevel::Any;
        self.mon = None;
    }

    /// Load a TM/HM move taught by `machine`; the item menu is `machines`,
    /// the TM list unfiltered.
    pub fn load_machine(&mut self, machine: &str, machines: Vec<String>, words: &MenuWords)
        ensures
            has_name(old(self).source.names(), words.source_tm_hm@) ==> final(self).source.current@
                == words.source_tm_hm@,
            final(self).source.names() == old(self).source.names(),
            final(self).item_filter@ == Seq::<char>::empty(),
            final(self).item_selector.names() == machines.deep_view(),
            has_name(machines.deep_view(), machine@) ==> final(self).item_selector.current@ == machine@,
            final(self).level == MoveLevel::Any,
            final(self).mon is None,
            final(self).destination == old(self).destination,
    {
        self.source.set(words.source_tm_hm.as_str());
        self.item_filter = String::new();
        self.item_selector.new_values(machines, None);
        self.item_selector.set(machine);
        self.level = MoveLevel::Any;
        self.mon = None;
    }

    /// Show the loaded destination: "don't learn", or the entry of slot `d`.
    pub fn select_destination(&mut self, dest: Option<i64>, words: &MenuWords)
        ensures
            final(self).destination.names() == old(self).destination.names(),
            final(self).destination.current@ == match dest {
                None => if has_name(old(self).destination.names(), words.dont_learn@) {
                    words.dont_learn@
                } else {
                    old(self).destination.current@
                },
                Some(d) => if 0 <= d + 1 < old(self).destination.names().len() {
                    old(self).destination.names()[d + 1]
                } else {
                    old(self).destination.current@
                },
            },
            final(self).mv == old(self).mv,
    {
        match dest {
            None => self.destination.set(words.dont_learn.as_str()),
            Some(d) => {
                if -1 <= d {
                    let k64: u64 = ((d as i128) + 1) as u64;
                    if k64 < (self.destination.options.len() as u64) {
                        let k: usize = k64 as usize;
                        let opt = self.destination.options[k].clone();
                        proof {
                            assert(self.destination.names()[k as int] == opt@);
                            assert(has_name(self.destination.names(), opt@));
                        }
                        self.destination.set(opt.as_str());
                    }
                }
            },
        }
    }

    /// The event: the destination read from its menu, and the source (the
    /// level-up source, the tutor, or the machine picked).
    pub fn get_event(&self, levelup: bool, words: &MenuWords) -> (r: Result<EventDraft, String>)
        ensures
            match destination_of(self.destination.current@, words.dont_learn@) {
                Err(msg) => r matches Err(e) && e@ == msg,
                Ok(dest) => r matches Ok(EventDraft::LearnMove(d)) && d.move_name == self.mv
                    && match d.destination {
                    Some(x) => dest == Some(x as int),
                    None => dest is None,
                } && d.source@ == (if levelup {
                    words.source_levelup@
                } else if self.source.current@ == words.source_tutor@ {
                    words.source_tutor@
                } else {
                    self.item_selector.current@
                }) && d.level == self.level && d.mon == self.mon,
            },
    {
        let dest = slot_destination(self.destination.current.as_str(), words.dont_learn.as_str())?;
        let source = if levelup {
            words.source_levelup.clone()
        } else if eq_str(&self.source.current, words.source_tutor.as_str()) {
            words.source_tutor.clone()
        } else {
            self.item_selector.current.clone()
        };
        Ok(
            EventDraft::LearnMove(
                LearnDraft {
                    move_name: self.mv.clone(),
                    destination: dest,
                    source,
                    level: self.level,
                    mon: self.mon.clone(),
                },
            ),
        )
    }
}


// ---------------------------------------------------------------------------
// trainer fight
// ---------------------------------------------------------------------------

/// The number a menu of `menus` shows, when `x` names one and it shows a
/// number.
pub open spec fn menu_number(menus: Seq<OptionMenu>, x: int) -> Option<i64> {
    if 0 <= x < menus.len() {
        parse_i64_spec(menus[x].current@)
    } else {
        None
    }
}

/// Whether every mon of `order` has a numbered menu.
pub open spec fn all_numbered(menus: Seq<OptionMenu>, order: Seq<usize>) -> bool {
    forall|k: int| 0 <= k < order.len() ==> (#[trigger] menu_number(menus, order[k] as int)) is Some
}

/// The numbers of the menus of the mons in `order`.
pub open spec fn numbers_in(menus: Seq<OptionMenu>, order: Seq<usize>) -> Seq<i64> {
    Seq::new(order.len(), |k: int| menu_number(menus, order[k] as int)->0)
}

/// The mons (by their place in the trainer's own order) whose held item is
/// stolen, from the flags of their cards.
pub open spec fn stolen_from(order: Seq<usize>, flags: Seq<bool>, n: nat) -> Seq<i64>
    decreases n,
{
    if n == 0 {
        Seq::empty()
    } else {
        let rest = stolen_from(order, flags, (n - 1) as nat);
        let x = order[n - 1] as int;
        if 0 <= x < flags.len() && flags[x] {
            rest.push((n - 1) as i64)
        } else {
            rest
        }
    }
}

/// The flag of card `j`: some mon shown on it is one a Thief or Covet
/// steals from.
pub open spec fn card_flag(order: Seq<usize>, thief_mons: Seq<i64>, j: int) -> bool {
    exists|k: int| 0 <= k < order.len() && order[k] == j && thief_mons.contains(k as i64)
}

/// The menu entries `1` to `n`.
pub open spec fn order_numbers(n: nat) -> Seq<Seq<char>> {
    Seq::new(n, |i: int| int_text(i + 1))
}

fn order_number_list(n: usize) -> (r: Vec<String>)
    requires
        n <= 6,
    ensures
        r.deep_view() == order_numbers(n as nat),
{
    let mut r: Vec<String> = Vec::new();
    let mut i: usize = 0;
    while i < n
        invariant
            i <= n,
            n <= 6,
            r.len() == i,
            forall|j: int| 0 <= j < i ==> #[trigger] r@[j]@ == int_text(j + 1),
        decreases n - i,
    {
        r.push(i64_text((i + 1) as i64));
        i = i + 1;
    }
    assert(r.deep_view() =~= order_numbers(n as nat));
    r
}

/// The trainer fight editor's state: the trainer, the Pay Day field, and
/// per enemy card (in fight order) its order and exp split menus and its
/// steal flag; `definition_order[k]` is the card of the trainer's `k`-th
/// mon.
pub struct TrainerFightEditor {
    pub cur_trainer: String,
    pub second_trainer: String,
    pub num_pkmn: usize,
    pub pay_day: String,
    pub exp_per_sec: String,
    pub order_menus: Vec<OptionMenu>,
    pub exp_splits: Vec<OptionMenu>,
    pub thief_flags: Vec<bool>,
    pub definition_order: Vec<usize>,
}

impl TrainerFightEditor {
    pub fn new() -> (r: TrainerFightEditor)
        ensures
            r.cur_trainer@.len() == 0,
            r.second_trainer@.len() == 0,
            r.num_pkmn == 0,
            r.pay_day@.len() == 0,
            r.exp_per_sec@.len() == 0,
            r.order_menus.len() == 0,
            r.exp_splits.len() == 0,
            r.thief_flags.len() == 0,
            r.definition_order.len() == 0,
    {
        TrainerFightEditor {
            cur_trainer: String::new(),
            second_trainer: String::new(),
            num_pkmn: 0,
            pay_day: String::new(),
            exp_per_sec: String::new(),
            order_menus: Vec::new(),
            exp_splits: Vec::new(),
            thief_flags: Vec::new(),
            definition_order: Vec::new(),
        }
    }

    /// The flags of the six cards: which show a mon that is stolen from.
    pub fn thief_flags_for(order: &Vec<usize>, thief_mons: &Vec<i64>) -> (r: Vec<bool>)
        requires
            order.len() <= isize::MAX,
        ensures
            r.len() == 6,
            forall|j: int| 0 <= j < 6 ==> #[trigger] r@[j] == card_flag(order@, thief_mons@, j),
    {
        let mut flags: Vec<bool> = vec![false, false, false, false, false, false];
        let mut k: usize = 0;
        while k < order.len()
            invariant
                k <= order.len(),
                order.len() <= isize::MAX,
                flags.len() == 6,
                forall|j: int|
                    0 <= j < 6 ==> #[trigger] flags@[j] == exists|t: int|
                        0 <= t < k && order@[t] == j && thief_mons@.contains(t as i64),
            decreases order.len() - k,
        {
            let mut hit = false;
            let mut q: usize = 0;
            while q < thief_mons.len()
                invariant
                    q <= thief_mons.len(),
                    k < order.len() <= isize::MAX,
                    hit == exists|t: int| 0 <= t < q && thief_mons@[t] == k as i64,
                decreases thief_mons.len() - q,
            {
                if thief_mons[q] == k as i64 {
                    hit = true;
                }
                q = q + 1;
            }
            let d = order[k];
            let ghost prev = flags@;
            if hit && d < 6 {
                flags.set(d, true);
            }
            proof {
                assert forall|j: int| 0 <= j < 6 implies #[trigger] flags@[j] == exists|t: int|
                    0 <= t < k + 1 && order@[t] == j && thief_mons@.contains(t as i64) by {
                    if hit && d as int == j {
                        let w = choose|t: int| 0 <= t < thief_mons@.len() && thief_mons@[t] == k as i64;
                        assert(thief_mons@.contains(k as i64));
                        assert(order@[k as int] == j);
                    }
                    if exists|t: int| 0 <= t < k + 1 && order@[t] == j && thief_mons@.contains(t as i64) {
                        let t = choose|t: int| 0 <= t < k + 1 && order@[t] == j && thief_mons@.contains(t as i64);
                        if t == k {
                            let w = choose|w: int| 0 <= w < thief_mons@.len() && thief_mons@[w] == t as i64;
                            assert(exists|u: int| 0 <= u < thief_mons.len() && thief_mons@[u] == k as i64);
                        }
                    }
                }
            }
            k = k + 1;
        }
        flags
    }

    /// The event: the trainer, each mon's exp split and fight order (both
    /// read from the cards of the mons in the trainer's own order), the Pay
    /// Day money (0 when the field is not a number) and the mons stolen
    /// from.
    pub fn get_event(&self) -> (r: Result<EventDraft, String>)
        ensures
            match r {
                Err(e) => (!all_numbered(self.exp_splits@, self.definition_order@) && e@
                    == "invalid exp split"@) || (all_numbered(self.exp_splits@, self.definition_order@)
                    && !all_numbered(self.order_menus@, self.definition_order@) && e@
                    == "invalid mon order"@),
                Ok(EventDraft::Trainer(d)) => all_numbered(self.exp_splits@, self.definition_order@)
                    && all_numbered(self.order_menus@, self.definition_order@) && d.trainer_name@
                    == self.cur_trainer@ && d.second_trainer@ == self.second_trainer@ && d.exp_split@
                    == numbers_in(self.exp_splits@, self.definition_order@) && d.mon_order@
                    == numbers_in(self.order_menus@, self.definition_order@) && d.pay_day_amount
                    == Some(
                    match parse_i64_spec(trim_seq(self.pay_day@)) {
                        Some(v) => v,
                        None => 0i64,
                    },
                ) && d.thief_mons@ == stolen_from(
                    self.definition_order@,
                    self.thief_flags@,
                    self.definition_order@.len(),
                ),
                Ok(_) => false,
            },
    {
        let exp_split = match Self::numbers(&self.exp_splits, &self.definition_order) {
            Some(v) => v,
            None => {
                return Err(String::from_str("invalid exp split"));
            },
        };
        let mon_order = match Self::numbers(&self.order_menus, &self.definition_order) {
            Some(v) => v,
            None => {
                return Err(String::from_str("invalid mon order"));
            },
        };
        let pay_day_amount: i64 = match parse_field(self.pay_day.as_str()) {
            Ok(v) => v,
            Err(_) => 0,
        };
        let mut thief_mons: Vec<i64> = Vec::new();
        let mut k: usize = 0;
        while k < self.definition_order.len()
            invariant
                k <= self.definition_order.len(),
                thief_mons@ == stolen_from(self.definition_order@, self.thief_flags@, k as nat),
            decreases self.definition_order.len() - k,
        {
            let x = self.definition_order[k];
            if x < self.thief_flags.len() && self.thief_flags[x] {
                thief_mons.push(k as i64);
            }
            k = k + 1;
        }
        Ok(
            EventDraft::Trainer(
                TrainerDraft {
                    trainer_name: self.cur_trainer.clone(),
                    second_trainer: self.second_trainer.clone(),
                    exp_split,
                    mon_order,
                    pay_day_amount: Some(pay_day_amount),
                    thief_mons,
                },
            ),
        )
    }

    /// Load a fight: the trainers, the Pay Day money, the Exp/sec readout,
    /// per mon in fight order its `(order, exp split)`, per mon in the
    /// trainer's own order its order number, and the mons stolen from.
    /// Each card's order menu lists `1..n`; the cards past the last mon
    /// show `-1`.
    pub fn load_fight(
        &mut self,
        trainer: String,
        second_trainer: String,
        pay_day: i64,
        exp_per_sec: String,
        mons: &Vec<(i64, i64)>,
        own_order: &Vec<i64>,
        thief_mons: &Vec<i64>,
    )
        requires
            mons.len() <= 6,
            own_order.len() <= isize::MAX,
            forall|k: int| 0 <= k < own_order.len() ==> #[trigger] own_order@[k] <= usize::MAX,
            old(self).order_menus.len() == old(self).exp_splits.len(),
        ensures
            final(self).cur_trainer == trainer,
            final(self).second_trainer == second_trainer,
            final(self).pay_day@ == int_text(pay_day as int),
            final(self).exp_per_sec == exp_per_sec,
            final(self).num_pkmn == mons.len(),
            final(self).definition_order.len() == own_order.len(),
            forall|k: int|
                0 <= k < own_order.len() ==> #[trigger] final(self).definition_order@[k] == (if own_order@[k]
                    - 1 > 0 {
                    own_order@[k] - 1
                } else {
                    0
                }),
            final(self).thief_flags.len() == 6,
            forall|j: int|
                0 <= j < 6 ==> #[trigger] final(self).thief_flags@[j] == card_flag(
                    final(self).definition_order@,
                    thief_mons@,
                    j,
                ),
            final(self).order_menus.len() >= 6,
            final(self).exp_splits.len() >= 6,
            forall|i: int|
                #![trigger final(self).order_menus@[i]]
                0 <= i < mons.len() ==> final(self).order_menus@[i].names() == order_numbers(
                    mons.len() as nat,
                ) && (has_name(order_numbers(mons.len() as nat), int_text(mons@[i].0 as int))
                    ==> final(self).order_menus@[i].current@ == int_text(mons@[i].0 as int)),
            forall|i: int|
                #![trigger final(self).order_menus@[i]]
                mons.len() <= i < 6 ==> final(self).order_menus@[i].current@ == "-1"@,
            forall|i: int|
                #![trigger final(self).exp_splits@[i]]
                0 <= i < mons.len() && has_name(
                    final(self).exp_splits@[i].names(),
                    int_text(mons@[i].1 as int),
                ) ==> final(self).exp_splits@[i].current@ == int_text(mons@[i].1 as int),
    {
        let mut order: Vec<usize> = Vec::new();
        let mut k: usize = 0;
        while k < own_order.len()
            invariant
                k <= own_order.len(),
                order.len() == k,
                forall|t: int| 0 <= t < own_order.len() ==> #[trigger] own_order@[t] <= usize::MAX,
                forall|t: int|
                    0 <= t < k ==> #[trigger] order@[t] == (if own_order@[t] - 1 > 0 {
                        own_order@[t] - 1
                    } else {
                        0
                    }),
            decreases own_order.len() - k,
        {
            let v = own_order[k];
            let d: usize = if v > 1 {
                (v - 1) as usize
            } else {
                0
            };
            order.push(d);
            k = k + 1;
        }
        while self.order_menus.len() < 6
            invariant
                self.order_menus.len() == self.exp_splits.len(),
            decreases 6 - self.order_menus.len(),
        {
            self.order_menus.push(OptionMenu::new(order_number_list(6), None));
            self.exp_splits.push(OptionMenu::new(order_number_list(6), None));
        }
        let n = mons.len();
        let mut i: usize = 0;
        while i < 6
            invariant
                n == mons.len() <= 6,
                i <= 6,
                self.order_menus.len() >= 6,
                self.exp_splits.len() >= 6,
                forall|t: int|
                    #![trigger self.order_menus@[t]]
                    0 <= t < i && t < n ==> self.order_menus@[t].names() == order_numbers(n as nat)
                        && (has_name(order_numbers(n as nat), int_text(mons@[t].0 as int))
                        ==> self.order_menus@[t].current@ == int_text(mons@[t].0 as int)),
                forall|t: int|
                    #![trigger self.order_menus@[t]]
                    n <= t < i ==> self.order_menus@[t].current@ == "-1"@,
                forall|t: int|
                    #![trigger self.exp_splits@[t]]
                    0 <= t < i && t < n && has_name(
                        self.exp_splits@[t].names(),
                        int_text(mons@[t].1 as int),
                    ) ==> self.exp_splits@[t].current@ == int_text(mons@[t].1 as int),
            decreases 6 - i,
        {
            if i < n {
                self.order_menus[i].new_values(order_number_list(n), None);
                self.order_menus[i].set(i64_text(mons[i].0).as_str());
                self.exp_splits[i].set(i64_text(mons[i].1).as_str());
            } else {
                self.order_menus[i].current = String::from_str("-1");
            }
            i = i + 1;
        }
        self.thief_flags = Self::thief_flags_for(&order, thief_mons);
        self.definition_order = order;
        self.cur_trainer = trainer;
        self.second_trainer = second_trainer;
        self.exp_per_sec = exp_per_sec;
        self.pay_day = i64_text(pay_day);
        self.num_pkmn = n;
    }

    /// The numbers of the menus of the mons in `order`, when all are numbers.
    fn numbers(menus: &Vec<OptionMenu>, order: &Vec<usize>) -> (r: Option<Vec<i64>>)
        ensures
            match r {
                Some(v) => all_numbered(menus@, order@) && v@ == numbers_in(menus@, order@),
                None => !all_numbered(menus@, order@),
            },
    {
        let mut out: Vec<i64> = Vec::new();
        let mut k: usize = 0;
        while k < order.len()
            invariant
                k <= order.len(),
                out.len() == k,
                forall|t: int| 0 <= t < k ==> menu_number(menus@, order@[t] as int) == Some(#[trigger] out@[t]),
            decreases order.len() - k,
        {
            let x = order[k];
            if x >= menus.len() {
                assert(menu_number(menus@, order@[k as int] as int) is None);
                return None;
            }
            match parse_i64(menus[x].current.as_str()) {
                Some(v) => out.push(v),
                None => {
                    assert(menu_number(menus@, order@[k as int] as int) is None);
                    return None;
                },
            }
            k = k + 1;
        }
        assert forall|t: int| 0 <= t < order@.len() implies (#[trigger] menu_number(
            menus@,
            order@[t] as int,
        )) is Some by {
            assert(menu_number(menus@, order@[t] as int) == Some(out@[t]));
        }
        assert(out@ =~= numbers_in(menus@, order@));
        Some(out)
    }
}

// ---------------------------------------------------------------------------
// which editor an event kind uses
// ---------------------------------------------------------------------------

/// The editor a kind of event is edited with.
#[derive(Clone, Copy, Debug, PartialEq, Eq, Structural)]
pub enum EditorSlot {
    Trainer,
    Vitamin,
    RareCandy,
    LearnMove,
    Wild,
    Inventory,
    Location,
    Evolution,
    BagReorder,
    EvOverride,
}

/// The editor of an event kind: the five item kinds share the inventory
/// editor, the two learn-move kinds the move editor, save, heal and
/// blackout the location editor; notes and the filter's pseudo-kinds have
/// none.
pub open spec fn editor_for_spec(kind: EventKind) -> Option<EditorSlot> {
    match kind {
        EventKind::TrainerBattle => Some(EditorSlot::Trainer),
        EventKind::Vitamin => Some(EditorSlot::Vitamin),
        EventKind::RareCandy => Some(EditorSlot::RareCandy),
        EventKind::LearnMoveLevelUp | EventKind::LearnMoveTm => Some(EditorSlot::LearnMove),
        EventKind::FightWildPkmn => Some(EditorSlot::Wild),
        EventKind::GetFreeItem | EventKind::PurchaseItem | EventKind::UseItem | EventKind::SellItem
        | EventKind::HoldItem => Some(EditorSlot::Inventory),
        EventKind::Save | EventKind::Heal | EventKind::Blackout => Some(EditorSlot::Location),
        EventKind::Evolution => Some(EditorSlot::Evolution),
        EventKind::ReorderBag => Some(EditorSlot::BagReorder),
        EventKind::EvOverride => Some(EditorSlot::EvOverride),
        _ => None,
    }
}

pub fn editor_for(kind: EventKind) -> (r: Option<EditorSlot>)
    ensures
        r == editor_for_spec(kind),
{
    match kind {
        EventKind::TrainerBattle => Some(EditorSlot::Trainer),
        EventKind::Vitamin => Some(EditorSlot::Vitamin),
        EventKind::RareCandy => Some(EditorSlot::RareCandy),
        EventKind::LearnMoveLevelUp | EventKind::LearnMoveTm => Some(EditorSlot::LearnMove),
        EventKind::FightWildPkmn => Some(EditorSlot::Wild),
        EventKind::GetFreeItem | EventKind::PurchaseItem | EventKind::UseItem | EventKind::SellItem
        | EventKind::HoldItem => Some(EditorSlot::Inventory),
        EventKind::Save | EventKind::Heal | EventKind::Blackout => Some(EditorSlot::Location),
        EventKind::Evolution => Some(EditorSlot::Evolution),
        EventKind::ReorderBag => Some(EditorSlot::BagReorder),
        EventKind::EvOverride => Some(EditorSlot::EvOverride),
        _ => None,
    }
}

} // verus!
