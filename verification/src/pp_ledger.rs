//! The PP ledger: the current PP of the solo mon's four moves before every
//! event. PP never feeds back into the route (it may go negative), so it is
//! derived after recalculation by walking the route in order and applying
//! fight spends, refills, PP items and the learn-move rules to four slots.
//! This module holds the slots, their histories and the texts the details
//! panel shows; the walk over the route tree feeds it one event at a time.

use vstd::prelude::*;

use crate::text::{decimal_digits, i64_text, int_text};

verus! {

/// One move slot's PP at a point of the route.
#[derive(Debug)]
pub struct SlotPp {
    pub move_name: String,
    /// Current PP; negative when the route overdraws the move.
    pub cur: i64,
    pub max: i64,
    pub pp_ups: u8,
}

/// The four slots' PP before an event.
#[derive(Debug)]
pub struct PpSnapshot {
    pub slots: [Option<SlotPp>; 4],
}

impl Default for PpSnapshot {
    fn default() -> (s: PpSnapshot)
        ensures
            forall|k: int| 0 <= k < 4 ==> s.slots@[k] is None,
    {
        PpSnapshot { slots: [None, None, None, None] }
    }
}

/// One line of a slot's history since it was last full: a spend or restore
/// (`amount`), or the refill / learn that started the history (`None`).
#[derive(Debug)]
pub struct PpChange {
    pub amount: Option<i64>,
    pub text: String,
}

/// A copy of a history line.
pub fn copy_change(c: &PpChange) -> (r: PpChange)
    ensures
        r.amount == c.amount,
        r.text@ == c.text@,
{
    PpChange { amount: c.amount, text: c.text.clone() }
}

/// A slot's history before an event: the lines of its log inside the
/// window recorded there (the refill or learn that last filled the slot,
/// then every change since); nothing when no window was recorded.
pub fn history(logs: &Vec<Vec<PpChange>>, window: Option<&Vec<(usize, usize)>>, slot: usize) -> (r: Vec<PpChange>)
    requires
        window matches Some(w) ==> (slot < w.len() && slot < logs.len() ==> w@[slot as int].0 <= w@[slot as int].1
            <= logs@[slot as int].len()),
    ensures
        match window {
            Some(w) => if slot < w.len() && slot < logs.len() {
                let (a, b) = w@[slot as int];
                &&& r@.len() == b - a
                &&& forall|i: int|
                    0 <= i < r@.len() ==> #[trigger] r@[i].amount == logs@[slot as int]@[a + i].amount
                        && r@[i].text@ == logs@[slot as int]@[a + i].text@
            } else {
                r@.len() == 0
            },
            None => r@.len() == 0,
        },
{
    let mut out: Vec<PpChange> = Vec::new();
    if let Some(w) = window {
        if slot < w.len() && slot < logs.len() {
            let (a, b) = w[slot];
            let log = &logs[slot];
            let mut i: usize = a;
            while i < b
                invariant
                    a <= i <= b,
                    b <= log@.len(),
                    out@.len() == i - a,
                    forall|t: int|
                        0 <= t < out@.len() ==> #[trigger] out@[t].amount == log@[a + t].amount && out@[t].text@
                            == log@[a + t].text@,
                decreases b - i,
            {
                out.push(copy_change(&log[i]));
                i = i + 1;
            }
        }
    }
    out
}

/// `-3` with a real minus sign (U+2212).
pub open spec fn pp_text(n: int) -> Seq<char> {
    if n < 0 {
        "\u{2212}"@ + decimal_digits((-n) as nat)
    } else {
        decimal_digits(n as nat)
    }
}

/// `fmt_pp`: a PP count with a real minus sign.
pub fn fmt_pp(n: i64) -> (r: String)
    requires
        n > i64::MIN,
    ensures
        r@ == pp_text(n as int),
{
    if n < 0 {
        let mut out = String::from_str("\u{2212}");
        let digits = i64_text(-n);
        out.append(digits.as_str());
        out
    } else {
        i64_text(n)
    }
}

/// How a fight spends a slot's PP.
#[derive(Clone, Copy, Debug, PartialEq, Eq, Structural)]
pub enum SpendKind {
    /// the move that knocks the enemy out
    Ko,
    /// a setup move used `turns` times
    Setup,
    /// Mimic's hits
    Mimic,
    /// Transform
    Transform,
}

/// What one fight takes from one slot.
#[derive(Debug)]
pub struct SlotSpend {
    pub slot: usize,
    pub move_name: String,
    pub pp: i64,
    pub turns: i64,
    pub pressure: bool,
    pub kind: SpendKind,
}

pub open spec fn hits_word(turns: int) -> Seq<char> {
    if turns == 1 {
        "hit"@
    } else {
        "hits"@
    }
}

/// What a spend did: `Tackle, 3 hits`, `Swords Dance ×2`, ...
pub open spec fn spend_what(move_name: Seq<char>, turns: int, kind: SpendKind) -> Seq<char> {
    match kind {
        SpendKind::Ko => move_name + ", "@ + int_text(turns) + " "@ + hits_word(turns),
        SpendKind::Setup => move_name + " ×"@ + int_text(turns),
        SpendKind::Mimic => "Mimic, "@ + int_text(turns) + " "@ + hits_word(turns),
        SpendKind::Transform => "Transform"@,
    }
}

/// The notes after what: a locked-in move spends more than one PP a turn,
/// Pressure doubles the spend.
pub open spec fn spend_extra(pp: int, turns: int, pressure: bool, kind: SpendKind) -> Seq<char> {
    let per_turn = if pressure { 2 * turns } else { turns };
    let locked = kind == SpendKind::Ko && pp != per_turn;
    if locked && pressure {
        ", locked, Pressure"@
    } else if locked {
        ", locked"@
    } else if pressure {
        ", Pressure"@
    } else {
        Seq::empty()
    }
}

/// The history line of a spend: `Brock (Tackle, 3 hits, Pressure)`.
pub open spec fn spend_line(event: Seq<char>, s: (Seq<char>, int, int, bool, SpendKind)) -> Seq<char> {
    event + " ("@ + spend_what(s.0, s.2, s.4) + spend_extra(s.1, s.2, s.3, s.4) + ")"@
}

pub open spec fn spend_fields(s: SlotSpend) -> (Seq<char>, int, int, bool, SpendKind) {
    (s.move_name@, s.pp as int, s.turns as int, s.pressure, s.kind)
}

/// The history line `pay` writes for a spend.
pub fn spend_text(s: &SlotSpend, event: &str) -> (r: String)
    requires
        s.pressure ==> i64::MIN <= 2 * s.turns <= i64::MAX,
    ensures
        r@ == spend_line(event@, spend_fields(*s)),
{
    let mut out = String::from_str(event);
    out.append(" (");
    let hits = if s.turns == 1 { "hit" } else { "hits" };
    match s.kind {
        SpendKind::Ko => {
            out.append(s.move_name.as_str());
            out.append(", ");
            out.append(i64_text(s.turns).as_str());
            out.append(" ");
            out.append(hits);
        },
        SpendKind::Setup => {
            out.append(s.move_name.as_str());
            out.append(" ×");
            out.append(i64_text(s.turns).as_str());
        },
        SpendKind::Mimic => {
            out.append("Mimic, ");
            out.append(i64_text(s.turns).as_str());
            out.append(" ");
            out.append(hits);
        },
        SpendKind::Transform => {
            out.append("Transform");
        },
    }
    let per_turn: i64 = if s.pressure { 2 * s.turns } else { s.turns };
    let locked = s.kind == SpendKind::Ko && s.pp != per_turn;
    if locked && s.pressure {
        out.append(", locked, Pressure");
    } else if locked {
        out.append(", locked");
    } else if s.pressure {
        out.append(", Pressure");
    }
    out.append(")");
    proof {
        let w = spend_what(s.move_name@, s.turns as int, s.kind);
        let e = spend_extra(s.pp as int, s.turns as int, s.pressure, s.kind);
        assert(out@ == event@ + " ("@ + w + e + ")"@);
    }
    out
}

// ---------------------------------------------------------------------------
// the Pre-Event State banner
// ---------------------------------------------------------------------------

/// `{move} is at {pp} PP before this event: heal first`
pub open spec fn empty_slot_line(move_name: Seq<char>, cur: int) -> Seq<char> {
    move_name + " is at "@ + pp_text(cur) + " PP before this event: heal first"@
}

/// `This {fight|matchup} needs {move} ×{n}, but it has {cur} PP left`
pub open spec fn short_slot_line(matchup: bool, move_name: Seq<char>, need: int, cur: int) -> Seq<char> {
    "This "@ + (if matchup { "matchup"@ } else { "fight"@ }) + " needs "@ + move_name + " ×"@
        + int_text(need) + ", but it has "@ + int_text(cur) + " PP left"@
}

/// The banner lines of a snapshot, in order: first every slot at zero or
/// below, then every slot the spend overdraws, then the notes.
pub open spec fn banner_lines(
    snap: Seq<Option<SlotPp>>,
    spend: Option<Seq<i64>>,
    matchup: bool,
    notes: Seq<Seq<char>>,
) -> Seq<Seq<char>> {
    empty_lines(snap, snap.len() as int) + short_lines(snap, spend, matchup, snap.len() as int)
        + notes
}

pub open spec fn empty_lines(snap: Seq<Option<SlotPp>>, k: int) -> Seq<Seq<char>>
    decreases k,
{
    if k <= 0 {
        Seq::empty()
    } else {
        let prev = empty_lines(snap, k - 1);
        match snap[k - 1] {
            Some(s) => if s.cur <= 0 {
                prev.push(empty_slot_line(s.move_name@, s.cur as int))
            } else {
                prev
            },
            None => prev,
        }
    }
}

/// Every move at zero PP or below before an event gets its warning: for
/// each tracked slot whose current PP is at most 0, the banner holds
/// `<move> is at <pp> PP before this event: heal first`.
pub proof fn law_empty_moves_are_warned(
    snap: Seq<Option<SlotPp>>,
    spend: Option<Seq<i64>>,
    matchup: bool,
    notes: Seq<Seq<char>>,
    k: int,
)
    requires
        0 <= k < snap.len(),
        snap[k] is Some,
        snap[k]->0.cur <= 0,
    ensures
        banner_lines(snap, spend, matchup, notes).contains(
            snap[k]->0.move_name@ + " is at "@ + pp_text(snap[k]->0.cur as int) + " PP before this event: heal first"@,
        ),
{
    lemma_empty_line_kept(snap, k, snap.len() as int);
    let e = empty_lines(snap, snap.len() as int);
    let line = snap[k]->0.move_name@ + " is at "@ + pp_text(snap[k]->0.cur as int) + " PP before this event: heal first"@;
    let i = choose|i: int| 0 <= i < e.len() && e[i] == line;
    let all = banner_lines(snap, spend, matchup, notes);
    assert(all[i] == e[i]);
}

proof fn lemma_empty_line_kept(snap: Seq<Option<SlotPp>>, k: int, n: int)
    requires
        0 <= k < n <= snap.len(),
        snap[k] is Some,
        snap[k]->0.cur <= 0,
    ensures
        empty_lines(snap, n).contains(
            snap[k]->0.move_name@ + " is at "@ + pp_text(snap[k]->0.cur as int) + " PP before this event: heal first"@,
        ),
    decreases n,
{
    let line = snap[k]->0.move_name@ + " is at "@ + pp_text(snap[k]->0.cur as int) + " PP before this event: heal first"@;
    let prev = empty_lines(snap, n - 1);
    if k == n - 1 {
        assert(empty_lines(snap, n) == prev.push(line));
        assert(empty_lines(snap, n)[prev.len() as int] == line);
    } else {
        lemma_empty_line_kept(snap, k, n - 1);
        let i = choose|i: int| 0 <= i < prev.len() && prev[i] == line;
        assert(empty_lines(snap, n)[i] == line);
    }
}

pub open spec fn short_lines(
    snap: Seq<Option<SlotPp>>,
    spend: Option<Seq<i64>>,
    matchup: bool,
    k: int,
) -> Seq<Seq<char>>
    decreases k,
{
    if k <= 0 {
        Seq::empty()
    } else {
        let prev = short_lines(snap, spend, matchup, k - 1);
        match (snap[k - 1], spend) {
            (Some(s), Some(sp)) => if k - 1 < sp.len() && sp[k - 1] > 0 && s.cur > 0 && sp[k - 1]
                > s.cur {
                prev.push(short_slot_line(matchup, s.move_name@, sp[k - 1] as int, s.cur as int))
            } else {
                prev
            },
            _ => prev,
        }
    }
}

/// The Pre-Event State banner lines for an event whose
/// snapshot is `snap`, whose fight (a group, or one `matchup` item) spends
/// `spend` per slot, and whose notes are `notes`.
pub fn banner_messages(snap: &PpSnapshot, spend: Option<[i64; 4]>, matchup: bool, notes: &Vec<String>) -> (r: Vec<String>)
    requires
        forall|k: int| 0 <= k < 4 ==> (#[trigger] snap.slots@[k] matches Some(s) ==> s.cur > i64::MIN),
    ensures
        r.deep_view() == banner_lines(
            snap.slots@,
            match spend {
                Some(a) => Some(a@),
                None => None,
            },
            matchup,
            notes.deep_view(),
        ),
{
    let ghost sp = match spend {
        Some(a) => Some(a@),
        None => None,
    };
    let mut out: Vec<String> = Vec::new();
    let mut k: usize = 0;
    while k < 4
        invariant
            k <= 4,
            snap.slots@.len() == 4,
            forall|t: int| 0 <= t < 4 ==> (#[trigger] snap.slots@[t] matches Some(s) ==> s.cur > i64::MIN),
            out.deep_view() == empty_lines(snap.slots@, k as int),
        decreases 4 - k,
    {
        match &snap.slots[k] {
            Some(s) => {
                if s.cur <= 0 {
                    let mut line = String::from_str(s.move_name.as_str());
                    line.append(" is at ");
                    line.append(fmt_pp(s.cur).as_str());
                    line.append(" PP before this event: heal first");
                    out.push(line);
                }
            },
            None => {},
        }
        k = k + 1;
    }
    let ghost first = out.deep_view();
    k = 0;
    while k < 4
        invariant
            k <= 4,
            snap.slots@.len() == 4,
            sp == match spend {
                Some(a) => Some(a@),
                None => None::<Seq<i64>>,
            },
            out.deep_view() == first + short_lines(snap.slots@, sp, matchup, k as int),
        decreases 4 - k,
    {
        if let (Some(s), Some(a)) = (&snap.slots[k], spend) {
            let n = a[k];
            if n > 0 && s.cur > 0 && n > s.cur {
                let mut line = String::from_str("This ");
                line.append(if matchup { "matchup" } else { "fight" });
                line.append(" needs ");
                line.append(s.move_name.as_str());
                line.append(" ×");
                line.append(i64_text(n).as_str());
                line.append(", but it has ");
                line.append(i64_text(s.cur).as_str());
                line.append(" PP left");
                proof {
                    assert(a@[k as int] == n);
                    assert(line@ == short_slot_line(matchup, s.move_name@, n as int, s.cur as int));
                }
                let ghost before = out.deep_view();
                out.push(line);
                proof {
                    assert(out.deep_view() == before.push(line@));
                    assert(short_lines(snap.slots@, sp, matchup, (k + 1) as int) == short_lines(
                        snap.slots@,
                        sp,
                        matchup,
                        k as int,
                    ).push(line@));
                    assert(out.deep_view() == first + short_lines(snap.slots@, sp, matchup, (k + 1) as int));
                }
            } else {
                assert(a@[k as int] == n);
            }
        }
        k = k + 1;
    }
    let ghost second = out.deep_view();
    let mut t: usize = 0;
    while t < notes.len()
        invariant
            t <= notes.len(),
            out.deep_view() == second + notes.deep_view().subrange(0, t as int),
        decreases notes.len() - t,
    {
        let ghost before = out.deep_view();
        let c = notes[t].clone();
        out.push(c);
        assert(out.deep_view() == before.push(c@));
        assert(notes.deep_view().subrange(0, t + 1) == notes.deep_view().subrange(0, t as int).push(
            notes.deep_view()[t as int],
        ));
        t = t + 1;
    }
    assert(notes.deep_view().subrange(0, notes.len() as int) == notes.deep_view());
    out
}

} // verus!
