//! The four move slots the PP ledger walks the route with, and the rules
//! that change them: a refill, a fight's spend, a PP item, a PP Up and a
//! newly learned move. Every change is logged in the slot's history; a
//! refill or a learn starts a new history window.

use vstd::prelude::*;

use crate::pp_ledger::{pp_text, fmt_pp, PpChange, PpSnapshot, SlotPp};
use crate::text::{decimal_digits, i64_text, int_text};

verus! {

/// The largest PP the walk works with; every count stays well inside `i64`.
pub const PP_LIMIT: i64 = 1_000_000_000_000;

/// A slot the walk is tracking: the move in it, its current PP and where
/// its history window starts in the slot's log.
#[derive(Debug)]
pub struct TrackedSlot {
    pub move_name: String,
    pub cur: i64,
    pub log_start: usize,
}

/// How much a PP item restores per use.
#[derive(Clone, Copy, Debug, PartialEq, Eq, Structural)]
pub enum PpAmount {
    Points(u32),
    Full,
}

/// What a PP item does.
#[derive(Clone, Copy, Debug, PartialEq, Eq, Structural)]
pub enum PpItemEffect {
    /// an Ether: one move
    RestoreOne(PpAmount),
    /// an Elixir: every move
    RestoreAll(PpAmount),
    PpUp,
    PpMax,
}

/// One use of a PP item on a slot at `v` PP whose maximum is `max`.
pub open spec fn restore_step(v: int, max: int, a: PpAmount) -> int {
    match a {
        PpAmount::Points(n) => if v + n < max {
            v + n
        } else {
            max
        },
        PpAmount::Full => max,
    }
}

/// `times` uses in a row.
pub open spec fn restored(v: int, max: int, a: PpAmount, times: nat) -> int
    decreases times,
{
    if times == 0 {
        v
    } else {
        restore_step(restored(v, max, a, (times - 1) as nat), max, a)
    }
}

/// `Ether x2` and the like.
pub open spec fn use_label(item: Seq<char>, amount: int) -> Seq<char> {
    item + " x"@ + int_text(amount)
}

/// The note for a PP item used on a full move.
pub open spec fn already_full_note(move_name: Seq<char>, item: Seq<char>) -> Seq<char> {
    move_name + " was already full; the game would refuse this "@ + item
}

/// The history line a PP Up writes.
pub open spec fn pp_up_line(item: Seq<char>, delta: int) -> Seq<char> {
    item + " (max +"@ + int_text(delta) + ")"@
}

/// The history line that starts a learned move's window.
pub open spec fn learned_line(new_move: Seq<char>, old: Option<(Seq<char>, int)>) -> Seq<char> {
    match old {
        Some((old_move, kept)) => "Learned "@ + new_move + " over "@ + old_move + " (kept "@ + pp_text(
            kept,
        ) + " PP)"@,
        None => "Learned "@ + new_move,
    }
}

pub struct PpSlots {
    pub slots: Vec<Option<TrackedSlot>>,
    pub logs: Vec<Vec<PpChange>>,
}

impl PpSlots {
    /// Four slots, four logs, and every tracked slot's window starts inside
    /// its log.
    pub open spec fn wf(&self) -> bool {
        &&& self.slots.len() == 4
        &&& self.logs.len() == 4
        &&& forall|k: int|
            0 <= k < 4 ==> (#[trigger] self.slots@[k] matches Some(s) ==> s.log_start
                < self.logs@[k].len() && -PP_LIMIT <= s.cur <= PP_LIMIT)
    }

    pub open spec fn cur(&self, k: int) -> Option<int> {
        match self.slots@[k] {
            Some(s) => Some(s.cur as int),
            None => None,
        }
    }

    /// Where slot `k`'s history window starts in its log.
    pub open spec fn window_of(&self, k: int) -> Option<int> {
        match self.slots@[k] {
            Some(s) => Some(s.log_start as int),
            None => None,
        }
    }

    pub open spec fn move_of(&self, k: int) -> Option<Seq<char>> {
        match self.slots@[k] {
            Some(s) => Some(s.move_name@),
            None => None,
        }
    }

    /// No slot tracked, nothing logged.
    pub fn new() -> (r: PpSlots)
        ensures
            r.wf(),
            forall|k: int| 0 <= k < 4 ==> r.slots@[k] is None && r.logs@[k].len() == 0,
    {
        let mut slots: Vec<Option<TrackedSlot>> = Vec::new();
        let mut logs: Vec<Vec<PpChange>> = Vec::new();
        slots.push(None);
        slots.push(None);
        slots.push(None);
        slots.push(None);
        logs.push(Vec::new());
        logs.push(Vec::new());
        logs.push(Vec::new());
        logs.push(Vec::new());
        PpSlots { slots, logs }
    }

    /// Start a new window for `slot` with `text` (a refill or a learn).
    fn restart_log(&mut self, slot: usize, text: String) -> (start: usize)
        requires
            old(self).logs.len() == 4,
            slot < 4,
        ensures
            final(self).slots@ == old(self).slots@,
            final(self).logs.len() == 4,
            final(self).logs@[slot as int]@ == old(self).logs@[slot as int]@.push(
                PpChange { amount: None, text },
            ),
            forall|k: int| 0 <= k < 4 && k != slot ==> final(self).logs@[k] == old(self).logs@[k],
            start + 1 == final(self).logs@[slot as int].len(),
    {
        self.logs[slot].push(PpChange { amount: None, text });
        self.logs[slot].len() - 1
    }

    fn log(&mut self, slot: usize, amount: i64, text: String)
        requires
            old(self).logs.len() == 4,
            slot < 4,
        ensures
            final(self).slots@ == old(self).slots@,
            final(self).logs.len() == 4,
            final(self).logs@[slot as int]@ == old(self).logs@[slot as int]@.push(
                PpChange { amount: Some(amount), text },
            ),
            forall|k: int| 0 <= k < 4 && k != slot ==> final(self).logs@[k] == old(self).logs@[k],
    {
        self.logs[slot].push(PpChange { amount: Some(amount), text });
    }

    /// The route's starting moves, all full: slot `k` tracks `moves[k]` at
    /// `maxes[k]` PP.
    pub fn start(&mut self, moves: &Vec<Option<String>>, maxes: &Vec<i64>)
        requires
            old(self).wf(),
            moves.len() == 4,
            maxes.len() == 4,
            forall|k: int| 0 <= k < 4 ==> -PP_LIMIT <= #[trigger] maxes@[k] <= PP_LIMIT,
        ensures
            final(self).wf(),
            forall|k: int|
                0 <= k < 4 ==> final(self).cur(k) == (match moves@[k] {
                    Some(_) => Some(maxes@[k] as int),
                    None => None,
                }) && final(self).move_of(k) == (match moves@[k] {
                    Some(m) => Some(m@),
                    None => None,
                }),
            forall|k: int|
                #![trigger final(self).logs@[k]]
                0 <= k < 4 ==> if moves@[k] is Some {
                    &&& final(self).logs@[k]@.drop_last() == old(self).logs@[k]@
                    &&& final(self).logs@[k]@.len() == old(self).logs@[k]@.len() + 1
                    &&& final(self).logs@[k]@.last().amount is None
                    &&& final(self).logs@[k]@.last().text@ == "Full at the start of the route"@
                } else {
                    final(self).logs@[k] == old(self).logs@[k]
                },
            forall|k: int|
                #![trigger final(self).window_of(k)]
                0 <= k < 4 ==> final(self).window_of(k) == (if moves@[k] is Some {
                    Some(old(self).logs@[k]@.len() as int)
                } else {
                    None
                }),
    {
        let ghost start = *self;
        let mut k: usize = 0;
        while k < 4
            invariant
                self.wf(),
                k <= 4,
                moves.len() == 4,
                maxes.len() == 4,
                forall|t: int|
                    #![trigger self.window_of(t)]
                    0 <= t < k ==> self.window_of(t) == (if moves@[t] is Some {
                        Some(start.logs@[t]@.len() as int)
                    } else {
                        None
                    }),
                forall|t: int| 0 <= t < 4 ==> -PP_LIMIT <= #[trigger] maxes@[t] <= PP_LIMIT,
                forall|t: int|
                    0 <= t < k ==> self.cur(t) == (match moves@[t] {
                        Some(_) => Some(maxes@[t] as int),
                        None => None,
                    }) && self.move_of(t) == (match moves@[t] {
                        Some(m) => Some(m@),
                        None => None,
                    }),
                forall|t: int| k <= t < 4 ==> self.logs@[t] == start.logs@[t],
                forall|t: int|
                    #![trigger self.logs@[t]]
                    0 <= t < k ==> if moves@[t] is Some {
                        &&& self.logs@[t]@.drop_last() == start.logs@[t]@
                        &&& self.logs@[t]@.len() == start.logs@[t]@.len() + 1
                        &&& self.logs@[t]@.last().amount is None
                        &&& self.logs@[t]@.last().text@ == "Full at the start of the route"@
                    } else {
                        self.logs@[t] == start.logs@[t]
                    },
            decreases 4 - k,
        {
            let ghost prev = *self;
            match &moves[k] {
                Some(m) => {
                    let log_start = self.restart_log(k, String::from_str("Full at the start of the route"));
                    self.slots.set(k, Some(TrackedSlot { move_name: m.clone(), cur: maxes[k], log_start }));
                },
                None => {
                    self.slots.set(k, None);
                },
            }
            proof {
                lemma_other_slots_kept(prev, *self, k as int);
            }
            k = k + 1;
        }
    }

    /// The snapshot before an event and each tracked slot's history window
    /// (`record`); `maxes` and `pp_ups` are the mon's at that point.
    pub fn record(&self, maxes: &Vec<i64>, pp_ups: &Vec<u8>) -> (r: (PpSnapshot, Vec<(usize, usize)>))
        requires
            self.wf(),
            maxes.len() == 4,
            pp_ups.len() == 4,
        ensures
            r.1.len() == 4,
            forall|k: int|
                #![trigger r.0.slots@[k]]
                0 <= k < 4 ==> match self.slots@[k] {
                    Some(s) => r.0.slots@[k] matches Some(p) && p.move_name@ == s.move_name@ && p.cur
                        == s.cur && p.max == maxes@[k] && p.pp_ups == pp_ups@[k] && r.1@[k] == (
                        s.log_start,
                        self.logs@[k].len(),
                    ),
                    None => r.0.slots@[k] is None && r.1@[k] == (0usize, 0usize),
                },
    {
        let mut snap = PpSnapshot::default();
        let mut window: Vec<(usize, usize)> = Vec::new();
        let mut k: usize = 0;
        while k < 4
            invariant
                self.wf(),
                k <= 4,
                maxes.len() == 4,
                pp_ups.len() == 4,
                window.len() == k,
                forall|t: int| k <= t < 4 ==> snap.slots@[t] is None,
                forall|t: int|
                    #![trigger snap.slots@[t]]
                    0 <= t < k ==> match self.slots@[t] {
                        Some(s) => snap.slots@[t] matches Some(p) && p.move_name@ == s.move_name@
                            && p.cur == s.cur && p.max == maxes@[t] && p.pp_ups == pp_ups@[t]
                            && window@[t] == (s.log_start, self.logs@[t].len()),
                        None => snap.slots@[t] is None && window@[t] == (0usize, 0usize),
                    },
            decreases 4 - k,
        {
            match &self.slots[k] {
                Some(s) => {
                    snap.slots[k] = Some(
                        SlotPp {
                            move_name: s.move_name.clone(),
                            cur: s.cur,
                            max: maxes[k],
                            pp_ups: pp_ups[k],
                        },
                    );
                    window.push((s.log_start, self.logs[k].len()));
                },
                None => {
                    window.push((0, 0));
                },
            }
            k = k + 1;
        }
        (snap, window)
    }

    /// A heal or a blackout: every tracked slot is full again and starts a
    /// new window `Full at {label}`.
    pub fn refill(&mut self, maxes: &Vec<i64>, label: &str)
        requires
            old(self).wf(),
            maxes.len() == 4,
            forall|k: int| 0 <= k < 4 ==> -PP_LIMIT <= #[trigger] maxes@[k] <= PP_LIMIT,
        ensures
            final(self).wf(),
            forall|k: int|
                0 <= k < 4 ==> final(self).move_of(k) == old(self).move_of(k) && final(self).cur(k)
                    == (match old(self).cur(k) {
                    Some(_) => Some(maxes@[k] as int),
                    None => None,
                }),
            forall|k: int|
                0 <= k < 4 ==> final(self).logs@[k]@ == (if old(self).slots@[k] is Some {
                    old(self).logs@[k]@.push(
                        PpChange { amount: None, text: final(self).logs@[k]@.last().text },
                    )
                } else {
                    old(self).logs@[k]@
                }),
            forall|k: int|
                0 <= k < 4 && old(self).slots@[k] is Some ==> final(self).logs@[k]@.last().text@
                    == "Full at "@ + label@,
            forall|k: int|
                #![trigger final(self).window_of(k)]
                0 <= k < 4 ==> final(self).window_of(k) == (match old(self).window_of(k) {
                    Some(_) => Some(old(self).logs@[k]@.len() as int),
                    None => None,
                }),
    {
        let ghost start = *self;
        let mut k: usize = 0;
        while k < 4
            invariant
                self.wf(),
                k <= 4,
                maxes.len() == 4,
                start.wf(),
                forall|t: int| 0 <= t < 4 ==> -PP_LIMIT <= #[trigger] maxes@[t] <= PP_LIMIT,
                forall|t: int|
                    k <= t < 4 ==> self.slots@[t] == start.slots@[t] && self.logs@[t]
                        == start.logs@[t],
                forall|t: int|
                    0 <= t < k ==> self.move_of(t) == start.move_of(t) && self.cur(t) == (
                    match start.cur(t) {
                        Some(_) => Some(maxes@[t] as int),
                        None => None,
                    }),
                forall|t: int|
                    0 <= t < k ==> self.logs@[t]@ == (if start.slots@[t] is Some {
                        start.logs@[t]@.push(
                            PpChange { amount: None, text: self.logs@[t]@.last().text },
                        )
                    } else {
                        start.logs@[t]@
                    }),
                forall|t: int|
                    0 <= t < k && start.slots@[t] is Some ==> self.logs@[t]@.last().text@
                        == "Full at "@ + label@,
                forall|t: int|
                    #![trigger self.window_of(t)]
                    0 <= t < k ==> self.window_of(t) == (match start.window_of(t) {
                        Some(_) => Some(start.logs@[t]@.len() as int),
                        None => None,
                    }),
            decreases 4 - k,
        {
            let ghost prev = *self;
            if self.slots[k].is_some() {
                let mut text = String::from_str("Full at ");
                text.append(label);
                let log_start = self.restart_log(k, text);
                let name = match &self.slots[k] {
                    Some(s) => s.move_name.clone(),
                    None => String::new(),
                };
                self.slots.set(k, Some(TrackedSlot { move_name: name, cur: maxes[k], log_start }));
            }
            proof {
                lemma_other_slots_kept(prev, *self, k as int);
            }
            k = k + 1;
        }
    }

    /// `pay`: a fight spends `pp` of `slot` and logs `-pp` with `text`; a
    /// spend of nothing, or on an empty slot, changes nothing.
    pub fn pay(&mut self, slot: usize, pp: i64, text: String)
        requires
            old(self).wf(),
            0 <= pp <= PP_LIMIT,
            slot < 4 ==> (old(self).cur(slot as int) matches Some(c) ==> c - pp >= -PP_LIMIT),
        ensures
            final(self).wf(),
            forall|k: int|
                0 <= k < 4 ==> final(self).move_of(k) == old(self).move_of(k) && final(self).cur(k)
                    == (if k == slot && pp != 0 {
                    match old(self).cur(k) {
                        Some(c) => Some(c - pp),
                        None => None,
                    }
                } else {
                    old(self).cur(k)
                }),
            forall|k: int|
                0 <= k < 4 ==> final(self).logs@[k]@ == (if k == slot && pp != 0 && old(
                    self,
                ).slots@[k] is Some {
                    old(self).logs@[k]@.push(PpChange { amount: Some((-pp) as i64), text })
                } else {
                    old(self).logs@[k]@
                }),
            forall|k: int| #![trigger final(self).window_of(k)] 0 <= k < 4 ==> final(self).window_of(k) == old(self).window_of(k),
    {
        if pp == 0 || slot >= 4 {
            return;
        }
        let Some(s) = &self.slots[slot] else { return };
        let updated = TrackedSlot { move_name: s.move_name.clone(), cur: s.cur - pp, log_start: s.log_start };
        self.slots.set(slot, Some(updated));
        self.log(slot, -pp, text);
    }

    /// A PP Up or PP Max on `slot`: its maximum rose by `delta`, and so does
    /// its current PP; the line is logged even when the slot is empty.
    pub fn pp_up(&mut self, slot: usize, delta: i64, item_name: &str)
        requires
            old(self).wf(),
            slot < 4,
            0 <= delta <= PP_LIMIT,
            old(self).cur(slot as int) matches Some(c) ==> c + delta <= PP_LIMIT,
        ensures
            final(self).wf(),
            forall|k: int|
                0 <= k < 4 ==> final(self).move_of(k) == old(self).move_of(k) && final(self).cur(k)
                    == (if k == slot {
                    match old(self).cur(k) {
                        Some(c) => Some(c + delta),
                        None => None,
                    }
                } else {
                    old(self).cur(k)
                }),
            forall|k: int|
                0 <= k < 4 && k != slot ==> final(self).logs@[k] == old(self).logs@[k],
            final(self).logs@[slot as int]@.drop_last() == old(self).logs@[slot as int]@,
            final(self).logs@[slot as int]@.len() == old(self).logs@[slot as int]@.len() + 1,
            final(self).logs@[slot as int]@.last().amount == Some(delta),
            final(self).logs@[slot as int]@.last().text@ == pp_up_line(item_name@, delta as int),
            forall|k: int| #![trigger final(self).window_of(k)] 0 <= k < 4 ==> final(self).window_of(k) == old(self).window_of(k),
    {
        if let Some(s) = &self.slots[slot] {
            let updated = TrackedSlot { move_name: s.move_name.clone(), cur: s.cur + delta, log_start: s.log_start };
            self.slots.set(slot, Some(updated));
        }
        let mut text = String::from_str(item_name);
        text.append(" (max +");
        text.append(i64_text(delta).as_str());
        text.append(")");
        self.log(slot, delta, text);
    }
}

/// `times` uses of `amount` starting at `cur`, each capped at `max`.
pub fn restore_times(cur: i64, max: i64, amount: PpAmount, times: i64) -> (r: i64)
    requires
        -PP_LIMIT <= cur < max <= PP_LIMIT,
    ensures
        r == restored(cur as int, max as int, amount, if times < 0 { 0nat } else { times as nat }),
        cur <= r <= max,
{
    let mut new = cur;
    let mut k: i64 = 0;
    let n: i64 = if times < 0 { 0 } else { times };
    while k < n
        invariant
            0 <= k <= n,
            n == (if times < 0 { 0 } else { times }),
            -PP_LIMIT <= cur < max <= PP_LIMIT,
            new == restored(cur as int, max as int, amount, k as nat),
            cur <= new <= max,
        decreases n - k,
    {
        new = match amount {
            PpAmount::Points(p) => if new + (p as i64) < max {
                new + (p as i64)
            } else {
                max
            },
            PpAmount::Full => max,
        };
        k = k + 1;
    }
    new
}

/// Restoring never goes past the maximum, and `k` uses of an item worth
/// `n` points leave the move at `min(cur + k·n, max)`.
pub proof fn law_restore_closed_form(cur: int, max: int, n: u32, times: nat)
    requires
        cur <= max,
    ensures
        restored(cur, max, PpAmount::Points(n), times) == if cur + times * n < max {
            cur + times * n
        } else {
            max
        },
    decreases times,
{
    if times > 0 {
        let t1 = (times - 1) as nat;
        law_restore_closed_form(cur, max, n, t1);
        assert(t1 * n + n == times * n) by (nonlinear_arith)
            requires
                t1 + 1 == times,
        ;
        assert(t1 * n >= 0) by (nonlinear_arith);
        assert(restored(cur, max, PpAmount::Points(n), times) == restore_step(
            restored(cur, max, PpAmount::Points(n), t1),
            max,
            PpAmount::Points(n),
        ));
    } else {
        assert(times * n == 0) by (nonlinear_arith)
            requires
                times == 0,
        ;
    }
}

/// One use of a full restore (an Ether of the full kind, a Max Elixir)
/// fills the move, whatever it was at.
pub proof fn law_full_restore_fills(cur: int, max: int, times: nat)
    requires
        times >= 1,
    ensures
        restored(cur, max, PpAmount::Full, times) == max,
{
}

impl PpSlots {
    /// A PP restore used on the mon: each targeted slot that is below its
    /// maximum gets `times` uses and logs the gain under `Item xN`; a
    /// targeted slot already full is left alone and noted. A PP Up or PP
    /// Max restores nothing here (its rise comes from the mon's PP Ups).
    pub fn use_pp_item(
        &mut self,
        effect: PpItemEffect,
        target: Option<usize>,
        maxes: &Vec<i64>,
        item_name: &str,
        times: i64,
        notes: &mut Vec<String>,
    )
        requires
            old(self).wf(),
            maxes.len() == 4,
            forall|k: int| 0 <= k < 4 ==> -PP_LIMIT <= #[trigger] maxes@[k] <= PP_LIMIT,
            target matches Some(t) ==> t < 4,
        ensures
            final(self).wf(),
            forall|k: int|
                #![trigger final(self).cur(k)]
                0 <= k < 4 ==> final(self).move_of(k) == old(self).move_of(k) && final(self).cur(k)
                    == (match old(self).cur(k) {
                    Some(c) => if restores(old(self).slots@, effect, target, maxes@, k) {
                        Some(restored(c, maxes@[k] as int, restore_amount(effect), use_count(times)))
                    } else {
                        Some(c)
                    },
                    None => None,
                }),
            forall|k: int|
                #![trigger final(self).logs@[k]]
                0 <= k < 4 ==> if restores(old(self).slots@, effect, target, maxes@, k) {
                    &&& final(self).logs@[k]@.drop_last() == old(self).logs@[k]@
                    &&& final(self).logs@[k]@.len() == old(self).logs@[k]@.len() + 1
                    &&& final(self).logs@[k]@.last().text@ == use_label(item_name@, times as int)
                    &&& final(self).logs@[k]@.last().amount matches Some(gain) && old(self).cur(k)
                        matches Some(c) && gain == restored(
                        c,
                        maxes@[k] as int,
                        restore_amount(effect),
                        use_count(times),
                    ) - c
                } else {
                    final(self).logs@[k] == old(self).logs@[k]
                },
            final(notes)@.map_values(|n: String| n@) == old(notes)@.map_values(|n: String| n@)
                + refused_notes(old(self).slots@, effect, target, maxes@, item_name@, 4),
            forall|k: int| #![trigger final(self).window_of(k)] 0 <= k < 4 ==> final(self).window_of(k) == old(self).window_of(k),
    {
        let ghost start = *self;
        let ghost start_notes = notes@;
        let amount = match effect {
            PpItemEffect::RestoreOne(a) => a,
            PpItemEffect::RestoreAll(a) => a,
            _ => {
                proof {
                    lemma_no_refusals(start.slots@, effect, target, maxes@, item_name@, 4);
                    assert(notes@.map_values(|n: String| n@) =~= start_notes.map_values(|n: String| n@)
                        + refused_notes(start.slots@, effect, target, maxes@, item_name@, 4));
                }
                return;
            },
        };
        if let PpItemEffect::RestoreOne(_) = effect {
            if target.is_none() {
                proof {
                    lemma_no_refusals(start.slots@, effect, target, maxes@, item_name@, 4);
                    assert(notes@.map_values(|n: String| n@) =~= start_notes.map_values(|n: String| n@)
                        + refused_notes(start.slots@, effect, target, maxes@, item_name@, 4));
                }
                return;
            }
        }
        let mut label = String::from_str(item_name);
        label.append(" x");
        label.append(i64_text(times).as_str());
        let mut k: usize = 0;
        proof {
            assert(notes@.map_values(|n: String| n@) =~= start_notes.map_values(|n: String| n@)
                + refused_notes(start.slots@, effect, target, maxes@, item_name@, 0));
        }
        while k < 4
            invariant
                self.wf(),
                start.wf(),
                k <= 4,
                maxes.len() == 4,
                forall|t: int| 0 <= t < 4 ==> -PP_LIMIT <= #[trigger] maxes@[t] <= PP_LIMIT,
                amount == restore_amount(effect),
                effect is RestoreOne || effect is RestoreAll,
                effect is RestoreOne ==> target is Some,
                target matches Some(tt) ==> tt < 4,
                label@ == use_label(item_name@, times as int),
                notes@.map_values(|n: String| n@) == start_notes.map_values(|n: String| n@)
                    + refused_notes(start.slots@, effect, target, maxes@, item_name@, k as nat),
                forall|t: int|
                    k <= t < 4 ==> self.slots@[t] == start.slots@[t] && self.logs@[t]
                        == start.logs@[t],
                forall|t: int| #![trigger self.window_of(t)] 0 <= t < k ==> self.window_of(t) == start.window_of(t),
                forall|t: int|
                    #![trigger self.cur(t)]
                    0 <= t < k ==> self.move_of(t) == start.move_of(t) && self.cur(t) == (
                    match start.cur(t) {
                        Some(c) => if restores(start.slots@, effect, target, maxes@, t) {
                            Some(restored(c, maxes@[t] as int, amount, use_count(times)))
                        } else {
                            Some(c)
                        },
                        None => None,
                    }),
                forall|t: int|
                    #![trigger self.logs@[t]]
                    0 <= t < k ==> if restores(start.slots@, effect, target, maxes@, t) {
                        &&& self.logs@[t]@.drop_last() == start.logs@[t]@
                        &&& self.logs@[t]@.len() == start.logs@[t]@.len() + 1
                        &&& self.logs@[t]@.last().text@ == use_label(item_name@, times as int)
                        &&& self.logs@[t]@.last().amount matches Some(gain) && start.cur(t) matches Some(
                            c,
                        ) && gain == restored(c, maxes@[t] as int, amount, use_count(times)) - c
                    } else {
                        self.logs@[t] == start.logs@[t]
                    },
            decreases 4 - k,
        {
            let ghost prev = *self;
            let ghost prev_notes = notes@;
            let aimed = match effect {
                PpItemEffect::RestoreOne(_) => match target {
                    Some(t) => t == k,
                    None => false,
                },
                _ => true,
            };
            if aimed {
                if let Some(s) = &self.slots[k] {
                    let max = maxes[k];
                    if s.cur >= max {
                        let mut note = String::from_str(s.move_name.as_str());
                        note.append(" was already full; the game would refuse this ");
                        note.append(item_name);
                        notes.push(note);
                        proof {
                            assert(notes@.map_values(|n: String| n@) =~= prev_notes.map_values(
                                |n: String| n@,
                            ).push(note@));
                        }
                    } else {
                        let cur = s.cur;
                        let new = restore_times(cur, max, amount, times);
                        let updated = TrackedSlot { move_name: s.move_name.clone(), cur: new, log_start: s.log_start };
                        self.slots.set(k, Some(updated));
                        let t = label.clone();
                        self.log(k, new - cur, t);
                    }
                }
            }
            proof {
                lemma_other_slots_kept(prev, *self, k as int);
                assert(refused_notes(start.slots@, effect, target, maxes@, item_name@, (k + 1) as nat)
                    =~= refused_notes(start.slots@, effect, target, maxes@, item_name@, k as nat)
                    + refused_note(start.slots@, effect, target, maxes@, item_name@, k as int));
                assert(notes@.map_values(|n: String| n@) =~= start_notes.map_values(|n: String| n@)
                    + refused_notes(start.slots@, effect, target, maxes@, item_name@, (k + 1) as nat));
            }
            k = k + 1;
        }
    }

    /// `reconcile`: match the slots to the mon's move list `moves`. A slot
    /// whose move is unchanged keeps its PP; an emptied slot is dropped; a
    /// slot with a new move starts full, except that with `keep_old_pp` (a
    /// gen 5 TM/HM over a move) it keeps the old move's PP up to the new
    /// maximum.
    pub fn reconcile(&mut self, moves: &Vec<Option<String>>, maxes: &Vec<i64>, keep_old_pp: bool)
        requires
            old(self).wf(),
            moves.len() == 4,
            maxes.len() == 4,
            forall|k: int| 0 <= k < 4 ==> -PP_LIMIT <= #[trigger] maxes@[k] <= PP_LIMIT,
        ensures
            final(self).wf(),
            forall|k: int|
                0 <= k < 4 ==> final(self).move_of(k) == (match moves@[k] {
                    Some(m) => Some(m@),
                    None => None,
                }),
            forall|k: int|
                0 <= k < 4 ==> final(self).cur(k) == (match moves@[k] {
                    None => None,
                    Some(m) => if old(self).move_of(k) == Some(m@) {
                        old(self).cur(k)
                    } else {
                        match (keep_old_pp, old(self).cur(k)) {
                            (true, Some(c)) => Some(if c < maxes@[k] { c } else { maxes@[k] as int }),
                            _ => Some(maxes@[k] as int),
                        }
                    },
                }),
            forall|k: int|
                #![trigger final(self).logs@[k]]
                0 <= k < 4 ==> if learns(old(self).slots@, moves@, k) {
                    &&& final(self).logs@[k]@.drop_last() == old(self).logs@[k]@
                    &&& final(self).logs@[k]@.len() == old(self).logs@[k]@.len() + 1
                    &&& final(self).logs@[k]@.last().amount is None
                    &&& final(self).logs@[k]@.last().text@ == learned_line(
                        moves@[k]->0@,
                        kept_from(old(self).slots@[k], keep_old_pp, maxes@[k] as int),
                    )
                } else {
                    final(self).logs@[k] == old(self).logs@[k]
                },
            forall|k: int|
                #![trigger final(self).window_of(k)]
                0 <= k < 4 ==> final(self).window_of(k) == (match moves@[k] {
                    None => None,
                    Some(_) => if learns(old(self).slots@, moves@, k) {
                        Some(old(self).logs@[k]@.len() as int)
                    } else {
                        old(self).window_of(k)
                    },
                }),
    {
        let ghost start = *self;
        let mut k: usize = 0;
        while k < 4
            invariant
                self.wf(),
                start.wf(),
                k <= 4,
                moves.len() == 4,
                maxes.len() == 4,
                forall|t: int| 0 <= t < 4 ==> -PP_LIMIT <= #[trigger] maxes@[t] <= PP_LIMIT,
                forall|t: int|
                    #![trigger self.window_of(t)]
                    0 <= t < k ==> self.window_of(t) == (match moves@[t] {
                        None => None,
                        Some(_) => if learns(start.slots@, moves@, t) {
                            Some(start.logs@[t]@.len() as int)
                        } else {
                            start.window_of(t)
                        },
                    }),
                forall|t: int|
                    k <= t < 4 ==> self.slots@[t] == start.slots@[t] && self.logs@[t]
                        == start.logs@[t],
                forall|t: int|
                    #![trigger self.logs@[t]]
                    0 <= t < k ==> if learns(start.slots@, moves@, t) {
                        &&& self.logs@[t]@.drop_last() == start.logs@[t]@
                        &&& self.logs@[t]@.len() == start.logs@[t]@.len() + 1
                        &&& self.logs@[t]@.last().amount is None
                        &&& self.logs@[t]@.last().text@ == learned_line(
                            moves@[t]->0@,
                            kept_from(start.slots@[t], keep_old_pp, maxes@[t] as int),
                        )
                    } else {
                        self.logs@[t] == start.logs@[t]
                    },
                forall|t: int|
                    0 <= t < k ==> self.move_of(t) == (match moves@[t] {
                        Some(m) => Some(m@),
                        None => None,
                    }),
                forall|t: int|
                    0 <= t < k ==> self.cur(t) == (match moves@[t] {
                        None => None,
                        Some(m) => if start.move_of(t) == Some(m@) {
                            start.cur(t)
                        } else {
                            match (keep_old_pp, start.cur(t)) {
                                (true, Some(c)) => Some(
                                    if c < maxes@[t] {
                                        c
                                    } else {
                                        maxes@[t] as int
                                    },
                                ),
                                _ => Some(maxes@[t] as int),
                            }
                        },
                    }),
            decreases 4 - k,
        {
            let ghost prev = *self;
            match &moves[k] {
                None => {
                    self.slots.set(k, None);
                },
                Some(m) => {
                    let same = match &self.slots[k] {
                        Some(s) => s.move_name == *m,
                        None => false,
                    };
                    if !same {
                        let max = maxes[k];
                        let (cur, text) = match (&self.slots[k], keep_old_pp) {
                            (Some(o), true) => {
                                let kept = if o.cur < max { o.cur } else { max };
                                let mut t = String::from_str("Learned ");
                                t.append(m.as_str());
                                t.append(" over ");
                                t.append(o.move_name.as_str());
                                t.append(" (kept ");
                                t.append(fmt_pp(kept).as_str());
                                t.append(" PP)");
                                (kept, t)
                            },
                            _ => {
                                let mut t = String::from_str("Learned ");
                                t.append(m.as_str());
                                (max, t)
                            },
                        };
                        let log_start = self.restart_log(k, text);
                        self.slots.set(k, Some(TrackedSlot { move_name: m.clone(), cur, log_start }));
                    }
                },
            }
            proof {
                lemma_other_slots_kept(prev, *self, k as int);
            }
            k = k + 1;
        }
    }
}

/// A step of the walk that rewrote slot `k` alone left every other slot's
/// move and PP as they were.
proof fn lemma_other_slots_kept(a: PpSlots, b: PpSlots, k: int)
    requires
        a.slots@.len() == 4,
        b.slots@.len() == 4,
        0 <= k < 4,
        forall|t: int| 0 <= t < 4 && t != k ==> b.slots@[t] == a.slots@[t],
    ensures
        forall|t: int|
            #![trigger b.cur(t)]
            #![trigger b.move_of(t)]
            #![trigger b.window_of(t)]
            0 <= t < 4 && t != k ==> b.cur(t) == a.cur(t) && b.move_of(t) == a.move_of(t) && b.window_of(t)
                == a.window_of(t),
{
    assert forall|t: int| 0 <= t < 4 && t != k implies b.cur(t) == a.cur(t) && b.move_of(t)
        == a.move_of(t) && b.window_of(t) == a.window_of(t) by {
        assert(b.slots@[t] == a.slots@[t]);
    }
}

/// Whether `reconcile` puts a new move in slot `k`: the mon has a move
/// there that the slot does not track.
pub open spec fn learns(slots: Seq<Option<TrackedSlot>>, moves: Seq<Option<String>>, k: int) -> bool {
    match moves[k] {
        Some(m) => !(slots[k] matches Some(s) && s.move_name@ == m@),
        None => false,
    }
}

/// The old move and the PP it passes on when a machine teaches a move over
/// it with `keep` (the gen 5 rule); `None` when the new move starts full.
pub open spec fn kept_from(old: Option<TrackedSlot>, keep: bool, max: int) -> Option<(Seq<char>, int)> {
    match old {
        Some(o) => if keep {
            Some((o.move_name@, if o.cur < max { o.cur as int } else { max }))
        } else {
            None
        },
        None => None,
    }
}

/// How many times an item is applied: its amount, or none when negative.
pub open spec fn use_count(times: i64) -> nat {
    if times < 0 {
        0nat
    } else {
        times as nat
    }
}

/// Whether a PP item restores slot `k`: the slot is targeted, tracked and
/// below its maximum.
pub open spec fn restores(
    slots: Seq<Option<TrackedSlot>>,
    effect: PpItemEffect,
    target: Option<usize>,
    maxes: Seq<i64>,
    k: int,
) -> bool {
    targets(effect, target, k) && (slots[k] matches Some(s) && s.cur < maxes[k])
}

/// The note slot `k` gets from a PP item: one when it is targeted, tracked
/// and already full.
pub open spec fn refused_note(
    slots: Seq<Option<TrackedSlot>>,
    effect: PpItemEffect,
    target: Option<usize>,
    maxes: Seq<i64>,
    item: Seq<char>,
    k: int,
) -> Seq<Seq<char>> {
    match slots[k] {
        Some(s) => if targets(effect, target, k) && s.cur >= maxes[k] {
            seq![already_full_note(s.move_name@, item)]
        } else {
            Seq::empty()
        },
        None => Seq::empty(),
    }
}

/// The notes of slots `0..n`, in slot order.
pub open spec fn refused_notes(
    slots: Seq<Option<TrackedSlot>>,
    effect: PpItemEffect,
    target: Option<usize>,
    maxes: Seq<i64>,
    item: Seq<char>,
    n: nat,
) -> Seq<Seq<char>>
    decreases n,
{
    if n == 0 {
        Seq::empty()
    } else {
        refused_notes(slots, effect, target, maxes, item, (n - 1) as nat) + refused_note(
            slots,
            effect,
            target,
            maxes,
            item,
            n - 1,
        )
    }
}

/// An item that targets nothing notes nothing.
proof fn lemma_no_refusals(
    slots: Seq<Option<TrackedSlot>>,
    effect: PpItemEffect,
    target: Option<usize>,
    maxes: Seq<i64>,
    item: Seq<char>,
    n: nat,
)
    requires
        forall|k: int| 0 <= k < n ==> !targets(effect, target, k),
    ensures
        refused_notes(slots, effect, target, maxes, item, n) == Seq::<Seq<char>>::empty(),
    decreases n,
{
    if n > 0 {
        lemma_no_refusals(slots, effect, target, maxes, item, (n - 1) as nat);
        assert(refused_note(slots, effect, target, maxes, item, n - 1) =~= Seq::<Seq<char>>::empty());
        assert(refused_notes(slots, effect, target, maxes, item, n) =~= Seq::<Seq<char>>::empty());
    }
}

/// Which slots a PP item acts on.
pub open spec fn targets(effect: PpItemEffect, target: Option<usize>, k: int) -> bool {
    match effect {
        PpItemEffect::RestoreOne(_) => target matches Some(t) && t as int == k,
        PpItemEffect::RestoreAll(_) => true,
        _ => false,
    }
}

/// Which slots a PP item restores (what `use_pp_item` applies): an item
/// for all moves (an Elixir) restores every tracked slot below its
/// maximum, whatever target is given; an item for one move (an Ether)
/// restores only the targeted slot, when tracked and below its maximum; a
/// PP Up or PP Max restores none.
pub proof fn law_pp_item_reach(
    slots: Seq<Option<TrackedSlot>>,
    effect: PpItemEffect,
    target: Option<usize>,
    maxes: Seq<i64>,
    k: int,
)
    requires
        0 <= k < slots.len(),
        k < maxes.len(),
    ensures
        effect is RestoreAll ==> (restores(slots, effect, target, maxes, k) <==> (slots[k] is Some
            && slots[k]->0.cur < maxes[k])),
        effect is RestoreOne ==> (restores(slots, effect, target, maxes, k) <==> (target matches Some(t) && t == k
            && slots[k] is Some && slots[k]->0.cur < maxes[k])),
        (effect is PpUp || effect is PpMax) ==> !restores(slots, effect, target, maxes, k),
{
}

/// The restore amount of a restoring effect.
pub open spec fn restore_amount(effect: PpItemEffect) -> PpAmount {
    match effect {
        PpItemEffect::RestoreOne(a) => a,
        PpItemEffect::RestoreAll(a) => a,
        _ => PpAmount::Full,
    }
}

// ---------------------------------------------------------------------------
// a group's walk
// ---------------------------------------------------------------------------

/// The note of a matchup whose spend carries a remark.
pub open spec fn matchup_note_spec(note: Seq<char>, enemy: Seq<char>) -> Seq<char> {
    "PP: "@ + note + " ("@ + enemy + ")"@
}

pub fn matchup_note(note: &str, enemy: &str) -> (r: String)
    ensures
        r@ == matchup_note_spec(note@, enemy@),
{
    let mut s = String::from_str("PP: ");
    s.append(note);
    s.append(" (");
    s.append(enemy);
    s.append(")");
    s
}

/// The note of a matchup whose spend could not be worked out.
pub fn unknown_spend_note() -> (r: String)
    ensures
        r@ == "PP: this matchup's spend could not be worked out"@,
{
    String::from_str("PP: this matchup's spend could not be worked out")
}

/// What a group's walk reads of one of its items for the fight
/// bookkeeping: its node, whether it has a state to walk from, whether it
/// is enabled, and whether it is a fight (it has a mon to defeat).
#[derive(Clone, Copy, Debug, PartialEq, Eq, Structural)]
pub struct GroupStep {
    pub id: u64,
    pub has_state: bool,
    pub enabled: bool,
    pub is_fight: bool,
}

/// A fight the walk counts: it has a state, it is enabled, it is a fight.
pub open spec fn counted(s: GroupStep) -> bool {
    s.has_state && s.enabled && s.is_fight
}

/// The fights counted among the first `i` items.
pub open spec fn fights_before(steps: Seq<GroupStep>, i: int) -> int
    decreases i,
{
    if i <= 0 {
        0
    } else {
        fights_before(steps, i - 1) + if counted(steps[i - 1]) {
            1int
        } else {
            0int
        }
    }
}

/// The first `n` matchup spends of a group added up on `slot`.
pub open spec fn spend_sum(spends: Seq<[i64; 4]>, n: int, slot: int) -> int
    decreases n,
{
    if n <= 0 {
        0
    } else {
        spend_sum(spends, n - 1, slot) + spends[n - 1][slot]
    }
}

/// The matchup spend an item gets: the counted fights take the group's
/// matchup spends in order (`None` within: a fight past the last known
/// spend); anything else gets none.
pub open spec fn fight_spend(steps: Seq<GroupStep>, spends: Seq<[i64; 4]>, i: int) -> Option<Option<[i64; 4]>> {
    if counted(steps[i]) {
        Some(
            if fights_before(steps, i) < spends.len() {
                Some(spends[fights_before(steps, i)])
            } else {
                None
            },
        )
    } else {
        None
    }
}

/// The fight bookkeeping of a group's walk: per item, the spend its fight
/// takes (see `fight_spend`), and the group's spend, the known spends of
/// its fights added slot by slot (`None` when it has no fight).
pub fn group_fight_spends(steps: &Vec<GroupStep>, spends: &Vec<[i64; 4]>) -> (r: (Vec<Option<Option<[i64; 4]>>>, Option<[i64; 4]>))
    requires
        forall|j: int, slot: int|
            0 <= j <= spends.len() && 0 <= slot < 4 ==> i64::MIN <= #[trigger] spend_sum(spends@, j, slot) <= i64::MAX,
    ensures
        r.0.len() == steps.len(),
        forall|i: int| 0 <= i < steps.len() ==> #[trigger] r.0@[i] == fight_spend(steps@, spends@, i),
        r.1 is Some == (fights_before(steps@, steps.len() as int) > 0),
        r.1 matches Some(t) ==> forall|slot: int|
            0 <= slot < 4 ==> #[trigger] t[slot] == spend_sum(
                spends@,
                if fights_before(steps@, steps.len() as int) < spends.len() {
                    fights_before(steps@, steps.len() as int)
                } else {
                    spends.len() as int
                },
                slot,
            ),
{
    let mut out: Vec<Option<Option<[i64; 4]>>> = Vec::new();
    let mut idx: usize = 0;
    let mut total: Option<[i64; 4]> = None;
    let mut i: usize = 0;
    while i < steps.len()
        invariant
            i <= steps.len(),
            out.len() == i,
            idx == fights_before(steps@, i as int),
            idx <= i,
            forall|j: int| 0 <= j < i ==> #[trigger] out@[j] == fight_spend(steps@, spends@, j),
            total is Some == (idx > 0),
            total matches Some(t) ==> forall|slot: int|
                0 <= slot < 4 ==> #[trigger] t[slot] == spend_sum(
                    spends@,
                    if idx < spends.len() {
                        idx as int
                    } else {
                        spends.len() as int
                    },
                    slot,
                ),
            forall|j: int, slot: int|
                0 <= j <= spends.len() && 0 <= slot < 4 ==> i64::MIN <= #[trigger] spend_sum(spends@, j, slot) <= i64::MAX,
        decreases steps.len() - i,
    {
        let st = steps[i];
        if st.has_state && st.enabled && st.is_fight {
            let mut t: [i64; 4] = match total {
                Some(t) => t,
                None => [0, 0, 0, 0],
            };
            let m: Option<[i64; 4]> = if idx < spends.len() {
                let ps = spends[idx];
                proof {
                    assert forall|slot: int| 0 <= slot < 4 implies t[slot] == spend_sum(spends@, idx as int, slot) by {
                        if idx == 0 {
                            assert(spend_sum(spends@, 0, slot) == 0);
                        }
                    }
                    assert(spend_sum(spends@, idx + 1, 0) == spend_sum(spends@, idx as int, 0) + ps[0]);
                    assert(spend_sum(spends@, idx + 1, 1) == spend_sum(spends@, idx as int, 1) + ps[1]);
                    assert(spend_sum(spends@, idx + 1, 2) == spend_sum(spends@, idx as int, 2) + ps[2]);
                    assert(spend_sum(spends@, idx + 1, 3) == spend_sum(spends@, idx as int, 3) + ps[3]);
                }
                t[0] = t[0] + ps[0];
                t[1] = t[1] + ps[1];
                t[2] = t[2] + ps[2];
                t[3] = t[3] + ps[3];
                Some(ps)
            } else {
                None
            };
            proof {
                assert(fights_before(steps@, i + 1) == idx + 1);
            }
            total = Some(t);
            out.push(Some(m));
            idx = idx + 1;
        } else {
            out.push(None);
            proof {
                assert(fights_before(steps@, i + 1) == idx);
            }
        }
        proof {
            assert(out@[i as int] == fight_spend(steps@, spends@, i as int));
        }
        i = i + 1;
    }
    (out, total)
}

/// A group's PP spend: its fights' spends added slot by slot.
pub fn add_spend(total: &mut [i64; 4], per_slot: [i64; 4])
    requires
        forall|k: int| 0 <= k < 4 ==> -PP_LIMIT <= #[trigger] old(total)[k] <= PP_LIMIT,
        forall|k: int| 0 <= k < 4 ==> -PP_LIMIT <= #[trigger] per_slot[k] <= PP_LIMIT,
    ensures
        forall|k: int| 0 <= k < 4 ==> #[trigger] final(total)[k] == old(total)[k] + per_slot[k],
{
    let mut k: usize = 0;
    while k < 4
        invariant
            k <= 4,
            forall|j: int| 0 <= j < 4 ==> -PP_LIMIT <= #[trigger] per_slot[j] <= PP_LIMIT,
            forall|j: int| k <= j < 4 ==> #[trigger] total[j] == old(total)[j],
            forall|j: int| 0 <= j < 4 ==> -PP_LIMIT <= #[trigger] old(total)[j] <= PP_LIMIT,
            forall|j: int| 0 <= j < k ==> #[trigger] total[j] == old(total)[j] + per_slot[j],
        decreases 4 - k,
    {
        total[k] = total[k] + per_slot[k];
        k = k + 1;
    }
}

/// Whether an item raised a slot's PP ceiling: more PP Ups after it, the
/// same move in the slot.
pub fn raised_ceiling(ups_before: u8, ups_after: u8, same_move: bool) -> (r: bool)
    ensures
        r == (ups_after > ups_before && same_move),
{
    ups_after > ups_before && same_move
}

/// The notes of a group: its items' notes, each once, in order.
pub open spec fn group_notes_spec(notes: Seq<Seq<Seq<char>>>) -> Seq<Seq<char>>
    decreases notes.len(),
{
    if notes.len() == 0 {
        Seq::empty()
    } else {
        add_new(group_notes_spec(notes.drop_last()), notes.last())
    }
}

/// `acc` followed by the notes of `more` it does not hold yet, in order.
pub open spec fn add_new(acc: Seq<Seq<char>>, more: Seq<Seq<char>>) -> Seq<Seq<char>>
    decreases more.len(),
{
    if more.len() == 0 {
        acc
    } else {
        let a = add_new(acc, more.drop_last());
        if a.contains(more.last()) {
            a
        } else {
            a.push(more.last())
        }
    }
}

pub open spec fn notes_view(v: Seq<Vec<String>>) -> Seq<Seq<Seq<char>>> {
    v.map_values(|n: Vec<String>| n.deep_view())
}

/// The notes of a group.
pub fn group_notes(items: &Vec<Vec<String>>) -> (r: Vec<String>)
    ensures
        r.deep_view() == group_notes_spec(notes_view(items@)),
{
    let ghost all = notes_view(items@);
    let mut out: Vec<String> = Vec::new();
    let mut i: usize = 0;
    while i < items.len()
        invariant
            i <= items.len(),
            all == notes_view(items@),
            out.deep_view() == group_notes_spec(all.subrange(0, i as int)),
        decreases items.len() - i,
    {
        let ghost acc = out.deep_view();
        let ns = &items[i];
        let mut j: usize = 0;
        while j < ns.len()
            invariant
                j <= ns.len(),
                out.deep_view() == add_new(acc, ns.deep_view().subrange(0, j as int)),
            decreases ns.len() - j,
        {
            let ghost before = out.deep_view();
            proof {
                let pre = ns.deep_view().subrange(0, j + 1);
                assert(pre.drop_last() =~= ns.deep_view().subrange(0, j as int));
                assert(pre.last() == ns.deep_view()[j as int]);
            }
            if !crate::option_menu::contains_name(&out, ns[j].as_str()) {
                out.push(ns[j].clone());
                assert(out.deep_view() =~= before.push(ns.deep_view()[j as int]));
            } else {
                proof {
                    let k = choose|k: int| 0 <= k < before.len() && before[k] == ns.deep_view()[j as int];
                    assert(before.contains(ns.deep_view()[j as int]));
                }
            }
            j = j + 1;
        }
        proof {
            assert(ns.deep_view().subrange(0, ns.len() as int) =~= ns.deep_view());
            let pre = all.subrange(0, i + 1);
            assert(pre.drop_last() =~= all.subrange(0, i as int));
            assert(pre.last() == all[i as int]);
            assert(all[i as int] == ns.deep_view());
        }
        i = i + 1;
    }
    assert(all.subrange(0, items.len() as int) =~= all);
    out
}

} // verus!
