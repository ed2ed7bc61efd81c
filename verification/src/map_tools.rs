//! The map's selection and measurement tools: step-aligned rectangles and
//! step-centred points in world pixels, the texts the status strip shows,
//! which tool a key picks and what Escape clears.

use vstd::prelude::*;

use crate::text::{i64_text, int_text};

verus! {

/// The map's pointer tools.
#[derive(Clone, Copy, Debug, PartialEq, Eq, Structural, Default)]
pub enum Tool {
    #[default]
    Pan,
    Select,
    Measure,
}

/// `div_floor`: `v / d` rounded down (`d` positive).
pub fn div_floor(v: i32, d: i32) -> (r: i32)
    requires
        d > 0,
    ensures
        r as int == (v as int) / (d as int),
        v >= 0 ==> 0 <= r <= v,
        v < 0 ==> v <= r < 0,
{
    let vv: i64 = v as i64;
    let dd: i64 = d as i64;
    let q: i64 = if vv >= 0 {
        vv / dd
    } else {
        -((-vv - 1) / dd) - 1
    };
    proof {
        if vv >= 0 {
            vstd::arithmetic::div_mod::lemma_fundamental_div_mod(vv as int, dd as int);
        } else {
            let m: int = -(vv as int) - 1;
            let k: int = m / (dd as int);
            let rr: int = m % (dd as int);
            vstd::arithmetic::div_mod::lemma_fundamental_div_mod(m, dd as int);
            vstd::arithmetic::div_mod::lemma_mod_pos_bound(m, dd as int);
            assert(m >= 0);
            assert(m == k * dd + rr);
            assert(0 <= rr < dd);
            assert(vv == (-k - 1) * dd + (dd - 1 - rr)) by (nonlinear_arith)
                requires
                    m == k * dd + rr,
                    m == -(vv as int) - 1,
            ;
            vstd::arithmetic::div_mod::lemma_fundamental_div_mod_converse(
                vv as int,
                dd as int,
                -k - 1,
                dd - 1 - rr,
            );
        }
        assert(vv >= 0 ==> 0 <= q <= vv) by {
            if vv >= 0 {
                vstd::arithmetic::div_mod::lemma_div_is_ordered_by_denominator(vv as int, 1, dd as int);
                vstd::arithmetic::div_mod::lemma_div_pos_is_pos(vv as int, dd as int);
            }
        }
        assert(vv < 0 ==> vv <= q < 0) by {
            if vv < 0 {
                vstd::arithmetic::div_mod::lemma_fundamental_div_mod(vv as int, dd as int);
                assert(q == (vv as int) / (dd as int));
                assert((vv as int) == q * dd + (vv as int) % (dd as int));
                assert(q < 0) by (nonlinear_arith)
                    requires
                        (vv as int) == q * dd + (vv as int) % (dd as int),
                        0 <= (vv as int) % (dd as int) < dd,
                        vv < 0,
                        dd > 0,
                ;
                assert(q >= vv) by (nonlinear_arith)
                    requires
                        q * dd + (vv as int) % (dd as int) == vv,
                        0 <= (vv as int) % (dd as int) < dd,
                        dd >= 1,
                        vv < 0,
                        q < 0,
                ;
            }
        }
        assert(-2147483648 <= q <= 2147483647) by {
            vstd::arithmetic::div_mod::lemma_fundamental_div_mod(vv as int, dd as int);
            assert(q == (vv as int) / (dd as int));
            if vv >= 0 {
                vstd::arithmetic::div_mod::lemma_div_is_ordered_by_denominator(vv as int, 1, dd as int);
                vstd::arithmetic::div_mod::lemma_div_pos_is_pos(vv as int, dd as int);
            } else {
                assert((vv as int) == q * dd + (vv as int) % (dd as int));
                assert(q * dd <= vv);
                assert(q <= 0) by (nonlinear_arith)
                    requires
                        q * dd <= vv,
                        vv < 0,
                        dd > 0,
                ;
                assert(q >= vv) by (nonlinear_arith)
                    requires
                        q * dd + (vv as int) % (dd as int) == vv,
                        0 <= (vv as int) % (dd as int) < dd,
                        dd >= 1,
                        vv < 0,
                        q <= 0,
                ;
            }
        }
    }
    q as i32
}

/// `div_ceil`: `v / d` rounded up (`d` positive).
pub fn div_ceil(v: i32, d: i32) -> (r: i32)
    requires
        d > 0,
        v > i32::MIN,
    ensures
        r as int == -((-(v as int)) / (d as int)),
{
    -div_floor(-v, d)
}

/// `floor_to`: the step boundary at or below `v`.
pub fn floor_to(v: i32, step: i32) -> (r: i32)
    requires
        step > 0,
        i32::MIN <= ((v as int) / (step as int)) * (step as int),
    ensures
        r as int == ((v as int) / (step as int)) * (step as int),
{
    let q = div_floor(v, step);
    proof {
        assert(((v as int) / (step as int)) * (step as int) <= v) by (nonlinear_arith)
            requires
                step > 0,
        ;
    }
    q * step
}

/// `ceil_to`: the step boundary at or above `v`.
pub fn ceil_to(v: i32, step: i32) -> (r: i32)
    requires
        step > 0,
        v > i32::MIN,
        i32::MIN < ((-(v as int)) / (step as int)) * (step as int),
    ensures
        r as int == -(((-(v as int)) / (step as int)) * (step as int)),
{
    let f = floor_to(-v, step);
    -f
}

/// The centre of the step cell holding `v`.
pub open spec fn cell_centre(v: int, step: int) -> int {
    (v / step) * step + step / 2
}

/// `snap_point`: a world point moved to the centre of its step cell (the
/// ruler's endpoints).
pub fn snap_point(step: i32, p: (i32, i32)) -> (r: (i32, i32))
    requires
        step > 0,
        i32::MIN <= cell_centre(p.0 as int, step as int) <= i32::MAX,
        i32::MIN <= cell_centre(p.1 as int, step as int) <= i32::MAX,
        i32::MIN <= ((p.0 as int) / (step as int)) * (step as int),
        i32::MIN <= ((p.1 as int) / (step as int)) * (step as int),
    ensures
        r.0 as int == cell_centre(p.0 as int, step as int),
        r.1 as int == cell_centre(p.1 as int, step as int),
{
    let x = floor_to(p.0, step);
    let y = floor_to(p.1, step);
    (x + step / 2, y + step / 2)
}

/// A rectangle of world pixels, `x0..x1` by `y0..y1`.
#[derive(Clone, Copy, Debug, PartialEq, Eq, Structural)]
pub struct GridRect {
    pub x0: i32,
    pub y0: i32,
    pub x1: i32,
    pub y1: i32,
}

impl GridRect {
    /// The part of `self` inside `other` (inverted when they do not meet).
    pub fn intersect(&self, other: &GridRect) -> (r: GridRect)
        ensures
            r.x0 == (if self.x0 >= other.x0 { self.x0 } else { other.x0 }),
            r.y0 == (if self.y0 >= other.y0 { self.y0 } else { other.y0 }),
            r.x1 == (if self.x1 <= other.x1 { self.x1 } else { other.x1 }),
            r.y1 == (if self.y1 <= other.y1 { self.y1 } else { other.y1 }),
    {
        GridRect {
            x0: if self.x0 >= other.x0 { self.x0 } else { other.x0 },
            y0: if self.y0 >= other.y0 { self.y0 } else { other.y0 },
            x1: if self.x1 <= other.x1 { self.x1 } else { other.x1 },
            y1: if self.y1 <= other.y1 { self.y1 } else { other.y1 },
        }
    }
}

/// Whether `v` can be rounded out to its step boundaries without leaving
/// `i32`.
pub open spec fn roundable(v: int, step: int) -> bool {
    &&& v > i32::MIN
    &&& i32::MIN <= (v / step) * step
    &&& i32::MIN < ((-v) / step) * step
}

/// The bounds `snap_rect` gives a drag from `a` to `b`: the cells it
/// touches, grown out to step boundaries, then clipped to `scope`.
pub open spec fn snap_bounds(step: int, scope: GridRect, a: (i32, i32), b: (i32, i32)) -> (int, int, int, int) {
    let lx = if a.0 <= b.0 { a.0 as int } else { b.0 as int };
    let hx = if a.0 <= b.0 { b.0 as int } else { a.0 as int };
    let ly = if a.1 <= b.1 { a.1 as int } else { b.1 as int };
    let hy = if a.1 <= b.1 { b.1 as int } else { a.1 as int };
    let fx = (lx / step) * step;
    let fy = (ly / step) * step;
    let cx = -(((-hx) / step) * step);
    let cy = -(((-hy) / step) * step);
    (
        if fx >= scope.x0 { fx } else { scope.x0 as int },
        if fy >= scope.y0 { fy } else { scope.y0 as int },
        if cx <= scope.x1 { cx } else { scope.x1 as int },
        if cy <= scope.y1 { cy } else { scope.y1 as int },
    )
}

/// `snap_rect`: a drag from `a` to `b` as the rectangle of the step cells
/// it touches, grown outward to step boundaries, clipped to `scope`.
pub fn snap_rect(step: i32, scope: &GridRect, a: (i32, i32), b: (i32, i32)) -> (r: GridRect)
    requires
        step > 0,
        roundable(a.0 as int, step as int),
        roundable(a.1 as int, step as int),
        roundable(b.0 as int, step as int),
        roundable(b.1 as int, step as int),
    ensures
        snap_bounds(step as int, *scope, a, b) == (r.x0 as int, r.y0 as int, r.x1 as int, r.y1 as int),
{
    let (x0, x1) = if a.0 <= b.0 { (a.0, b.0) } else { (b.0, a.0) };
    let (y0, y1) = if a.1 <= b.1 { (a.1, b.1) } else { (b.1, a.1) };
    let rect = GridRect {
        x0: floor_to(x0, step),
        y0: floor_to(y0, step),
        x1: ceil_to(x1, step),
        y1: ceil_to(y1, step),
    };
    rect.intersect(scope)
}

/// `Selection: W × H steps (w × h px)`.
pub open spec fn selection_line(w: int, h: int, step: int) -> Seq<char> {
    "Selection: "@ + int_text(if w / step > 0 { w / step } else { 0 }) + " × "@ + int_text(
        if h / step > 0 {
            h / step
        } else {
            0
        },
    ) + " steps ("@ + int_text(w) + " × "@ + int_text(h) + " px)"@
}

/// The selection line reads width first, then height, both in whole steps
/// (none when under one step) and then in pixels: for a width of `a` whole
/// steps and a height of `b` (`a` is 0 below one step, else the largest
/// count of steps that fits in `w`; the same for `b` in `h`), the line is
/// `Selection: a × b steps (w × h px)`.
pub proof fn law_selection_reads_width_then_height(w: int, h: int, step: int, a: int, b: int)
    requires
        step > 0,
        (a == 0 && w < step) || (a >= 1 && a * step <= w < (a + 1) * step),
        (b == 0 && h < step) || (b >= 1 && b * step <= h < (b + 1) * step),
    ensures
        selection_line(w, h, step) == "Selection: "@ + int_text(a) + " × "@ + int_text(b) + " steps ("@ + int_text(w)
            + " × "@ + int_text(h) + " px)"@,
{
    lemma_whole_steps(w, step, a);
    lemma_whole_steps(h, step, b);
}

proof fn lemma_whole_steps(w: int, step: int, a: int)
    requires
        step > 0,
        (a == 0 && w < step) || (a >= 1 && a * step <= w < (a + 1) * step),
    ensures
        (if w / step > 0 { w / step } else { 0 }) == a,
{
    vstd::arithmetic::div_mod::lemma_fundamental_div_mod(w, step);
    let q = w / step;
    let r = w % step;
    assert(w == step * q + r && 0 <= r < step);
    if a == 0 {
        assert(q <= 0) by (nonlinear_arith)
            requires
                w == step * q + r,
                0 <= r,
                w < step,
                step > 0,
        ;
    } else {
        assert(q == a) by (nonlinear_arith)
            requires
                w == step * q + r,
                0 <= r < step,
                a * step <= w < (a + 1) * step,
                step > 0,
        ;
    }
}

/// `Δ dx × dy · n steps`: the ruler's reading.
pub open spec fn measurement_line(a: (i32, i32), b: (i32, i32), step: int) -> Seq<char> {
    let s = if step > 1 { step } else { 1 };
    let dx = (if b.0 >= a.0 { b.0 - a.0 } else { a.0 - b.0 }) / s;
    let dy = (if b.1 >= a.1 { b.1 - a.1 } else { a.1 - b.1 }) / s;
    "Δ "@ + int_text(dx) + " × "@ + int_text(dy) + " · "@ + int_text(dx + dy) + " steps"@
}

/// The width and height of a rectangle in world pixels.
pub open spec fn rect_width(r: GridRect) -> int {
    r.x1 - r.x0
}

pub open spec fn rect_height(r: GridRect) -> int {
    r.y1 - r.y0
}

/// `selection_text`.
pub fn selection_text(rect: &GridRect, step: i32) -> (r: String)
    requires
        step > 0,
    ensures
        r@ == selection_line(rect_width(*rect), rect_height(*rect), step as int),
{
    let w: i64 = (rect.x1 as i64) - (rect.x0 as i64);
    let h: i64 = (rect.y1 as i64) - (rect.y0 as i64);
    let s: i64 = step as i64;
    let sw: i64 = if w > 0 { w / s } else { 0 };
    let sh: i64 = if h > 0 { h / s } else { 0 };
    proof {
        if w > 0 {
            vstd::arithmetic::div_mod::lemma_div_pos_is_pos(w as int, s as int);
        } else {
            assert((w as int) / (s as int) <= 0) by (nonlinear_arith)
                requires
                    w <= 0,
                    s > 0,
            ;
        }
        if h > 0 {
            vstd::arithmetic::div_mod::lemma_div_pos_is_pos(h as int, s as int);
        } else {
            assert((h as int) / (s as int) <= 0) by (nonlinear_arith)
                requires
                    h <= 0,
                    s > 0,
            ;
        }
    }
    let mut out = String::from_str("Selection: ");
    out.append(i64_text(sw).as_str());
    out.append(" × ");
    out.append(i64_text(sh).as_str());
    out.append(" steps (");
    out.append(i64_text(w).as_str());
    out.append(" × ");
    out.append(i64_text(h).as_str());
    out.append(" px)");
    out
}

/// `measurement_text`.
pub fn measurement_text(a: (i32, i32), b: (i32, i32), step: i32) -> (r: String)
    ensures
        r@ == measurement_line(a, b, step as int),
{
    let s: i64 = if step > 1 { step as i64 } else { 1 };
    let ddx: i64 = if b.0 >= a.0 { (b.0 as i64) - (a.0 as i64) } else { (a.0 as i64) - (b.0 as i64) };
    let ddy: i64 = if b.1 >= a.1 { (b.1 as i64) - (a.1 as i64) } else { (a.1 as i64) - (b.1 as i64) };
    let dx = ddx / s;
    let dy = ddy / s;
    assert(0 <= dx <= ddx) by {
        vstd::arithmetic::div_mod::lemma_div_is_ordered_by_denominator(ddx as int, 1, s as int);
        vstd::arithmetic::div_mod::lemma_div_pos_is_pos(ddx as int, s as int);
    }
    assert(0 <= dy <= ddy) by {
        vstd::arithmetic::div_mod::lemma_div_is_ordered_by_denominator(ddy as int, 1, s as int);
        vstd::arithmetic::div_mod::lemma_div_pos_is_pos(ddy as int, s as int);
    }
    let mut out = String::from_str("Δ ");
    out.append(i64_text(dx).as_str());
    out.append(" × ");
    out.append(i64_text(dy).as_str());
    out.append(" · ");
    out.append(i64_text(dx + dy).as_str());
    out.append(" steps");
    out
}

/// The ruler's last measurement, between two step centres.
#[derive(Clone, Copy, Debug, PartialEq, Eq)]
pub struct Measurement {
    pub a: (i32, i32),
    pub b: (i32, i32),
}

/// What a drag on the map draws.
#[derive(Clone, Copy, Debug, PartialEq, Eq, Structural)]
pub enum DragMode {
    Select,
    Measure,
}

/// A drag under way, from `start` to the pointer's `current` position, in
/// world pixels.
#[derive(Clone, Copy, Debug, PartialEq, Eq)]
pub struct ActiveDrag {
    pub mode: DragMode,
    pub start: (i32, i32),
    pub current: (i32, i32),
}

/// Within a quarter of `i32`'s range either way: the world pixels a map
/// pack can hold, where rounding out to a step never leaves `i32`.
pub open spec fn in_world(v: int) -> bool {
    -0x4000_0000 <= v <= 0x4000_0000
}

pub open spec fn in_world_point(p: (i32, i32)) -> bool {
    in_world(p.0 as int) && in_world(p.1 as int)
}

/// A step size the tools work with.
pub open spec fn step_ok(step: int) -> bool {
    0 < step <= 0x1_0000
}

/// An empty rectangle: no width or no height.
pub open spec fn is_empty_bounds(b: (int, int, int, int)) -> bool {
    b.2 <= b.0 || b.3 <= b.1
}

/// Which drag a press starts: Space holds the hand tool for the moment (the
/// map pans), Shift draws a marquee whatever the tool, else the tool
/// decides (the hand pans).
pub open spec fn drag_mode_for(tool: Tool, space: bool, shift: bool) -> Option<DragMode> {
    if space {
        None
    } else if shift {
        Some(DragMode::Select)
    } else {
        match tool {
            Tool::Pan => None,
            Tool::Select => Some(DragMode::Select),
            Tool::Measure => Some(DragMode::Measure),
        }
    }
}

/// Rounding a point of the world to step boundaries stays inside `i32`.
proof fn lemma_snap_in_range(v: int, step: int)
    requires
        in_world(v),
        step_ok(step),
    ensures
        roundable(v, step),
        i32::MIN <= cell_centre(v, step) <= i32::MAX,
        i32::MIN <= (v / step) * step,
{
    vstd::arithmetic::div_mod::lemma_fundamental_div_mod(v, step);
    vstd::arithmetic::div_mod::lemma_mod_bound(v, step);
    vstd::arithmetic::mul::lemma_mul_is_commutative(step, v / step);
    vstd::arithmetic::div_mod::lemma_fundamental_div_mod(-v, step);
    vstd::arithmetic::div_mod::lemma_mod_bound(-v, step);
    vstd::arithmetic::mul::lemma_mul_is_commutative(step, (-v) / step);
    assert(step / 2 <= step) by {
        vstd::arithmetic::div_mod::lemma_div_is_ordered_by_denominator(step, 1, 2);
    }
    assert(step / 2 >= 0) by {
        vstd::arithmetic::div_mod::lemma_div_pos_is_pos(step, 2);
    }
}

/// The tools' state: the tool, the selection, the last measurement, and
/// the drag under way.
#[derive(Clone, Copy, Debug, PartialEq, Eq)]
pub struct ToolState {
    pub tool: Tool,
    pub selection: Option<GridRect>,
    pub measurement: Option<Measurement>,
    pub active: Option<ActiveDrag>,
}

impl ToolState {
    pub fn new() -> (r: ToolState)
        ensures
            r.tool == Tool::Pan,
            r.selection is None,
            r.measurement is None,
            r.active is None,
    {
        ToolState { tool: Tool::Pan, selection: None, measurement: None, active: None }
    }

    /// H, M and R pick the hand, the marquee and the ruler; H wins over M,
    /// and M over R, when several are pressed.
    pub fn handle_keys(&mut self, h: bool, m: bool, r: bool)
        ensures
            final(self).tool == (if h {
                Tool::Pan
            } else if m {
                Tool::Select
            } else if r {
                Tool::Measure
            } else {
                old(self).tool
            }),
            final(self).selection == old(self).selection,
            final(self).measurement == old(self).measurement,
            final(self).active == old(self).active,
    {
        if h {
            self.tool = Tool::Pan;
        } else if m {
            self.tool = Tool::Select;
        } else if r {
            self.tool = Tool::Measure;
        }
    }

    /// Whether the tools see the pointer this frame: not behind a dialog,
    /// unless a drag of theirs is under way.
    pub fn takes_input(&self, behind_modal: bool) -> (r: bool)
        ensures
            r == (!behind_modal || self.active is Some),
    {
        !behind_modal || self.active.is_some()
    }

    /// `drag_mode_for` on the current tool.
    pub fn drag_mode(&self, space: bool, shift: bool) -> (r: Option<DragMode>)
        ensures
            r == drag_mode_for(self.tool, space, shift),
    {
        if space {
            None
        } else if shift {
            Some(DragMode::Select)
        } else {
            match self.tool {
                Tool::Pan => None,
                Tool::Select => Some(DragMode::Select),
                Tool::Measure => Some(DragMode::Measure),
            }
        }
    }

    /// A drag starts at `start` (where the button went down, in world
    /// pixels): it becomes the tools' drag when the press starts one.
    pub fn begin_drag(&mut self, space: bool, shift: bool, start: Option<(i32, i32)>)
        ensures
            final(self).active == (match (drag_mode_for(old(self).tool, space, shift), start) {
                (Some(mode), Some(p)) => Some(ActiveDrag { mode, start: p, current: p }),
                _ => old(self).active,
            }),
            final(self).tool == old(self).tool,
            final(self).selection == old(self).selection,
            final(self).measurement == old(self).measurement,
    {
        let mode = self.drag_mode(space, shift);
        if let (Some(mode), Some(p)) = (mode, start) {
            self.active = Some(ActiveDrag { mode, start: p, current: p });
        }
    }

    /// The pointer moved with the button down: the drag follows it.
    /// Returns whether the tools took the event.
    pub fn drag_to(&mut self, current: (i32, i32)) -> (consumed: bool)
        ensures
            consumed == old(self).active is Some,
            final(self).active == (match old(self).active {
                Some(a) => Some(ActiveDrag { current, ..a }),
                None => None,
            }),
            final(self).tool == old(self).tool,
            final(self).selection == old(self).selection,
            final(self).measurement == old(self).measurement,
    {
        match self.active {
            Some(a) => {
                self.active = Some(ActiveDrag { current, ..a });
                true
            },
            None => false,
        }
    }

    /// The button is let go: a marquee that covers something becomes the
    /// selection (snapped to steps, clipped to `scope`), a ruler drag the
    /// measurement between the two step centres. Returns whether the tools
    /// took the event.
    pub fn end_drag(&mut self, step: i32, scope: &GridRect) -> (consumed: bool)
        requires
            step_ok(step as int),
            old(self).active matches Some(a) ==> in_world_point(a.start) && in_world_point(a.current),
        ensures
            consumed == old(self).active is Some,
            final(self).active is None,
            final(self).tool == old(self).tool,
            match old(self).active {
                Some(a) => match a.mode {
                    DragMode::Select => {
                        let b = snap_bounds(step as int, *scope, a.start, a.current);
                        &&& final(self).measurement == old(self).measurement
                        &&& is_empty_bounds(b) ==> final(self).selection == old(self).selection
                        &&& !is_empty_bounds(b) ==> (final(self).selection matches Some(r) && b == (
                            r.x0 as int,
                            r.y0 as int,
                            r.x1 as int,
                            r.y1 as int,
                        ))
                    },
                    DragMode::Measure => {
                        &&& final(self).selection == old(self).selection
                        &&& final(self).measurement matches Some(m) && m.a.0 == cell_centre(
                            a.start.0 as int,
                            step as int,
                        ) && m.a.1 == cell_centre(a.start.1 as int, step as int) && m.b.0 == cell_centre(
                            a.current.0 as int,
                            step as int,
                        ) && m.b.1 == cell_centre(a.current.1 as int, step as int)
                    },
                },
                None => *final(self) == *old(self),
            },
    {
        match self.active {
            Some(a) => {
                proof {
                    lemma_snap_in_range(a.start.0 as int, step as int);
                    lemma_snap_in_range(a.start.1 as int, step as int);
                    lemma_snap_in_range(a.current.0 as int, step as int);
                    lemma_snap_in_range(a.current.1 as int, step as int);
                }
                self.active = None;
                match a.mode {
                    DragMode::Select => {
                        let rect = snap_rect(step, scope, a.start, a.current);
                        if !(rect.x1 <= rect.x0 || rect.y1 <= rect.y0) {
                            self.selection = Some(rect);
                        }
                    },
                    DragMode::Measure => {
                        let pa = snap_point(step, a.start);
                        let pb = snap_point(step, a.current);
                        self.measurement = Some(Measurement { a: pa, b: pb });
                    },
                }
                true
            },
            None => false,
        }
    }

    /// A plain click, with no drag under way: with the marquee it clears
    /// the selection. Returns whether the tools took it.
    pub fn click(&mut self) -> (consumed: bool)
        ensures
            consumed == (old(self).active is None && old(self).tool == Tool::Select),
            consumed ==> *final(self) == (ToolState { selection: None, ..*old(self) }),
            !consumed ==> *final(self) == *old(self),
    {
        if self.active.is_none() && self.tool == Tool::Select {
            self.selection = None;
            true
        } else {
            false
        }
    }

    /// The selection the floating toolbar sits under: none while a drag is
    /// under way or behind a dialog.
    pub fn toolbar_under(&self, behind_modal: bool) -> (r: Option<GridRect>)
        ensures
            r == (if self.active is None && !behind_modal {
                self.selection
            } else {
                None
            }),
    {
        if self.active.is_none() && !behind_modal {
            self.selection
        } else {
            None
        }
    }

    /// Escape: cancel the drag, else forget the measurement, else the
    /// selection, one per press; returns whether there was something.
    pub fn on_escape(&mut self) -> (cleared: bool)
        ensures
            old(self).active is Some ==> cleared && *final(self) == (ToolState { active: None, ..*old(self) }),
            old(self).active is None && old(self).measurement is Some ==> cleared && *final(self)
                == (ToolState { measurement: None, ..*old(self) }),
            old(self).active is None && old(self).measurement is None ==> cleared == old(self).selection is Some
                && *final(self) == (ToolState { selection: None, ..*old(self) }),
    {
        if self.active.is_some() {
            self.active = None;
            return true;
        }
        if self.measurement.is_some() {
            self.measurement = None;
            return true;
        }
        let had = self.selection.is_some();
        self.selection = None;
        had
    }

    /// Escape on the map: the drag, the measurement or the selection goes
    /// first; only when there was none does the card close with the focus
    /// banner. Returns whether the card and the banner close.
    pub fn escape_closes_card(&mut self) -> (r: bool)
        ensures
            r == (old(self).active is None && old(self).measurement is None && old(self).selection is None),
            old(self).active is Some ==> *final(self) == (ToolState { active: None, ..*old(self) }),
            old(self).active is None && old(self).measurement is Some ==> *final(self) == (ToolState {
                measurement: None,
                ..*old(self)
            }),
            old(self).active is None && old(self).measurement is None ==> *final(self) == (ToolState {
                selection: None,
                ..*old(self)
            }),
    {
        !self.on_escape()
    }

    /// What the status strip shows: the selection, else the measurement.
    pub fn status_text(&self, step_px: u32) -> (r: Option<String>)
        requires
            step_px <= i32::MAX,
        ensures
            ({
                let step = if step_px >= 1 { step_px as int } else { 1 };
                match (self.selection, self.measurement) {
                    (Some(s), _) => r matches Some(t) && t@ == selection_line(rect_width(s), rect_height(s), step),
                    (None, Some(m)) => r matches Some(t) && t@ == measurement_line(m.a, m.b, step),
                    (None, None) => r is None,
                }
            }),
    {
        let step: i32 = if step_px >= 1 { step_px as i32 } else { 1 };
        if let Some(s) = &self.selection {
            return Some(selection_text(s, step));
        }
        if let Some(m) = &self.measurement {
            return Some(measurement_text(m.a, m.b, step));
        }
        None
    }
}

} // verus!
