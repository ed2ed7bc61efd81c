//! The map view's settings and small decisions: which kinds of object are
//! shown, what an export covers and offers, and the item finder's counts.

use vstd::prelude::*;

use crate::text::{int_text, u64_text};

verus! {

/// The kinds of object placed on the map.
#[derive(Clone, Copy, Debug, PartialEq, Eq, Structural)]
pub enum ObjectKind {
    Trainer,
    Item,
    HiddenItem,
    Warp,
    Sign,
    Berry,
    Npc,
}

/// A marker's colour, glyph and whether it is drawn hollow, for a kind of
/// object.
pub open spec fn marker_style_spec(k: ObjectKind) -> ((u8, u8, u8), Seq<char>, bool) {
    match k {
        ObjectKind::Trainer => ((0xff, 0x44, 0x44), "T"@, false),
        ObjectKind::Item => ((0x44, 0xff, 0x44), "!"@, false),
        ObjectKind::HiddenItem => ((0xff, 0x66, 0xff), "?"@, true),
        ObjectKind::Berry => ((0x66, 0xdd, 0xcc), "B"@, false),
        ObjectKind::Sign => ((0xff, 0xff, 0xff), "S"@, true),
        ObjectKind::Warp => ((0xff, 0xaa, 0x00), "W"@, true),
        ObjectKind::Npc => ((0x88, 0x88, 0xff), ""@, true),
    }
}

pub fn marker_style(k: ObjectKind) -> (r: ((u8, u8, u8), &'static str, bool))
    ensures
        (r.0, r.1@, r.2) == marker_style_spec(k),
{
    match k {
        ObjectKind::Trainer => ((0xff, 0x44, 0x44), "T", false),
        ObjectKind::Item => ((0x44, 0xff, 0x44), "!", false),
        ObjectKind::HiddenItem => ((0xff, 0x66, 0xff), "?", true),
        ObjectKind::Berry => ((0x66, 0xdd, 0xcc), "B", false),
        ObjectKind::Sign => ((0xff, 0xff, 0xff), "S", true),
        ObjectKind::Warp => ((0xff, 0xaa, 0x00), "W", true),
        ObjectKind::Npc => ((0x88, 0x88, 0xff), "", true),
    }
}

/// The map's layer switches.
#[derive(Clone, Copy, Debug, PartialEq, Eq, Structural)]
pub struct Toggles {
    pub trainers: bool,
    pub items: bool,
    pub hidden: bool,
    pub warps: bool,
    pub signs: bool,
    pub berries: bool,
    pub npcs: bool,
    /// overworld sprites instead of circles (when zoomed in enough)
    pub sprites: bool,
    /// step and block grid lines and map outlines
    pub grid: bool,
    /// map names over the world
    pub labels: bool,
    /// the route's order drawn over its anchors
    pub path: bool,
    /// the navigator minimap
    pub navigator: bool,
    /// the camera follows the selected route event
    pub follow: bool,
}

/// The switches a new map view starts with.
pub open spec fn default_toggles() -> Toggles {
    Toggles {
        trainers: true,
        items: true,
        hidden: true,
        warps: true,
        signs: false,
        berries: true,
        npcs: false,
        sprites: true,
        grid: false,
        labels: true,
        path: false,
        navigator: true,
        follow: false,
    }
}

impl Default for Toggles {
    fn default() -> (r: Toggles)
        ensures
            r == default_toggles(),
    {
        Toggles {
            trainers: true,
            items: true,
            hidden: true,
            warps: true,
            signs: false,
            berries: true,
            npcs: false,
            sprites: true,
            grid: false,
            labels: true,
            path: false,
            navigator: true,
            follow: false,
        }
    }
}

impl Toggles {
    /// Whether objects of kind `k` are drawn.
    pub fn visible(&self, k: ObjectKind) -> (r: bool)
        ensures
            r == match k {
                ObjectKind::Trainer => self.trainers,
                ObjectKind::Item => self.items,
                ObjectKind::HiddenItem => self.hidden,
                ObjectKind::Warp => self.warps,
                ObjectKind::Sign => self.signs,
                ObjectKind::Berry => self.berries,
                ObjectKind::Npc => self.npcs,
            },
    {
        match k {
            ObjectKind::Trainer => self.trainers,
            ObjectKind::Item => self.items,
            ObjectKind::HiddenItem => self.hidden,
            ObjectKind::Warp => self.warps,
            ObjectKind::Sign => self.signs,
            ObjectKind::Berry => self.berries,
            ObjectKind::Npc => self.npcs,
        }
    }

    /// The saved switches, in the order of the fields (`None`: not saved,
    /// or not a yes/no): each missing one takes its default.
    pub fn from_saved(v: [Option<bool>; 13]) -> (r: Toggles)
        ensures
            r == (Toggles {
                trainers: or_default(v[0], default_toggles().trainers),
                items: or_default(v[1], default_toggles().items),
                hidden: or_default(v[2], default_toggles().hidden),
                warps: or_default(v[3], default_toggles().warps),
                signs: or_default(v[4], default_toggles().signs),
                berries: or_default(v[5], default_toggles().berries),
                npcs: or_default(v[6], default_toggles().npcs),
                sprites: or_default(v[7], default_toggles().sprites),
                grid: or_default(v[8], default_toggles().grid),
                labels: or_default(v[9], default_toggles().labels),
                path: or_default(v[10], default_toggles().path),
                navigator: or_default(v[11], default_toggles().navigator),
                follow: or_default(v[12], default_toggles().follow),
            }),
    {
        let d = Toggles::default();
        Toggles {
            trainers: pick(v[0], d.trainers),
            items: pick(v[1], d.items),
            hidden: pick(v[2], d.hidden),
            warps: pick(v[3], d.warps),
            signs: pick(v[4], d.signs),
            berries: pick(v[5], d.berries),
            npcs: pick(v[6], d.npcs),
            sprites: pick(v[7], d.sprites),
            grid: pick(v[8], d.grid),
            labels: pick(v[9], d.labels),
            path: pick(v[10], d.path),
            navigator: pick(v[11], d.navigator),
            follow: pick(v[12], d.follow),
        }
    }

    /// The switches in the order `from_saved` reads them.
    pub fn to_saved(&self) -> (r: [bool; 13])
        ensures
            r@ == seq![
                self.trainers,
                self.items,
                self.hidden,
                self.warps,
                self.signs,
                self.berries,
                self.npcs,
                self.sprites,
                self.grid,
                self.labels,
                self.path,
                self.navigator,
                self.follow,
            ],
    {
        let r = [
            self.trainers,
            self.items,
            self.hidden,
            self.warps,
            self.signs,
            self.berries,
            self.npcs,
            self.sprites,
            self.grid,
            self.labels,
            self.path,
            self.navigator,
            self.follow,
        ];
        assert(r@ =~= seq![
            self.trainers,
            self.items,
            self.hidden,
            self.warps,
            self.signs,
            self.berries,
            self.npcs,
            self.sprites,
            self.grid,
            self.labels,
            self.path,
            self.navigator,
            self.follow,
        ]);
        r
    }
}

/// A saved switch, or its default.
pub open spec fn or_default(v: Option<bool>, d: bool) -> bool {
    match v {
        Some(b) => b,
        None => d,
    }
}

fn pick(v: Option<bool>, d: bool) -> (r: bool)
    ensures
        r == or_default(v, d),
{
    match v {
        Some(b) => b,
        None => d,
    }
}

/// Saving the switches and reading them back gives the same switches.
pub proof fn law_toggles_round_trip(t: Toggles, saved: [bool; 13])
    requires
        saved@ == seq![
            t.trainers,
            t.items,
            t.hidden,
            t.warps,
            t.signs,
            t.berries,
            t.npcs,
            t.sprites,
            t.grid,
            t.labels,
            t.path,
            t.navigator,
            t.follow,
        ],
    ensures
        (Toggles {
            trainers: or_default(Some(saved[0]), default_toggles().trainers),
            items: or_default(Some(saved[1]), default_toggles().items),
            hidden: or_default(Some(saved[2]), default_toggles().hidden),
            warps: or_default(Some(saved[3]), default_toggles().warps),
            signs: or_default(Some(saved[4]), default_toggles().signs),
            berries: or_default(Some(saved[5]), default_toggles().berries),
            npcs: or_default(Some(saved[6]), default_toggles().npcs),
            sprites: or_default(Some(saved[7]), default_toggles().sprites),
            grid: or_default(Some(saved[8]), default_toggles().grid),
            labels: or_default(Some(saved[9]), default_toggles().labels),
            path: or_default(Some(saved[10]), default_toggles().path),
            navigator: or_default(Some(saved[11]), default_toggles().navigator),
            follow: or_default(Some(saved[12]), default_toggles().follow),
        }) == t,
{
    assert(saved[0] == saved@[0]);
}

// ---------------------------------------------------------------------------
// export
// ---------------------------------------------------------------------------

/// What an export covers.
#[derive(Clone, Copy, Debug, PartialEq, Eq, Structural, Default)]
pub enum ExportRegion {
    /// the viewport as it is on screen
    #[default]
    View,
    /// the marquee selection
    Selection,
    /// the map of the current map scope
    ThisMap,
    /// the whole scope rectangle
    World,
}

/// What a finished export produced: a file, or an image on the clipboard.
#[derive(Debug)]
pub enum ExportOutcome {
    Exported(String),
    Copied { width: usize, height: usize, rgba: Vec<u8> },
}

/// The region's name in the export dialog.
pub open spec fn region_name(r: ExportRegion) -> Seq<char> {
    match r {
        ExportRegion::View => "View"@,
        ExportRegion::Selection => "Selection"@,
        ExportRegion::ThisMap => "This Map"@,
        ExportRegion::World => "Whole World"@,
    }
}

pub fn region_label(r: ExportRegion) -> (s: &'static str)
    ensures
        s@ == region_name(r),
{
    match r {
        ExportRegion::View => "View",
        ExportRegion::Selection => "Selection",
        ExportRegion::ThisMap => "This Map",
        ExportRegion::World => "Whole World",
    }
}

/// Whether a region is offered: the selection when there is one, this map
/// in a map scope, the view and the world always.
pub fn is_region_available(has_selection: bool, in_map_scope: bool, r: ExportRegion) -> (ok: bool)
    ensures
        ok == match r {
            ExportRegion::View | ExportRegion::World => true,
            ExportRegion::Selection => has_selection,
            ExportRegion::ThisMap => in_map_scope,
        },
{
    match r {
        ExportRegion::View | ExportRegion::World => true,
        ExportRegion::Selection => has_selection,
        ExportRegion::ThisMap => in_map_scope,
    }
}

/// The region the dialog opens with: the selection when there is one,
/// else the view.
pub fn default_region(has_selection: bool) -> (r: ExportRegion)
    ensures
        r == (if has_selection { ExportRegion::Selection } else { ExportRegion::View }),
{
    if has_selection {
        ExportRegion::Selection
    } else {
        ExportRegion::View
    }
}

/// The region the dialog opens with is always one it offers.
pub proof fn law_default_region_is_offered(has_selection: bool, in_map_scope: bool)
    ensures
        match (if has_selection { ExportRegion::Selection } else { ExportRegion::View }) {
            ExportRegion::View | ExportRegion::World => true,
            ExportRegion::Selection => has_selection,
            ExportRegion::ThisMap => in_map_scope,
        },
{
}

// ---------------------------------------------------------------------------
// the item finder
// ---------------------------------------------------------------------------

/// One item name on the map, and how many balls and hidden spots hold it.
pub struct ItemHit {
    pub name: String,
    pub balls: usize,
    pub hidden: usize,
}

/// `N ball(s)`, `N hidden`, or both joined by ` · `.
pub open spec fn counts_text(balls: nat, hidden: nat) -> Seq<char> {
    let ball_part = decimal_view(balls) + " ball"@ + (if balls == 1 { ""@ } else { "s"@ });
    if hidden == 0 {
        ball_part
    } else if balls == 0 {
        decimal_view(hidden) + " hidden"@
    } else {
        ball_part + " · "@ + decimal_view(hidden) + " hidden"@
    }
}

/// The decimal digits of a count.
pub open spec fn decimal_view(n: nat) -> Seq<char> {
    int_text(n as int)
}

impl ItemHit {
    /// The counts line of the finder's popup.
    pub fn counts(&self) -> (r: String)
        ensures
            r@ == counts_text(self.balls as nat, self.hidden as nat),
    {
        let mut balls = u64_text(self.balls as u64);
        balls.append(" ball");
        if self.balls != 1 {
            balls.append("s");
        }
        proof {
            reveal_strlit("");
            let bp = decimal_view(self.balls as nat) + " ball"@ + (if self.balls == 1 { ""@ } else { "s"@ });
            assert(balls@ =~= bp);
        }
        if self.hidden == 0 {
            return balls;
        }
        let mut hidden = u64_text(self.hidden as u64);
        hidden.append(" hidden");
        if self.balls == 0 {
            return hidden;
        }
        let ghost bp = balls@;
        balls.append(" · ");
        balls.append(hidden.as_str());
        assert(balls@ =~= bp + " · "@ + decimal_view(self.hidden as nat) + " hidden"@);
        balls
    }
}

/// The finder's box: the text typed, whether the popup is open, and the
/// item whose places the focus banner is going through.
pub struct ItemSearch {
    pub query: String,
    pub open: bool,
    pub active: Option<String>,
}

impl ItemSearch {
    pub fn new() -> (r: ItemSearch)
        ensures
            r.query@.len() == 0,
            !r.open,
            r.active is None,
    {
        ItemSearch { query: String::new(), open: false, active: None }
    }

    /// The popup closes on a click outside it, on a pick, or on Escape.
    pub fn after_frame(&mut self, clicked_outside: bool, picked: bool, escape: bool)
        ensures
            final(self).open == (old(self).open && !(clicked_outside || picked || escape)),
            final(self).query == old(self).query,
            final(self).active == old(self).active,
    {
        if clicked_outside || picked || escape {
            self.open = false;
        }
    }
}

} // verus!
