//! The map export dialog's decisions: the settings it remembers for the
//! session (primed from the view's layers when it opens), the region it
//! works on, the layers a job draws, and what a finished job reports.

use vstd::prelude::*;

use crate::map_view::{ExportRegion, Toggles};
use crate::text::{decimal_digits, u64_text};

verus! {

/// The largest output scale (output pixels per world pixel).
pub const MAX_SCALE: u32 = 8;

/// The dialog's state; the job itself (its thread and progress) is the
/// caller's, `job_running` says whether one is.
pub struct ExportSettings {
    pub open: bool,
    /// whether the dialog was open the previous frame
    pub was_open: bool,
    /// the region it opens with (`None`: the selection when there is one,
    /// else the view)
    pub region: Option<ExportRegion>,
    /// a clipboard copy asked for without the dialog
    pub copy: Option<ExportRegion>,
    pub scale: u32,
    pub night: bool,
    pub markers: bool,
    pub sprites: bool,
    pub grid: bool,
    pub labels: bool,
    pub path: bool,
    pub selection_outline: bool,
    pub transparent: bool,
    pub job_running: bool,
    /// the last job's failure, shown until the next attempt
    pub error: Option<String>,
}

/// What a finished job tells the window.
pub enum ExportReport {
    /// an image was written to the file named
    Exported(String),
    /// an image was put on the clipboard
    CopiedImage,
    /// the export failed, for the reason given
    Failed(String),
}

/// How a job ended: the file it wrote, the size of the image it copied
/// (width, height and the bytes handed back), or its error.
pub enum JobEnd {
    Exported(String),
    Copied { width: usize, height: usize, bytes: usize },
    Failed(String),
}

/// Whether any kind of object is drawn.
pub open spec fn any_marker(t: Toggles) -> bool {
    t.trainers || t.items || t.hidden || t.warps || t.signs || t.berries || t.npcs
}

/// The layers a job draws: the dialog's "Markers" switch turns every kind
/// of object off at once, or keeps the toolbar's mix; the other layers are
/// the dialog's.
pub open spec fn job_toggles_spec(base: Toggles, s: ExportSettings) -> Toggles {
    Toggles {
        trainers: base.trainers && s.markers,
        items: base.items && s.markers,
        hidden: base.hidden && s.markers,
        warps: base.warps && s.markers,
        signs: base.signs && s.markers,
        berries: base.berries && s.markers,
        npcs: base.npcs && s.markers,
        sprites: s.sprites,
        grid: s.grid,
        labels: s.labels,
        path: s.path,
        ..base
    }
}

/// The dialog decides the exported image's layers: its sprites, grid,
/// labels and path switches are the job's, whatever the toolbar shows; with
/// "Markers" off no kind of object is drawn, with it on each kind is drawn
/// as the toolbar draws it; the navigator and follow switches stay the
/// toolbar's.
pub proof fn law_dialog_decides_layers(base: Toggles, s: ExportSettings)
    ensures
        job_toggles_spec(base, s).sprites == s.sprites,
        job_toggles_spec(base, s).grid == s.grid,
        job_toggles_spec(base, s).labels == s.labels,
        job_toggles_spec(base, s).path == s.path,
        !s.markers ==> !job_toggles_spec(base, s).trainers && !job_toggles_spec(base, s).items
            && !job_toggles_spec(base, s).hidden && !job_toggles_spec(base, s).warps && !job_toggles_spec(base, s).signs
            && !job_toggles_spec(base, s).berries && !job_toggles_spec(base, s).npcs,
        s.markers ==> job_toggles_spec(base, s).trainers == base.trainers && job_toggles_spec(base, s).items == base.items
            && job_toggles_spec(base, s).hidden == base.hidden && job_toggles_spec(base, s).warps == base.warps
            && job_toggles_spec(base, s).signs == base.signs && job_toggles_spec(base, s).berries == base.berries
            && job_toggles_spec(base, s).npcs == base.npcs,
        job_toggles_spec(base, s).navigator == base.navigator,
        job_toggles_spec(base, s).follow == base.follow,
{
}

/// Whether a region is offered: the selection when there is one, this map
/// in a map scope, the view and the world always.
pub open spec fn offered(r: ExportRegion, has_selection: bool, in_map_scope: bool) -> bool {
    match r {
        ExportRegion::View | ExportRegion::World => true,
        ExportRegion::Selection => has_selection,
        ExportRegion::ThisMap => in_map_scope,
    }
}

pub open spec fn fallback_region(has_selection: bool) -> ExportRegion {
    if has_selection {
        ExportRegion::Selection
    } else {
        ExportRegion::View
    }
}

/// The region the dialog works on: the one asked for when it is offered,
/// else the fallback.
pub open spec fn dialog_region_spec(asked: Option<ExportRegion>, has_selection: bool, in_map_scope: bool) -> ExportRegion {
    let requested = match asked {
        Some(r) => r,
        None => fallback_region(has_selection),
    };
    if offered(requested, has_selection, in_map_scope) {
        requested
    } else {
        fallback_region(has_selection)
    }
}

/// The scale after a step of the scale stepper, kept within 1 to the
/// largest scale.
pub open spec fn stepped_scale(scale: u32, delta: i32) -> u32 {
    let s = scale + delta;
    if s < 1 {
        1
    } else if s > MAX_SCALE {
        MAX_SCALE
    } else {
        s as u32
    }
}

/// Whether a copied image is whole: some pixels, four bytes each.
pub open spec fn image_whole(width: usize, height: usize, bytes: usize) -> bool {
    width > 0 && height > 0 && bytes == width * height * 4
}

impl ExportSettings {
    /// The session's first settings: 1x, markers, sprites and names on.
    pub fn new() -> (r: ExportSettings)
        ensures
            !r.open && !r.was_open,
            r.region is None && r.copy is None,
            r.scale == 1,
            !r.night,
            r.markers && r.sprites && !r.grid && r.labels && !r.path,
            r.selection_outline && !r.transparent,
            !r.job_running,
            r.error is None,
    {
        ExportSettings {
            open: false,
            was_open: false,
            region: None,
            copy: None,
            scale: 1,
            night: false,
            markers: true,
            sprites: true,
            grid: false,
            labels: true,
            path: false,
            selection_outline: true,
            transparent: false,
            job_running: false,
            error: None,
        }
    }

    /// Open the dialog on the next frame on its fallback region.
    pub fn request_open(&mut self)
        ensures
            *final(self) == (ExportSettings { open: true, region: None, error: None, ..*old(self) }),
    {
        self.open = true;
        self.region = None;
        self.error = None;
    }

    /// Open the dialog on `region`.
    pub fn request_open_with(&mut self, region: ExportRegion)
        ensures
            *final(self) == (ExportSettings { open: true, region: Some(region), error: None, ..*old(self) }),
    {
        self.open = true;
        self.region = Some(region);
        self.error = None;
    }

    /// Copy `region` to the clipboard without the dialog.
    pub fn request_copy(&mut self, region: ExportRegion)
        ensures
            *final(self) == (ExportSettings { copy: Some(region), ..*old(self) }),
    {
        self.copy = Some(region);
    }

    pub fn is_open(&self) -> (r: bool)
        ensures
            r == self.open,
    {
        self.open
    }

    /// The frame's start: when the dialog has just opened, the night switch
    /// and the layers are taken from the view (markers on when any kind of
    /// object is shown) and the last error is cleared. Returns whether it
    /// has just opened.
    pub fn prime(&mut self, view_night: bool, t: Toggles) -> (just_opened: bool)
        ensures
            just_opened == (old(self).open && !old(self).was_open),
            final(self).was_open == old(self).open,
            just_opened ==> *final(self) == (ExportSettings {
                was_open: old(self).open,
                night: view_night,
                markers: any_marker(t),
                sprites: t.sprites,
                grid: t.grid,
                labels: t.labels,
                path: t.path,
                error: None,
                ..*old(self)
            }),
            !just_opened ==> *final(self) == (ExportSettings { was_open: old(self).open, ..*old(self) }),
    {
        let just_opened = self.open && !self.was_open;
        self.was_open = self.open;
        if just_opened {
            self.night = view_night;
            self.markers = t.trainers || t.items || t.hidden || t.warps || t.signs || t.berries || t.npcs;
            self.sprites = t.sprites;
            self.grid = t.grid;
            self.labels = t.labels;
            self.path = t.path;
            self.error = None;
        }
        just_opened
    }

    /// The clipboard copy asked for, if any, taken (it runs only while no
    /// job does).
    pub fn take_copy(&mut self) -> (r: Option<ExportRegion>)
        ensures
            r == old(self).copy,
            *final(self) == (ExportSettings { copy: None, ..*old(self) }),
    {
        let r = self.copy;
        self.copy = None;
        r
    }

    /// The region the dialog works on.
    pub fn dialog_region(&self, has_selection: bool, in_map_scope: bool) -> (r: ExportRegion)
        ensures
            r == dialog_region_spec(self.region, has_selection, in_map_scope),
    {
        let requested = match self.region {
            Some(r) => r,
            None => {
                if has_selection {
                    ExportRegion::Selection
                } else {
                    ExportRegion::View
                }
            },
        };
        let ok = match requested {
            ExportRegion::View | ExportRegion::World => true,
            ExportRegion::Selection => has_selection,
            ExportRegion::ThisMap => in_map_scope,
        };
        if ok {
            requested
        } else if has_selection {
            ExportRegion::Selection
        } else {
            ExportRegion::View
        }
    }

    /// A region button was clicked.
    pub fn pick_region(&mut self, r: ExportRegion)
        ensures
            *final(self) == (ExportSettings { region: Some(r), ..*old(self) }),
    {
        self.region = Some(r);
    }

    /// The scale stepper: one step smaller (`delta < 0`) or larger.
    pub fn step_scale(&mut self, delta: i32)
        requires
            1 <= old(self).scale <= MAX_SCALE,
            -8 <= delta <= 8,
        ensures
            *final(self) == (ExportSettings { scale: stepped_scale(old(self).scale, delta), ..*old(self) }),
    {
        let s: i64 = self.scale as i64 + delta as i64;
        self.scale = if s < 1 {
            1
        } else if s > MAX_SCALE as i64 {
            MAX_SCALE
        } else {
            s as u32
        };
    }

    /// The stepper's buttons: smaller above 1x, larger below the largest.
    pub fn can_step(&self) -> (r: (bool, bool))
        ensures
            r == (self.scale > 1, self.scale < MAX_SCALE),
    {
        (self.scale > 1, self.scale < MAX_SCALE)
    }

    /// The scale's label, such as "2×".
    pub fn scale_label(&self) -> (r: String)
        ensures
            r@ == decimal_digits(self.scale as nat) + "×"@,
    {
        let mut l = u64_text(self.scale as u64);
        l.append("×");
        l
    }

    /// "Cancel" (or Escape): the dialog closes, its error is cleared.
    pub fn cancel(&mut self)
        ensures
            *final(self) == (ExportSettings { open: false, error: None, ..*old(self) }),
    {
        self.open = false;
        self.error = None;
    }

    /// "Export" or "Copy": a job starts; the last error is cleared.
    pub fn start_job(&mut self)
        ensures
            *final(self) == (ExportSettings { job_running: true, error: None, ..*old(self) }),
    {
        self.error = None;
        self.job_running = true;
    }

    /// The layers a job draws.
    pub fn job_toggles(&self, base: Toggles) -> (r: Toggles)
        ensures
            r == job_toggles_spec(base, *self),
    {
        let mut t = base;
        if !self.markers {
            t.trainers = false;
            t.items = false;
            t.hidden = false;
            t.warps = false;
            t.signs = false;
            t.berries = false;
            t.npcs = false;
        }
        t.sprites = self.sprites;
        t.grid = self.grid;
        t.labels = self.labels;
        t.path = self.path;
        t
    }

    /// A job ended (`cancelled`: the user stopped it). A written or copied
    /// image closes the dialog; a copied image that is not whole fails; a
    /// stopped job reports nothing; a failure shows in the open dialog, or
    /// is reported when the job was a quiet copy.
    pub fn finish_job(&mut self, end: JobEnd, cancelled: bool) -> (r: Option<ExportReport>)
        ensures
            !final(self).job_running,
            match end {
                JobEnd::Exported(path) => {
                    &&& r matches Some(ExportReport::Exported(p)) && p@ == path@
                    &&& *final(self) == (ExportSettings {
                        open: false,
                        error: None,
                        job_running: false,
                        ..*old(self)
                    })
                },
                JobEnd::Copied { width, height, bytes } => {
                    &&& (image_whole(width, height, bytes) ==> r matches Some(ExportReport::CopiedImage))
                    &&& (!image_whole(width, height, bytes) ==> (r matches Some(ExportReport::Failed(m)) && m@
                        == "nothing to copy"@))
                    &&& *final(self) == (ExportSettings {
                        open: false,
                        error: None,
                        job_running: false,
                        ..*old(self)
                    })
                },
                JobEnd::Failed(e) => if cancelled {
                    r is None && *final(self) == (ExportSettings { job_running: false, ..*old(self) })
                } else if old(self).open {
                    &&& r is None
                    &&& final(self).error matches Some(m) && m@ == e@
                    &&& *final(self) == (ExportSettings {
                        job_running: false,
                        error: final(self).error,
                        ..*old(self)
                    })
                } else {
                    &&& r matches Some(ExportReport::Failed(m)) && m@ == e@
                    &&& *final(self) == (ExportSettings { job_running: false, ..*old(self) })
                },
            },
    {
        self.job_running = false;
        match end {
            JobEnd::Exported(path) => {
                self.open = false;
                self.error = None;
                Some(ExportReport::Exported(path))
            },
            JobEnd::Copied { width, height, bytes } => {
                self.open = false;
                self.error = None;
                let whole = width > 0 && height > 0 && match width.checked_mul(height) {
                    Some(px) => match px.checked_mul(4) {
                        Some(n) => n == bytes,
                        None => false,
                    },
                    None => false,
                };
                if whole {
                    Some(ExportReport::CopiedImage)
                } else {
                    Some(ExportReport::Failed(String::from_str("nothing to copy")))
                }
            },
            JobEnd::Failed(e) => {
                if cancelled {
                    None
                } else if self.open {
                    self.error = Some(e);
                    None
                } else {
                    Some(ExportReport::Failed(e))
                }
            },
        }
    }
}

/// Whether a job draws anything over the base image: the selection outline,
/// the grid, the map names, the path or any kind of object.
pub fn needs_overlay(t: Toggles, outline: bool) -> (r: bool)
    ensures
        r == (outline || t.grid || t.labels || t.path || any_marker(t)),
{
    outline || t.grid || t.labels || t.path || t.trainers || t.items || t.hidden || t.warps || t.signs || t.berries
        || t.npcs
}

/// The dialog always works on a region it offers.
pub proof fn law_dialog_region_is_offered(asked: Option<ExportRegion>, has_selection: bool, in_map_scope: bool)
    ensures
        offered(dialog_region_spec(asked, has_selection, in_map_scope), has_selection, in_map_scope),
{
}

/// With "Markers" off a job draws no object of any kind; with it on, the
/// same kinds as the toolbar. The view-only switches are left as they are.
pub proof fn law_job_markers(base: Toggles, s: ExportSettings)
    ensures
        !s.markers ==> !any_marker(job_toggles_spec(base, s)),
        s.markers ==> any_marker(job_toggles_spec(base, s)) == any_marker(base),
        job_toggles_spec(base, s).navigator == base.navigator,
        job_toggles_spec(base, s).follow == base.follow,
{
}

/// The scale stays between 1x and the largest scale, whatever the steps.
pub proof fn law_scale_stays_in_range(scale: u32, delta: i32)
    ensures
        1 <= stepped_scale(scale, delta) <= MAX_SCALE,
{
}

} // verus!
