//! Where the sprite atlas puts a frame: frames go onto square pages in
//! shelves, rows of one height filled left to right. A frame takes the
//! first shelf of its height with room on the first page that has one,
//! else a new shelf at the bottom of the first page with room below, else
//! a new page. Every frame keeps a pixel of padding right and below, so no
//! two frames touch, and every frame lies inside its page.

use vstd::prelude::*;

verus! {

/// The side of an atlas page, in pixels.
pub const PAGE: usize = 1024;

/// The padding kept right of and below each frame, in pixels.
pub const PAD: usize = 1;

/// A shelf: its top, its height, and where the next frame on it starts.
#[derive(Clone, Copy, Debug, PartialEq, Eq, Structural)]
pub struct Shelf {
    pub y: usize,
    pub h: usize,
    pub next_x: usize,
}

/// A page: its shelves from the top, and where the next shelf would start.
#[derive(Debug)]
pub struct AtlasPage {
    pub shelves: Vec<Shelf>,
    pub next_y: usize,
}

/// Where a frame went: its page and its top-left corner.
#[derive(Clone, Copy, Debug, PartialEq, Eq, Structural)]
pub struct Slot {
    pub page: usize,
    pub x: usize,
    pub y: usize,
}

/// A page as the contracts see it.
pub open spec fn page_view(p: AtlasPage) -> (Seq<Shelf>, int) {
    (p.shelves@, p.next_y as int)
}

/// A shelf can take a padded frame `w` by `h`: it has that height and room
/// left on its row.
pub open spec fn fits(s: Shelf, w: int, h: int) -> bool {
    s.h == h && s.next_x + w <= PAGE
}

/// `k` is the first shelf that can take the frame.
pub open spec fn first_fit(shelves: Seq<Shelf>, w: int, h: int, k: int) -> bool {
    0 <= k < shelves.len() && fits(shelves[k], w, h) && forall|j: int| 0 <= j < k ==> !fits(#[trigger] shelves[j], w, h)
}

pub open spec fn has_fit(shelves: Seq<Shelf>, w: int, h: int) -> bool {
    exists|k: int| 0 <= k < shelves.len() && fits(#[trigger] shelves[k], w, h)
}

/// A page can take the frame: on a shelf, or on a new shelf below.
pub open spec fn takes(p: (Seq<Shelf>, int), w: int, h: int) -> bool {
    has_fit(p.0, w, h) || p.1 + h <= PAGE
}

/// A frame `fw` by `fh` the atlas can hold: not empty, and with its padding
/// on both sides no wider or taller than a page.
pub open spec fn packable(fw: int, fh: int) -> bool {
    fw > 0 && fh > 0 && fw + 2 * PAD <= PAGE && fh + 2 * PAD <= PAGE
}

/// Two padded frames (page, x, y, w, h) that share no pixel.
pub open spec fn apart(a: (int, int, int, int, int), b: (int, int, int, int, int)) -> bool {
    a.0 != b.0 || a.1 + a.3 <= b.1 || b.1 + b.3 <= a.1 || a.2 + a.4 <= b.2 || b.2 + b.4 <= a.2
}

/// A padded frame inside its page.
pub open spec fn inside_page(a: (int, int, int, int, int)) -> bool {
    0 <= a.1 && a.1 + a.3 <= PAGE && 0 <= a.2 && a.2 + a.4 <= PAGE
}

/// The packer: its pages, and (for the proofs) every frame placed so far
/// with its shelf: page, shelf, x, y, padded width and height.
pub struct ShelfPacker {
    pub pages: Vec<AtlasPage>,
    pub placed: Ghost<Seq<(int, int, int, int, int, int)>>,
}

pub open spec fn page_wf(p: (Seq<Shelf>, int)) -> bool {
    &&& p.1 <= PAGE
    &&& forall|k: int|
        0 <= k < p.0.len() ==> #[trigger] p.0[k].h > 0 && p.0[k].next_x <= PAGE && p.0[k].y + p.0[k].h <= p.1
    &&& forall|k1: int, k2: int| 0 <= k1 < k2 < p.0.len() ==> #[trigger] p.0[k1].y + p.0[k1].h <= #[trigger] p.0[k2].y
}

impl ShelfPacker {
    pub open spec fn view_pages(&self) -> Seq<(Seq<Shelf>, int)> {
        self.pages@.map_values(|p: AtlasPage| page_view(p))
    }

    /// The padded frames placed so far, in order: page, x, y, w, h.
    pub open spec fn frames(&self) -> Seq<(int, int, int, int, int)> {
        self.placed@.map_values(|t: (int, int, int, int, int, int)| (t.0, t.2, t.3, t.4, t.5))
    }

    /// Every page's shelves lie one under the other inside it; every frame
    /// lies on its shelf, before the shelf's next free column; on a shelf,
    /// later frames lie right of earlier ones.
    pub open spec fn wf(&self) -> bool {
        let pv = self.view_pages();
        let pl = self.placed@;
        &&& forall|p: int| 0 <= p < pv.len() ==> page_wf(#[trigger] pv[p])
        &&& forall|i: int|
            0 <= i < pl.len() ==> {
                let t = #[trigger] pl[i];
                &&& 0 <= t.0 < pv.len()
                &&& 0 <= t.1 < pv[t.0].0.len()
                &&& t.3 == pv[t.0].0[t.1].y
                &&& t.5 == pv[t.0].0[t.1].h
                &&& 0 <= t.2
                &&& t.4 > 0
                &&& t.2 + t.4 <= pv[t.0].0[t.1].next_x
            }
        &&& forall|i: int, j: int|
            0 <= i < j < pl.len() && (#[trigger] pl[i]).0 == (#[trigger] pl[j]).0 && pl[i].1 == pl[j].1 ==> pl[i].2
                + pl[i].4 <= pl[j].2
    }

    /// An empty atlas.
    pub fn new() -> (r: ShelfPacker)
        ensures
            r.wf(),
            r.view_pages().len() == 0,
            r.frames().len() == 0,
    {
        let r = ShelfPacker { pages: Vec::new(), placed: Ghost(Seq::empty()) };
        proof {
            assert(r.view_pages() =~= Seq::empty());
            assert(r.frames() =~= Seq::empty());
        }
        r
    }

    /// Place a frame `fw` by `fh`: `None`, with nothing changed,
    /// when the atlas cannot hold it; else where it went, its padded size
    /// taken on the first page that can take it (on the first shelf of its
    /// height with room, else on a new shelf below), or on a new page.
    pub fn place(&mut self, fw: usize, fh: usize) -> (r: Option<Slot>)
        requires
            old(self).wf(),
        ensures
            final(self).wf(),
            !packable(fw as int, fh as int) ==> r is None && final(self).view_pages() == old(self).view_pages()
                && final(self).frames() == old(self).frames(),
            packable(fw as int, fh as int) ==> (r matches Some(slot) && {
                let w = fw + PAD;
                let h = fh + PAD;
                let ov = old(self).view_pages();
                let nv = final(self).view_pages();
                &&& final(self).frames() == old(self).frames().push(
                    (slot.page as int, slot.x as int, slot.y as int, w as int, h as int),
                )
                &&& forall|q: int| 0 <= q < slot.page ==> !takes(#[trigger] ov[q], w, h)
                &&& if slot.page < ov.len() {
                    &&& takes(ov[slot.page as int], w, h)
                    &&& nv.len() == ov.len()
                    &&& forall|q: int| 0 <= q < ov.len() && q != slot.page ==> #[trigger] nv[q] == ov[q]
                    &&& if has_fit(ov[slot.page as int].0, w, h) {
                        exists|k: int|
                            first_fit(ov[slot.page as int].0, w, h, k) && slot.x == ov[slot.page as int].0[k].next_x
                                && slot.y == ov[slot.page as int].0[k].y && nv[slot.page as int] == (
                                ov[slot.page as int].0.update(
                                    k,
                                    Shelf { next_x: (ov[slot.page as int].0[k].next_x + w) as usize, ..ov[slot.page as int].0[k] },
                                ),
                                ov[slot.page as int].1,
                            )
                    } else {
                        &&& slot.x == 0
                        &&& slot.y == ov[slot.page as int].1
                        &&& nv[slot.page as int] == (
                            ov[slot.page as int].0.push(Shelf { y: slot.y, h: h as usize, next_x: w as usize }),
                            ov[slot.page as int].1 + h,
                        )
                    }
                } else {
                    &&& slot.page == ov.len()
                    &&& slot.x == 0
                    &&& slot.y == 0
                    &&& nv == ov.push((seq![Shelf { y: 0, h: h as usize, next_x: w as usize }], h as int))
                }
            }),
    {
        if fw == 0 || fh == 0 || fw > PAGE - 2 * PAD || fh > PAGE - 2 * PAD {
            return None;
        }
        let w = fw + PAD;
        let h = fh + PAD;
        let ghost ov = self.view_pages();
        let ghost opl = self.placed@;
        let mut pi: usize = 0;
        while pi < self.pages.len()
            invariant
                self.wf(),
                self.view_pages() == ov,
                self.placed@ == opl,
                ov == old(self).view_pages(),
                opl == old(self).placed@,
                pi <= self.pages.len(),
                packable(fw as int, fh as int),
                w == fw + PAD,
                h == fh + PAD,
                forall|q: int| 0 <= q < pi ==> !takes(#[trigger] ov[q], w as int, h as int),
            decreases self.pages.len() - pi,
        {
            assert(self.view_pages()[pi as int] == page_view(self.pages@[pi as int]));
            let n = self.pages[pi].shelves.len();
            let mut k: usize = 0;
            while k < n
                invariant
                    self.wf(),
                    self.view_pages() == ov,
                    self.placed@ == opl,
                    ov == old(self).view_pages(),
                    opl == old(self).placed@,
                    pi < self.pages.len(),
                    n == ov[pi as int].0.len(),
                    k <= n,
                    packable(fw as int, fh as int),
                    w == fw + PAD,
                    h == fh + PAD,
                    forall|q: int| 0 <= q < pi ==> !takes(#[trigger] ov[q], w as int, h as int),
                    forall|j: int| 0 <= j < k ==> !fits(#[trigger] ov[pi as int].0[j], w as int, h as int),
                decreases n - k,
            {
                assert(self.view_pages()[pi as int] == page_view(self.pages@[pi as int]));
                let s = self.pages[pi].shelves[k];
                if s.h == h && s.next_x + w <= PAGE {
                    let ghost old_pages = self.pages@;
                    self.pages[pi].shelves[k].next_x = s.next_x + w;
                    proof {
                        let grown = (
                            ov[pi as int].0.update(k as int, Shelf { next_x: (s.next_x + w) as usize, ..s }),
                            ov[pi as int].1,
                        );
                        assert(self.pages@[pi as int].shelves@ =~= grown.0);
                        assert forall|q: int| 0 <= q < ov.len() && q != pi implies #[trigger] self.view_pages()[q]
                            == ov[q] by {
                            assert(self.pages@[q] == old_pages[q]);
                        }
                        assert(self.view_pages()[pi as int] == grown);
                        self.placed@ = opl.push((pi as int, k as int, s.next_x as int, s.y as int, w as int, h as int));
                        self.lemma_shelf_grew(ov, opl, pi as int, k as int, w as int, h as int);
                        assert(first_fit(ov[pi as int].0, w as int, h as int, k as int));
                        assert(has_fit(ov[pi as int].0, w as int, h as int));
                        assert(self.frames() =~= old(self).frames().push(
                            (pi as int, s.next_x as int, s.y as int, w as int, h as int),
                        ));
                    }
                    return Some(Slot { page: pi, x: s.next_x, y: s.y });
                }
                k = k + 1;
            }
            let ny = self.pages[pi].next_y;
            if ny + h <= PAGE {
                let ghost old_pages = self.pages@;
                self.pages[pi].shelves.push(Shelf { y: ny, h, next_x: w });
                self.pages[pi].next_y = ny + h;
                proof {
                    let added = (ov[pi as int].0.push(Shelf { y: ny, h, next_x: w }), ov[pi as int].1 + h);
                    assert(self.pages@[pi as int].shelves@ =~= added.0);
                    assert forall|q: int| 0 <= q < ov.len() && q != pi implies #[trigger] self.view_pages()[q]
                        == ov[q] by {
                        assert(self.pages@[q] == old_pages[q]);
                    }
                    assert(self.view_pages()[pi as int] == added);
                    self.placed@ = opl.push((pi as int, n as int, 0, ny as int, w as int, h as int));
                    self.lemma_shelf_added(ov, opl, pi as int, w as int, h as int);
                    assert(!has_fit(ov[pi as int].0, w as int, h as int));
                    assert(self.frames() =~= old(self).frames().push((pi as int, 0, ny as int, w as int, h as int)));
                }
                return Some(Slot { page: pi, x: 0, y: ny });
            }
            proof {
                assert(!has_fit(ov[pi as int].0, w as int, h as int));
            }
            pi = pi + 1;
        }
        let mut shelves: Vec<Shelf> = Vec::new();
        shelves.push(Shelf { y: 0, h, next_x: w });
        let ghost old_pages = self.pages@;
        self.pages.push(AtlasPage { shelves, next_y: h });
        proof {
            let fresh = (seq![Shelf { y: 0, h, next_x: w }], h as int);
            assert(self.pages@[pi as int].shelves@ =~= fresh.0);
            assert forall|q: int| 0 <= q < ov.len() implies #[trigger] self.view_pages()[q] == ov[q] by {
                assert(self.pages@[q] == old_pages[q]);
            }
            assert(self.view_pages()[pi as int] == fresh);
            assert(self.view_pages() =~= ov.push(fresh));
            self.placed@ = opl.push((pi as int, 0, 0, 0, w as int, h as int));
            self.lemma_page_added(ov, opl, w as int, h as int);
            assert(self.frames() =~= old(self).frames().push((pi as int, 0, 0, w as int, h as int)));
        }
        Some(Slot { page: pi, x: 0, y: 0 })
    }

    proof fn lemma_shelf_grew(
        &self,
        ov: Seq<(Seq<Shelf>, int)>,
        opl: Seq<(int, int, int, int, int, int)>,
        p: int,
        k: int,
        w: int,
        h: int,
    )
        requires
            0 <= p < ov.len(),
            0 <= k < ov[p].0.len(),
            fits(ov[p].0[k], w, h),
            0 < w,
            self.view_pages().len() == ov.len(),
            forall|q: int| 0 <= q < ov.len() && q != p ==> #[trigger] self.view_pages()[q] == ov[q],
            self.view_pages()[p] == (
                ov[p].0.update(k, Shelf { next_x: (ov[p].0[k].next_x + w) as usize, ..ov[p].0[k] }),
                ov[p].1,
            ),
            self.placed@ == opl.push((p, k, ov[p].0[k].next_x as int, ov[p].0[k].y as int, w, h)),
            forall|q: int| 0 <= q < ov.len() ==> page_wf(#[trigger] ov[q]),
            forall|i: int|
                0 <= i < opl.len() ==> {
                    let t = #[trigger] opl[i];
                    &&& 0 <= t.0 < ov.len()
                    &&& 0 <= t.1 < ov[t.0].0.len()
                    &&& t.3 == ov[t.0].0[t.1].y
                    &&& t.5 == ov[t.0].0[t.1].h
                    &&& 0 <= t.2
                    &&& t.4 > 0
                    &&& t.2 + t.4 <= ov[t.0].0[t.1].next_x
                },
            forall|i: int, j: int|
                0 <= i < j < opl.len() && (#[trigger] opl[i]).0 == (#[trigger] opl[j]).0 && opl[i].1 == opl[j].1
                    ==> opl[i].2 + opl[i].4 <= opl[j].2,
        ensures
            self.wf(),
    {
        let pv = self.view_pages();
        let pl = self.placed@;
        assert forall|q: int| 0 <= q < pv.len() implies page_wf(#[trigger] pv[q]) by {
            if q == p {
                let sh = pv[p].0;
                assert forall|a: int| 0 <= a < sh.len() implies #[trigger] sh[a].h > 0 && sh[a].next_x <= PAGE
                    && sh[a].y + sh[a].h <= pv[p].1 by {
                    assert(ov[p].0[a].h > 0);
                }
                assert forall|a: int, b: int| 0 <= a < b < sh.len() implies #[trigger] sh[a].y + sh[a].h
                    <= #[trigger] sh[b].y by {
                    assert(ov[p].0[a].y + ov[p].0[a].h <= ov[p].0[b].y);
                }
            }
        }
        assert forall|i: int| 0 <= i < pl.len() implies {
            let t = #[trigger] pl[i];
            &&& 0 <= t.0 < pv.len()
            &&& 0 <= t.1 < pv[t.0].0.len()
            &&& t.3 == pv[t.0].0[t.1].y
            &&& t.5 == pv[t.0].0[t.1].h
            &&& 0 <= t.2
            &&& t.4 > 0
            &&& t.2 + t.4 <= pv[t.0].0[t.1].next_x
        } by {
            if i < opl.len() {
                assert(pl[i] == opl[i]);
            }
        }
        assert forall|i: int, j: int|
            0 <= i < j < pl.len() && (#[trigger] pl[i]).0 == (#[trigger] pl[j]).0 && pl[i].1 == pl[j].1 implies pl[i].2
            + pl[i].4 <= pl[j].2 by {
            assert(pl[i] == opl[i]);
            if j < opl.len() {
                assert(pl[j] == opl[j]);
            }
        }
    }

    proof fn lemma_shelf_added(
        &self,
        ov: Seq<(Seq<Shelf>, int)>,
        opl: Seq<(int, int, int, int, int, int)>,
        p: int,
        w: int,
        h: int,
    )
        requires
            0 <= p < ov.len(),
            0 < w < PAGE,
            0 < h < PAGE,
            0 <= ov[p].1,
            ov[p].1 + h <= PAGE,
            self.view_pages().len() == ov.len(),
            forall|q: int| 0 <= q < ov.len() && q != p ==> #[trigger] self.view_pages()[q] == ov[q],
            self.view_pages()[p] == (ov[p].0.push(Shelf { y: ov[p].1 as usize, h: h as usize, next_x: w as usize }), ov[p].1 + h),
            self.placed@ == opl.push((p, ov[p].0.len() as int, 0, ov[p].1, w, h)),
            forall|q: int| 0 <= q < ov.len() ==> page_wf(#[trigger] ov[q]),
            forall|i: int|
                0 <= i < opl.len() ==> {
                    let t = #[trigger] opl[i];
                    &&& 0 <= t.0 < ov.len()
                    &&& 0 <= t.1 < ov[t.0].0.len()
                    &&& t.3 == ov[t.0].0[t.1].y
                    &&& t.5 == ov[t.0].0[t.1].h
                    &&& 0 <= t.2
                    &&& t.4 > 0
                    &&& t.2 + t.4 <= ov[t.0].0[t.1].next_x
                },
            forall|i: int, j: int|
                0 <= i < j < opl.len() && (#[trigger] opl[i]).0 == (#[trigger] opl[j]).0 && opl[i].1 == opl[j].1
                    ==> opl[i].2 + opl[i].4 <= opl[j].2,
        ensures
            self.wf(),
    {
        let pv = self.view_pages();
        let pl = self.placed@;
        let n = ov[p].0.len() as int;
        assert forall|q: int| 0 <= q < pv.len() implies page_wf(#[trigger] pv[q]) by {
            if q == p {
                let sh = pv[p].0;
                assert forall|a: int| 0 <= a < sh.len() implies #[trigger] sh[a].h > 0 && sh[a].next_x <= PAGE
                    && sh[a].y + sh[a].h <= pv[p].1 by {
                    assert(page_wf(ov[p]));
                    if a < n {
                        assert(sh[a] == ov[p].0[a]);
                        assert(ov[p].0[a].h > 0);
                    } else {
                        assert(sh[a] == Shelf { y: ov[p].1 as usize, h: h as usize, next_x: w as usize });
                    }
                }
                assert forall|a: int, b: int| 0 <= a < b < sh.len() implies #[trigger] sh[a].y + sh[a].h
                    <= #[trigger] sh[b].y by {
                    assert(sh[a] == ov[p].0[a]);
                    if b < n {
                        assert(sh[b] == ov[p].0[b]);
                    }
                }
            }
        }
        assert forall|i: int| 0 <= i < pl.len() implies {
            let t = #[trigger] pl[i];
            &&& 0 <= t.0 < pv.len()
            &&& 0 <= t.1 < pv[t.0].0.len()
            &&& t.3 == pv[t.0].0[t.1].y
            &&& t.5 == pv[t.0].0[t.1].h
            &&& 0 <= t.2
            &&& t.4 > 0
            &&& t.2 + t.4 <= pv[t.0].0[t.1].next_x
        } by {
            if i < opl.len() {
                assert(pl[i] == opl[i]);
                if pl[i].0 == p {
                    assert(pv[p].0[pl[i].1] == ov[p].0[pl[i].1]);
                }
            }
        }
        assert forall|i: int, j: int|
            0 <= i < j < pl.len() && (#[trigger] pl[i]).0 == (#[trigger] pl[j]).0 && pl[i].1 == pl[j].1 implies pl[i].2
            + pl[i].4 <= pl[j].2 by {
            assert(pl[i] == opl[i]);
            if j < opl.len() {
                assert(pl[j] == opl[j]);
            }
        }
    }

    proof fn lemma_page_added(
        &self,
        ov: Seq<(Seq<Shelf>, int)>,
        opl: Seq<(int, int, int, int, int, int)>,
        w: int,
        h: int,
    )
        requires
            0 < w < PAGE,
            0 < h < PAGE,
            self.view_pages() == ov.push((seq![Shelf { y: 0, h: h as usize, next_x: w as usize }], h)),
            self.placed@ == opl.push((ov.len() as int, 0, 0, 0, w, h)),
            forall|q: int| 0 <= q < ov.len() ==> page_wf(#[trigger] ov[q]),
            forall|i: int|
                0 <= i < opl.len() ==> {
                    let t = #[trigger] opl[i];
                    &&& 0 <= t.0 < ov.len()
                    &&& 0 <= t.1 < ov[t.0].0.len()
                    &&& t.3 == ov[t.0].0[t.1].y
                    &&& t.5 == ov[t.0].0[t.1].h
                    &&& 0 <= t.2
                    &&& t.4 > 0
                    &&& t.2 + t.4 <= ov[t.0].0[t.1].next_x
                },
            forall|i: int, j: int|
                0 <= i < j < opl.len() && (#[trigger] opl[i]).0 == (#[trigger] opl[j]).0 && opl[i].1 == opl[j].1
                    ==> opl[i].2 + opl[i].4 <= opl[j].2,
        ensures
            self.wf(),
    {
        let pv = self.view_pages();
        let pl = self.placed@;
        assert forall|q: int| 0 <= q < pv.len() implies page_wf(#[trigger] pv[q]) by {
            if q < ov.len() {
                assert(pv[q] == ov[q]);
            }
        }
        assert forall|i: int| 0 <= i < pl.len() implies {
            let t = #[trigger] pl[i];
            &&& 0 <= t.0 < pv.len()
            &&& 0 <= t.1 < pv[t.0].0.len()
            &&& t.3 == pv[t.0].0[t.1].y
            &&& t.5 == pv[t.0].0[t.1].h
            &&& 0 <= t.2
            &&& t.4 > 0
            &&& t.2 + t.4 <= pv[t.0].0[t.1].next_x
        } by {
            if i < opl.len() {
                assert(pl[i] == opl[i]);
                assert(pv[pl[i].0] == ov[pl[i].0]);
            }
        }
        assert forall|i: int, j: int|
            0 <= i < j < pl.len() && (#[trigger] pl[i]).0 == (#[trigger] pl[j]).0 && pl[i].1 == pl[j].1 implies pl[i].2
            + pl[i].4 <= pl[j].2 by {
            assert(pl[i] == opl[i]);
            if j < opl.len() {
                assert(pl[j] == opl[j]);
            }
        }
    }
}

/// No two frames of the atlas share a pixel, padding included, and every
/// frame lies inside its page.
pub proof fn law_frames_apart(a: &ShelfPacker, i: int, j: int)
    requires
        a.wf(),
        0 <= i < a.frames().len(),
        0 <= j < a.frames().len(),
        i != j,
    ensures
        apart(a.frames()[i], a.frames()[j]),
        inside_page(a.frames()[i]),
{
    let pl = a.placed@;
    let pv = a.view_pages();
    let ti = pl[i];
    let tj = pl[j];
    assert(a.frames()[i] == (ti.0, ti.2, ti.3, ti.4, ti.5));
    assert(a.frames()[j] == (tj.0, tj.2, tj.3, tj.4, tj.5));
    assert(page_wf(pv[ti.0]));
    assert(pv[ti.0].0[ti.1].h > 0);
    if ti.0 == tj.0 {
        assert(page_wf(pv[tj.0]));
        if ti.1 == tj.1 {
            if i < j {
                assert(ti.2 + ti.4 <= tj.2);
            } else {
                assert(tj.2 + tj.4 <= ti.2);
            }
        } else if ti.1 < tj.1 {
            assert(pv[ti.0].0[ti.1].y + pv[ti.0].0[ti.1].h <= pv[ti.0].0[tj.1].y);
        } else {
            assert(pv[ti.0].0[tj.1].y + pv[ti.0].0[tj.1].h <= pv[ti.0].0[ti.1].y);
        }
    }
}

} // verus!
