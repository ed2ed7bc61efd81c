//! The route list's rows and selection: which rows a group shows, where the
//! inline strip's spacer row goes, what a click or an arrow key selects,
//! the name paths that remember which folders are open, and the name of a
//! new folder.

use vstd::prelude::*;

use crate::details::NodeKind;
use crate::editors::parse_field;
use crate::names::{first_free_name, numbered_name};
use crate::text::{parse_i64_spec, trim_seq};

verus! {

/// What a row of the route list shows.
#[derive(Clone, Copy, Debug, PartialEq, Eq, Structural)]
pub enum RowKind {
    Folder,
    Group,
    Item,
    /// a level-up move learned with its group, shown beside it
    LevelUpSibling,
    /// the room the inline strip is drawn in
    InlineSpacer,
}

/// One row: the event or folder it shows, how deep it is, and whether it
/// can be and is expanded.
#[derive(Clone, Copy, Debug, PartialEq, Eq, Structural)]
pub struct Row {
    pub id: i64,
    pub kind: RowKind,
    pub depth: usize,
    pub expandable: bool,
    pub expanded: bool,
    /// the parent row's id
    pub parent: Option<i64>,
}

/// The id the spacer row carries.
pub const SPACER_ID: i64 = -1;

// ---------------------------------------------------------------------------
// a group's rows
// ---------------------------------------------------------------------------

/// The items of a group with more than one item that are not level-up
/// moves (`items[k].1`: the item is a level-up move).
pub open spec fn other_items(items: Seq<(i64, bool)>) -> Seq<i64> {
    if items.len() > 1 {
        items.filter(|x: (i64, bool)| !x.1).map_values(|x: (i64, bool)| x.0)
    } else {
        Seq::empty()
    }
}

/// The level-up items of a group with more than one item.
pub open spec fn level_up_items(items: Seq<(i64, bool)>) -> Seq<i64> {
    if items.len() > 1 {
        items.filter(|x: (i64, bool)| x.1).map_values(|x: (i64, bool)| x.0)
    } else {
        Seq::empty()
    }
}

/// The rows of group `gid`: the group (expandable when it has items other
/// than level-up moves, expanded when also `open`), its level-up moves
/// beside it, then, when expanded, its other items one level deeper.
pub open spec fn group_rows_spec(
    gid: i64,
    depth: usize,
    parent: Option<i64>,
    items: Seq<(i64, bool)>,
    open: bool,
) -> Seq<Row> {
    let others = other_items(items);
    let expandable = others.len() > 0;
    let expanded = expandable && open;
    seq![Row { id: gid, kind: RowKind::Group, depth, expandable, expanded, parent }] + level_up_items(
        items,
    ).map_values(
        |id: i64|
            Row { id, kind: RowKind::LevelUpSibling, depth, expandable: false, expanded: false, parent },
    ) + if expanded {
        others.map_values(
            |id: i64|
                Row {
                    id,
                    kind: RowKind::Item,
                    depth: (depth + 1) as usize,
                    expandable: false,
                    expanded: false,
                    parent: Some(gid),
                },
        )
    } else {
        Seq::empty()
    }
}

/// The rows of a group that is shown, in order.
pub fn group_rows(gid: i64, depth: usize, parent: Option<i64>, items: &Vec<(i64, bool)>, open: bool) -> (r: Vec<Row>)
    requires
        depth < usize::MAX,
    ensures
        r@ == group_rows_spec(gid, depth, parent, items@, open),
{
    let mut level_up: Vec<i64> = Vec::new();
    let mut other: Vec<i64> = Vec::new();
    if items.len() > 1 {
        let mut i: usize = 0;
        while i < items.len()
            invariant
                i <= items.len(),
                items.len() > 1,
                level_up@ == items@.subrange(0, i as int).filter(|x: (i64, bool)| x.1).map_values(
                    |x: (i64, bool)| x.0,
                ),
                other@ == items@.subrange(0, i as int).filter(|x: (i64, bool)| !x.1).map_values(
                    |x: (i64, bool)| x.0,
                ),
            decreases items.len() - i,
        {
            let ghost pre = items@.subrange(0, i + 1);
            proof {
                assert(pre.drop_last() =~= items@.subrange(0, i as int));
                reveal(Seq::filter);
            }
            let (id, lu) = items[i];
            if lu {
                level_up.push(id);
            } else {
                other.push(id);
            }
            proof {
                assert(level_up@ =~= pre.filter(|x: (i64, bool)| x.1).map_values(|x: (i64, bool)| x.0));
                assert(other@ =~= pre.filter(|x: (i64, bool)| !x.1).map_values(|x: (i64, bool)| x.0));
            }
            i = i + 1;
        }
        assert(items@.subrange(0, items.len() as int) =~= items@);
    }
    let expandable = other.len() > 0;
    let expanded = expandable && open;
    let mut rows: Vec<Row> = Vec::new();
    rows.push(Row { id: gid, kind: RowKind::Group, depth, expandable, expanded, parent });
    let mut k: usize = 0;
    while k < level_up.len()
        invariant
            k <= level_up.len(),
            rows@ == seq![Row { id: gid, kind: RowKind::Group, depth, expandable, expanded, parent }]
                + level_up@.subrange(0, k as int).map_values(
                |id: i64|
                    Row {
                        id,
                        kind: RowKind::LevelUpSibling,
                        depth,
                        expandable: false,
                        expanded: false,
                        parent,
                    },
            ),
        decreases level_up.len() - k,
    {
        rows.push(
            Row { id: level_up[k], kind: RowKind::LevelUpSibling, depth, expandable: false, expanded: false, parent },
        );
        proof {
            assert(level_up@.subrange(0, k + 1) =~= level_up@.subrange(0, k as int).push(level_up@[k as int]));
        }
        k = k + 1;
        assert(rows@ =~= seq![Row { id: gid, kind: RowKind::Group, depth, expandable, expanded, parent }]
            + level_up@.subrange(0, k as int).map_values(
            |id: i64|
                Row { id, kind: RowKind::LevelUpSibling, depth, expandable: false, expanded: false, parent },
        ));
    }
    assert(level_up@.subrange(0, level_up.len() as int) =~= level_up@);
    let ghost head = rows@;
    if expanded {
        let mut k: usize = 0;
        while k < other.len()
            invariant
                k <= other.len(),
                depth < usize::MAX,
                rows@ == head + other@.subrange(0, k as int).map_values(
                    |id: i64|
                        Row {
                            id,
                            kind: RowKind::Item,
                            depth: (depth + 1) as usize,
                            expandable: false,
                            expanded: false,
                            parent: Some(gid),
                        },
                ),
            decreases other.len() - k,
        {
            rows.push(
                Row {
                    id: other[k],
                    kind: RowKind::Item,
                    depth: depth + 1,
                    expandable: false,
                    expanded: false,
                    parent: Some(gid),
                },
            );
            proof {
                assert(other@.subrange(0, k + 1) =~= other@.subrange(0, k as int).push(other@[k as int]));
            }
            k = k + 1;
            assert(rows@ =~= head + other@.subrange(0, k as int).map_values(
                |id: i64|
                    Row {
                        id,
                        kind: RowKind::Item,
                        depth: (depth + 1) as usize,
                        expandable: false,
                        expanded: false,
                        parent: Some(gid),
                    },
            ));
        }
        assert(other@.subrange(0, other.len() as int) =~= other@);
    }
    assert(rows@ =~= group_rows_spec(gid, depth, parent, items@, open));
    rows
}


// ---------------------------------------------------------------------------
// selection
// ---------------------------------------------------------------------------

/// `p` is the first row showing `id`.
pub open spec fn first_row_of(rows: Seq<Row>, id: i64, p: int) -> bool {
    0 <= p < rows.len() && rows[p].id == id && forall|j: int| 0 <= j < p ==> rows[j].id != id
}

/// Whether some row shows `id`.
pub open spec fn shows(rows: Seq<Row>, id: i64) -> bool {
    exists|p: int| 0 <= p < rows.len() && rows[p].id == id
}

/// The ids of the rows `lo..=hi` other than the spacer.
pub open spec fn ids_between(rows: Seq<Row>, lo: int, hi: int) -> Seq<i64> {
    rows.subrange(lo, hi + 1).filter(|r: Row| r.kind != RowKind::InlineSpacer).map_values(|r: Row| r.id)
}

/// The first position of `id` in `ids`.
pub open spec fn first_id_at(ids: Seq<i64>, id: i64, p: int) -> bool {
    0 <= p < ids.len() && ids[p] == id && forall|j: int| 0 <= j < p ==> ids[j] != id
}

/// A Ctrl-click on `id`: it leaves the selection, or joins it at the end.
pub open spec fn id_toggled(ids: Seq<i64>, id: i64) -> Seq<i64> {
    if ids.contains(id) {
        ids.remove(choose|p: int| first_id_at(ids, id, p))
    } else {
        ids.push(id)
    }
}

/// Two Ctrl-clicks on a row that was not selected give back the same
/// selection.
pub proof fn law_ctrl_click_twice_restores(sel: Seq<i64>, id: i64)
    requires
        !sel.contains(id),
    ensures
        id_toggled(id_toggled(sel, id), id) == sel,
{
    let t = sel.push(id);
    assert(t[sel.len() as int] == id);
    assert(t.contains(id));
    assert(first_id_at(t, id, sel.len() as int)) by {
        assert forall|j: int| 0 <= j < sel.len() implies t[j] != id by {
            assert(t[j] == sel[j]);
        }
    }
    let p = choose|p: int| first_id_at(t, id, p);
    assert(p == sel.len()) by {
        if p < sel.len() {
            assert(t[p] == sel[p]);
        }
    }
    assert(t.remove(p) =~= sel);
}

// ---------------------------------------------------------------------------
// the rows of the whole list
// ---------------------------------------------------------------------------

/// A folder or group of the route, in the tree's depth-first order (the
/// root's children at depth 0), as the list reads it: whether the search
/// and the type filter render it, for a folder whether it is expanded, for
/// a group its items (each with whether it is a level-up move) and whether
/// it is open, and the id of the folder holding it.
pub struct ListNode {
    pub id: i64,
    pub is_folder: bool,
    pub depth: usize,
    pub render: bool,
    pub expanded: bool,
    pub items: Vec<(i64, bool)>,
    pub parent: Option<i64>,
}

/// A node that hides what lies under it: one the search or filter does not
/// render, or a folded folder.
pub open spec fn hides(n: ListNode) -> bool {
    !n.render || (n.is_folder && !n.expanded)
}

/// Node `a` holds node `j`: it comes before `j`, is shallower, and every
/// node between them is deeper than `a`.
pub open spec fn holds(nodes: Seq<ListNode>, a: int, j: int) -> bool {
    &&& 0 <= a < j < nodes.len()
    &&& nodes[a].depth < nodes[j].depth
    &&& forall|k: int| a < k < j ==> nodes[k].depth > nodes[a].depth
}

/// Node `j` has rows in the list: it is rendered, and nothing holding it
/// hides it.
pub open spec fn listed(nodes: Seq<ListNode>, j: int) -> bool {
    nodes[j].render && !exists|a: int| holds(nodes, a, j) && hides(#[trigger] nodes[a])
}

/// The rows of one listed node: a folder's own row, or a group's rows.
pub open spec fn node_rows(n: ListNode) -> Seq<Row> {
    if n.is_folder {
        seq![Row { id: n.id, kind: RowKind::Folder, depth: n.depth, expandable: true, expanded: n.expanded, parent: n.parent }]
    } else {
        group_rows_spec(n.id, n.depth, n.parent, n.items@, n.expanded)
    }
}

/// The rows of the first `m` nodes.
pub open spec fn list_rows_spec(nodes: Seq<ListNode>, m: int) -> Seq<Row>
    decreases m,
{
    if m <= 0 {
        Seq::empty()
    } else {
        list_rows_spec(nodes, m - 1) + if listed(nodes, m - 1) {
            node_rows(nodes[m - 1])
        } else {
            Seq::empty()
        }
    }
}

/// A hiding node whose subtree still runs at `j`.
pub open spec fn open_at(nodes: Seq<ListNode>, b: int, j: int) -> bool {
    &&& 0 <= b < j
    &&& hides(nodes[b])
    &&& forall|k: int| b < k < j ==> nodes[k].depth > nodes[b].depth
}

/// The list's rows, from the route's folders and groups in
/// depth-first order (a flattened list, such as the major-battle filter
/// shows, is the same with every group at depth 0 and no folder).
pub fn list_rows(nodes: &Vec<ListNode>) -> (r: Vec<Row>)
    requires
        forall|j: int| 0 <= j < nodes@.len() ==> #[trigger] nodes@[j].depth < usize::MAX,
    ensures
        r@ == list_rows_spec(nodes@, nodes@.len() as int),
{
    let mut rows: Vec<Row> = Vec::new();
    let mut cut: Option<usize> = None;
    let mut j: usize = 0;
    while j < nodes.len()
        invariant
            j <= nodes.len(),
            forall|t: int| 0 <= t < nodes@.len() ==> #[trigger] nodes@[t].depth < usize::MAX,
            rows@ == list_rows_spec(nodes@, j as int),
            cut is None ==> forall|b: int| !open_at(nodes@, b, j as int),
            cut matches Some(d) ==> (exists|a: int| open_at(nodes@, a, j as int) && nodes@[a].depth == d) && (forall|b: int|
                open_at(nodes@, b, j as int) ==> nodes@[b].depth >= d),
        decreases nodes.len() - j,
    {
        let n = &nodes[j];
        let ghost nv = nodes@;
        let ghost jj = j as int;
        // an open hiding node `b` holds `j` exactly when it is shallower
        proof {
            assert forall|b: int| holds(nv, b, jj) && hides(#[trigger] nv[b]) <==> open_at(nv, b, jj) && nv[b].depth
                < nv[jj].depth by {}
        }
        let skipped = match cut {
            Some(d) => n.depth > d,
            None => false,
        };
        if skipped {
            proof {
                let d = cut->0;
                let a = choose|a: int| open_at(nv, a, jj) && nv[a].depth == d;
                assert(holds(nv, a, jj) && hides(nv[a]));
                assert(!listed(nv, jj));
                assert(rows@ =~= list_rows_spec(nv, jj + 1));
                assert(open_at(nv, a, jj + 1));
                assert forall|b: int| open_at(nv, b, jj + 1) implies nv[b].depth >= d by {
                    if b < jj {
                        assert(open_at(nv, b, jj));
                    }
                }
            }
        } else {
            proof {
                assert forall|b: int| open_at(nv, b, jj) implies nv[b].depth >= nv[jj].depth by {}
                assert(listed(nv, jj) == nv[jj].render);
            }
            if !n.render {
                cut = Some(n.depth);
                proof {
                    assert(rows@ =~= list_rows_spec(nv, jj + 1));
                    assert(open_at(nv, jj, jj + 1));
                    assert forall|b: int| open_at(nv, b, jj + 1) implies nv[b].depth >= nv[jj].depth by {
                        if b < jj {
                            assert(open_at(nv, b, jj));
                        }
                    }
                }
            } else {
                if n.is_folder {
                    rows.push(
                        Row {
                            id: n.id,
                            kind: RowKind::Folder,
                            depth: n.depth,
                            expandable: true,
                            expanded: n.expanded,
                            parent: n.parent,
                        },
                    );
                } else {
                    let g = group_rows(n.id, n.depth, n.parent, &n.items, n.expanded);
                    let ghost before = rows@;
                    let mut gg = g;
                    rows.append(&mut gg);
                    assert(rows@ =~= before + node_rows(nv[jj]));
                }
                assert(rows@ =~= list_rows_spec(nv, jj + 1));
                if n.is_folder && !n.expanded {
                    cut = Some(n.depth);
                    proof {
                        assert(open_at(nv, jj, jj + 1));
                        assert forall|b: int| open_at(nv, b, jj + 1) implies nv[b].depth >= nv[jj].depth by {
                            if b < jj {
                                assert(open_at(nv, b, jj));
                            }
                        }
                    }
                } else {
                    cut = None;
                    proof {
                        assert forall|b: int| !#[trigger] open_at(nv, b, jj + 1) by {
                            if b < jj && open_at(nv, b, jj + 1) {
                                assert(open_at(nv, b, jj));
                            }
                        }
                    }
                }
            }
        }
        j = j + 1;
    }
    rows
}

/// The first row showing `id`, if any.
pub fn row_position(rows: &Vec<Row>, id: i64) -> (r: Option<usize>)
    ensures
        match r {
            Some(p) => first_row_of(rows@, id, p as int),
            None => !shows(rows@, id),
        },
{
    let mut i: usize = 0;
    while i < rows.len()
        invariant
            i <= rows.len(),
            forall|j: int| 0 <= j < i ==> rows@[j].id != id,
        decreases rows.len() - i,
    {
        if rows[i].id == id {
            return Some(i);
        }
        i = i + 1;
    }
    None
}

/// What a Shift-click on `id` with anchor `a` selects: the rows between
/// the two, spacer left out, or `id` alone when either is not shown.
pub open spec fn shift_selected(rows: Seq<Row>, a: i64, id: i64, sel: Seq<i64>) -> bool {
    if shows(rows, a) && shows(rows, id) {
        exists|pa: int, pb: int|
            first_row_of(rows, a, pa) && first_row_of(rows, id, pb) && sel == ids_between(
                rows,
                if pa <= pb { pa } else { pb },
                if pa <= pb { pb } else { pa },
            )
    } else {
        sel == seq![id]
    }
}

/// The selected rows of the route list and the anchor of Shift-clicks.
pub struct RowSelection {
    pub selection: Vec<i64>,
    pub anchor: Option<i64>,
}

impl RowSelection {
    pub fn new() -> (r: RowSelection)
        ensures
            r.selection@.len() == 0,
            r.anchor is None,
    {
        RowSelection { selection: Vec::new(), anchor: None }
    }

    /// Select `ids`, anchored at the last.
    pub fn set_all(&mut self, ids: Vec<i64>)
        ensures
            final(self).selection@ == ids@,
            final(self).anchor == (if ids@.len() > 0 {
                Some(ids@.last())
            } else {
                None::<i64>
            }),
    {
        self.anchor = if ids.len() > 0 { Some(ids[ids.len() - 1]) } else { None };
        self.selection = ids;
    }

    /// A click on a row: Ctrl toggles the row and anchors there; Shift
    /// selects the rows from the anchor (the row itself when there is
    /// none) to the row, spacer left out, or just the row when either is
    /// not shown; a plain click selects the row and anchors there.
    pub fn click(&mut self, rows: &Vec<Row>, id: i64, command: bool, shift: bool)
        ensures
            command ==> final(self).selection@ == id_toggled(old(self).selection@, id) && final(self).anchor
                == Some(id),
            !command && shift ==> final(self).anchor == old(self).anchor && shift_selected(
                rows@,
                match old(self).anchor {
                    Some(x) => x,
                    None => id,
                },
                id,
                final(self).selection@,
            ),
            !command && !shift ==> final(self).selection@ == seq![id] && final(self).anchor == Some(id),
    {
        if command {
            let mut i: usize = 0;
            let n = self.selection.len();
            while i < n
                invariant
                    command,
                    n == self.selection.len(),
                    i <= n,
                    self.selection@ == old(self).selection@,
                    forall|j: int| 0 <= j < i ==> self.selection@[j] != id,
                decreases n - i,
            {
                if self.selection[i] == id {
                    proof {
                        assert(first_id_at(self.selection@, id, i as int));
                        assert(self.selection@.contains(id));
                        let p = choose|p: int| first_id_at(self.selection@, id, p);
                        assert(p == i as int) by {
                            if p < i {
                            } else if p > i {
                            }
                        }
                    }
                    self.selection.remove(i);
                    self.anchor = Some(id);
                    return;
                }
                i = i + 1;
            }
            proof {
                assert(!self.selection@.contains(id)) by {
                    if self.selection@.contains(id) {
                        let j = choose|j: int| 0 <= j < self.selection@.len() && self.selection@[j] == id;
                    }
                }
            }
            self.selection.push(id);
            self.anchor = Some(id);
        } else if shift {
            let a = match self.anchor {
                Some(x) => x,
                None => id,
            };
            let pa = row_position(rows, a);
            let pb = row_position(rows, id);
            match (pa, pb) {
                (Some(x), Some(y)) => {
                    let lo = if x <= y { x } else { y };
                    let hi = if x <= y { y } else { x };
                    self.selection = ids_in_range(rows, lo, hi);
                },
                _ => {
                    self.selection = vec![id];
                    assert(self.selection@ =~= seq![id]);
                },
            }
        } else {
            self.selection = vec![id];
            assert(self.selection@ =~= seq![id]);
            self.anchor = Some(id);
        }
    }

    /// Up or Down: the row above or below the last selected one (the first
    /// row when nothing shown is selected); a spacer is not selected.
    /// Returns whether the selection changed.
    pub fn arrow(&mut self, rows: &Vec<Row>, up: bool) -> (changed: bool)
        ensures
            ({
                let cur = if old(self).selection@.len() > 0 && shows(rows@, old(self).selection@.last()) {
                    Some(choose|p: int| first_row_of(rows@, old(self).selection@.last(), p))
                } else {
                    None::<int>
                };
                let next = match cur {
                    Some(i) => if up && i > 0 {
                        Some(i - 1)
                    } else if !up && i + 1 < rows@.len() {
                        Some(i + 1)
                    } else {
                        None::<int>
                    },
                    None => if rows@.len() > 0 {
                        Some(0int)
                    } else {
                        None::<int>
                    },
                };
                match next {
                    Some(ni) => if rows@[ni].kind != RowKind::InlineSpacer {
                        changed && final(self).selection@ == seq![rows@[ni].id] && final(self).anchor
                            == Some(rows@[ni].id)
                    } else {
                        !changed && final(self).selection == old(self).selection && final(self).anchor
                            == old(self).anchor
                    },
                    None => !changed && final(self).selection == old(self).selection && final(self).anchor
                        == old(self).anchor,
                }
            }),
    {
        let cur: Option<usize> = if self.selection.len() > 0 {
            let last = self.selection[self.selection.len() - 1];
            let p = row_position(rows, last);
            proof {
                if let Some(q) = p {
                    let c = choose|c: int| first_row_of(rows@, last, c);
                    assert(c == q as int) by {
                        if c < q {
                        } else if c > q {
                        }
                    }
                }
            }
            p
        } else {
            None
        };
        let next: Option<usize> = match cur {
            Some(i) => if up && i > 0 {
                Some(i - 1)
            } else if !up && i < rows.len() && i + 1 < rows.len() {
                Some(i + 1)
            } else {
                None
            },
            None => if rows.len() > 0 {
                Some(0)
            } else {
                None
            },
        };
        match next {
            Some(ni) => {
                if rows[ni].kind != RowKind::InlineSpacer {
                    let id = rows[ni].id;
                    self.selection = vec![id];
                    assert(self.selection@ =~= seq![id]);
                    self.anchor = Some(id);
                    true
                } else {
                    false
                }
            },
            None => false,
        }
    }
}

/// The ids of the rows `lo..=hi` other than the spacer.
pub fn ids_in_range(rows: &Vec<Row>, lo: usize, hi: usize) -> (r: Vec<i64>)
    requires
        lo <= hi < rows.len(),
    ensures
        r@ == ids_between(rows@, lo as int, hi as int),
{
    let mut out: Vec<i64> = Vec::new();
    let mut i: usize = lo;
    while i <= hi
        invariant
            lo <= i <= hi + 1,
            hi < rows.len(),
            out@ == rows@.subrange(lo as int, i as int).filter(|r: Row| r.kind != RowKind::InlineSpacer).map_values(
                |r: Row| r.id,
            ),
        decreases hi + 1 - i,
    {
        let ghost pre = rows@.subrange(lo as int, i + 1);
        proof {
            assert(pre.drop_last() =~= rows@.subrange(lo as int, i as int));
            reveal(Seq::filter);
        }
        if rows[i].kind != RowKind::InlineSpacer {
            out.push(rows[i].id);
        }
        proof {
            assert(out@ =~= pre.filter(|r: Row| r.kind != RowKind::InlineSpacer).map_values(|r: Row| r.id));
        }
        i = i + 1;
    }
    out
}

/// The selected ids the controller acts on: item rows only when
/// `allow_items`, and nothing whose parent is selected too (`info[k]`:
/// whether `selection[k]` is an item row, and its parent).
pub open spec fn acted_on(selection: Seq<i64>, info: Seq<(bool, Option<i64>)>, allow_items: bool, n: nat) -> Seq<i64>
    decreases n,
{
    if n == 0 {
        Seq::empty()
    } else {
        let rest = acted_on(selection, info, allow_items, (n - 1) as nat);
        let k = n - 1;
        let (is_item, parent) = info[k];
        if (!allow_items && is_item) || (parent matches Some(p) && selection.contains(p)) {
            rest
        } else {
            rest.push(selection[k])
        }
    }
}

/// The selected ids the controller acts on (see `acted_on`), in the order
/// of the selection.
pub fn selected_event_ids(selection: &Vec<i64>, info: &Vec<(bool, Option<i64>)>, allow_items: bool) -> (r: Vec<i64>)
    requires
        info.len() == selection.len(),
    ensures
        r@ == acted_on(selection@, info@, allow_items, selection@.len()),
{
    let mut out: Vec<i64> = Vec::new();
    let mut k: usize = 0;
    while k < selection.len()
        invariant
            k <= selection.len(),
            info.len() == selection.len(),
            out@ == acted_on(selection@, info@, allow_items, k as nat),
        decreases selection.len() - k,
    {
        let (is_item, parent) = info[k];
        let skip_item = !allow_items && is_item;
        let parent_selected = match parent {
            Some(p) => {
                let mut found = false;
                let mut j: usize = 0;
                while j < selection.len()
                    invariant
                        j <= selection.len(),
                        found == exists|t: int| 0 <= t < j && selection@[t] == p,
                    decreases selection.len() - j,
                {
                    if selection[j] == p {
                        found = true;
                    }
                    j = j + 1;
                }
                found
            },
            None => false,
        };
        if !(skip_item || parent_selected) {
            out.push(selection[k]);
        }
        k = k + 1;
    }
    out
}


// ---------------------------------------------------------------------------
// the inline strip's spacer row
// ---------------------------------------------------------------------------

/// The spacer row at `depth`.
pub open spec fn spacer(depth: usize) -> Row {
    Row { id: SPACER_ID, kind: RowKind::InlineSpacer, depth, expandable: false, expanded: false, parent: None }
}

/// The rows without the spacer.
pub open spec fn without_spacer(rows: Seq<Row>) -> Seq<Row> {
    rows.filter(|r: Row| r.kind != RowKind::InlineSpacer)
}

/// `p` is the first folder row of `fid`.
pub open spec fn first_folder_row(rows: Seq<Row>, fid: i64, p: int) -> bool {
    0 <= p < rows.len() && rows[p].id == fid && rows[p].kind == RowKind::Folder && forall|j: int|
        0 <= j < p ==> !(rows[j].id == fid && rows[j].kind == RowKind::Folder)
}

/// `p` is the first row of `id` that is not an item row.
pub open spec fn first_anchor_row(rows: Seq<Row>, id: i64, p: int) -> bool {
    0 <= p < rows.len() && rows[p].id == id && rows[p].kind != RowKind::Item && forall|j: int|
        0 <= j < p ==> !(rows[j].id == id && rows[j].kind != RowKind::Item)
}

/// `q` is where a spacer goes after row `p`: past the rows deeper than it
/// (an open folder's contents, a group's items), before its level-up rows.
pub open spec fn after_subtree(rows: Seq<Row>, p: int, q: int) -> bool {
    p < q <= rows.len() && (forall|j: int| p < j < q ==> rows[j].depth > rows[p].depth) && (q
        == rows.len() || rows[q].depth <= rows[p].depth)
}

/// The first row of `rows` satisfying `first_folder_row`.
fn find_folder_row(rows: &Vec<Row>, fid: i64) -> (r: Option<usize>)
    ensures
        match r {
            Some(p) => first_folder_row(rows@, fid, p as int),
            None => forall|j: int| 0 <= j < rows@.len() ==> !(rows@[j].id == fid && rows@[j].kind == RowKind::Folder),
        },
{
    let mut i: usize = 0;
    while i < rows.len()
        invariant
            i <= rows.len(),
            forall|j: int| 0 <= j < i ==> !(rows@[j].id == fid && rows@[j].kind == RowKind::Folder),
        decreases rows.len() - i,
    {
        if rows[i].id == fid && rows[i].kind == RowKind::Folder {
            return Some(i);
        }
        i = i + 1;
    }
    None
}

fn find_anchor_row(rows: &Vec<Row>, id: i64) -> (r: Option<usize>)
    ensures
        match r {
            Some(p) => first_anchor_row(rows@, id, p as int),
            None => forall|j: int| 0 <= j < rows@.len() ==> !(rows@[j].id == id && rows@[j].kind != RowKind::Item),
        },
{
    let mut i: usize = 0;
    while i < rows.len()
        invariant
            i <= rows.len(),
            forall|j: int| 0 <= j < i ==> !(rows@[j].id == id && rows@[j].kind != RowKind::Item),
        decreases rows.len() - i,
    {
        if rows[i].id == id && rows[i].kind != RowKind::Item {
            return Some(i);
        }
        i = i + 1;
    }
    None
}

/// The rows without the spacer.
pub fn drop_spacer(rows: &Vec<Row>) -> (r: Vec<Row>)
    ensures
        r@ == without_spacer(rows@),
{
    let mut out: Vec<Row> = Vec::new();
    let mut i: usize = 0;
    while i < rows.len()
        invariant
            i <= rows.len(),
            out@ == without_spacer(rows@.subrange(0, i as int)),
        decreases rows.len() - i,
    {
        let ghost pre = rows@.subrange(0, i + 1);
        proof {
            assert(pre.drop_last() =~= rows@.subrange(0, i as int));
            reveal(Seq::filter);
        }
        if rows[i].kind != RowKind::InlineSpacer {
            out.push(rows[i]);
        }
        proof {
            assert(out@ =~= without_spacer(pre));
        }
        i = i + 1;
    }
    assert(rows@.subrange(0, rows.len() as int) =~= rows@);
    out
}

/// Dropping the spacer keeps every row's depth below the limit.
proof fn lemma_shallow_rows_stay(rows: Seq<Row>, p: int)
    requires
        forall|j: int| 0 <= j < rows.len() ==> #[trigger] rows[j].depth < usize::MAX,
        0 <= p < without_spacer(rows).len(),
    ensures
        without_spacer(rows)[p].depth < usize::MAX,
{
    let f = without_spacer(rows);
    assert(f.contains(f[p]));
    rows.lemma_filter_contains_rev(|r: Row| r.kind != RowKind::InlineSpacer, f[p]);
    let j = choose|j: int| 0 <= j < rows.len() && rows[j] == f[p];
    assert(rows[j].depth < usize::MAX);
}

/// `insert_inline_row`: the spacer leaves, then comes back inside folder
/// `inside_folder` (first among its contents, the folder opened) or after
/// the row of `insert_after` and what hangs below it. Returns `false` when
/// the row it belongs at is not shown (the strip is then closed).
pub fn insert_inline_row(rows: &mut Vec<Row>, inside_folder: Option<i64>, insert_after: Option<i64>) -> (kept: bool)
    requires
        forall|j: int| 0 <= j < old(rows)@.len() ==> #[trigger] old(rows)@[j].depth < usize::MAX,
    ensures
        ({
            let base = without_spacer(old(rows)@);
            match inside_folder {
                Some(fid) => if exists|p: int| first_folder_row(base, fid, p) {
                    kept && exists|p: int|
                        first_folder_row(base, fid, p) && base[p].depth < usize::MAX && final(rows)@
                            == base.update(p, Row { expanded: true, ..base[p] }).insert(
                            p + 1,
                            spacer((base[p].depth + 1) as usize),
                        )
                } else {
                    !kept && final(rows)@ == base
                },
                None => match insert_after {
                    Some(after) => if exists|p: int| first_anchor_row(base, after, p) {
                        kept && exists|p: int, q: int|
                            first_anchor_row(base, after, p) && after_subtree(base, p, q) && final(rows)@
                                == base.insert(q, spacer(base[p].depth))
                    } else {
                        !kept && final(rows)@ == base
                    },
                    None => kept && final(rows)@ == base,
                },
            }
        }),
{
    let base = drop_spacer(rows);
    *rows = base;
    match inside_folder {
        Some(fid) => {
            let ghost base0 = rows@;
            assert(base0 == without_spacer(old(rows)@));
            match find_folder_row(rows, fid) {
                Some(pos) => {
                    let depth = rows[pos].depth;
                    proof {
                        lemma_shallow_rows_stay(old(rows)@, pos as int);
                    }
                    assert(pos < rows.len());
                    let mut r = rows[pos];
                    r.expanded = true;
                    rows.set(pos, r);
                    rows.insert(
                        pos + 1,
                        Row {
                            id: SPACER_ID,
                            kind: RowKind::InlineSpacer,
                            depth: depth + 1,
                            expandable: false,
                            expanded: false,
                            parent: None,
                        },
                    );
                    proof {
                        assert(first_folder_row(base0, fid, pos as int));
                        assert(rows@ =~= base0.update(pos as int, Row { expanded: true, ..base0[pos as int] }).insert(
                            pos + 1,
                            spacer((base0[pos as int].depth + 1) as usize),
                        ));
                        assert(base0[pos as int].depth < usize::MAX);
                        let base = without_spacer(old(rows)@);
                        let p = pos as int;
                        assert(first_folder_row(base, fid, p) && base[p].depth < usize::MAX && rows@
                            == base.update(p, Row { expanded: true, ..base[p] }).insert(
                            p + 1,
                            spacer((base[p].depth + 1) as usize),
                        ));
                    }
                    true
                },
                None => {
                    assert(!(exists|p: int| first_folder_row(base0, fid, p)));
                    false
                },
            }
        },
        None => match insert_after {
            Some(after) => {
                match find_anchor_row(rows, after) {
                    Some(pos) => {
                        let depth = rows[pos].depth;
                        assert(pos < rows.len());
                        let mut q = pos + 1;
                        while q < rows.len() && rows[q].depth > depth
                            invariant
                                pos < q <= rows.len(),
                                depth == rows@[pos as int].depth,
                                forall|j: int| pos < j < q ==> rows@[j].depth > depth,
                            decreases rows.len() - q,
                        {
                            q = q + 1;
                        }
                        let ghost base1 = rows@;
                        rows.insert(
                            q,
                            Row {
                                id: SPACER_ID,
                                kind: RowKind::InlineSpacer,
                                depth,
                                expandable: false,
                                expanded: false,
                                parent: None,
                            },
                        );
                        proof {
                            let base = without_spacer(old(rows)@);
                            assert(base1 == base);
                            assert(first_anchor_row(base, after, pos as int));
                            assert(after_subtree(base, pos as int, q as int));
                            assert(rows@ =~= base.insert(q as int, spacer(base[pos as int].depth)));
                        }
                        true
                    },
                    None => false,
                }
            },
            None => true,
        },
    }
}


// ---------------------------------------------------------------------------
// a new folder's name
// ---------------------------------------------------------------------------

/// The `n`-th name a new folder may take: `New Folder`, then
/// `New Folder (2)`, `New Folder (3)`, ...
pub open spec fn folder_candidate(n: nat) -> Seq<char> {
    numbered_name("New Folder"@, " ("@, ")"@, n)
}

/// `unique_unnamed_folder_name`: the first candidate no folder has.
pub fn unique_unnamed_folder_name(existing: &Vec<String>) -> (r: String)
    requires
        existing.len() <= isize::MAX,
    ensures
        !existing.deep_view().contains(r@),
        exists|k: nat|
            k >= 1 && r@ == folder_candidate(k) && forall|m: nat|
                1 <= m < k ==> existing.deep_view().contains(#[trigger] folder_candidate(m)),
{
    let r = first_free_name("New Folder", " (", ")", existing);
    proof {
        let k = choose|k: nat|
            k >= 1 && r@ == numbered_name("New Folder"@, " ("@, ")"@, k) && forall|m: nat|
                1 <= m < k ==> existing.deep_view().contains(#[trigger] numbered_name("New Folder"@, " ("@, ")"@, m));
        assert(r@ == folder_candidate(k));
        assert forall|m: nat| 1 <= m < k implies existing.deep_view().contains(#[trigger] folder_candidate(m)) by {
            assert(existing.deep_view().contains(numbered_name("New Folder"@, " ("@, ")"@, m)));
        }
    }
    r
}

// ---------------------------------------------------------------------------
// folder name paths
// ---------------------------------------------------------------------------

/// The name path of a node from its folder names, the node's own first
/// and the root's last (`None`: not a folder): `/A/B/C`.
pub open spec fn path_from(names_up: Seq<Option<Seq<char>>>) -> Seq<char>
    decreases names_up.len(),
{
    if names_up.len() == 0 {
        Seq::empty()
    } else {
        path_from(names_up.drop_first()) + match names_up[0] {
            Some(n) => "/"@ + n,
            None => Seq::empty(),
        }
    }
}

/// `path_of_row`: the name path of a row from the names of it and its
/// ancestors, nearest first.
pub fn path_of_row(names_up: &Vec<Option<String>>) -> (r: String)
    ensures
        r@ == path_from(names_up@.map_values(|o: Option<String>| match o {
            Some(n) => Some(n@),
            None => None,
        })),
{
    let ghost v = names_up@.map_values(|o: Option<String>| match o {
        Some(n) => Some(n@),
        None => None,
    });
    let mut path = String::new();
    let mut i: usize = names_up.len();
    assert(v.subrange(i as int, v.len() as int) =~= Seq::<Option<Seq<char>>>::empty());
    while i > 0
        invariant
            i <= names_up.len(),
            v.len() == names_up.len(),
            v == names_up@.map_values(|o: Option<String>| match o {
                Some(n) => Some(n@),
                None => None,
            }),
            path@ == path_from(v.subrange(i as int, v.len() as int)),
        decreases i,
    {
        i = i - 1;
        let ghost rest = v.subrange(i as int, v.len() as int);
        assert(rest.drop_first() =~= v.subrange(i + 1, v.len() as int));
        match &names_up[i] {
            Some(n) => {
                path.append("/");
                path.append(n.as_str());
            },
            None => {},
        }
    }
    assert(v.subrange(0, v.len() as int) =~= v);
    path
}

/// The open folders above a row, deepest last: each folder row pops the
/// folders at least as deep as it and joins with its path, its parent's
/// path (the folder left on top), `/` and its name.
pub open spec fn folder_chain(rows: Seq<Row>, names: Seq<Seq<char>>, k: nat) -> Seq<(usize, Seq<char>)>
    decreases k,
{
    if k == 0 {
        Seq::empty()
    } else {
        let c = folder_chain(rows, names, (k - 1) as nat);
        let r = rows[k - 1];
        if r.kind == RowKind::Folder {
            let kept = popped(c, r.depth);
            kept.push((r.depth, chain_path(kept) + "/"@ + names[k - 1]))
        } else {
            c
        }
    }
}

/// The chain without its folders at depth `d` or deeper.
pub open spec fn popped(c: Seq<(usize, Seq<char>)>, d: usize) -> Seq<(usize, Seq<char>)>
    decreases c.len(),
{
    if c.len() > 0 && c.last().0 >= d {
        popped(c.drop_last(), d)
    } else {
        c
    }
}

/// The path of the chain's last folder (empty for none).
pub open spec fn chain_path(c: Seq<(usize, Seq<char>)>) -> Seq<char> {
    if c.len() > 0 {
        c.last().1
    } else {
        Seq::empty()
    }
}

/// The path and open state of every folder row among the first `k`.
pub open spec fn expand_state(rows: Seq<Row>, names: Seq<Seq<char>>, k: nat) -> Seq<(Seq<char>, bool)>
    decreases k,
{
    if k == 0 {
        Seq::empty()
    } else {
        let prev = expand_state(rows, names, (k - 1) as nat);
        if rows[k - 1].kind == RowKind::Folder {
            prev.push((folder_chain(rows, names, k).last().1, rows[k - 1].expanded))
        } else {
            prev
        }
    }
}

/// `collect_expand_state`: the name path and open state of each folder
/// row (`names[k]`: row `k`'s folder name).
pub fn collect_expand_state(rows: &Vec<Row>, names: &Vec<String>) -> (r: Vec<(String, bool)>)
    requires
        names.len() == rows.len(),
    ensures
        r@.map_values(|x: (String, bool)| (x.0@, x.1)) == expand_state(rows@, names.deep_view(), rows@.len()),
{
    let ghost nv = names.deep_view();
    let mut out: Vec<(String, bool)> = Vec::new();
    let mut depths: Vec<usize> = Vec::new();
    let mut paths: Vec<String> = Vec::new();
    let mut k: usize = 0;
    while k < rows.len()
        invariant
            k <= rows.len(),
            names.len() == rows.len(),
            nv == names.deep_view(),
            depths.len() == paths.len(),
            Seq::new(depths@.len(), |i: int| (depths@[i], paths@[i]@)) == folder_chain(rows@, nv, k as nat),
            out@.map_values(|x: (String, bool)| (x.0@, x.1)) == expand_state(rows@, nv, k as nat),
        decreases rows.len() - k,
    {
        let row = rows[k];
        if row.kind == RowKind::Folder {
            let ghost c0 = folder_chain(rows@, nv, k as nat);
            while depths.len() > 0 && depths[depths.len() - 1] >= row.depth
                invariant
                    depths.len() == paths.len(),
                    popped(Seq::new(depths@.len(), |i: int| (depths@[i], paths@[i]@)), row.depth)
                        == popped(c0, row.depth),
                decreases depths.len(),
            {
                let ghost before = Seq::new(depths@.len(), |i: int| (depths@[i], paths@[i]@));
                depths.pop();
                paths.pop();
                assert(Seq::new(depths@.len(), |i: int| (depths@[i], paths@[i]@)) =~= before.drop_last());
            }
            let ghost kept = Seq::new(depths@.len(), |i: int| (depths@[i], paths@[i]@));
            assert(popped(kept, row.depth) == kept);
            let mut key = if paths.len() > 0 {
                paths[paths.len() - 1].clone()
            } else {
                String::new()
            };
            assert(key@ == chain_path(kept));
            key.append("/");
            key.append(names[k].as_str());
            assert(names[k as int]@ == nv[k as int]);
            let ghost out_before = out@.map_values(|x: (String, bool)| (x.0@, x.1));
            out.push((key.clone(), row.expanded));
            depths.push(row.depth);
            paths.push(key);
            proof {
                assert(Seq::new(depths@.len(), |i: int| (depths@[i], paths@[i]@)) =~= kept.push(
                    (row.depth, chain_path(kept) + "/"@ + nv[k as int]),
                ));
                assert(out@.map_values(|x: (String, bool)| (x.0@, x.1)) =~= out_before.push(
                    (chain_path(kept) + "/"@ + nv[k as int], row.expanded),
                ));
            }
        }
        k = k + 1;
    }
    out
}

// ---------------------------------------------------------------------------
// drops and quantities
// ---------------------------------------------------------------------------

/// Where a dragged row lands relative to the row under the pointer.
#[derive(Clone, Copy, Debug, PartialEq, Eq, Structural)]
pub enum DropPos {
    Above,
    Below,
    On,
}

/// The row a drop is aimed at: the target itself, or the group of a target
/// item (`item_group`: `Some` when the target is an item, with its group
/// when it has one); `None` when the target is being moved or is an item
/// without a group.
pub fn drop_target_row(target: i64, moving: &Vec<i64>, item_group: Option<Option<i64>>) -> (r: Option<i64>)
    ensures
        r == (if moving@.contains(target) {
            None
        } else {
            match item_group {
                Some(g) => g,
                None => Some(target),
            }
        }),
{
    let mut i: usize = 0;
    while i < moving.len()
        invariant
            i <= moving.len(),
            forall|j: int| 0 <= j < i ==> moving@[j] != target,
        decreases moving.len() - i,
    {
        if moving[i] == target {
            assert(moving@.contains(target));
            return None;
        }
        i = i + 1;
    }
    match item_group {
        Some(g) => g,
        None => Some(target),
    }
}

/// Where dropped rows go: `(folder, after, before)`. Dropped on a folder
/// they go into it; dropped on anything else, or above or below a row,
/// they go into the row's parent, after it (or before it when above).
/// Nothing when the row has no parent. A drop below every row goes to the
/// end of the route (`root`, after its last child `root_last`).
pub fn drop_placement(
    target: Option<(i64, DropPos)>,
    is_folder: bool,
    parent: Option<i64>,
    root: i64,
    root_last: Option<i64>,
) -> (r: Option<(i64, Option<i64>, Option<i64>)>)
    ensures
        r == match target {
            None => Some((root, root_last, None::<i64>)),
            Some((tid, pos)) => if pos == DropPos::On && is_folder {
                Some((tid, None::<i64>, None::<i64>))
            } else {
                match parent {
                    None => None,
                    Some(p) => if pos == DropPos::Above {
                        Some((p, None::<i64>, Some(tid)))
                    } else {
                        Some((p, Some(tid), None::<i64>))
                    },
                }
            },
        },
{
    match target {
        None => Some((root, root_last, None)),
        Some((tid, pos)) => {
            if pos == DropPos::On && is_folder {
                Some((tid, None, None))
            } else {
                match parent {
                    None => None,
                    Some(p) => if pos == DropPos::Above {
                        Some((p, None, Some(tid)))
                    } else {
                        Some((p, Some(tid), None))
                    },
                }
            }
        },
    }
}

/// The quantity an edit of the amount cell sets: the number typed, at
/// least one; nothing when it is not a number.
pub fn accepted_quantity(text: &str) -> (r: Option<i64>)
    ensures
        r == match parse_i64_spec(trim_seq(text@)) {
            Some(v) => Some(if v < 1 { 1i64 } else { v }),
            None => None,
        },
{
    match parse_field(text) {
        Ok(v) => Some(if v < 1 { 1 } else { v }),
        Err(_) => None,
    }
}

// ---------------------------------------------------------------------------
// editing a group in place, and where a new event goes
// ---------------------------------------------------------------------------

/// The group being edited in place and the enabled flag it had: while the
/// inline strip edits a group, the group is disabled so the route is
/// worked out without it.
#[derive(Clone, Copy, Debug, PartialEq, Eq, Structural)]
pub struct InlineEdit {
    pub group: Option<i64>,
    pub flag_before: Option<bool>,
}

/// The enabled flag to give back: the one recorded, else enabled.
pub open spec fn flag_or_enabled(f: Option<bool>) -> bool {
    match f {
        Some(b) => b,
        None => true,
    }
}

/// The state while `group`, enabled or not before, is edited in place.
pub open spec fn editing(group: i64, enabled: bool) -> InlineEdit {
    InlineEdit { group: Some(group), flag_before: Some(enabled) }
}

/// What ending an edit gives back: the group edited and the enabled flag
/// it gets.
pub open spec fn given_back(e: InlineEdit) -> Option<(i64, bool)> {
    match e.group {
        Some(g) => Some((g, flag_or_enabled(e.flag_before))),
        None => None,
    }
}

impl InlineEdit {
    pub fn new() -> (r: InlineEdit)
        ensures
            r.group is None && r.flag_before is None,
    {
        InlineEdit { group: None, flag_before: None }
    }

    /// End the inline edit: the group being edited, if any, and the
    /// enabled flag it gets back; nothing is edited afterwards.
    pub fn restore(&mut self) -> (r: Option<(i64, bool)>)
        ensures
            r == given_back(*old(self)),
            old(self).group is Some ==> final(self).group is None && final(self).flag_before is None,
            old(self).group is None ==> *final(self) == *old(self),
    {
        match self.group {
            Some(g) => {
                let orig = match self.flag_before {
                    Some(b) => b,
                    None => true,
                };
                self.group = None;
                self.flag_before = None;
                Some((g, orig))
            },
            None => None,
        }
    }

    /// Start editing `group` inline, enabled now or not: the edit under
    /// way is restored first (returned), then `group` is edited, disabled
    /// until the edit ends.
    pub fn start(&mut self, group: i64, enabled: bool) -> (restored: Option<(i64, bool)>)
        ensures
            restored == given_back(*old(self)),
            *final(self) == editing(group, enabled),
    {
        let r = self.restore();
        self.group = Some(group);
        self.flag_before = Some(enabled);
        r
    }

    /// The inline strip closed: with a new event
    /// (`created`) the edited group takes it with the flag it had; without
    /// one the group gets its flag back. Either way, the group and the flag
    /// to set.
    pub fn finish(&mut self, created: bool) -> (r: Option<(i64, bool)>)
        ensures
            r == given_back(*old(self)),
            old(self).group is Some ==> final(self).group is None && final(self).flag_before is None,
            old(self).group is None ==> *final(self) == *old(self),
    {
        match self.group {
            Some(g) => {
                let orig = match self.flag_before {
                    Some(b) => b,
                    None => true,
                };
                if created {
                    self.group = None;
                    self.flag_before = None;
                    Some((g, orig))
                } else {
                    self.restore()
                }
            },
            None => None,
        }
    }
}

/// Editing a group in place and then ending the edit, with or without a
/// new event, gives the group back the enabled flag it had before.
pub proof fn law_edit_gives_flag_back(group: i64, enabled: bool)
    ensures
        given_back(editing(group, enabled)) == Some((group, enabled)),
{
}

/// Where "add a new event" opens the inline strip.
#[derive(Clone, Copy, Debug, PartialEq, Eq, Structural)]
pub enum AddTarget {
    /// the route is empty: in a new folder
    NewFolder,
    /// after this node
    After(i64),
    Nowhere,
}

/// Where a new event goes: an empty route gets a new folder; else the
/// strip opens after the selected event, else after the route's last
/// top-level node.
pub fn add_new_target(route_empty: bool, selected: Option<i64>, last_top: Option<i64>) -> (r: AddTarget)
    ensures
        r == (if route_empty {
            AddTarget::NewFolder
        } else {
            match selected {
                Some(s) => AddTarget::After(s),
                None => match last_top {
                    Some(l) => AddTarget::After(l),
                    None => AddTarget::Nowhere,
                },
            }
        }),
{
    if route_empty {
        return AddTarget::NewFolder;
    }
    match selected {
        Some(s) => AddTarget::After(s),
        None => match last_top {
            Some(l) => AddTarget::After(l),
            None => AddTarget::Nowhere,
        },
    }
}

/// The closed folders and groups among `ancestors` (each: id, kind,
/// whether it is open), in order.
pub open spec fn closed_ancestors(ancestors: Seq<(i64, NodeKind, bool)>) -> Seq<i64>
    decreases ancestors.len(),
{
    if ancestors.len() == 0 {
        Seq::empty()
    } else {
        let a = ancestors.last();
        closed_ancestors(ancestors.drop_last()) + if a.1 != NodeKind::Item && !a.2 {
            seq![a.0]
        } else {
            Seq::empty()
        }
    }
}

/// Before the list scrolls to the selected
/// row, every closed folder and group holding it opens (`ancestors`: from
/// the outermost, the route's root left out); these are the ones to open,
/// outermost first. The list is rebuilt when any is.
pub fn ancestors_to_open(ancestors: &Vec<(i64, NodeKind, bool)>) -> (r: Vec<i64>)
    ensures
        r@ == closed_ancestors(ancestors@),
{
    let mut out: Vec<i64> = Vec::new();
    let mut i: usize = 0;
    while i < ancestors.len()
        invariant
            i <= ancestors.len(),
            out@ == closed_ancestors(ancestors@.subrange(0, i as int)),
        decreases ancestors.len() - i,
    {
        proof {
            let pre = ancestors@.subrange(0, i + 1);
            assert(pre.drop_last() =~= ancestors@.subrange(0, i as int));
            assert(pre.last() == ancestors@[i as int]);
        }
        let (id, kind, open) = ancestors[i];
        let ghost before = out@;
        if kind != NodeKind::Item && !open {
            out.push(id);
            assert(out@ =~= before + seq![id]);
        } else {
            assert(out@ =~= before + Seq::<i64>::empty());
        }
        i = i + 1;
    }
    assert(ancestors@.subrange(0, ancestors.len() as int) =~= ancestors@);
    out
}

} // verus!
