//! What the map knows of the open route: what a route event looks up on the
//! map, the items already picked up, and one folder's trip path, where
//! consecutive events on the same step collapse into one numbered node.

use vstd::prelude::*;

use crate::details::NodeKind;
use crate::option_menu::{contains_name, has_name};

verus! {

/// What a route event looks for on the map.
pub enum MapQuery {
    Trainer(String),
    Item(String),
    Species(String),
}

/// What the map reads of a route event: its trainer, its item (the item,
/// whether it is acquired, whether with money), its wild species.
pub struct EventFacts {
    pub trainer: Option<String>,
    pub item: Option<(String, bool, bool)>,
    pub wild: Option<String>,
}

/// An item event that picks an item up: acquired, without money.
pub open spec fn is_pickup(item: (String, bool, bool)) -> bool {
    item.1 && !item.2
}

pub open spec fn query_kind(q: MapQuery) -> (int, Seq<char>) {
    match q {
        MapQuery::Trainer(n) => (0, n@),
        MapQuery::Item(n) => (1, n@),
        MapQuery::Species(n) => (2, n@),
    }
}

/// The map query of an event: its trainer; else its item, when picked up
/// (a bought or used item has none); else its wild species.
pub open spec fn query_spec(f: EventFacts) -> Option<(int, Seq<char>)> {
    match f.trainer {
        Some(t) => Some((0, t@)),
        None => match f.item {
            Some(item) => if is_pickup(item) {
                Some((1, item.0@))
            } else {
                None
            },
            None => match f.wild {
                Some(w) => Some((2, w@)),
                None => None,
            },
        },
    }
}

/// The map query of an event.
pub fn query_for(f: &EventFacts) -> (r: Option<MapQuery>)
    ensures
        match r {
            Some(q) => query_spec(*f) == Some(query_kind(q)),
            None => query_spec(*f) is None,
        },
{
    match &f.trainer {
        Some(t) => Some(MapQuery::Trainer(t.clone())),
        None => match &f.item {
            Some(item) => {
                if item.1 && !item.2 {
                    Some(MapQuery::Item(item.0.clone()))
                } else {
                    None
                }
            },
            None => match &f.wild {
                Some(w) => Some(MapQuery::Species(w.clone())),
                None => None,
            },
        },
    }
}

/// The items the route picks up, each once, in route order: the acquired
/// items of the route's item events that cost no money.
pub open spec fn picked_up(items: Seq<(Seq<char>, bool, bool)>) -> Seq<Seq<char>>
    decreases items.len(),
{
    if items.len() == 0 {
        Seq::empty()
    } else {
        let rest = picked_up(items.drop_last());
        let it = items.last();
        if it.1 && !it.2 && !has_name(rest, it.0) {
            rest.push(it.0)
        } else {
            rest
        }
    }
}

pub open spec fn items_view(items: Seq<(String, bool, bool)>) -> Seq<(Seq<char>, bool, bool)> {
    items.map_values(|it: (String, bool, bool)| (it.0@, it.1, it.2))
}

/// The items the route picks up.
pub fn acquired_items(items: &Vec<(String, bool, bool)>) -> (r: Vec<String>)
    ensures
        r.deep_view() == picked_up(items_view(items@)),
{
    let ghost v = items_view(items@);
    let mut out: Vec<String> = Vec::new();
    let mut i: usize = 0;
    while i < items.len()
        invariant
            i <= items.len(),
            v == items_view(items@),
            out.deep_view() == picked_up(v.subrange(0, i as int)),
        decreases items.len() - i,
    {
        let ghost before = out.deep_view();
        let it = &items[i];
        proof {
            let pre = v.subrange(0, i + 1);
            assert(pre.drop_last() =~= v.subrange(0, i as int));
            assert(pre.last() == v[i as int]);
            assert(v[i as int] == (it.0@, it.1, it.2));
        }
        if it.1 && !it.2 && !contains_name(&out, it.0.as_str()) {
            out.push(it.0.clone());
            assert(out.deep_view() =~= before.push(it.0@));
        }
        i = i + 1;
    }
    assert(v.subrange(0, items.len() as int) =~= v);
    out
}

/// What the map holds of the route: the trainers fought and the items
/// picked up (both as the game data spells names).
pub struct RouteMapState {
    pub defeated: Vec<String>,
    pub acquired: Vec<String>,
}

impl RouteMapState {
    pub fn is_defeated(&self, trainer: &str) -> (r: bool)
        ensures
            r == has_name(self.defeated.deep_view(), trainer@),
    {
        contains_name(&self.defeated, trainer)
    }

    pub fn is_acquired(&self, item: &str) -> (r: bool)
        ensures
            r == has_name(self.acquired.deep_view(), item@),
    {
        contains_name(&self.acquired, item)
    }
}

// ---------------------------------------------------------------------------
// the trip path
// ---------------------------------------------------------------------------

/// A step of a map: the map's id and the step's coordinates.
#[derive(Clone, Copy, Debug, PartialEq, Eq, Structural)]
pub struct StepAnchor {
    pub map: u32,
    pub x: i32,
    pub y: i32,
}

/// The first of `anchors` that places an event on a step.
pub open spec fn first_step(anchors: Seq<(StepAnchor, bool)>) -> Option<StepAnchor>
    decreases anchors.len(),
{
    if anchors.len() == 0 {
        None
    } else if anchors[0].1 {
        Some(anchors[0].0)
    } else {
        first_step(anchors.drop_first())
    }
}

/// The first anchor of an event that places it on a step (an object or a
/// script, not a whole map).
pub fn first_step_anchor(anchors: &Vec<(StepAnchor, bool)>) -> (r: Option<StepAnchor>)
    ensures
        r == first_step(anchors@),
        match r {
            Some(a) => exists|i: int|
                0 <= i < anchors@.len() && #[trigger] anchors@[i] == (a, true) && forall|j: int|
                    0 <= j < i ==> !anchors@[j].1,
            None => forall|i: int| 0 <= i < anchors@.len() ==> !#[trigger] anchors@[i].1,
        },
{
    let mut i: usize = 0;
    assert(anchors@.subrange(0, anchors@.len() as int) =~= anchors@);
    while i < anchors.len()
        invariant
            i <= anchors.len(),
            forall|j: int| 0 <= j < i ==> !anchors@[j].1,
            first_step(anchors@) == first_step(anchors@.subrange(i as int, anchors@.len() as int)),
        decreases anchors.len() - i,
    {
        let ghost rest = anchors@.subrange(i as int, anchors@.len() as int);
        assert(rest[0] == anchors@[i as int]);
        if anchors[i].1 {
            assert(anchors@[i as int] == (anchors@[i as int].0, true));
            return Some(anchors[i].0);
        }
        assert(rest.drop_first() =~= anchors@.subrange(i + 1, anchors@.len() as int));
        i = i + 1;
    }
    assert(anchors@.subrange(i as int, anchors@.len() as int).len() == 0);
    None
}

// ---------------------------------------------------------------------------
// the route's tree, as the route list lays it out
// ---------------------------------------------------------------------------

/// A route node in the tree's depth-first order, with its depth (the
/// route's root folder first, at depth 0).
#[derive(Clone, Copy, Debug, PartialEq, Eq, Structural)]
pub struct OutlineNode {
    pub id: i64,
    pub kind: NodeKind,
    pub depth: usize,
}

/// The ids of the groups from `j` on, while the nodes are deeper than `d`:
/// with `j` just after a folder at depth `d`, the groups under it, sub-folders
/// included, in depth-first order.
pub open spec fn groups_below(nodes: Seq<OutlineNode>, d: int, j: int) -> Seq<i64>
    decreases nodes.len() - j,
{
    if j < 0 || j >= nodes.len() || nodes[j].depth <= d {
        Seq::empty()
    } else {
        let rest = groups_below(nodes, d, j + 1);
        if nodes[j].kind == NodeKind::Group {
            seq![nodes[j].id] + rest
        } else {
            rest
        }
    }
}

/// `groups_in_folder`: the groups under node `i`.
pub fn groups_in_folder(nodes: &Vec<OutlineNode>, i: usize) -> (r: Vec<i64>)
    requires
        i < nodes.len(),
    ensures
        r@ == groups_below(nodes@, nodes@[i as int].depth as int, i + 1),
{
    let d = nodes[i].depth;
    let mut out: Vec<i64> = Vec::new();
    let mut j: usize = i + 1;
    while j < nodes.len() && nodes[j].depth > d
        invariant
            i < j <= nodes.len(),
            d == nodes@[i as int].depth,
            out@ + groups_below(nodes@, d as int, j as int) == groups_below(nodes@, d as int, i + 1),
        decreases nodes.len() - j,
    {
        let ghost before = out@;
        let ghost rest = groups_below(nodes@, d as int, j + 1);
        if nodes[j].kind == NodeKind::Group {
            out.push(nodes[j].id);
            assert(out@ + rest =~= before + (seq![nodes@[j as int].id] + rest));
        }
        j = j + 1;
    }
    assert(groups_below(nodes@, d as int, j as int) =~= Seq::empty());
    assert(out@ + Seq::<i64>::empty() =~= out@);
    out
}

/// The last node at or before `j` shallower than `d` (-1 when none).
pub open spec fn last_shallower(nodes: Seq<OutlineNode>, d: int, j: int) -> int
    decreases j + 1,
{
    if j < 0 {
        -1
    } else if j < nodes.len() && nodes[j].depth < d {
        j
    } else {
        last_shallower(nodes, d, j - 1)
    }
}

pub proof fn lemma_last_shallower_range(nodes: Seq<OutlineNode>, d: int, j: int)
    ensures
        -1 <= last_shallower(nodes, d, j),
        j >= -1 ==> last_shallower(nodes, d, j) <= j,
    decreases j + 1,
{
    if j >= 0 && !(j < nodes.len() && nodes[j].depth < d) {
        lemma_last_shallower_range(nodes, d, j - 1);
    }
}

/// The nearest folder holding node `i` (`enclosing_folder`): `i` itself
/// when it is a folder (the route list can select one), else its parent's,
/// the parent being the last node before it that is shallower.
pub open spec fn enclosing(nodes: Seq<OutlineNode>, i: int) -> Option<int>
    decreases i + 1,
{
    if i < 0 || i >= nodes.len() {
        None
    } else if nodes[i].kind == NodeKind::Folder {
        Some(i)
    } else {
        let p = last_shallower(nodes, nodes[i].depth as int, i - 1);
        proof {
            lemma_last_shallower_range(nodes, nodes[i].depth as int, i - 1);
        }
        enclosing(nodes, p)
    }
}

/// `enclosing`, run.
pub fn enclosing_folder(nodes: &Vec<OutlineNode>, i: usize) -> (r: Option<usize>)
    ensures
        match r {
            Some(f) => enclosing(nodes@, i as int) == Some(f as int),
            None => enclosing(nodes@, i as int) is None,
        },
{
    if i >= nodes.len() {
        return None;
    }
    let mut cur: usize = i;
    loop
        invariant
            cur < nodes.len(),
            enclosing(nodes@, cur as int) == enclosing(nodes@, i as int),
        decreases cur,
    {
        if nodes[cur].kind == NodeKind::Folder {
            return Some(cur);
        }
        let d = nodes[cur].depth;
        // the parent: the last node before `cur` that is shallower
        let mut j: usize = cur;
        proof {
            lemma_last_shallower_range(nodes@, d as int, cur - 1);
        }
        while j > 0 && nodes[j - 1].depth >= d
            invariant
                j <= cur,
                cur < nodes.len(),
                d == nodes@[cur as int].depth,
                last_shallower(nodes@, d as int, j - 1) == last_shallower(nodes@, d as int, cur - 1),
            decreases j,
        {
            j = j - 1;
        }
        if j == 0 {
            assert(last_shallower(nodes@, d as int, -1) == -1);
            assert(enclosing(nodes@, cur as int) == enclosing(nodes@, -1));
            return None;
        }
        assert(last_shallower(nodes@, d as int, j - 1) == j - 1);
        assert(enclosing(nodes@, cur as int) == enclosing(nodes@, j - 1));
        cur = j - 1;
    }
}

/// The folder whose trip the map draws for the selected node `sel`: the
/// folder holding it, unless that is the route's root (`root_id`), whose
/// events draw no trip.
pub fn trip_folder(nodes: &Vec<OutlineNode>, sel: usize, root_id: i64) -> (r: Option<usize>)
    ensures
        match enclosing(nodes@, sel as int) {
            Some(f) => if nodes@[f].id != root_id {
                r == Some(f as usize)
            } else {
                r is None
            },
            None => r is None,
        },
{
    match enclosing_folder(nodes, sel) {
        Some(f) => {
            proof {
                lemma_enclosing_in_range(nodes@, sel as int);
            }
            if nodes[f].id != root_id {
                Some(f)
            } else {
                None
            }
        },
        None => None,
    }
}

proof fn lemma_enclosing_in_range(nodes: Seq<OutlineNode>, i: int)
    ensures
        enclosing(nodes, i) matches Some(f) ==> 0 <= f < nodes.len(),
    decreases i + 1,
{
    if 0 <= i < nodes.len() && nodes[i].kind != NodeKind::Folder {
        let p = last_shallower(nodes, nodes[i].depth as int, i - 1);
        lemma_last_shallower_range(nodes, nodes[i].depth as int, i - 1);
        lemma_enclosing_in_range(nodes, p);
    }
}

/// What the trip reads of one group of its folder: its id, whether it is
/// enabled, its map query, and the anchors the map pack gives that query
/// (each with whether it places the event on a step).
pub struct TripCandidate {
    pub id: i64,
    pub enabled: bool,
    pub query: Option<MapQuery>,
    pub anchors: Vec<(StepAnchor, bool)>,
}

/// A group's place on the trip: an enabled trainer fight or pickup with an
/// anchor on a step (wild encounters and map-level anchors stay off it).
pub open spec fn trip_entry(c: TripCandidate) -> Option<(i64, StepAnchor)> {
    if c.enabled && (c.query matches Some(q) && !(q is Species)) {
        match first_step(c.anchors@) {
            Some(a) => Some((c.id, a)),
            None => None,
        }
    } else {
        None
    }
}

/// The trip's events, in folder order.
pub open spec fn trip_entries_spec(cs: Seq<TripCandidate>) -> Seq<(i64, StepAnchor)>
    decreases cs.len(),
{
    if cs.len() == 0 {
        Seq::empty()
    } else {
        let rest = trip_entries_spec(cs.drop_last());
        match trip_entry(cs.last()) {
            Some(e) => rest.push(e),
            None => rest,
        }
    }
}

/// The events a trip shows, in order; `trip_nodes` then groups them by step.
pub fn trip_entries(cs: &Vec<TripCandidate>) -> (r: Vec<(i64, StepAnchor)>)
    ensures
        r@ == trip_entries_spec(cs@),
{
    let mut out: Vec<(i64, StepAnchor)> = Vec::new();
    let mut i: usize = 0;
    while i < cs.len()
        invariant
            i <= cs.len(),
            out@ == trip_entries_spec(cs@.subrange(0, i as int)),
        decreases cs.len() - i,
    {
        let c = &cs[i];
        proof {
            let pre = cs@.subrange(0, i + 1);
            assert(pre.drop_last() =~= cs@.subrange(0, i as int));
            assert(pre.last() == cs@[i as int]);
        }
        let wanted = match &c.query {
            Some(MapQuery::Trainer(_)) => true,
            Some(MapQuery::Item(_)) => true,
            _ => false,
        };
        if c.enabled && wanted {
            if let Some(a) = first_step_anchor(&c.anchors) {
                out.push((c.id, a));
            }
        }
        i = i + 1;
    }
    assert(cs@.subrange(0, cs@.len() as int) =~= cs@);
    out
}

/// One disc of the path: the events on one step, and their 1-based places
/// in the trip (`first == last` for one event).
pub struct TripNode {
    pub ids: Vec<i64>,
    pub first: usize,
    pub last: usize,
    pub anchor: StepAnchor,
}

pub type NodeView = (Seq<i64>, int, int, StepAnchor);

pub open spec fn node_view(n: TripNode) -> NodeView {
    (n.ids@, n.first as int, n.last as int, n.anchor)
}

pub open spec fn nodes_view(s: Seq<TripNode>) -> Seq<NodeView> {
    s.map_values(|n: TripNode| node_view(n))
}

/// The trip's nodes for its events in order: an event on the same step as
/// the node before joins it, else it opens a node of its own.
pub open spec fn trip_nodes_spec(entries: Seq<(i64, StepAnchor)>) -> Seq<NodeView>
    decreases entries.len(),
{
    if entries.len() == 0 {
        Seq::empty()
    } else {
        let rest = trip_nodes_spec(entries.drop_last());
        let (id, a) = entries.last();
        let order = entries.len() as int;
        if rest.len() > 0 && rest.last().3 == a {
            rest.update(rest.len() - 1, (rest.last().0.push(id), rest.last().1, order, a))
        } else {
            rest.push((seq![id], order, order, a))
        }
    }
}

/// The ids of the nodes, one after another.
pub open spec fn flat_ids(nodes: Seq<NodeView>) -> Seq<i64>
    decreases nodes.len(),
{
    if nodes.len() == 0 {
        Seq::empty()
    } else {
        flat_ids(nodes.drop_last()) + nodes.last().0
    }
}

/// The nodes' places run from 1 to the number of events without a gap,
/// each node holds as many events as its range, and neighbouring nodes sit
/// on different steps.
pub open spec fn well_numbered(nodes: Seq<NodeView>, count: int) -> bool {
    &&& (nodes.len() == 0 <==> count == 0)
    &&& nodes.len() > 0 ==> nodes[0].1 == 1 && nodes.last().2 == count
    &&& forall|k: int| 0 <= k < nodes.len() ==> #[trigger] nodes[k].1 <= nodes[k].2 && nodes[k].0.len() == nodes[k].2
        - nodes[k].1 + 1
    &&& forall|k: int| 0 < k < nodes.len() ==> #[trigger] nodes[k].1 == nodes[k - 1].2 + 1
    &&& forall|k: int| 0 < k < nodes.len() ==> #[trigger] nodes[k].3 != nodes[k - 1].3
}

/// The trip path holds every event once, in route order, numbered
/// without gaps, and no two neighbouring discs share a step.
pub proof fn law_trip_nodes(entries: Seq<(i64, StepAnchor)>)
    ensures
        flat_ids(trip_nodes_spec(entries)) == entries.map_values(|e: (i64, StepAnchor)| e.0),
        well_numbered(trip_nodes_spec(entries), entries.len() as int),
    decreases entries.len(),
{
    if entries.len() > 0 {
        let pre = entries.drop_last();
        law_trip_nodes(pre);
        let rest = trip_nodes_spec(pre);
        let (id, a) = entries.last();
        let order = entries.len() as int;
        let ids = entries.map_values(|e: (i64, StepAnchor)| e.0);
        assert(ids =~= pre.map_values(|e: (i64, StepAnchor)| e.0).push(id));
        if rest.len() > 0 && rest.last().3 == a {
            let n = rest.update(rest.len() - 1, (rest.last().0.push(id), rest.last().1, order, a));
            assert(n.drop_last() =~= rest.drop_last());
            assert(rest =~= rest.drop_last().push(rest.last()));
            assert(flat_ids(rest) == flat_ids(rest.drop_last()) + rest.last().0);
            assert(flat_ids(n) =~= flat_ids(rest) + seq![id]);
            assert forall|k: int| 0 < k < n.len() implies #[trigger] n[k].3 != n[k - 1].3 by {
                assert(rest[k].3 != rest[k - 1].3);
            }
            assert forall|k: int| 0 < k < n.len() implies #[trigger] n[k].1 == n[k - 1].2 + 1 by {
                assert(rest[k].1 == rest[k - 1].2 + 1);
            }
            assert forall|k: int| 0 <= k < n.len() implies #[trigger] n[k].1 <= n[k].2 && n[k].0.len() == n[k].2
                - n[k].1 + 1 by {
                assert(rest[k].1 <= rest[k].2 && rest[k].0.len() == rest[k].2 - rest[k].1 + 1);
            }
        } else {
            let n = rest.push((seq![id], order, order, a));
            assert(n.drop_last() =~= rest);
            assert(flat_ids(n) =~= flat_ids(rest) + seq![id]);
            assert forall|k: int| 0 < k < n.len() implies #[trigger] n[k].3 != n[k - 1].3 by {
                if k < n.len() - 1 {
                    assert(rest[k].3 != rest[k - 1].3);
                }
            }
            assert forall|k: int| 0 < k < n.len() implies #[trigger] n[k].1 == n[k - 1].2 + 1 by {
                if k < n.len() - 1 {
                    assert(rest[k].1 == rest[k - 1].2 + 1);
                }
            }
            assert forall|k: int| 0 <= k < n.len() implies #[trigger] n[k].1 <= n[k].2 && n[k].0.len() == n[k].2
                - n[k].1 + 1 by {
                if k < n.len() - 1 {
                    assert(rest[k].1 <= rest[k].2 && rest[k].0.len() == rest[k].2 - rest[k].1 + 1);
                }
            }
        }
    }
}

/// A copy of a list of ids.
fn copy_ids(v: &Vec<i64>) -> (r: Vec<i64>)
    ensures
        r@ == v@,
{
    let mut r: Vec<i64> = Vec::new();
    let mut i: usize = 0;
    while i < v.len()
        invariant
            i <= v.len(),
            r@ == v@.subrange(0, i as int),
        decreases v.len() - i,
    {
        r.push(v[i]);
        i = i + 1;
    }
    assert(v@.subrange(0, v.len() as int) =~= v@);
    r
}

/// The trip's nodes for its events in order (the events with a step, in
/// the folder's order).
pub fn trip_nodes(entries: &Vec<(i64, StepAnchor)>) -> (r: Vec<TripNode>)
    ensures
        nodes_view(r@) == trip_nodes_spec(entries@),
{
    let mut nodes: Vec<TripNode> = Vec::new();
    let mut i: usize = 0;
    while i < entries.len()
        invariant
            i <= entries.len(),
            nodes_view(nodes@) == trip_nodes_spec(entries@.subrange(0, i as int)),
            forall|k: int| 0 <= k < nodes@.len() ==> #[trigger] nodes@[k].last <= i,
        decreases entries.len() - i,
    {
        let ghost before = nodes_view(nodes@);
        let (id, a) = entries[i];
        let order = i + 1;
        proof {
            let pre = entries@.subrange(0, i + 1);
            assert(pre.drop_last() =~= entries@.subrange(0, i as int));
            assert(pre.last() == entries@[i as int]);
        }
        let n = nodes.len();
        if n > 0 && nodes[n - 1].anchor == a {
            let mut ids = copy_ids(&nodes[n - 1].ids);
            ids.push(id);
            let joined = TripNode { ids, first: nodes[n - 1].first, last: order, anchor: a };
            nodes.set(n - 1, joined);
            proof {
                assert(nodes_view(nodes@) =~= before.update(
                    before.len() - 1,
                    (before.last().0.push(id), before.last().1, order as int, a),
                ));
            }
        } else {
            let ids = vec![id];
            assert(ids@ =~= seq![id]);
            nodes.push(TripNode { ids, first: order, last: order, anchor: a });
            proof {
                assert(nodes_view(nodes@) =~= before.push((seq![id], order as int, order as int, a)));
            }
        }
        i = i + 1;
    }
    assert(entries@.subrange(0, entries.len() as int) =~= entries@);
    nodes
}

} // verus!
