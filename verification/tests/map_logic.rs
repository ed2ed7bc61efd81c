use xpr_app::map_chunks::{max_level, overview_keys, span_of, ChunkKey};
use xpr_app::map_export::{needs_overlay, ExportReport, ExportSettings, JobEnd, MAX_SCALE};
use xpr_app::map_list::{
    focus_count, focus_place, group_of, map_rows, no_location_notice, searches_names, sort_by_text, world_title, MapEntry,
    MapGroup,
};
use xpr_app::map_nav::{
    arrow_pan, click_card, click_outcome, disc_event, disc_label, eq_ignore_ascii_case, first_town, item_enter, navigator_pointer,
    needs_load, scope_of_map, step_card, trainers_to_add, ItemEnter, MapCard, SearchPopups,
};
use xpr_app::details::NodeKind;
use xpr_app::map_state::{
    acquired_items, enclosing_folder, first_step_anchor, groups_in_folder, query_for, trip_entries, trip_folder, trip_nodes,
    EventFacts, MapQuery, OutlineNode, RouteMapState, StepAnchor, TripCandidate,
};
use xpr_app::map_tools::{snap_rect, DragMode, GridRect, Measurement, Tool, ToolState};
use xpr_app::map_view::{marker_style, ExportRegion, ObjectKind, Toggles};

fn at(map: u32, x: i32, y: i32) -> StepAnchor {
    StepAnchor { map, x, y }
}

#[test]
fn trip_nodes_collapse_consecutive_steps() {
    let entries = vec![(10, at(1, 2, 3)), (11, at(1, 2, 3)), (12, at(1, 4, 3)), (13, at(1, 2, 3)), (14, at(1, 2, 3)), (15, at(1, 2, 3))];
    let nodes = trip_nodes(&entries);
    assert_eq!(nodes.len(), 3);
    assert_eq!((nodes[0].ids.clone(), nodes[0].first, nodes[0].last), (vec![10, 11], 1, 2));
    assert_eq!((nodes[1].ids.clone(), nodes[1].first, nodes[1].last), (vec![12], 3, 3));
    assert_eq!((nodes[2].ids.clone(), nodes[2].first, nodes[2].last), (vec![13, 14, 15], 4, 6));
    assert!(trip_nodes(&Vec::new()).is_empty());
    assert_eq!(disc_label(4, 6), "4–6");
    assert_eq!(disc_label(3, 3), "3");
    assert_eq!(disc_event(&nodes[2].ids), Some(13));
    assert_eq!(disc_event(&Vec::new()), None);
}

#[test]
fn map_queries_of_events() {
    let trainer = EventFacts { trainer: Some("Brock".to_string()), item: None, wild: Some("Onix".to_string()) };
    assert!(matches!(query_for(&trainer), Some(MapQuery::Trainer(n)) if n == "Brock"));
    let pickup = EventFacts { trainer: None, item: Some(("Potion".to_string(), true, false)), wild: None };
    assert!(matches!(query_for(&pickup), Some(MapQuery::Item(n)) if n == "Potion"));
    let bought = EventFacts { trainer: None, item: Some(("Potion".to_string(), true, true)), wild: Some("Rattata".to_string()) };
    assert!(query_for(&bought).is_none());
    let wild = EventFacts { trainer: None, item: None, wild: Some("Rattata".to_string()) };
    assert!(matches!(query_for(&wild), Some(MapQuery::Species(n)) if n == "Rattata"));
    let items = vec![
        ("Potion".to_string(), true, false),
        ("Antidote".to_string(), true, true),
        ("Potion".to_string(), true, false),
        ("TM28".to_string(), false, false),
        ("Nugget".to_string(), true, false),
    ];
    assert_eq!(acquired_items(&items), vec!["Potion", "Nugget"]);
    let st = RouteMapState { defeated: vec!["BROCK".to_string()], acquired: acquired_items(&items) };
    assert!(st.is_defeated("BROCK"));
    assert!(!st.is_defeated("MISTY"));
    assert!(st.is_acquired("Nugget"));
    let anchors = vec![(at(1, 0, 0), false), (at(2, 5, 6), true), (at(3, 1, 1), true)];
    assert_eq!(first_step_anchor(&anchors), Some(at(2, 5, 6)));
    assert_eq!(first_step_anchor(&vec![(at(1, 0, 0), false)]), None);
}

#[test]
fn chunk_levels_and_overview() {
    assert_eq!(span_of(0), 512);
    assert_eq!(span_of(3), 4096);
    assert_eq!(span_of(21), 1 << 30);
    assert_eq!(span_of(22), i32::MIN);
    assert_eq!(span_of(23), 0);
    assert_eq!(max_level(512, 100), 0);
    assert_eq!(max_level(513, 100), 1);
    assert_eq!(max_level(100, 4096), 3);
    assert_eq!(max_level(0, 0), 0);
    let keys = overview_keys(None, 1500, 600, false, 2, 1);
    // level 2 (2048 px): one chunk; level 1 (1024 px): 2 x 1
    let k = |level: u8, cx: u32, cy: u32| ChunkKey { scope: None, level, cx, cy, night: false };
    assert_eq!(keys, vec![k(2, 0, 0), k(1, 0, 0), k(1, 1, 0)]);
    // a starting level above the coarsest gives the coarsest alone
    assert_eq!(overview_keys(Some(4), 10, 10, true, 1, 5).len(), 1);
}

#[test]
fn export_dialog_settings() {
    let mut s = ExportSettings::new();
    assert_eq!(s.scale, 1);
    s.request_open();
    let t = Toggles { trainers: false, items: false, hidden: false, warps: false, signs: false, berries: false, npcs: false, ..Toggles::default() };
    assert!(s.prime(true, t));
    assert!(s.night);
    assert!(!s.markers);
    assert!(!s.prime(false, Toggles::default()));
    assert!(s.night);
    // an unavailable region falls back
    s.pick_region(ExportRegion::ThisMap);
    assert_eq!(s.dialog_region(false, false), ExportRegion::View);
    assert_eq!(s.dialog_region(true, true), ExportRegion::ThisMap);
    s.step_scale(1);
    s.step_scale(8);
    assert_eq!(s.scale, MAX_SCALE);
    assert_eq!(s.can_step(), (true, false));
    s.step_scale(-8);
    assert_eq!(s.scale, 1);
    assert_eq!(s.scale_label(), "1×");
    let jt = s.job_toggles(Toggles::default());
    assert!(!jt.trainers && !jt.items);
    s.markers = true;
    assert!(s.job_toggles(Toggles::default()).trainers);
    assert!(needs_overlay(t, true));
    assert!(!needs_overlay(Toggles { grid: false, labels: false, path: false, ..t }, false));
    s.start_job();
    assert!(s.job_running);
    // a failure shows in the open dialog
    assert!(s.finish_job(JobEnd::Failed("disk full".to_string()), false).is_none());
    assert_eq!(s.error, Some("disk full".to_string()));
    assert!(matches!(s.finish_job(JobEnd::Copied { width: 2, height: 2, bytes: 16 }, false), Some(ExportReport::CopiedImage)));
    assert!(!s.open);
    assert!(matches!(s.finish_job(JobEnd::Copied { width: 2, height: 2, bytes: 15 }, false), Some(ExportReport::Failed(m)) if m == "nothing to copy"));
    // a quiet copy that fails is reported; a stopped job is not
    assert!(matches!(s.finish_job(JobEnd::Failed("x".to_string()), false), Some(ExportReport::Failed(m)) if m == "x"));
    assert!(s.finish_job(JobEnd::Failed("x".to_string()), true).is_none());
    assert!(matches!(s.finish_job(JobEnd::Exported("/tmp/a.png".to_string()), false), Some(ExportReport::Exported(p)) if p == "/tmp/a.png"));
    s.request_copy(ExportRegion::World);
    assert_eq!(s.take_copy(), Some(ExportRegion::World));
    assert_eq!(s.take_copy(), None);
    s.request_open_with(ExportRegion::Selection);
    s.cancel();
    assert!(!s.is_open());
}

fn map(id: u32, c: &str, d: &str, outdoor: bool) -> MapEntry {
    MapEntry { id, const_name: c.to_string(), display: d.to_string(), outdoor, has_blocks: true }
}

#[test]
fn map_list_groups_and_orders() {
    assert_eq!(group_of(&map(20, "ROUTE_1", "Route 1", true), 1), MapGroup::Routes);
    assert_eq!(group_of(&map(0, "PALLET_TOWN", "Pallet Town", true), 1), MapGroup::Cities);
    assert_eq!(group_of(&map(5, "X", "Cinnabar", true), 1), MapGroup::Cities);
    assert_eq!(group_of(&map(5, "X", "Cinnabar", true), 2), MapGroup::Indoors);
    assert_eq!(group_of(&map(30, "MT_MOON_1F", "Mt. Moon 1F", false), 1), MapGroup::Indoors);
    assert_eq!(MapGroup::Cities.title(), "Cities & Towns");
    let maps = vec![
        map(9, "ROUTE_9", "Route 9", true),
        map(10, "ROUTE_10", "Route 10", true),
        map(2, "ROUTE_2", "Route 2", true),
        map(40, "HOUSE_A", "Red's House", false),
        map(41, "HOUSE_B", "Blue's House", false),
    ];
    // by the text of the id: "10" before "2" before "9"
    assert_eq!(map_rows(&maps, 1, MapGroup::Routes, ""), vec![10, 2, 9]);
    assert_eq!(map_rows(&maps, 1, MapGroup::Routes, " route 1"), vec![10]);
    assert_eq!(map_rows(&maps, 1, MapGroup::Indoors, "house"), vec![40, 41]);
    assert_eq!(sort_by_text(&vec![100, 20, 3]), vec![100, 20, 3]);
    assert!(searches_names(" ab "));
    assert!(!searches_names(" a "));
    assert_eq!(world_title(1, ""), "Kanto");
    assert_eq!(world_title(3, "firered_leafgreen"), "Kanto & Sevii Islands");
    assert_eq!(world_title(3, "emerald"), "Hoenn");
    assert_eq!(focus_place("Route 3", true, Some(true)), "Route 3 (somewhere on this map) · hidden item");
    assert_eq!(focus_place("Route 3", false, Some(false)), "Route 3 · item ball");
    assert_eq!(focus_count("Route 3", 1, 4), "— Route 3 (2 of 4)");
    assert_eq!(no_location_notice("Potion"), "No map location known for Potion");
}

#[test]
fn viewer_small_decisions() {
    assert_eq!(navigator_pointer(false, true, true, true, false), (true, true));
    assert_eq!(navigator_pointer(true, false, true, false, false), (true, true));
    assert_eq!(navigator_pointer(true, true, false, false, true), (false, true));
    assert_eq!(navigator_pointer(false, false, true, false, false), (false, false));
    assert!(eq_ignore_ascii_case("PoTion", "potion"));
    assert!(!eq_ignore_ascii_case("Potion", "Potions"));
    let hits = vec!["Super Potion".to_string(), "Potion".to_string()];
    assert!(matches!(item_enter(Some("Potion"), Some("Potion"), " potion ", &hits), ItemEnter::StepFocus));
    assert!(matches!(item_enter(None, None, "POTION", &hits), ItemEnter::Choose(n) if n == "Potion"));
    assert!(matches!(item_enter(None, None, "pot", &hits), ItemEnter::Choose(n) if n == "Super Potion"));
    assert!(matches!(item_enter(None, None, "x", &Vec::new()), ItemEnter::Nothing));
    let trainers = vec![Some("A".to_string()), None, Some("B".to_string()), Some("A".to_string()), Some("C".to_string())];
    assert_eq!(trainers_to_add(&trainers, &vec!["B".to_string()]), vec!["A", "C"]);
    assert!(!needs_load(Some("red"), None, "red"));
    assert!(!needs_load(None, Some("red"), "red"));
    assert!(needs_load(Some("gold"), None, "red"));
    assert_eq!(scope_of_map(7, true, true), None);
    assert_eq!(scope_of_map(7, true, false), Some(7));
    assert_eq!(arrow_pan(true, false, false, true), (60, -60));
    assert_eq!(arrow_pan(true, true, false, false), (0, 0));
    assert_eq!(marker_style(ObjectKind::HiddenItem), ((0xff, 0x66, 0xff), "?", true));
    assert_eq!(marker_style(ObjectKind::Trainer).1, "T");
}

#[test]
fn toolbar_popups_and_click_cards() {
    let mut p = SearchPopups { list_open: false, items_open: false };
    p.frame(true, false, false, false);
    assert!(p.list_open && !p.items_open);
    p.frame(false, false, true, false);
    assert!(!p.list_open && p.items_open);
    p.frame(false, false, false, true);
    assert!(!p.list_open && !p.items_open);
    p.frame(true, true, false, false);
    assert!(!p.list_open);

    assert_eq!(step_card(3, 4, 5, true, false), MapCard::Tile { map: 3, x: 4, y: 5, water: false, grass: true });
    assert_eq!(step_card(3, 4, 5, false, false), MapCard::WholeMap { map: 3 });
    assert_eq!(click_card(Some(9), Some((1, 0, 0, true, true))), Some(MapCard::Object { idx: 9 }));
    assert_eq!(click_card(None, Some((1, 2, 3, false, true))), Some(MapCard::Tile { map: 1, x: 2, y: 3, water: true, grass: false }));
    assert_eq!(click_card(None, None), None);
    assert_eq!(MapCard::WholeMap { map: 12 }.map(), 12);
    assert_eq!(MapCard::Object { idx: 12 }.map(), 0);

    let names = vec!["ROUTE_1".to_string(), "PALLET_TOWN".to_string(), "VIRIDIAN_TOWN".to_string()];
    assert_eq!(first_town(&names), Some(1));
    assert_eq!(first_town(&vec!["ROUTE_1".to_string()]), None);
}

#[test]
fn marquee_and_ruler_drags() {
    let scope = GridRect { x0: 0, y0: 0, x1: 160, y1: 160 };
    assert_eq!(snap_rect(16, &scope, (20, 40), (5, 10)), GridRect { x0: 0, y0: 0, x1: 32, y1: 48 });
    assert_eq!(snap_rect(16, &scope, (150, 150), (170, 170)), GridRect { x0: 144, y0: 144, x1: 160, y1: 160 });

    let mut t = ToolState::new();
    assert_eq!(t.drag_mode(false, false), None);
    assert_eq!(t.drag_mode(false, true), Some(DragMode::Select));
    // the hand pans: no drag of the tools
    t.begin_drag(false, false, Some((1, 1)));
    assert!(t.active.is_none());
    assert!(!t.drag_to((3, 3)));
    t.handle_keys(false, true, false);
    assert_eq!(t.tool, Tool::Select);
    t.begin_drag(false, false, Some((20, 40)));
    assert!(t.drag_to((5, 10)));
    assert!(t.end_drag(16, &scope));
    assert_eq!(t.selection, Some(GridRect { x0: 0, y0: 0, x1: 32, y1: 48 }));
    assert_eq!(t.toolbar_under(false), t.selection);
    assert_eq!(t.toolbar_under(true), None);
    // a drag that covers nothing keeps the old selection
    t.begin_drag(false, false, Some((200, 200)));
    t.drag_to((210, 210));
    assert!(t.end_drag(16, &scope));
    assert_eq!(t.selection, Some(GridRect { x0: 0, y0: 0, x1: 32, y1: 48 }));
    // space holds the hand even in the marquee
    assert_eq!(t.drag_mode(true, true), None);
    // the ruler
    t.handle_keys(false, false, true);
    t.begin_drag(false, false, Some((3, 3)));
    assert!(t.takes_input(true));
    t.drag_to((40, 3));
    t.end_drag(16, &scope);
    assert_eq!(t.measurement, Some(Measurement { a: (8, 8), b: (40, 8) }));
    assert!(!t.takes_input(true));
    // a plain click clears the selection only with the marquee
    assert!(!t.click());
    t.handle_keys(false, true, false);
    assert!(t.click());
    assert_eq!(t.selection, None);
    assert!(t.on_escape());
    assert_eq!(t.measurement, None);
    assert!(!t.on_escape());
}

fn node(id: i64, kind: NodeKind, depth: usize) -> OutlineNode {
    OutlineNode { id, kind, depth }
}

#[test]
fn trip_of_the_selected_folder() {
    // root
    //   Viridian (folder)
    //     g10 (group) - i11 (item)
    //     Forest (folder)
    //       g21
    //     g12
    //   g30
    let nodes = vec![
        node(0, NodeKind::Folder, 0),
        node(1, NodeKind::Folder, 1),
        node(10, NodeKind::Group, 2),
        node(11, NodeKind::Item, 3),
        node(2, NodeKind::Folder, 2),
        node(21, NodeKind::Group, 3),
        node(12, NodeKind::Group, 2),
        node(30, NodeKind::Group, 1),
    ];
    assert_eq!(groups_in_folder(&nodes, 1), vec![10, 21, 12]);
    assert_eq!(groups_in_folder(&nodes, 4), vec![21]);
    assert_eq!(groups_in_folder(&nodes, 0), vec![10, 21, 12, 30]);
    assert_eq!(enclosing_folder(&nodes, 3), Some(1));
    assert_eq!(enclosing_folder(&nodes, 5), Some(4));
    assert_eq!(enclosing_folder(&nodes, 6), Some(1));
    assert_eq!(enclosing_folder(&nodes, 4), Some(4));
    assert_eq!(enclosing_folder(&nodes, 7), Some(0));
    assert_eq!(enclosing_folder(&nodes, 99), None);
    assert_eq!(trip_folder(&nodes, 3, 0), Some(1));
    assert_eq!(trip_folder(&nodes, 7, 0), None);

    let a = StepAnchor { map: 1, x: 2, y: 3 };
    let b = StepAnchor { map: 1, x: 5, y: 5 };
    let cands = vec![
        TripCandidate { id: 10, enabled: true, query: Some(MapQuery::Trainer("Bug Catcher".to_string())), anchors: vec![(b, false), (a, true)] },
        TripCandidate { id: 21, enabled: false, query: Some(MapQuery::Item("Potion".to_string())), anchors: vec![(a, true)] },
        TripCandidate { id: 12, enabled: true, query: Some(MapQuery::Species("Pidgey".to_string())), anchors: vec![(a, true)] },
        TripCandidate { id: 13, enabled: true, query: Some(MapQuery::Item("Antidote".to_string())), anchors: vec![(b, false)] },
        TripCandidate { id: 14, enabled: true, query: Some(MapQuery::Item("Potion".to_string())), anchors: vec![(b, true)] },
        TripCandidate { id: 15, enabled: true, query: None, anchors: vec![(b, true)] },
    ];
    assert_eq!(trip_entries(&cands), vec![(10, a), (14, b)]);
}

#[test]
fn clicks_open_and_close_cards() {
    let obj = MapCard::Object { idx: 4 };
    let tile = MapCard::Tile { map: 2, x: 3, y: 5, water: false, grass: true };
    assert_eq!(click_outcome(Some(obj), false, false), (Some(obj), Some(4), true));
    assert_eq!(click_outcome(Some(tile), true, false), (Some(tile), None, false));
    // what the open card already shows closes it
    assert_eq!(click_outcome(Some(obj), true, true), (None, None, false));
    assert_eq!(click_outcome(None, true, false), (None, None, false));
}

#[test]
fn escape_clears_tools_before_the_card() {
    let mut t = ToolState::new();
    t.selection = Some(GridRect { x0: 0, y0: 0, x1: 16, y1: 16 });
    t.measurement = Some(Measurement { a: (0, 0), b: (16, 0) });
    assert!(!t.escape_closes_card());
    assert!(t.measurement.is_none() && t.selection.is_some());
    assert!(!t.escape_closes_card());
    assert!(t.selection.is_none());
    assert!(t.escape_closes_card());
}
