use xpr_app::details::NodeKind;
use xpr_app::editors::{editor_for, BagReorderEditor, EditorSlot, InventoryEventEditor, RareCandyEditor};
use xpr_app::event_draft::EventDraft;
use xpr_app::event_kind::EventKind;
use xpr_app::inline_creator::{display_for_key, kind_named, InlineKind};
use xpr_app::map_nav::{finder_hits, selection_folder, should_follow};
use xpr_app::pp_walk::{add_spend, group_notes, matchup_note, raised_ceiling, unknown_spend_note};
use xpr_app::quick_add::{first_tm, trip_folder_name, QuickAddPopover};
use xpr_app::route_rows::{
    add_new_target, ancestors_to_open, list_rows, unique_unnamed_folder_name, AddTarget, InlineEdit, ListNode, Row, RowKind, RowSelection,
};

fn strs(v: &[&str]) -> Vec<String> {
    v.iter().map(|s| s.to_string()).collect()
}

#[test]
fn inline_kinds_by_key_and_name() {
    assert_eq!(display_for_key("tm_move"), Some("TM/HM Move"));
    assert_eq!(display_for_key("nope"), None);
    assert_eq!(InlineKind::UseItem.display(), "Use/Drop Item");
    assert_eq!(InlineKind::Evolve.key(), "evolve");
    assert!(kind_named("Heal", false).is_some());
    assert!(kind_named("heal", true).is_some());
}

#[test]
fn editors_by_event_kind() {
    assert_eq!(editor_for(EventKind::SellItem), Some(EditorSlot::Inventory));
    assert_eq!(editor_for(EventKind::LearnMoveTm), Some(EditorSlot::LearnMove));
    assert_eq!(editor_for(EventKind::Blackout), Some(EditorSlot::Location));
    assert_eq!(editor_for(EventKind::NotesOnly), None);
}

#[test]
fn item_editor_costs_and_errors() {
    let mut e = InventoryEventEditor::new();
    assert!(matches!(e.get_event(), Err(m) if m == "Cannot generate inventory event for event type: "));
    assert!(e.set_event_type(EventKind::PurchaseItem, "Purchase Item"));
    assert!(!e.set_event_type(EventKind::Save, "Save"));
    assert_eq!(e.event_type, "Purchase Item");
    e.amount = " 3 ".to_string();
    assert!(e.update_cost(Some((200, 100))));
    assert_eq!(e.cost_label, "Total Cost: 600");
    e.set_event_type(EventKind::SellItem, "Sell Item");
    e.update_cost(Some((200, 100)));
    assert_eq!(e.cost_label, "Total Profit: 300");
    assert!(!e.update_cost(None));
    e.amount = "x".to_string();
    assert!(matches!(e.get_event(), Err(m) if m == "invalid literal for int() with base 10: 'x'"));
    e.amount = "2".to_string();
    match e.get_event() {
        Ok(EventDraft::Item(d)) => {
            assert_eq!(d.amount, 2);
            assert!(!d.is_acquire && d.with_money);
        }
        other => panic!("{:?}", other),
    }
    // a kind the editor does not edit is refused, under its name
    e.event_kind = Some(EventKind::TrainerBattle);
    e.event_type = "Fight Trainer".to_string();
    assert!(matches!(e.get_event(), Err(m) if m == "Cannot generate inventory event for event type: Fight Trainer"));
}

#[test]
fn rare_candy_amounts() {
    let e = RareCandyEditor::load_event(4);
    assert_eq!(e.amount, "4");
    assert!(matches!(e.get_event(), Ok(EventDraft::RareCandy(4))));
    let bad = RareCandyEditor { amount: "four".to_string() };
    assert!(matches!(bad.get_event(), Err(m) if m == "invalid literal for int() with base 10: 'four'"));
}

#[test]
fn bag_rows_move_as_a_permutation() {
    let rows = vec![("Potion".to_string(), 1), ("Ether".to_string(), 2), ("Nugget".to_string(), 1)];
    let mut e = BagReorderEditor::load_event(strs(&["Potion", "Ether", "Nugget"]), rows, false);
    assert!(e.move_item(0, 2));
    let names: Vec<String> = e.order.iter().map(|r| r.0.clone()).collect();
    assert_eq!(names, vec!["Ether", "Potion", "Nugget"]);
    // dropping a row onto its own place moves nothing
    assert!(!e.move_item(1, 2));
    let mut sorted = names.clone();
    sorted.sort();
    assert_eq!(sorted, vec!["Ether", "Nugget", "Potion"]);
}

#[test]
fn folder_names_do_not_collide() {
    assert_eq!(unique_unnamed_folder_name(&strs(&["New Folder", "New Folder (2)"])), "New Folder (3)");
    assert_eq!(unique_unnamed_folder_name(&Vec::new()), "New Folder");
    let t = trip_folder_name("Route 3", &strs(&["Route 3"]));
    assert!(t != "Route 3");
}

fn row(id: i64) -> Row {
    Row { id, kind: RowKind::Group, depth: 0, expandable: false, expanded: false, parent: None }
}

#[test]
fn ctrl_click_twice_restores_the_selection() {
    let rows = vec![row(1), row(2), row(3)];
    let mut sel = RowSelection::new();
    sel.click(&rows, 1, false, false);
    assert_eq!(sel.selection, vec![1]);
    let before = sel.selection.clone();
    sel.click(&rows, 3, true, false);
    assert!(sel.selection.contains(&3));
    sel.click(&rows, 3, true, false);
    let mut a = sel.selection.clone();
    a.sort();
    assert_eq!(a, before);
    sel.click(&rows, 1, false, false);
    sel.click(&rows, 3, false, true);
    let mut r = sel.selection.clone();
    r.sort();
    assert_eq!(r, vec![1, 2, 3]);
}

#[test]
fn pp_group_walk_pieces() {
    let mut total = [0i64; 4];
    add_spend(&mut total, [1, 2, 0, 0]);
    add_spend(&mut total, [1, 0, 0, 5]);
    assert_eq!(total, [2, 2, 0, 5]);
    assert_eq!(matchup_note("Pressure doubles", "Zapdos"), "PP: Pressure doubles (Zapdos)");
    assert_eq!(unknown_spend_note(), "PP: this matchup's spend could not be worked out");
    assert!(raised_ceiling(0, 1, true));
    assert!(!raised_ceiling(1, 1, true));
    assert!(!raised_ceiling(0, 1, false));
    let notes = vec![strs(&["a", "b"]), strs(&["b", "c"]), Vec::new()];
    assert_eq!(group_notes(&notes), vec!["a", "b", "c"]);
}

#[test]
fn finder_lists_placed_matches_up_to_the_cap() {
    let names: Vec<String> = (0..40).map(|i| format!("Youngster {}", i)).collect();
    let placed: Vec<bool> = (0..40).map(|i| i % 2 == 0).collect();
    let hits = finder_hits(&names, &placed, " youngster ");
    assert_eq!(hits.len(), 20);
    assert_eq!(hits[1], 2);
    let all_placed = vec![true; 40];
    assert_eq!(finder_hits(&names, &all_placed, "YOUNG").len(), 25);
    assert!(finder_hits(&names, &all_placed, "  ").is_empty());
    assert_eq!(finder_hits(&names, &all_placed, "ster 3").len(), 11);
    assert_eq!(selection_folder(Some("Route 4".to_string())), "Route 4");
    assert_eq!(selection_folder(Some(String::new())), "Selection");
    assert_eq!(selection_folder(None), "Selection");
    assert!(should_follow(true, true, Some(4), Some(3)));
    assert!(!should_follow(true, true, Some(4), Some(4)));
    assert!(!should_follow(false, true, Some(4), None));
}

#[test]
fn quick_add_popover_keys_and_clicks() {
    let mut p = QuickAddPopover::new();
    assert!(!p.open);
    p.show_above(Some(0));
    assert!(p.open && p.opened_frame);
    // the click that opened it does not close it
    assert!(p.frame([false, false, true, false, false], false, true, false));
    assert_eq!(p.category, Some(2));
    // the last pressed key wins
    assert!(p.frame([true, false, false, true, false], false, false, false));
    assert_eq!(p.category, Some(3));
    // behind a dialog nothing reaches it
    assert!(p.frame([true, true, true, true, true], true, true, true));
    assert_eq!(p.category, Some(3));
    assert!(!p.frame([false; 5], false, true, false));
    p.show_above(None);
    assert!(!p.frame([false; 5], true, false, false));
    p.show_above(Some(1));
    p.on_route_change();
    assert!(!p.open);

    let tms = vec!["TM01 Mega Punch".to_string(), "TM02".to_string()];
    assert_eq!(first_tm(&tms, "(none)"), Some("TM01 Mega Punch".to_string()));
    assert_eq!(first_tm(&vec!["(none)".to_string()], "(none)"), None);
    assert_eq!(first_tm(&Vec::new(), "(none)"), None);
}

fn lnode(id: i64, is_folder: bool, depth: usize, render: bool, expanded: bool, items: Vec<(i64, bool)>, parent: Option<i64>) -> ListNode {
    ListNode { id, is_folder, depth, render, expanded, items, parent }
}

fn list_row(id: i64, kind: RowKind, depth: usize, expandable: bool, expanded: bool, parent: Option<i64>) -> Row {
    Row { id, kind, depth, expandable, expanded, parent }
}

#[test]
fn route_list_rows_follow_folds_and_filters() {
    let nodes = vec![
        lnode(1, true, 0, true, true, vec![], None),
        lnode(10, false, 1, true, true, vec![(11, true), (12, false)], Some(1)),
        lnode(2, true, 1, true, false, vec![], Some(1)),
        lnode(20, false, 2, true, false, vec![], Some(2)),
        lnode(30, false, 1, false, false, vec![], Some(1)),
        lnode(3, true, 0, false, true, vec![], None),
        lnode(40, false, 1, true, false, vec![], Some(3)),
        lnode(50, false, 0, true, false, vec![(51, false)], None),
    ];
    let rows = list_rows(&nodes);
    assert_eq!(
        rows,
        vec![
            list_row(1, RowKind::Folder, 0, true, true, None),
            list_row(10, RowKind::Group, 1, true, true, Some(1)),
            list_row(11, RowKind::LevelUpSibling, 1, false, false, Some(1)),
            list_row(12, RowKind::Item, 2, false, false, Some(10)),
            list_row(2, RowKind::Folder, 1, true, false, Some(1)),
            list_row(50, RowKind::Group, 0, false, false, None),
        ]
    );
}

#[test]
fn inline_edit_disables_then_gives_the_flag_back() {
    let mut e = InlineEdit::new();
    assert_eq!(e.restore(), None);
    assert_eq!(e.start(7, true), None);
    // editing another group first gives the first one its flag back
    assert_eq!(e.start(8, false), Some((7, true)));
    assert_eq!(e.finish(false), Some((8, false)));
    assert_eq!(e, InlineEdit::new());
    e.start(9, true);
    assert_eq!(e.finish(true), Some((9, true)));
    assert_eq!(e.finish(true), None);
    let e2 = InlineEdit { group: Some(3), flag_before: None };
    let mut e3 = e2;
    assert_eq!(e3.restore(), Some((3, true)));

    assert_eq!(add_new_target(true, Some(1), Some(2)), AddTarget::NewFolder);
    assert_eq!(add_new_target(false, Some(1), Some(2)), AddTarget::After(1));
    assert_eq!(add_new_target(false, None, Some(2)), AddTarget::After(2));
    assert_eq!(add_new_target(false, None, None), AddTarget::Nowhere);
}

#[test]
fn scrolling_to_a_row_opens_what_holds_it() {
    use_ancestors();
}

fn use_ancestors() {
    let anc = vec![(1, NodeKind::Folder, true), (2, NodeKind::Folder, false), (3, NodeKind::Group, false)];
    assert_eq!(ancestors_to_open(&anc), vec![2, 3]);
    assert!(ancestors_to_open(&vec![(1, NodeKind::Folder, true)]).is_empty());
}
