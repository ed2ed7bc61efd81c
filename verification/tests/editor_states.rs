use xpr_app::editors::{amount_ready, notes_options, BagReorderEditor, EvOverrideEditor, NotesEditor};
use xpr_app::event_draft::EventDraft;

fn strs(v: &[&str]) -> Vec<String> {
    v.iter().map(|s| s.to_string()).collect()
}

#[test]
fn notes_pane_folds_and_visibility() {
    let mut n = NotesEditor::new(false, "never");
    assert_eq!(n.visibility.get(), "Never show");
    assert!(n.is_expanded());
    n.force_collapsed(true);
    assert!(!n.is_expanded());
    // a click on the header flips the fold and lifts the forced one
    assert!(n.toggle_collapsed());
    assert!(!n.forced_collapsed);
    assert!(!n.is_expanded());
    assert!(!n.toggle_collapsed());
    assert!(n.is_expanded());
    n.set_collapsed(true);
    assert!(!n.is_expanded());
    assert_eq!(n.pick_visibility("Show at all times"), "always");
    assert_eq!(n.pick_visibility("no such option"), "always");
    n.load_event(Some("  remember the Nugget  "), "when_space_allows");
    assert_eq!(n.visibility.get(), "Show when space allows");
    assert!(matches!(n.get_event(), EventDraft::Notes(t) if t == "remember the Nugget"));
    n.load_event(None, "always");
    assert!(matches!(n.get_event(), EventDraft::Notes(t) if t.is_empty()));
    assert_eq!(notes_options().len(), 3);
}

#[test]
fn bag_reorder_by_drag_and_chevrons() {
    let rows = vec![("Potion".to_string(), 1), ("Ether".to_string(), 2), ("Nugget".to_string(), 1)];
    let mut e = BagReorderEditor::load_event(strs(&["Potion", "Ether", "Nugget"]), rows, true);
    assert!(matches!(e.get_event(), EventDraft::BagReorder(None)));
    // dropping a row on itself changes nothing
    assert!(!e.drop_row(1, 1));
    assert!(!e.modified && e.stale);
    assert!(e.drop_row(0, 3));
    assert!(e.modified && !e.stale);
    assert_eq!(e.order.iter().map(|r| r.0.as_str()).collect::<Vec<_>>(), vec!["Ether", "Nugget", "Potion"]);
    e.nudge(2, true);
    assert_eq!(e.order.iter().map(|r| r.0.as_str()).collect::<Vec<_>>(), vec!["Ether", "Potion", "Nugget"]);
    e.nudge(0, false);
    assert!(matches!(e.get_event(), EventDraft::BagReorder(Some(v)) if v == strs(&["Potion", "Ether", "Nugget"])));
}

#[test]
fn ev_override_fields() {
    let before = Some([1, 2, 3, 4, 5, 6]);
    let mut e = EvOverrideEditor::load_event(true, before, Some([10, 20, 30, 40, 50, 60]));
    assert_eq!(e.values, strs(&["10", "20", "30", "40", "50", "60"]));
    // gen 1 and 2: Sp. Def copies Special
    assert_eq!(e.parsed(), Ok([10, 20, 30, 40, 40, 60]));
    assert!(e.use_current());
    assert_eq!(e.values, strs(&["1", "2", "3", "4", "5", "6"]));
    e.values[2] = "x".to_string();
    e.values[4] = "y".to_string();
    assert_eq!(e.parsed(), Err("invalid literal for int() with base 10: 'x'".to_string()));
    let mut none = EvOverrideEditor::load_event(false, None, None);
    assert_eq!(none.values, strs(&["0", "0", "0", "0", "0", "0"]));
    assert!(!none.use_current());
    assert!(amount_ready(" 3 "));
    assert!(!amount_ready("0"));
    assert!(!amount_ready("three"));
}
