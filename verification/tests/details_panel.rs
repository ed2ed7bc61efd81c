use xpr_app::details::{
    allows_updates, battle_node, before_info, tab_titles, team_source, warnings_of, DetailsPanel, NodeKind, TeamSource,
    BATTLE_SUMMARY_TAB, MAP_TAB, PRE_STATE_TAB,
};
use xpr_app::editors::NotesEditor;

fn panel(auto_switch: bool) -> DetailsPanel {
    DetailsPanel::new(auto_switch, NotesEditor::new(false, "space"))
}

#[test]
fn set_tab_reports_changes_and_folds_notes() {
    let mut p = panel(true);
    assert_eq!(p.set_tab(PRE_STATE_TAB, false, 0), None);
    assert_eq!(p.set_tab(BATTLE_SUMMARY_TAB, false, 100), Some(true));
    assert!(p.is_battle_tab());
    assert_eq!(p.reveal_at, Some(400));
    assert!(p.notes.forced_collapsed);
    assert_eq!(p.set_tab(MAP_TAB, false, 200), Some(false));
    assert!(p.is_map_tab());
    assert!(!p.notes.forced_collapsed);
    // notes kept visible in the summary by the settings
    assert_eq!(p.set_tab(BATTLE_SUMMARY_TAB, true, 300), Some(true));
    assert!(!p.notes.forced_collapsed);
}

#[test]
fn change_tabs_flips_between_state_and_summary() {
    let mut p = panel(false);
    assert!(p.change_tabs(false, 0));
    assert_eq!(p.tab, BATTLE_SUMMARY_TAB);
    assert!(!p.change_tabs(false, 0));
    assert_eq!(p.tab, PRE_STATE_TAB);
}

#[test]
fn selection_picks_the_tab() {
    // auto-switch: a battle opens the summary, anything else the state tab
    let mut p = panel(true);
    assert_eq!(p.select_event(false, Some(true), false, 10), Some(true));
    assert_eq!(p.tab, BATTLE_SUMMARY_TAB);
    assert_eq!(p.select_event(false, Some(false), false, 20), Some(false));
    assert_eq!(p.tab, PRE_STATE_TAB);
    // a folder or no selection leaves the tab alone
    assert_eq!(p.select_event(false, None, false, 30), None);
    // while recording the summary opens first and stays for a non-battle
    assert_eq!(p.select_event(true, Some(false), false, 40), Some(true));
    assert_eq!(p.tab, BATTLE_SUMMARY_TAB);
    // the map tab stays put
    let mut m = panel(true);
    m.set_tab(MAP_TAB, false, 0);
    assert_eq!(m.select_event(true, Some(true), false, 50), None);
    assert_eq!(m.tab, MAP_TAB);
    // without auto-switch only record mode moves the tab
    let mut q = panel(false);
    assert_eq!(q.select_event(false, Some(true), false, 0), None);
    assert_eq!(q.tab, PRE_STATE_TAB);
    // a suppressed summary forces the state tab
    let mut s = panel(true);
    s.set_tab(BATTLE_SUMMARY_TAB, false, 0);
    assert_eq!(s.set_suppress_battle_summary(true, false, 5), Some(false));
    assert_eq!(s.tab, PRE_STATE_TAB);
    assert_eq!(s.select_event(false, Some(true), false, 6), None);
    assert_eq!(s.tab, PRE_STATE_TAB);
}

#[test]
fn delayed_save_comes_due_after_the_delay() {
    let mut p = panel(true);
    assert!(!p.schedule_save(Some(7), 1000));
    assert_eq!(p.delayed_deadline, Some(3000));
    assert_eq!(p.next_wake(1500), Some(1500));
    assert_eq!(p.tick(2999, false), (None, false));
    assert_eq!(p.tick(3000, false), (Some(7), false));
    assert_eq!(p.delayed_event, None);
    assert_eq!(p.tick(9000, false), (None, false));
    // another event's pending edit is reported when replaced
    p.schedule_save(Some(1), 0);
    assert!(p.schedule_save(Some(2), 10));
    assert_eq!(p.force_and_clear(), Some(2));
    assert_eq!(p.force_and_clear(), None);
}

#[test]
fn summary_contents_show_after_the_reveal_delay() {
    let mut p = panel(true);
    p.set_tab(BATTLE_SUMMARY_TAB, false, 0);
    p.notes.force_collapsed(false);
    assert_eq!(p.tick(299, false), (None, false));
    assert_eq!(p.tick(300, false), (None, true));
    assert!(p.notes.forced_collapsed);
    assert_eq!(p.reveal_at, None);
}

#[test]
fn event_editing_and_battle_node() {
    assert!(allows_updates(true, false));
    assert!(allows_updates(false, true));
    assert!(!allows_updates(false, false));
    let mut p = panel(true);
    p.show_event(true, true);
    assert!(!p.allow_updates);
    assert!(p.notes.enabled);
    p.show_event(true, false);
    assert!(p.allow_updates);
    assert_eq!(battle_node(5, true, false, Some(2)), 2);
    assert_eq!(battle_node(5, true, true, Some(2)), 5);
    assert_eq!(battle_node(5, false, false, Some(2)), 5);
    assert_eq!(battle_node(5, true, false, None), 5);
    assert_eq!(tab_titles(true), vec!["Pre-Event State", "Battle Summary", "Map"]);
    assert_eq!(tab_titles(false).len(), 2);
}

#[test]
fn header_label_drops_prefix_and_location() {
    assert_eq!(
        before_info("Trainer: Brock (Pewter Gym)", true, Some("Pewter Gym"), Some("Trip 1".to_string())),
        ("Brock".to_string(), Some("Pewter Gym".to_string()))
    );
    assert_eq!(
        before_info("Multi: A, B (Route 3)", true, Some("Route 3"), None),
        ("A, B".to_string(), Some("Route 3".to_string()))
    );
    // a trainer without a location takes the enclosing folder
    assert_eq!(before_info("Trainer: Rival", true, Some(""), Some("Trip 2".to_string())), ("Rival".to_string(), Some("Trip 2".to_string())));
    assert_eq!(before_info("Rare Candy x2", false, None, Some("Trip 3".to_string())), ("Rare Candy x2".to_string(), Some("Trip 3".to_string())));
}

#[test]
fn battle_team_and_warnings_of_a_node() {
    assert_eq!(team_source(Some(NodeKind::Group), true, true, false, true, 0), TeamSource::FromEvent);
    assert_eq!(team_source(Some(NodeKind::Item), true, true, false, true, 0), TeamSource::FromState { wild: false });
    assert_eq!(team_source(Some(NodeKind::Item), true, true, false, false, 0), TeamSource::Empty);
    assert_eq!(team_source(Some(NodeKind::Item), true, false, true, true, 1), TeamSource::FromState { wild: true });
    assert_eq!(team_source(Some(NodeKind::Item), true, false, true, true, 0), TeamSource::Empty);
    assert_eq!(team_source(Some(NodeKind::Folder), false, true, false, true, 0), TeamSource::Empty);
    assert_eq!(team_source(None, true, true, true, true, 3), TeamSource::Empty);
    assert_eq!(team_source(Some(NodeKind::Group), true, false, false, true, 0), TeamSource::Empty);

    let g = vec!["a".to_string(), "b".to_string()];
    assert_eq!(warnings_of(Some(NodeKind::Group), g.clone(), None), g);
    assert_eq!(warnings_of(Some(NodeKind::Item), g.clone(), Some("c".to_string())), vec!["c".to_string()]);
    assert!(warnings_of(Some(NodeKind::Item), g.clone(), None).is_empty());
    assert!(warnings_of(Some(NodeKind::Folder), g, None).is_empty());
}
