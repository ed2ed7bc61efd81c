use xpr_app::editors::{
    ev_field_indices, notes_mode_for_option, notes_option_for_mode, notes_options, parse_field, slot_destination,
    slot_template, EditorOutput,
};
use xpr_app::event_kind::{toggle_order, tooltip_with_key, EventKind, FilterBar};
use xpr_app::keynav::{step_focus_index, step_selection};
use xpr_app::list_controls::{list_key, number_cell, quantity_of, row_shade, toggle_group, toggled_enabled, ListKey, RowShade};
use xpr_app::map_finder::{find, less_than, PlacedObject};
use xpr_app::map_tools::{div_ceil, div_floor, measurement_text};
use xpr_app::map_view::{ItemHit, ObjectKind, Toggles};
use xpr_app::mon_order::reorder_mons;
use xpr_app::names::{filter_names, first_free_name, with_sentinel};
use xpr_app::option_menu::OptionMenu;
use xpr_app::pp_ledger::{banner_messages, fmt_pp, history};
use xpr_app::pp_walk::{group_fight_spends, restore_times, GroupStep, PpAmount, PpItemEffect, PpSlots};
use xpr_app::screenshot::{ScreenshotMode, ShotKind};
use xpr_app::text::{i64_text, invalid_int_error, parse_i64, trim};

fn strs(v: &[&str]) -> Vec<String> {
    v.iter().map(|s| s.to_string()).collect()
}

#[test]
fn numbers_to_text_and_back() {
    assert_eq!(i64_text(-42), "-42");
    assert_eq!(i64_text(i64::MIN), "-9223372036854775808");
    assert_eq!(i64_text(0), "0");
    assert_eq!(parse_i64("17"), Some(17));
    assert_eq!(parse_i64("-3"), Some(-3));
    assert_eq!(parse_i64("1x"), None);
    assert_eq!(parse_i64(""), None);
    assert_eq!(trim("  a b \t"), "a b");
    assert_eq!(invalid_int_error("x1"), "invalid literal for int() with base 10: 'x1'");
    assert_eq!(fmt_pp(-5), "\u{2212}5");
    assert_eq!(fmt_pp(12), "12");
}

#[test]
fn option_menu_accepts_only_its_options() {
    let mut m = OptionMenu::new(strs(&["a", "b", "c"]), Some("b"));
    assert_eq!(m.get(), "b");
    assert_eq!(m.index(), Some(1));
    m.set("z");
    assert_eq!(m.get(), "b");
    m.set("c");
    assert_eq!(m.get(), "c");
    // the same list keeps the selection; a new list without the default takes the first
    m.new_values(strs(&["a", "b", "c"]), None);
    assert_eq!(m.get(), "c");
    m.new_values(strs(&["x", "y"]), Some("q"));
    assert_eq!(m.get(), "x");
    m.new_values(Vec::new(), None);
    assert_eq!(m.get(), "");
    assert_eq!(m.index(), None);
}

#[test]
fn names_filter_case_insensitively() {
    let names = strs(&["Pikachu", "Raichu", "Pidgey"]);
    assert_eq!(filter_names(names.clone(), "  PI "), vec!["Pikachu", "Pidgey"]);
    assert_eq!(filter_names(names.clone(), ""), names);
    assert_eq!(with_sentinel(filter_names(names.clone(), "zz"), "No Match"), vec!["No Match"]);
    assert_eq!(first_free_name("Trip", " (", ")", &strs(&["Trip", "Trip (2)"])), "Trip (3)");
    assert_eq!(first_free_name("Trip", " (", ")", &Vec::new()), "Trip");
}

#[test]
fn editor_outputs_merge_as_a_join() {
    let mut a = EditorOutput::save();
    a.merge(EditorOutput::delayed());
    assert!(a.save && a.delayed_save && !a.show_on_map);
    let before = a;
    a.merge(before);
    assert_eq!(a, before);
}

#[test]
fn destination_entries_and_fields() {
    assert_eq!(slot_template(2, "Tackle"), "Move #2 (Over Tackle)");
    assert_eq!(slot_destination("Move #2 (Over Tackle)", "Don't learn"), Ok(Some(1)));
    assert_eq!(slot_destination("Don't learn", "Don't learn"), Ok(None));
    assert_eq!(
        slot_destination("Move (Over Tackle)", "Don't learn"),
        Err("Failed to extract slot destination from string 'Move (Over Tackle)'".to_string())
    );
    assert_eq!(ev_field_indices(true), vec![0, 1, 2, 3, 5]);
    assert_eq!(ev_field_indices(false).len(), 6);
    assert_eq!(parse_field(" 12 "), Ok(12));
    assert_eq!(parse_field("ab"), Err("invalid literal for int() with base 10: 'ab'".to_string()));
}

#[test]
fn notes_modes_round_trip() {
    let opts = notes_options();
    assert_eq!(opts, vec!["Show when space allows", "Show at all times", "Never show"]);
    for o in &opts {
        assert_eq!(notes_option_for_mode(notes_mode_for_option(o)), o.as_str());
    }
    assert_eq!(notes_mode_for_option("Never show"), "never");
}

#[test]
fn filter_toggles_flip_and_restore() {
    let mut active = vec![EventKind::Save];
    FilterBar::toggle_filter_type(&mut active, EventKind::Heal);
    assert_eq!(active, vec![EventKind::Save, EventKind::Heal]);
    FilterBar::toggle_filter_type(&mut active, EventKind::Save);
    assert_eq!(active, vec![EventKind::Heal]);
    FilterBar::toggle_filter_type(&mut active, EventKind::Save);
    FilterBar::toggle_filter_type(&mut active, EventKind::Save);
    assert_eq!(active, vec![EventKind::Heal]);
    assert!(toggle_order().len() > 0);
    assert_eq!(tooltip_with_key("Heal", "H"), "Heal (H)");
    assert_eq!(tooltip_with_key("Heal", ""), "Heal");
    let mut bar = FilterBar::new();
    bar.search_edited("brock".to_string(), 10);
    assert_eq!(bar.tick(309), None);
    assert_eq!(bar.tick(310), Some("brock".to_string()));
}

#[test]
fn mon_order_renumbers_the_others() {
    let opts = strs(&["1", "2", "3"]);
    let mut menus = vec![
        OptionMenu::new(opts.clone(), Some("1")),
        OptionMenu::new(opts.clone(), Some("2")),
        OptionMenu::new(opts.clone(), Some("3")),
    ];
    menus[2].set("1");
    reorder_mons(&mut menus, 3, 2);
    let got: Vec<String> = menus.iter().map(|m| m.get().to_string()).collect();
    assert_eq!(got, vec!["2", "3", "1"]);
}

#[test]
fn marker_steps_wrap_and_undo() {
    // (object, squared distance): nearest first, then by index
    let c = vec![(7u32, 4i64), (3u32, 1i64), (5u32, 4i64)];
    assert_eq!(step_selection(&c, None, true), Some(3));
    assert_eq!(step_selection(&c, Some(3), true), Some(5));
    assert_eq!(step_selection(&c, Some(5), true), Some(7));
    assert_eq!(step_selection(&c, Some(7), true), Some(3));
    assert_eq!(step_selection(&c, Some(3), false), Some(7));
    // a step forward then back returns
    let f = step_selection(&c, Some(5), true);
    assert_eq!(step_selection(&c, f, false), Some(5));
    assert_eq!(step_selection(&Vec::new(), Some(1), true), None);
    assert_eq!(step_focus_index(0, 3, false), 2);
    assert_eq!(step_focus_index(2, 3, true), 0);
}

#[test]
fn pp_restores_clamp_at_the_maximum() {
    assert_eq!(restore_times(2, 20, PpAmount::Points(10), 1), 12);
    assert_eq!(restore_times(2, 20, PpAmount::Points(10), 3), 20);
    assert_eq!(restore_times(-4, 20, PpAmount::Full, 1), 20);
    assert_eq!(restore_times(5, 20, PpAmount::Points(3), 0), 5);
}

#[test]
fn list_controls() {
    assert_eq!(list_key(true, true, [true; 5], true), ListKey::Nothing);
    assert_eq!(list_key(false, true, [true; 5], true), ListKey::InsertInline);
    assert_eq!(list_key(false, false, [false, false, true, true, false], false), ListKey::QuickAdd(2));
    assert_eq!(list_key(false, false, [false; 5], true), ListKey::Arrows);
    let mut open = vec![1, 2, 3];
    toggle_group(&mut open, 2, true);
    assert!(!open.contains(&2) && open.contains(&1) && open.contains(&3));
    toggle_group(&mut open, 9, false);
    assert!(open.contains(&9));
    assert_eq!(row_shade(true, true, Some(1)), RowShade::AccentLight);
    assert_eq!(row_shade(false, true, Some(1)), RowShade::HighlightLight(1));
    assert_eq!(row_shade(false, false, None), RowShade::Plain);
    assert_eq!(quantity_of(None, Some(3), Some(4)), Some(3));
    assert_eq!(number_cell(Some(-7)), "-7");
    assert_eq!(number_cell(None), "");
    assert!(toggled_enabled(None));
    assert!(!toggled_enabled(Some(true)));
}

#[test]
fn map_arithmetic_and_readouts() {
    assert_eq!(div_floor(-7, 2), -4);
    assert_eq!(div_ceil(-7, 2), -3);
    assert_eq!(div_floor(7, 2), 3);
    assert_eq!(div_ceil(7, 2), 4);
    assert_eq!(measurement_text((0, 0), (32, -48), 16), "Δ 2 × 3 · 5 steps");
    assert!(less_than("Abc", "abc"));
    assert!(!less_than("b", "ab"));
}

#[test]
fn item_finder_counts_and_orders() {
    let ball = |n: &str| PlacedObject { kind: ObjectKind::Item, item: Some(n.to_string()), fake: false };
    let hidden = |n: &str| PlacedObject { kind: ObjectKind::HiddenItem, item: Some(n.to_string()), fake: false };
    let objs = vec![ball("Potion"), hidden("Ether"), ball("ether"), hidden("Potion"), ball("Potion"),
        PlacedObject { kind: ObjectKind::Item, item: Some("Potion".to_string()), fake: true }];
    let hits = find(&objs, "");
    let lines: Vec<(String, usize, usize)> = hits.iter().map(|h| (h.name.clone(), h.balls, h.hidden)).collect();
    assert_eq!(lines, vec![("Ether".to_string(), 0, 1), ("ether".to_string(), 1, 0), ("Potion".to_string(), 2, 1)]);
    assert_eq!(hits[2].counts(), "2 balls · 1 hidden");
    assert_eq!(ItemHit { name: "x".to_string(), balls: 1, hidden: 0 }.counts(), "1 ball");
    assert_eq!(ItemHit { name: "x".to_string(), balls: 0, hidden: 2 }.counts(), "2 hidden");
    assert_eq!(find(&objs, " POT ").len(), 1);
}

#[test]
fn toggles_round_trip_and_screenshot_names() {
    let t = Toggles { grid: true, npcs: true, follow: true, ..Toggles::default() };
    let saved = t.to_saved();
    assert_eq!(Toggles::from_saved(saved.map(Some)), t);
    assert_eq!(Toggles::from_saved([None; 13]), Toggles::default());
    assert_eq!(ShotKind::Matchup { idx: 0, mode: ScreenshotMode::Enemy }.image_name(), "matchup_1_enemy_ranges");
    assert_eq!(ShotKind::Matchup { idx: 4, mode: ScreenshotMode::Full }.image_name(), "matchup_5");
    assert_eq!(ShotKind::EventList.image_name(), "event_list");
}

#[test]
fn pp_walk_through_a_short_route() {
    let moves = vec![Some("Tackle".to_string()), Some("Growl".to_string()), None, None];
    let maxes = vec![35, 40, 0, 0];
    let mut w = PpSlots::new();
    w.start(&moves, &maxes);
    w.pay(0, 30, "Brock (Tackle, 30 hits)".to_string());
    w.pay(1, 0, "nothing".to_string());
    let (snap, window) = w.record(&maxes, &vec![0, 0, 0, 0]);
    assert_eq!(snap.slots[0].as_ref().map(|s| s.cur), Some(5));
    assert_eq!(snap.slots[1].as_ref().map(|s| s.cur), Some(40));
    assert!(snap.slots[2].is_none());
    let lines = history(&w.logs, Some(&window), 0);
    assert_eq!(lines.len(), 2);
    assert_eq!(lines[0].amount, None);
    assert_eq!(lines[0].text, "Full at the start of the route");
    assert_eq!(lines[1].amount, Some(-30));
    assert_eq!(history(&w.logs, Some(&window), 1).len(), 1);
    assert_eq!(history(&w.logs, None, 0).len(), 0);

    let msgs = banner_messages(&snap, Some([10, 0, 0, 0]), false, &vec!["a note".to_string()]);
    assert_eq!(msgs, vec!["This fight needs Tackle ×10, but it has 5 PP left".to_string(), "a note".to_string()]);

    // an Ether restores 10 of one move, up to its maximum
    let mut notes: Vec<String> = Vec::new();
    w.use_pp_item(PpItemEffect::RestoreOne(PpAmount::Points(10)), Some(0), &maxes, "Ether", 1, &mut notes);
    let (snap, _) = w.record(&maxes, &vec![0, 0, 0, 0]);
    assert_eq!(snap.slots[0].as_ref().map(|s| s.cur), Some(15));
    assert!(notes.is_empty());
    // an Elixir on a full move is refused by the game
    w.use_pp_item(PpItemEffect::RestoreOne(PpAmount::Full), Some(1), &maxes, "Max Ether", 1, &mut notes);
    assert_eq!(notes, vec!["Growl was already full; the game would refuse this Max Ether".to_string()]);
    // a heal fills everything and starts new windows
    w.refill(&maxes, "Pewter Center");
    let (snap, window) = w.record(&maxes, &vec![0, 0, 0, 0]);
    assert_eq!(snap.slots[0].as_ref().map(|s| s.cur), Some(35));
    let lines = history(&w.logs, Some(&window), 0);
    assert_eq!(lines.len(), 1);
    assert_eq!(lines[0].text, "Full at Pewter Center");
}

#[test]
fn every_shot_kind_has_its_own_image_name() {
    let mut kinds = vec![
        ShotKind::EventList,
        ShotKind::BattleSummary,
        ShotKind::PlayerRanges,
        ShotKind::EnemyRanges,
        ShotKind::RunSummary,
        ShotKind::SetupSummary,
        ShotKind::Compare,
    ];
    for idx in [0usize, 1, 9, 10, 11] {
        for mode in [ScreenshotMode::Full, ScreenshotMode::Player, ScreenshotMode::Enemy] {
            kinds.push(ShotKind::Matchup { idx, mode });
        }
    }
    let names: Vec<String> = kinds.iter().map(|k| k.image_name()).collect();
    for i in 0..names.len() {
        for j in (i + 1)..names.len() {
            assert_ne!(names[i], names[j]);
        }
    }
}

#[test]
fn group_fights_take_the_spends_in_order() {
    let step = |id: u64, has_state: bool, enabled: bool, is_fight: bool| GroupStep { id, has_state, enabled, is_fight };
    let steps = vec![
        step(1, true, true, true),
        step(2, true, false, true),
        step(3, true, true, false),
        step(4, false, true, true),
        step(5, true, true, true),
        step(6, true, true, true),
    ];
    let spends = vec![[3, 0, 1, 0], [2, 2, 0, 0]];
    let (per_item, total) = group_fight_spends(&steps, &spends);
    assert_eq!(
        per_item,
        vec![Some(Some([3, 0, 1, 0])), None, None, None, Some(Some([2, 2, 0, 0])), Some(None)]
    );
    assert_eq!(total, Some([5, 2, 1, 0]));
    let (per_item, total) = group_fight_spends(&vec![step(7, true, true, false)], &spends);
    assert_eq!(per_item, vec![None]);
    assert_eq!(total, None);
}
