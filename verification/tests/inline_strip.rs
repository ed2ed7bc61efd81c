use xpr_app::editors::MenuWords;
use xpr_app::event_draft::{EventDraft, TrainerDraft};
use xpr_app::event_kind::EventKind;
use xpr_app::inline_creator::{BuildFacts, InlineEventCreator, InlineKind, LoadFacts, Refresh, StripEnd};

fn words() -> MenuWords {
    MenuWords {
        no_item: "None".to_string(),
        no_trainers: "No Valid Trainers".to_string(),
        all_trainers: "All Trainers".to_string(),
        delete_move: "Delete Move".to_string(),
        dont_learn: "Don't Learn".to_string(),
        no_pokemon: "No Pokemon".to_string(),
        source_levelup: "LevelUp".to_string(),
        source_tutor: "Move Tutor".to_string(),
        source_tm_hm: "TM/HM".to_string(),
        rare_candy: "Rare Candy".to_string(),
        pp_target_none: "(none)".to_string(),
    }
}

fn strs(v: &[&str]) -> Vec<String> {
    v.iter().map(|s| s.to_string()).collect()
}

fn strip() -> InlineEventCreator {
    InlineEventCreator::new(
        Some(7),
        None,
        None,
        strs(&["All Trainers", "Route 3", "Mt. Moon"]),
        strs(&["All Trainers", "Lass", "Hiker"]),
        strs(&["HP Up", "Protein"]),
        strs(&["Pidgey", "Rattata"]),
        strs(&["Tackle", "Growl"]),
        strs(&["Potion", "Antidote"]),
        "None",
    )
}

fn no_facts() -> LoadFacts {
    LoadFacts {
        machines: Vec::new(),
        trainer_location: None,
        trainers: Vec::new(),
        item_needs_target: false,
        moves: None,
        engine_slot: None,
    }
}

fn build_facts() -> BuildFacts {
    BuildFacts { item_is_vitamin: false, tm_move: None, species: "Pidgey".to_string(), stat_xp: None }
}

#[test]
fn loading_a_rare_candy_builds_it_back() {
    let w = words();
    let mut s = strip();
    s.load_event(EventKind::RareCandy, &EventDraft::RareCandy(7), &no_facts(), &w);
    assert_eq!(s.type_key, Some(InlineKind::RareCandy));
    assert_eq!(s.cfg.qty, "7");
    match s.build(&w, &build_facts()) {
        Ok(Some(EventDraft::RareCandy(n))) => assert_eq!(n, 7),
        _ => panic!("a rare candy event was expected"),
    }
}

#[test]
fn loading_a_note_then_changing_type_clears_it() {
    let w = words();
    let mut s = strip();
    s.load_event(EventKind::NotesOnly, &EventDraft::Notes("grind here".to_string()), &no_facts(), &w);
    assert_eq!(s.type_key, Some(InlineKind::Notes));
    assert_eq!(s.cfg.note, "grind here");
    // the same type again changes nothing
    assert_eq!(s.set_type(InlineKind::Notes, Vec::new(), &w), Refresh::Nothing);
    assert_eq!(s.cfg.note, "grind here");
    // another type starts from its own defaults
    assert_eq!(s.set_type(InlineKind::Save, Vec::new(), &w), Refresh::Nothing);
    assert_eq!(s.cfg.note, "");
    assert!(!s.cfg.pp_tossed);
    assert_eq!(s.set_type(InlineKind::Notes, Vec::new(), &w), Refresh::Nothing);
    assert_eq!(s.cfg.note, "");
}

#[test]
fn set_type_gives_each_type_its_defaults() {
    let w = words();
    let mut s = strip();
    assert_eq!(s.set_type(InlineKind::Trainer, Vec::new(), &w), Refresh::Trainers);
    assert_eq!(s.cfg.loc, "All Trainers");
    assert_eq!(s.cfg.cls, "All Trainers");
    assert_eq!(s.set_type(InlineKind::UseItem, Vec::new(), &w), Refresh::PpMoves);
    assert_eq!(s.cfg.loc, "");
    assert_eq!(s.cfg.item, "Potion");
    assert_eq!(s.cfg.qty, "1");
    assert_eq!(s.set_type(InlineKind::WildPkmn, Vec::new(), &w), Refresh::Nothing);
    assert_eq!(s.cfg.item, "");
    assert_eq!(s.cfg.pkmn, "Pidgey");
    assert_eq!(s.cfg.level, "5");
    assert_eq!(s.set_type(InlineKind::TmMove, Vec::new(), &w), Refresh::Destination);
    assert_eq!(s.cfg.tms, strs(&["None"]));
    assert_eq!(s.cfg.tm, "None");
    assert_eq!(s.cfg.pkmn, "");
    assert_eq!(s.insert_after_id, Some(7));
}

#[test]
fn loading_a_trainer_picks_its_location_and_name() {
    let w = words();
    let mut s = strip();
    let facts = LoadFacts {
        machines: Vec::new(),
        trainer_location: Some("Route 3".to_string()),
        trainers: strs(&["Lass Janice", "Lass Sally"]),
        item_needs_target: false,
        moves: None,
        engine_slot: None,
    };
    let draft = EventDraft::Trainer(TrainerDraft {
        trainer_name: "Lass Sally".to_string(),
        second_trainer: String::new(),
        exp_split: Vec::new(),
        mon_order: Vec::new(),
        pay_day_amount: None,
        thief_mons: Vec::new(),
    });
    s.load_event(EventKind::TrainerBattle, &draft, &facts, &w);
    assert_eq!(s.type_key, Some(InlineKind::Trainer));
    assert_eq!(s.cfg.loc, "Route 3");
    assert_eq!(s.cfg.cls, "All Trainers");
    assert_eq!(s.cfg.trainers, strs(&["Lass Janice", "Lass Sally"]));
    assert_eq!(s.cfg.trainer, "Lass Sally");
}

#[test]
fn an_event_the_strip_cannot_edit_leaves_it() {
    let w = words();
    let mut s = strip();
    s.load_event(EventKind::MajorBattleFilter, &EventDraft::Empty, &no_facts(), &w);
    assert_eq!(s.type_key, None);
    assert_eq!(s.cfg.note, "");
}

#[test]
fn type_menu_buttons_and_frame_end() {
    let w = words();
    let mut s = strip();
    let menu = s.type_menu(false);
    assert_eq!(menu.len(), 17);
    assert!(!menu.contains(&"Reorder Bag".to_string()));
    assert_eq!(menu[0], "Fight Trainer");
    assert_eq!(menu[6], "Wild Pkmn");
    assert_eq!(s.type_menu(true)[6], "Reorder Bag");
    assert_eq!(s.create_label(), "Create");
    s.set_type(InlineKind::Trainer, Vec::new(), &w);
    assert!(!s.shows_add_all(&w));
    s.load_trainer_location("Route 3");
    assert!(s.shows_add_all(&w));
    assert_eq!(
        s.end_frame(false, true, false, false, &w),
        StripEnd { create: false, add_area: Some("Route 3".to_string()), discarded: true }
    );
    assert_eq!(s.end_frame(true, false, false, true, &w), StripEnd { create: true, add_area: None, discarded: true });
    s.set_type(InlineKind::ReorderBag, Vec::new(), &w);
    assert_eq!(s.type_menu(false).len(), 18);
    assert_eq!(s.end_frame(true, false, false, false, &w), StripEnd { create: true, add_area: None, discarded: false });
    let edit = InlineEventCreator::new(None, None, Some(3), Vec::new(), Vec::new(), Vec::new(), Vec::new(), Vec::new(), Vec::new(), "None");
    assert_eq!(edit.create_label(), "Confirm");
}
