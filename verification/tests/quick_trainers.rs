use xpr_app::editors::MenuWords;
use xpr_app::event_draft::EventDraft;
use xpr_app::quick_add::QuickTrainerAdd;

fn words() -> MenuWords {
    MenuWords {
        no_item: "None".to_string(),
        no_trainers: "No Valid Trainers".to_string(),
        all_trainers: "All Trainers".to_string(),
        delete_move: "Delete Move".to_string(),
        dont_learn: "Don't Learn".to_string(),
        no_pokemon: "No Pokemon".to_string(),
        source_levelup: "LevelUp".to_string(),
        source_tutor: "Move Tutor".to_string(),
        source_tm_hm: "TM/HM".to_string(),
        rare_candy: "Rare Candy".to_string(),
        pp_target_none: "(none)".to_string(),
    }
}

fn strs(v: &[&str]) -> Vec<String> {
    v.iter().map(|s| s.to_string()).collect()
}

#[test]
fn quick_trainer_page() {
    let w = words();
    let mut q = QuickTrainerAdd::new(&w);
    assert_eq!(q.get_trainer_name(), "No Valid Trainers");
    assert_eq!(q.buttons(true, true, &w), (false, false, false));
    assert_eq!(q.preview(&w), None);
    q.update_pkmn_version(strs(&["Route 3", "Mt. Moon"]), strs(&["Lass", "Hiker"]), &w);
    assert_eq!(q.loc.get(), "All Trainers");
    q.trainers_found(strs(&["(12.5) Lass Janice", "(9.1) Hiker Marcos"]), &w);
    assert_eq!(q.get_trainer_name(), "Lass Janice");
    assert_eq!(q.preview(&w), Some("Lass Janice".to_string()));
    // Add Area needs a location
    assert_eq!(q.buttons(true, false, &w), (true, false, false));
    assert_eq!(q.buttons(false, true, &w), (false, false, false));
    assert!(matches!(q.single_fight(false, 3), EventDraft::Trainer(d) if d.trainer_name == "Lass Janice" && d.exp_split.is_empty()));
    assert!(matches!(q.single_fight(true, 2), EventDraft::Trainer(d) if d.exp_split == vec![2, 2]));
    assert!(q.multi_fight(2).is_none());

    // pick Janice as the partner of a multi battle on Route 3
    assert!(!q.set_multi_setup_mode(true, false, Some("Route 3"), &w));
    assert!(q.set_multi_setup_mode(true, true, Some("Route 3"), &w));
    assert_eq!(q.loc.get(), "Route 3");
    assert_eq!(q.excluded_trainers(strs(&["Brock"])), strs(&["Brock", "Lass Janice"]));
    assert_eq!(q.buttons(true, true, &w), (true, false, true));
    q.trainers_found(strs(&["(3.0) Hiker Marcos"]), &w);
    match q.multi_fight(4) {
        Some(EventDraft::Trainer(d)) => {
            assert_eq!(d.trainer_name, "Lass Janice");
            assert_eq!(d.second_trainer, "Hiker Marcos");
            assert_eq!(d.exp_split, vec![2, 2, 2, 2]);
        }
        _ => panic!("a multi battle was expected"),
    }
    assert!(!q.set_multi_setup_mode(false, true, None, &w));
    assert_eq!(q.excluded_trainers(Vec::new()), Vec::<String>::new());
    q.trainers_found(Vec::new(), &w);
    assert_eq!(q.get_trainer_name(), "No Valid Trainers");
}
