use xpr_app::event_kind::{icon_file, short_label, shortcut_id, EventKind};
use xpr_app::map_view::{default_region, is_region_available, region_label, ExportRegion, ItemSearch};
use xpr_app::atlas::{ShelfPacker, Slot};
use xpr_app::map_cards::{
    card_header, encounter_notice, fight_buttons, is_water_method, item_notes, level_label, map_summary, method_heading,
    routed_event, shows_method, tile_title, trainer_subtitle, unfought_count, CardSubject, ItemSpot,
};
use xpr_app::map_state::RouteMapState;

fn header(subject: CardSubject) -> (String, String) {
    card_header(&subject, "Route 3")
}

#[test]
fn object_card_headers() {
    assert_eq!(
        header(CardSubject::UnknownTrainer { raw: Some("OPP_YOUNGSTER".to_string()) }),
        ("Trainer".to_string(), "Route 3 · no router trainer for OPP_YOUNGSTER".to_string())
    );
    assert_eq!(header(CardSubject::Npc { label: None }), ("NPC".to_string(), "Route 3".to_string()));
    assert_eq!(header(CardSubject::Npc { label: Some("Nurse".to_string()) }).0, "Nurse");
    assert_eq!(
        header(CardSubject::Item { spot: ItemSpot::Hidden, name: Some("Ether".to_string()), raw: None, fake: false }),
        ("Ether".to_string(), "Route 3".to_string())
    );
    assert_eq!(
        header(CardSubject::Item { spot: ItemSpot::Berry, name: None, raw: Some("ITEM_X".to_string()), fake: false }),
        ("Berry tree".to_string(), "Route 3 · unknown item ITEM_X".to_string())
    );
    assert_eq!(
        header(CardSubject::Item { spot: ItemSpot::Ball, name: None, raw: None, fake: true }),
        ("Item".to_string(), "Route 3 · not a bag item (a Pokémon or a decoy)".to_string())
    );
    assert_eq!(header(CardSubject::Sign), ("Sign".to_string(), "Route 3".to_string()));
    assert_eq!(
        header(CardSubject::Warp { dest: Some("Mt. Moon".to_string()), warp: Some(2) }),
        ("Warp".to_string(), "Route 3 → Mt. Moon (warp 2)".to_string())
    );
    assert_eq!(header(CardSubject::Warp { dest: None, warp: None }).1, "Route 3 → ?");
    assert_eq!(header(CardSubject::Other).0, "Object");
    assert_eq!(item_notes(true, true), vec!["Already picked up in this route", "Use the Itemfinder to locate it in-game"]);
    assert!(item_notes(false, false).is_empty());
}

#[test]
fn trainer_cards() {
    assert_eq!(trainer_subtitle(Some(("Youngster", "Route 3", 160, false)), false, "Route 3"), "Youngster · Route 3 · ¥160");
    assert_eq!(trainer_subtitle(Some(("Twins", "", 320, true)), false, "Route 3"), "Twins · ¥320 · Double");
    assert_eq!(trainer_subtitle(Some(("Lass", "Route 3", 5, false)), true, "x"), "Lass · Route 3 · ¥5 · Double");
    assert_eq!(trainer_subtitle(None, true, "Route 3"), "Route 3");
    let names = vec!["Rival 1".to_string(), "Rival 2".to_string()];
    assert_eq!(fight_buttons(&names), vec!["Add Rival 1".to_string(), "Add Rival 2".to_string()]);
    assert_eq!(fight_buttons(&vec!["Brock".to_string()]), vec!["Add to route".to_string()]);
    assert_eq!(routed_event(&vec![None, Some(7), Some(9)]), Some(7));
    assert_eq!(routed_event(&vec![None]), None);
}

#[test]
fn step_and_map_cards() {
    assert_eq!(tile_title(true, true, "Route 4"), "Water — Route 4");
    assert_eq!(tile_title(false, true, "Route 4"), "Tall grass — Route 4");
    assert_eq!(tile_title(false, false, "Route 4"), "Wild Pokémon — Route 4");
    let state = RouteMapState { defeated: vec!["Brock".to_string()], acquired: Vec::new() };
    let names = vec!["Brock".to_string(), "Jr. Trainer".to_string(), "Brock".to_string()];
    assert_eq!(unfought_count(&names, &state), 1);
    assert_eq!(map_summary(3, 1, 2), "3 trainers (1 not yet fought) · 2 items");
}

#[test]
fn encounter_tables() {
    assert!(is_water_method("surf"));
    assert!(is_water_method("super_rod_morning"));
    assert!(!is_water_method("walk"));
    assert!(shows_method("walk", false, true));
    assert!(!shows_method("walk", true, true));
    assert!(shows_method("old_rod", false, false));
    assert_eq!(method_heading("old_rod", Some(25)), "OLD ROD  ·  rate 25");
    assert_eq!(method_heading("walk", None), "WALK");
    assert_eq!(level_label(5, 5), "Lv.5");
    assert_eq!(level_label(3, 5), "Lv.3-5");
    assert_eq!(encounter_notice(false, false), Some("No wild Pokémon here"));
    assert_eq!(encounter_notice(true, false), Some("No wild Pokémon for this terrain"));
    assert_eq!(encounter_notice(true, true), None);
}

#[test]
fn atlas_shelf_packing() {
    let mut a = ShelfPacker::new();
    assert_eq!(a.place(0, 5), None);
    assert_eq!(a.place(1023, 5), None);
    assert_eq!(a.place(16, 16), Some(Slot { page: 0, x: 0, y: 0 }));
    assert_eq!(a.place(16, 16), Some(Slot { page: 0, x: 17, y: 0 }));
    // another height opens a shelf below
    assert_eq!(a.place(8, 8), Some(Slot { page: 0, x: 0, y: 17 }));
    // back on the first shelf of its height
    assert_eq!(a.place(16, 16), Some(Slot { page: 0, x: 34, y: 0 }));
    assert_eq!(a.place(8, 8), Some(Slot { page: 0, x: 9, y: 17 }));
    // too tall for what is left of the first page: a new page
    assert_eq!(a.place(1022, 1022), Some(Slot { page: 1, x: 0, y: 0 }));
    // the first page still has room below
    assert_eq!(a.place(1022, 10), Some(Slot { page: 0, x: 0, y: 26 }));
    assert_eq!(a.pages.len(), 2);
    assert_eq!(a.pages[0].next_y, 37);
    // a full shelf row sends the frame to a new shelf
    assert_eq!(a.place(1022, 10), Some(Slot { page: 0, x: 0, y: 37 }));
}

#[test]
fn export_regions_and_item_search_popup() {
    use_regions();
}

fn use_regions() {
    assert_eq!(region_label(ExportRegion::ThisMap), "This Map");
    assert_eq!(region_label(ExportRegion::World), "Whole World");
    assert!(is_region_available(false, false, ExportRegion::View));
    assert!(!is_region_available(false, true, ExportRegion::Selection));
    assert!(is_region_available(true, false, ExportRegion::Selection));
    assert!(!is_region_available(true, false, ExportRegion::ThisMap));
    assert_eq!(default_region(true), ExportRegion::Selection);
    assert_eq!(default_region(false), ExportRegion::View);
    let mut s = ItemSearch::new();
    s.open = true;
    s.after_frame(false, false, false);
    assert!(s.open);
    s.after_frame(false, true, false);
    assert!(!s.open);
}

#[test]
fn filter_bar_labels() {
    assert_eq!(short_label(EventKind::TrainerBattle), "Tr");
    assert_eq!(short_label(EventKind::Blackout), "BO");
    assert_eq!(icon_file(EventKind::RareCandy), Some("TASK_RARE_CANDY"));
    assert_eq!(shortcut_id(EventKind::LearnMoveTm), Some("filter_tm_hm"));
}
