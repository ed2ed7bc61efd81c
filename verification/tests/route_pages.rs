use xpr_app::new_route::{
    base_route_choices, base_route_for, game_info, game_order, game_row, game_rows, page_order, sort_names, BaseRoute,
    CustomGame, GameChoice, GameRow, GameVersion, NewRoutePage, OfficialGame, Platform, RecorderStatus, RouteWords,
};
use xpr_app::pages::RouteEntry;
use xpr_app::quick_start::{game_line, gamehook_line, QuickStartPhase, Tone};
use xpr_app::recorder_status::{gamehook_url, ClientStatus, ModeChange};
use xpr_app::route_index::RouteIndex;

fn entry(name: &str, version: &str, recency: u64) -> RouteEntry {
    RouteEntry { name: name.to_string(), version: version.to_string(), species: "Abra".to_string(), recency }
}

fn official() -> Vec<OfficialGame> {
    vec![
        OfficialGame { name: "Red".to_string(), version: GameVersion::Red },
        OfficialGame { name: "Blue".to_string(), version: GameVersion::Blue },
        OfficialGame { name: "Yellow".to_string(), version: GameVersion::Yellow },
        OfficialGame { name: "Platinum".to_string(), version: GameVersion::Platinum },
    ]
}

fn words() -> RouteWords {
    RouteWords { empty_route: "Empty Route".to_string(), preset_prefix: "PRESET: ".to_string(), no_pokemon: "No Match".to_string() }
}

#[test]
fn index_refresh_reads_changed_and_drops_vanished_routes() {
    let mut idx = RouteIndex::from_saved(vec![entry("a", "Red", 1), entry("b", "Blue", 2), entry("a", "Gold", 3)]);
    assert!(idx.loaded);
    // the later entry of a name wins
    assert_eq!(idx.get("a").map(|e| e.version.clone()), Some("Gold".to_string()));
    let listed = vec!["a".to_string(), "c".to_string()];
    let changed = idx.apply_refresh(&listed, vec![entry("c", "Yellow", 9)]);
    assert!(changed);
    assert!(idx.get("b").is_none());
    assert_eq!(idx.get("c").map(|e| e.recency), Some(9));
    assert_eq!(idx.get("a").map(|e| e.recency), Some(3));
    assert_eq!(idx.entries.len(), 2);
    // nothing read and nothing gone: unchanged
    assert!(!idx.apply_refresh(&listed, Vec::new()));
}

#[test]
fn most_recent_is_the_first_newest() {
    let mut idx = RouteIndex::new();
    assert_eq!(idx.most_recent(), None);
    idx.upsert(entry("x", "Red", 5));
    idx.upsert(entry("y", "Red", 8));
    idx.upsert(entry("z", "Red", 8));
    assert_eq!(idx.most_recent(), Some("y".to_string()));
    idx.upsert(entry("x", "Red", 9));
    assert_eq!(idx.most_recent(), Some("x".to_string()));
}

#[test]
fn official_games_carry_their_facts() {
    assert_eq!(game_info(GameVersion::Yellow), (1, Platform::GbGbc, RecorderStatus::Available));
    assert_eq!(game_info(GameVersion::Platinum), (4, Platform::Nds, RecorderStatus::InBeta));
    assert_eq!(game_info(GameVersion::Diamond), (4, Platform::Nds, RecorderStatus::Unavailable));
    assert_eq!(game_info(GameVersion::White2), (5, Platform::Nds, RecorderStatus::InAlpha));
    assert_eq!(page_order().len(), 20);
    assert_eq!(page_order()[2], GameVersion::Yellow);
    assert_eq!(Platform::GbGbc.label(), "GB/GBC");
    assert_eq!(RecorderStatus::InBeta.label(), "In Beta");
}

#[test]
fn game_table_lists_official_then_custom_by_name() {
    let all = vec!["zz hack".to_string(), "Yellow".to_string(), "Red".to_string(), "Alpha hack".to_string()];
    let order = game_order(&all, &official());
    assert_eq!(order, vec!["Red", "Yellow", "Alpha hack", "zz hack"]);
    let custom = vec![None, None, Some(CustomGame { generation: 1, base: Some("Yellow".to_string()) }), None];
    let rows: Vec<GameRow> = game_rows(&order, &official(), &custom);
    assert_eq!(rows[0].generation, Some(1));
    assert_eq!(rows[0].platform, Platform::GbGbc);
    assert_eq!(rows[2].platform, Platform::Custom);
    assert_eq!(rows[2].recorder, RecorderStatus::Available);
    assert_eq!(rows[2].generation_label(), "Generation 1");
    assert_eq!(rows[3].generation, None);
    assert_eq!(rows[3].platform, Platform::Unknown);
    assert_eq!(rows[3].generation_label(), "Unknown");
    let unknown_base = game_row(&official(), &"hack".to_string(), &Some(CustomGame { generation: 3, base: Some("Emerald".to_string()) }));
    assert_eq!(unknown_base.recorder, RecorderStatus::Unknown);
    assert_eq!(unknown_base.generation_label(), "Generation 3");
}

#[test]
fn names_sort_by_character() {
    let v = vec!["b".to_string(), "B".to_string(), "a".to_string(), "ab".to_string()];
    assert_eq!(sort_names(&v), vec!["B", "a", "ab", "b"]);
}

#[test]
fn base_routes_list_presets_then_saved_routes_of_the_game() {
    let presets = vec!["fast".to_string()];
    let entries = vec![entry("zed", "Red", 1), entry("Blue run", "Blue", 1), entry("alpha", "Red", 1)];
    let list = base_route_choices(&words(), &presets, &entries, &"Red".to_string());
    assert_eq!(list, vec!["Empty Route", "PRESET: fast", "alpha", "zed"]);
    assert!(matches!(base_route_for(&"Empty Route".to_string(), &words()), BaseRoute::Empty));
    match base_route_for(&"PRESET: fast".to_string(), &words()) {
        BaseRoute::Preset(p) => assert_eq!(p, "fast"),
        _ => panic!("a preset"),
    }
    match base_route_for(&"zed".to_string(), &words()) {
        BaseRoute::Saved(p) => assert_eq!(p, "zed"),
        _ => panic!("a saved route"),
    }
}

#[test]
fn choosing_a_game_reports_missing_data_and_generation_changes() {
    let mut page = NewRoutePage::new(words());
    assert!(page.needs_games());
    assert!(page.base_route().is_none());
    match page.select_game("Hack", None) {
        GameChoice::Missing(m) => {
            assert_eq!(m, "Could not load game version 'Hack'. The base generation may not be available yet.")
        }
        _ => panic!("missing"),
    }
    assert!(!page.has_game_data);
    match page.select_game("Red", Some(1)) {
        GameChoice::Chosen { gen_changed } => assert!(gen_changed),
        _ => panic!("chosen"),
    }
    assert!(matches!(page.select_game("Red", Some(1)), GameChoice::Unchanged));
    match page.select_game("Blue", Some(1)) {
        GameChoice::Chosen { gen_changed } => assert!(!gen_changed),
        _ => panic!("chosen"),
    }
    page.rebuild_base_routes(&vec!["fast".to_string()], &vec![entry("mine", "Blue", 1)], true);
    assert_eq!(page.min_battles_cache, vec!["Empty Route", "PRESET: fast", "mine"]);
    page.min_battles_filter = "FAST".to_string();
    page.base_route_filter_changed();
    assert_eq!(page.min_battles_selector.options, vec!["PRESET: fast"]);
    page.min_battles_filter = "nothing".to_string();
    page.base_route_filter_changed();
    assert_eq!(page.min_battles_selector.options, vec!["Empty Route"]);
    assert!(matches!(page.base_route(), Some(BaseRoute::Empty)));
    assert_eq!(page.chosen_species(), None);
}

#[test]
fn reset_form_chooses_the_first_game() {
    let mut page = NewRoutePage::new(words());
    let rows = vec![GameRow { name: "Red".to_string(), generation: Some(1), platform: Platform::GbGbc, recorder: RecorderStatus::Available }];
    assert_eq!(page.reset_form(rows), Some("Red".to_string()));
    assert_eq!(page.game_after_refresh(), Some("Red".to_string()));
    page.select_game("Red", Some(1));
    assert_eq!(page.game_after_refresh(), None);
    assert_eq!(page.reset_form(Vec::new()), None);
    assert_eq!(page.solo_selector.get(), "No Match");
}

#[test]
fn quick_start_wording() {
    let waiting = QuickStartPhase::WaitingForNewGame { species: "Pidgey".to_string(), level: 5 };
    let (text, tone) = waiting.message();
    assert_eq!(text, "Party slot 1 already holds Pidgey (Lv 5).\nStart a new game: the route is set up, and recording begins, the moment you receive your first Pokémon.");
    assert_eq!(tone, Tone::Plain);
    assert_eq!(waiting.use_current_label(), Some("Use this Pidgey instead".to_string()));
    assert!(waiting.busy());
    assert!(!waiting.offers_retry());
    let failed = QuickStartPhase::Failed("boom".to_string());
    assert_eq!(failed.message(), ("boom".to_string(), Tone::Alarm));
    assert!(!failed.busy());
    assert!(failed.offers_retry());
    let settling = QuickStartPhase::Settling { species: "Abra".to_string(), level: 12 };
    assert_eq!(settling.message().0, "Received Abra (Lv 12)! Reading its stats...");
    assert!(QuickStartPhase::NoMapper.offers_retry());
    assert_eq!(QuickStartPhase::Done("Red, Abra".to_string()).message().0, "Creating the route: Red, Abra");
    assert_eq!(game_line("Pokemon Red", "Red", None), "Game: Pokemon Red   (route version: Red)");
    assert_eq!(
        game_line("Red/Blue", "Red", Some("Blue")),
        "Game: Red/Blue   (route version: Red — the mapper serves Blue too; both share one data set)"
    );
    assert_eq!(gamehook_line("http://x"), "GameHook: http://x");
}

#[test]
fn recorder_status_line() {
    assert_eq!(gamehook_url(None), "http://localhost:8085");
    assert_eq!(gamehook_url(Some("http://h:1".to_string())), "http://h:1");
    let mut st = ClientStatus::new();
    assert_eq!(st.mode_changed(true, false), ModeChange::Start);
    assert_eq!(st.text, "Client Status: Connecting...");
    assert_eq!(st.mode_changed(true, true), ModeChange::AlreadyConnected);
    assert_eq!(st.mode_changed(false, true), ModeChange::Stop);
    st.refresh(Some("Disconnected"), None, "Disconnected");
    assert_eq!(st.text, "Client Status: Disconnected");
    assert!(st.reconnect_enabled);
    st.refresh(None, Some(true), "Disconnected");
    assert!(!st.reconnect_enabled);
    st.no_recorder();
    assert_eq!(st.text, "No recorder has been created yet for the current version");
}
