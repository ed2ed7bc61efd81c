use xpr_app::pages::{
    list_routes, sort_of, LandingActions, LandingPage, RouteEntry, RouteSort, ALL_GAMES, NO_ROUTES,
    SORT_ALPHABETICAL, SORT_GAME, SORT_MOST_RECENT,
};

fn entry(name: &str, version: &str, species: &str, recency: u64) -> RouteEntry {
    RouteEntry { name: name.to_string(), version: version.to_string(), species: species.to_string(), recency }
}

fn names(v: &[RouteEntry]) -> Vec<String> {
    v.iter().map(|e| e.name.clone()).collect()
}

fn sample() -> Vec<RouteEntry> {
    vec![
        entry("zeta run", "Yellow", "Pikachu", 30),
        entry("Alpha", "Red", "Abra", 10),
        entry("beta", "Yellow", "Onix", 50),
        entry("Gamma", "Crystal", "Totodile", 20),
    ]
}

#[test]
fn sort_words_name_the_orders() {
    assert_eq!(sort_of(&SORT_GAME.to_string()), RouteSort::Game);
    assert_eq!(sort_of(&SORT_ALPHABETICAL.to_string()), RouteSort::Alphabetical);
    assert_eq!(sort_of(&SORT_MOST_RECENT.to_string()), RouteSort::MostRecent);
    // an unknown word orders newest first
    assert_eq!(sort_of(&"sideways".to_string()), RouteSort::MostRecent);
    assert_eq!(RouteSort::Game.word(), "game");
}

#[test]
fn newest_first_by_default() {
    let shown = list_routes(&sample(), RouteSort::MostRecent, &ALL_GAMES.to_string(), &String::new());
    assert_eq!(names(&shown), vec!["beta", "zeta run", "Gamma", "Alpha"]);
}

#[test]
fn alphabetical_ignores_case() {
    let shown = list_routes(&sample(), RouteSort::Alphabetical, &ALL_GAMES.to_string(), &String::new());
    assert_eq!(names(&shown), vec!["Alpha", "beta", "Gamma", "zeta run"]);
}

#[test]
fn game_order_then_name_and_game_filter() {
    let shown = list_routes(&sample(), RouteSort::Game, &ALL_GAMES.to_string(), &String::new());
    // by version, then by name (character by character: upper case first)
    assert_eq!(names(&shown), vec!["Gamma", "Alpha", "beta", "zeta run"]);
    let yellow = list_routes(&sample(), RouteSort::Game, &"Yellow".to_string(), &String::new());
    assert_eq!(names(&yellow), vec!["beta", "zeta run"]);
    // the game filter only applies in the game order
    let all = list_routes(&sample(), RouteSort::MostRecent, &"Yellow".to_string(), &String::new());
    assert_eq!(all.len(), 4);
}

#[test]
fn search_matches_name_version_or_species_case_insensitively() {
    let shown = list_routes(&sample(), RouteSort::MostRecent, &ALL_GAMES.to_string(), &"  ONIX ".to_string());
    assert_eq!(names(&shown), vec!["beta"]);
    let shown = list_routes(&sample(), RouteSort::Alphabetical, &ALL_GAMES.to_string(), &"yel".to_string());
    assert_eq!(names(&shown), vec!["beta", "zeta run"]);
    let none = list_routes(&sample(), RouteSort::Alphabetical, &ALL_GAMES.to_string(), &"mew".to_string());
    assert!(none.is_empty());
}

#[test]
fn new_page_takes_saved_settings_or_defaults() {
    let p = LandingPage::new(String::new(), String::new(), "abc".to_string(), true);
    assert_eq!(p.current_sort, SORT_MOST_RECENT);
    assert_eq!(p.selected_game_filter, ALL_GAMES);
    assert_eq!(p.search_text, "abc");
    assert!(p.auto_load);
    assert_eq!(p.game_filter.get(), ALL_GAMES);
    let q = LandingPage::new("game".to_string(), "Red".to_string(), String::new(), false);
    assert_eq!(q.sort(), RouteSort::Game);
    assert_eq!(q.selected_game_filter, "Red");
}

#[test]
fn game_filter_falls_back_when_game_is_gone() {
    let mut p = LandingPage::new("game".to_string(), "Red".to_string(), String::new(), false);
    assert!(p.needs_game_filter());
    p.populate_game_filter(vec!["Red".to_string(), "Blue".to_string()]);
    assert_eq!(p.selected_game_filter, "Red");
    assert_eq!(p.game_filter.get(), "Red");
    assert_eq!(p.game_filter.options, vec!["All Games", "Red", "Blue"]);
    p.populate_game_filter(vec!["Gold".to_string()]);
    assert_eq!(p.selected_game_filter, ALL_GAMES);
    assert_eq!(p.game_filter.get(), ALL_GAMES);
}

#[test]
fn choosing_the_game_order_asks_for_the_filter() {
    let mut p = LandingPage::new(String::new(), String::new(), String::new(), false);
    assert!(!p.choose_sort(RouteSort::Alphabetical));
    assert_eq!(p.current_sort, "alphabetical");
    assert!(p.choose_sort(RouteSort::Game));
    assert_eq!(p.current_sort, "game");
    p.populate_game_filter(vec!["Red".to_string()]);
    p.pick_game_filter("Red");
    assert_eq!(p.selected_game_filter, "Red");
    // a game that is not offered is ignored
    p.pick_game_filter("Gold");
    assert_eq!(p.selected_game_filter, "Red");
}

#[test]
fn search_is_saved_after_the_delay() {
    let mut p = LandingPage::new(String::new(), String::new(), String::new(), false);
    p.search_edited("onix".to_string(), 1000);
    assert_eq!(p.search_deadline, Some(1300));
    assert_eq!(p.wait_before_save(1100), Some(200));
    assert_eq!(p.tick(1299), None);
    assert_eq!(p.tick(1300), Some("onix".to_string()));
    assert_eq!(p.search_deadline, None);
    assert_eq!(p.tick(5000), None);
    p.search_edited("x".to_string(), u64::MAX - 10);
    assert_eq!(p.search_deadline, Some(u64::MAX));
}

#[test]
fn clicks_select_and_double_clicks_load() {
    let mut p = LandingPage::new(String::new(), String::new(), String::new(), false);
    let mut a = LandingActions::new();
    assert!(!p.can_load());
    p.compare(&mut a);
    assert_eq!(a.compare_routes, Some(None));
    p.click_route("beta".to_string(), false, &mut a);
    assert_eq!(p.selected_route, Some("beta".to_string()));
    assert_eq!(a.load_route, None);
    assert!(p.can_load());
    p.load_selected(&mut a);
    assert_eq!(a.load_route, Some("beta".to_string()));
    p.compare(&mut a);
    assert_eq!(a.compare_routes, Some(Some("beta".to_string())));
    let mut b = LandingActions::new();
    p.click_route("Alpha".to_string(), true, &mut b);
    assert_eq!(b.load_route, Some("Alpha".to_string()));
    // the "no routes" line cannot be loaded
    let mut c = LandingActions::new();
    p.click_route(NO_ROUTES.to_string(), false, &mut c);
    assert!(!p.can_load());
    p.load_selected(&mut c);
    assert_eq!(c.load_route, None);
}

#[test]
fn an_empty_list_drops_the_selection() {
    let mut p = LandingPage::new(String::new(), String::new(), "nothing matches".to_string(), false);
    let mut a = LandingActions::new();
    p.click_route("beta".to_string(), false, &mut a);
    assert!(p.show_routes(false, &sample()).is_none());
    assert_eq!(p.selected_route, Some("beta".to_string()));
    let shown = p.show_routes(true, &sample()).unwrap();
    assert!(shown.is_empty());
    assert_eq!(p.selected_route, None);
}

#[test]
fn auto_load_switch_is_reported() {
    let mut p = LandingPage::new(String::new(), String::new(), String::new(), false);
    let mut a = LandingActions::new();
    p.set_auto_load(true, &mut a);
    assert!(p.auto_load);
    assert!(a.auto_load_toggled);
}
