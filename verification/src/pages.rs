//! The landing page's route list (the game filter, the search box and the
//! three orders), its selection and what its buttons ask for.

use vstd::prelude::*;

use crate::map_finder::{lemma_lex_irreflexive, lemma_lex_transitive, less_than, lex_lt};
use crate::option_menu::{has_name, selection_after, OptionMenu};
use crate::text::{contains_seq, contains_str, eq_str, lowercase, to_lowercase, trim, trim_seq};

verus! {

/// The settings' word for the newest-first order.
pub const SORT_MOST_RECENT: &'static str = "most_recent";

/// The settings' word for the order by game, then name.
pub const SORT_GAME: &'static str = "game";

/// The settings' word for the order by name.
pub const SORT_ALPHABETICAL: &'static str = "alphabetical";

/// The game filter's entry that keeps every game.
pub const ALL_GAMES: &'static str = "All Games";

/// What the list shows when nothing matches.
pub const NO_ROUTES: &'static str = "No saved routes found";

/// How long the search box waits after the last keystroke before the
/// search is saved to the settings, in milliseconds.
pub const SEARCH_SAVE_DELAY_MS: u64 = 300;

/// The route list's orders.
#[derive(Clone, Copy, Debug, PartialEq, Eq, Structural)]
pub enum RouteSort {
    MostRecent,
    Game,
    Alphabetical,
}

/// The order a settings word names; an unknown word orders newest first.
pub open spec fn sort_named(word: Seq<char>) -> RouteSort {
    if word == SORT_GAME@ {
        RouteSort::Game
    } else if word == SORT_ALPHABETICAL@ {
        RouteSort::Alphabetical
    } else {
        RouteSort::MostRecent
    }
}

/// The order a settings word names.
pub fn sort_of(word: &String) -> (r: RouteSort)
    ensures
        r == sort_named(word@),
{
    if eq_str(word, SORT_GAME) {
        RouteSort::Game
    } else if eq_str(word, SORT_ALPHABETICAL) {
        RouteSort::Alphabetical
    } else {
        RouteSort::MostRecent
    }
}

impl RouteSort {
    pub open spec fn word_spec(self) -> Seq<char> {
        match self {
            RouteSort::MostRecent => SORT_MOST_RECENT@,
            RouteSort::Game => SORT_GAME@,
            RouteSort::Alphabetical => SORT_ALPHABETICAL@,
        }
    }

    /// The settings word of this order.
    pub fn word(&self) -> (r: &'static str)
        ensures
            r@ == self.word_spec(),
    {
        match self {
            RouteSort::MostRecent => SORT_MOST_RECENT,
            RouteSort::Game => SORT_GAME,
            RouteSort::Alphabetical => SORT_ALPHABETICAL,
        }
    }
}

/// A saved route as the list shows it. `recency` orders routes as their
/// modification times do: a larger value is a newer route.
pub struct RouteEntry {
    pub name: String,
    pub version: String,
    pub species: String,
    pub recency: u64,
}

/// A route entry as plain values: name, version, species, recency.
pub type EntryView = (Seq<char>, Seq<char>, Seq<char>, u64);

pub open spec fn entry_view(e: RouteEntry) -> EntryView {
    (e.name@, e.version@, e.species@, e.recency)
}

pub open spec fn entries_view(s: Seq<RouteEntry>) -> Seq<EntryView> {
    s.map_values(|e: RouteEntry| entry_view(e))
}

/// A copy of a route entry.
pub fn copy_entry(e: &RouteEntry) -> (r: RouteEntry)
    ensures
        entry_view(r) == entry_view(*e),
{
    RouteEntry { name: e.name.clone(), version: e.version.clone(), species: e.species.clone(), recency: e.recency }
}

// ---------------------------------------------------------------------------
// which routes are listed
// ---------------------------------------------------------------------------

/// Whether the lowercase name, version or species contains `needle`.
pub open spec fn matches_search(e: EntryView, needle: Seq<char>) -> bool {
    contains_seq(lowercase(e.0), needle) || contains_seq(lowercase(e.1), needle) || contains_seq(
        lowercase(e.2),
        needle,
    )
}

/// Whether the list keeps `e`: in the game order a chosen game keeps only
/// its routes, and a search keeps the routes that match it.
pub open spec fn route_kept(e: EntryView, sort: RouteSort, game: Seq<char>, needle: Seq<char>) -> bool {
    &&& (sort == RouteSort::Game && game != ALL_GAMES@ ==> e.1 == game)
    &&& (needle.len() > 0 ==> matches_search(e, needle))
}

/// The routes of `s` that the list keeps, in order.
pub open spec fn kept_routes(s: Seq<EntryView>, sort: RouteSort, game: Seq<char>, needle: Seq<char>) -> Seq<
    EntryView,
>
    decreases s.len(),
{
    if s.len() == 0 {
        Seq::empty()
    } else {
        let rest = kept_routes(s.drop_last(), sort, game, needle);
        if route_kept(s.last(), sort, game, needle) {
            rest.push(s.last())
        } else {
            rest
        }
    }
}

/// The list never shows a route it was not given, nor one that fails the
/// game filter or the search.
pub proof fn law_kept_routes_pass(s: Seq<EntryView>, sort: RouteSort, game: Seq<char>, needle: Seq<char>, i: int)
    requires
        0 <= i < kept_routes(s, sort, game, needle).len(),
    ensures
        s.contains(kept_routes(s, sort, game, needle)[i]),
        route_kept(kept_routes(s, sort, game, needle)[i], sort, game, needle),
    decreases s.len(),
{
    let rest = kept_routes(s.drop_last(), sort, game, needle);
    if route_kept(s.last(), sort, game, needle) && i == rest.len() {
        assert(s[s.len() - 1] == s.last());
    } else {
        law_kept_routes_pass(s.drop_last(), sort, game, needle, i);
        let x = rest[i];
        let k = choose|k: int| 0 <= k < s.drop_last().len() && s.drop_last()[k] == x;
        assert(s[k] == x);
    }
}

// ---------------------------------------------------------------------------
// the three orders
// ---------------------------------------------------------------------------

/// Whether `a` is listed before `b`: newest first, by game and then name,
/// or by lowercase name. Names and games compare character by character.
pub open spec fn listed_before(sort: RouteSort, a: EntryView, b: EntryView) -> bool {
    match sort {
        RouteSort::MostRecent => a.3 > b.3,
        RouteSort::Game => lex_lt(a.1, b.1) || (a.1 == b.1 && lex_lt(a.0, b.0)),
        RouteSort::Alphabetical => lex_lt(lowercase(a.0), lowercase(b.0)),
    }
}

/// `x` among listed routes: before the first route it comes before.
pub open spec fn insert_route(sort: RouteSort, s: Seq<EntryView>, x: EntryView) -> Seq<EntryView>
    decreases s.len(),
{
    if s.len() == 0 {
        seq![x]
    } else if listed_before(sort, x, s[0]) {
        seq![x] + s
    } else {
        seq![s[0]] + insert_route(sort, s.drop_first(), x)
    }
}

/// The routes in list order; routes that neither precedes keep their order.
pub open spec fn sorted_routes(sort: RouteSort, s: Seq<EntryView>) -> Seq<EntryView>
    decreases s.len(),
{
    if s.len() == 0 {
        Seq::empty()
    } else {
        insert_route(sort, sorted_routes(sort, s.drop_last()), s.last())
    }
}

/// No route is listed after one that it comes before.
pub open spec fn in_list_order(sort: RouteSort, s: Seq<EntryView>) -> bool {
    forall|i: int, j: int| 0 <= i < j < s.len() ==> !listed_before(sort, s[j], s[i])
}

proof fn lemma_before_irreflexive(sort: RouteSort, a: EntryView)
    ensures
        !listed_before(sort, a, a),
{
    lemma_lex_irreflexive(a.0);
    lemma_lex_irreflexive(a.1);
    lemma_lex_irreflexive(lowercase(a.0));
}

proof fn lemma_before_transitive(sort: RouteSort, a: EntryView, b: EntryView, c: EntryView)
    requires
        listed_before(sort, a, b),
        listed_before(sort, b, c),
    ensures
        listed_before(sort, a, c),
{
    match sort {
        RouteSort::MostRecent => {},
        RouteSort::Game => {
            if lex_lt(a.1, b.1) && lex_lt(b.1, c.1) {
                lemma_lex_transitive(a.1, b.1, c.1);
            } else if a.1 == b.1 && b.1 == c.1 {
                lemma_lex_transitive(a.0, b.0, c.0);
            }
        },
        RouteSort::Alphabetical => {
            lemma_lex_transitive(lowercase(a.0), lowercase(b.0), lowercase(c.0));
        },
    }
}

proof fn lemma_before_asym(sort: RouteSort, a: EntryView, b: EntryView)
    requires
        listed_before(sort, a, b),
    ensures
        !listed_before(sort, b, a),
{
    if listed_before(sort, b, a) {
        lemma_before_transitive(sort, a, b, a);
        lemma_before_irreflexive(sort, a);
    }
}

proof fn lemma_insert_route_keeps_order(sort: RouteSort, s: Seq<EntryView>, x: EntryView)
    requires
        in_list_order(sort, s),
    ensures
        in_list_order(sort, insert_route(sort, s, x)),
        insert_route(sort, s, x).to_multiset() == s.to_multiset().insert(x),
        insert_route(sort, s, x).len() == s.len() + 1,
    decreases s.len(),
{
    broadcast use vstd::seq_lib::group_to_multiset_ensures;

    if s.len() == 0 {
        assert(insert_route(sort, s, x) =~= seq![x]);
        assert(seq![x] =~= Seq::<EntryView>::empty().push(x));
    } else if listed_before(sort, x, s[0]) {
        let r = seq![x] + s;
        assert forall|i: int, j: int| 0 <= i < j < r.len() implies !listed_before(sort, r[j], r[i]) by {
            if i == 0 {
                if j > 1 {
                    assert(!listed_before(sort, s[j - 1], s[0]));
                    if listed_before(sort, s[j - 1], x) {
                        lemma_before_transitive(sort, s[j - 1], x, s[0]);
                    }
                } else {
                    lemma_before_asym(sort, x, s[0]);
                }
            } else {
                assert(r[i] == s[i - 1] && r[j] == s[j - 1]);
            }
        }
        assert(r =~= s.insert(0, x));
    } else {
        let rest = s.drop_first();
        assert(in_list_order(sort, rest)) by {
            assert forall|i: int, j: int| 0 <= i < j < rest.len() implies !listed_before(sort, rest[j], rest[i]) by {
                assert(rest[i] == s[i + 1] && rest[j] == s[j + 1]);
            }
        }
        lemma_insert_route_keeps_order(sort, rest, x);
        let t = insert_route(sort, rest, x);
        let r = seq![s[0]] + t;
        assert forall|i: int, j: int| 0 <= i < j < r.len() implies !listed_before(sort, r[j], r[i]) by {
            if i == 0 {
                assert(r[j] == t[j - 1]);
                assert(t.to_multiset().contains(t[j - 1]));
                assert(rest.to_multiset().insert(x).contains(t[j - 1]));
                if t[j - 1] != x {
                    assert(rest.to_multiset().contains(t[j - 1]));
                    assert(rest.contains(t[j - 1]));
                    let k = choose|k: int| 0 <= k < rest.len() && rest[k] == t[j - 1];
                    assert(rest[k] == s[k + 1]);
                }
            } else {
                assert(r[i] == t[i - 1] && r[j] == t[j - 1]);
            }
        }
        assert((seq![s[0]] + t).to_multiset() =~= t.to_multiset().insert(s[0])) by {
            assert(seq![s[0]] + t =~= t.insert(0, s[0]));
        }
        assert(s.to_multiset() =~= rest.to_multiset().insert(s[0])) by {
            assert(s =~= rest.insert(0, s[0]));
        }
    }
}

/// The list shows the same routes it was given, each route after every
/// route that comes before it.
pub proof fn law_route_order(sort: RouteSort, s: Seq<EntryView>)
    ensures
        in_list_order(sort, sorted_routes(sort, s)),
        sorted_routes(sort, s).to_multiset() == s.to_multiset(),
        sorted_routes(sort, s).len() == s.len(),
    decreases s.len(),
{
    broadcast use vstd::seq_lib::group_to_multiset_ensures;

    if s.len() > 0 {
        law_route_order(sort, s.drop_last());
        lemma_insert_route_keeps_order(sort, sorted_routes(sort, s.drop_last()), s.last());
        assert(s =~= s.drop_last().push(s.last()));
    }
}

/// Where `x` goes among `s`: before the first route it comes before.
proof fn lemma_insert_route_at(sort: RouteSort, s: Seq<EntryView>, x: EntryView, p: int)
    requires
        0 <= p <= s.len(),
        forall|j: int| 0 <= j < p ==> !listed_before(sort, x, s[j]),
        p == s.len() || listed_before(sort, x, s[p]),
    ensures
        insert_route(sort, s, x) == s.insert(p, x),
    decreases s.len(),
{
    if s.len() == 0 {
        assert(s.insert(p, x) =~= seq![x]);
    } else if p == 0 {
        assert(s.insert(0, x) =~= seq![x] + s);
    } else {
        let rest = s.drop_first();
        assert forall|j: int| 0 <= j < p - 1 implies !listed_before(sort, x, rest[j]) by {
            assert(rest[j] == s[j + 1]);
        }
        if p - 1 < rest.len() {
            assert(rest[p - 1] == s[p]);
        }
        lemma_insert_route_at(sort, rest, x, p - 1);
        assert(s.insert(p, x) =~= seq![s[0]] + rest.insert(p - 1, x));
    }
}

/// Whether `a` is listed before `b`.
pub fn route_before(sort: RouteSort, a: &RouteEntry, b: &RouteEntry) -> (r: bool)
    ensures
        r == listed_before(sort, entry_view(*a), entry_view(*b)),
{
    match sort {
        RouteSort::MostRecent => a.recency > b.recency,
        RouteSort::Game => {
            if less_than(a.version.as_str(), b.version.as_str()) {
                true
            } else if a.version == b.version {
                less_than(a.name.as_str(), b.name.as_str())
            } else {
                false
            }
        },
        RouteSort::Alphabetical => {
            let x = to_lowercase(a.name.as_str());
            let y = to_lowercase(b.name.as_str());
            less_than(x.as_str(), y.as_str())
        },
    }
}

/// Whether the list keeps `e`.
fn keep_route(e: &RouteEntry, sort: RouteSort, game: &String, needle: &String) -> (r: bool)
    ensures
        r == route_kept(entry_view(*e), sort, game@, needle@),
{
    if sort == RouteSort::Game && !eq_str(game, ALL_GAMES) && !(e.version == *game) {
        return false;
    }
    if needle.unicode_len() == 0 {
        return true;
    }
    let n = to_lowercase(e.name.as_str());
    if contains_str(n.as_str(), needle.as_str()) {
        return true;
    }
    let v = to_lowercase(e.version.as_str());
    if contains_str(v.as_str(), needle.as_str()) {
        return true;
    }
    let s = to_lowercase(e.species.as_str());
    contains_str(s.as_str(), needle.as_str())
}

/// The routes that the list keeps, in list order.
pub fn list_routes(entries: &Vec<RouteEntry>, sort: RouteSort, game: &String, search: &String) -> (r: Vec<
    RouteEntry,
>)
    ensures
        entries_view(r@) == sorted_routes(
            sort,
            kept_routes(entries_view(entries@), sort, game@, lowercase(trim_seq(search@))),
        ),
{
    let t = trim(search.as_str());
    let needle = to_lowercase(t.as_str());
    let ghost all = entries_view(entries@);
    let mut kept: Vec<RouteEntry> = Vec::new();
    let mut i: usize = 0;
    while i < entries.len()
        invariant
            i <= entries.len(),
            all == entries_view(entries@),
            entries_view(kept@) == kept_routes(all.subrange(0, i as int), sort, game@, needle@),
        decreases entries.len() - i,
    {
        let ghost before = entries_view(kept@);
        if keep_route(&entries[i], sort, game, &needle) {
            kept.push(copy_entry(&entries[i]));
            assert(entries_view(kept@) =~= before.push(all[i as int]));
        }
        proof {
            let pre = all.subrange(0, i + 1);
            assert(pre.drop_last() =~= all.subrange(0, i as int));
            assert(pre.last() == all[i as int]);
        }
        i = i + 1;
    }
    assert(all.subrange(0, entries.len() as int) =~= all);
    sort_routes(kept, sort)
}

/// The routes in list order.
pub fn sort_routes(kept: Vec<RouteEntry>, sort: RouteSort) -> (r: Vec<RouteEntry>)
    ensures
        entries_view(r@) == sorted_routes(sort, entries_view(kept@)),
{
    let ghost lines = entries_view(kept@);
    let mut sorted: Vec<RouteEntry> = Vec::new();
    let mut k: usize = 0;
    while k < kept.len()
        invariant
            k <= kept.len(),
            lines == entries_view(kept@),
            entries_view(sorted@) == sorted_routes(sort, lines.subrange(0, k as int)),
        decreases kept.len() - k,
    {
        let ghost s0 = entries_view(sorted@);
        let x = copy_entry(&kept[k]);
        let mut p: usize = 0;
        while p < sorted.len() && !route_before(sort, &x, &sorted[p])
            invariant
                p <= sorted.len(),
                s0 == entries_view(sorted@),
                forall|j: int| 0 <= j < p ==> !listed_before(sort, entry_view(x), s0[j]),
            decreases sorted.len() - p,
        {
            p = p + 1;
        }
        proof {
            let pre = lines.subrange(0, k + 1);
            assert(pre.drop_last() =~= lines.subrange(0, k as int));
            assert(pre.last() == entry_view(x));
            lemma_insert_route_at(sort, s0, entry_view(x), p as int);
        }
        sorted.insert(p, x);
        proof {
            assert(entries_view(sorted@) =~= s0.insert(p as int, entry_view(x)));
        }
        k = k + 1;
    }
    proof {
        assert(lines.subrange(0, kept.len() as int) =~= lines);
    }
    sorted
}

// ---------------------------------------------------------------------------
// the landing page
// ---------------------------------------------------------------------------

/// What the landing page asks for. A route is named as the list shows it;
/// the caller finds its file.
#[derive(Clone, Debug, Default)]
pub struct LandingActions {
    pub create_route: bool,
    /// "Start Recording": build the route from the running game
    pub start_recording: bool,
    pub load_route: Option<String>,
    /// "Compare Routes": `Some(Some(name))` seeds the first slot with the
    /// selected route, `Some(None)` opens the comparison empty
    pub compare_routes: Option<Option<String>>,
    pub auto_load_toggled: bool,
}

impl LandingActions {
    /// Nothing asked for yet.
    pub fn new() -> (r: LandingActions)
        ensures
            !r.create_route,
            !r.start_recording,
            r.load_route is None,
            r.compare_routes is None,
            !r.auto_load_toggled,
    {
        LandingActions {
            create_route: false,
            start_recording: false,
            load_route: None,
            compare_routes: None,
            auto_load_toggled: false,
        }
    }
}

/// What the quick-start panel asks for.
#[derive(Clone, Copy, Debug, Default, PartialEq, Eq, Structural)]
pub struct QuickStartActions {
    pub cancel: bool,
    /// take the Pokémon already in the first party slot instead of waiting
    /// for a new game
    pub use_current: bool,
    /// retry the connection and reload the mapper
    pub reconnect: bool,
}

/// The route names as character sequences.
pub open spec fn opt_view(o: Option<String>) -> Option<Seq<char>> {
    match o {
        Some(s) => Some(s@),
        None => None,
    }
}

/// A copy of an optional name.
fn copy_opt(o: &Option<String>) -> (r: Option<String>)
    ensures
        opt_view(r) == opt_view(*o),
{
    match o {
        Some(s) => Some(s.clone()),
        None => None,
    }
}

/// The landing page's state. `search_deadline` is a time on the caller's
/// clock, in milliseconds, after which the search is saved.
pub struct LandingPage {
    pub current_sort: String,
    pub selected_game_filter: String,
    pub search_text: String,
    pub search_deadline: Option<u64>,
    pub selected_route: Option<String>,
    pub game_filter: OptionMenu,
    pub auto_load: bool,
}

/// The saved sort word, or newest first when none is saved.
pub open spec fn initial_sort(saved: Seq<char>) -> Seq<char> {
    if saved.len() == 0 {
        SORT_MOST_RECENT@
    } else {
        saved
    }
}

/// The saved game filter, or every game when none is saved.
pub open spec fn initial_game_filter(saved: Seq<char>) -> Seq<char> {
    if saved.len() == 0 {
        ALL_GAMES@
    } else {
        saved
    }
}

/// Whether a selection can be loaded: a route is selected and it is not
/// the "no routes" line.
pub open spec fn loadable(selected: Option<Seq<char>>) -> bool {
    match selected {
        Some(r) => r != NO_ROUTES@,
        None => false,
    }
}

impl LandingPage {
    /// The page as the settings left it: the saved order, game filter,
    /// search and auto-load switch.
    pub fn new(sort: String, game_filter: String, search: String, auto_load: bool) -> (r: LandingPage)
        ensures
            r.current_sort@ == initial_sort(sort@),
            r.selected_game_filter@ == initial_game_filter(game_filter@),
            r.search_text@ == search@,
            r.search_deadline is None,
            r.selected_route is None,
            r.game_filter.names() == seq![ALL_GAMES@],
            r.game_filter.current@ == ALL_GAMES@,
            r.auto_load == auto_load,
    {
        let current_sort = if sort.unicode_len() == 0 {
            String::from_str(SORT_MOST_RECENT)
        } else {
            sort
        };
        let filter = if game_filter.unicode_len() == 0 {
            String::from_str(ALL_GAMES)
        } else {
            game_filter
        };
        let first = vec![String::from_str(ALL_GAMES)];
        assert(first.deep_view() =~= seq![ALL_GAMES@]);
        let menu = OptionMenu::new(first, Some(filter.as_str()));
        LandingPage {
            current_sort,
            selected_game_filter: filter,
            search_text: search,
            search_deadline: None,
            selected_route: None,
            game_filter: menu,
            auto_load,
        }
    }

    /// The order the list is in.
    pub fn sort(&self) -> (r: RouteSort)
        ensures
            r == sort_named(self.current_sort@),
    {
        sort_of(&self.current_sort)
    }

    /// The game filter's choices after the game list is read: every game,
    /// then `games`. A filter that is no longer offered falls back to
    /// every game.
    pub fn populate_game_filter(&mut self, games: Vec<String>)
        ensures
            final(self).game_filter.names() == seq![ALL_GAMES@] + games.deep_view(),
            ({
                let kept = selection_after(
                    old(self).game_filter.names(),
                    old(self).game_filter.current@,
                    seq![ALL_GAMES@] + games.deep_view(),
                    Some(old(self).selected_game_filter@),
                );
                if kept == old(self).selected_game_filter@ {
                    &&& final(self).selected_game_filter@ == old(self).selected_game_filter@
                    &&& final(self).game_filter.current@ == kept
                } else {
                    &&& final(self).selected_game_filter@ == ALL_GAMES@
                    &&& final(self).game_filter.current@ == ALL_GAMES@
                }
            }),
            final(self).current_sort == old(self).current_sort,
            final(self).search_text == old(self).search_text,
            final(self).search_deadline == old(self).search_deadline,
            final(self).selected_route == old(self).selected_route,
            final(self).auto_load == old(self).auto_load,
    {
        let ghost gs = games.deep_view();
        let mut all: Vec<String> = vec![String::from_str(ALL_GAMES)];
        proof {
            assert(all.deep_view() =~= seq![ALL_GAMES@]);
        }
        let mut i: usize = 0;
        while i < games.len()
            invariant
                i <= games.len(),
                gs == games.deep_view(),
                all.deep_view() == seq![ALL_GAMES@] + gs.subrange(0, i as int),
            decreases games.len() - i,
        {
            let ghost before = all.deep_view();
            all.push(games[i].clone());
            assert(all.deep_view() =~= before.push(gs[i as int]));
            assert(all.deep_view() =~= seq![ALL_GAMES@] + gs.subrange(0, i + 1));
            i = i + 1;
        }
        assert(gs.subrange(0, games.len() as int) =~= gs);
        let ghost all_names = all.deep_view();
        let sel = self.selected_game_filter.clone();
        self.game_filter.new_values(all, Some(sel.as_str()));
        proof {
            assert(all_names[0] == ALL_GAMES@);
            assert(has_name(all_names, ALL_GAMES@));
        }
        if !eq_str(&self.game_filter.current, sel.as_str()) {
            self.selected_game_filter = String::from_str(ALL_GAMES);
            self.game_filter.set(ALL_GAMES);
        }
    }

    /// Whether the game filter still has to be filled: the list is in the
    /// game order and the filter offers no game yet.
    pub fn needs_game_filter(&self) -> (r: bool)
        ensures
            r == (sort_named(self.current_sort@) == RouteSort::Game && self.game_filter.options@.len() <= 1),
    {
        self.sort() == RouteSort::Game && self.game_filter.options.len() <= 1
    }

    /// One of the order toggles was clicked. Returns whether the game
    /// filter has to be filled now (the game order was chosen).
    pub fn choose_sort(&mut self, sort: RouteSort) -> (refill: bool)
        ensures
            final(self).current_sort@ == sort.word_spec(),
            refill == (sort == RouteSort::Game),
            final(self).selected_game_filter == old(self).selected_game_filter,
            final(self).search_text == old(self).search_text,
            final(self).search_deadline == old(self).search_deadline,
            final(self).selected_route == old(self).selected_route,
            final(self).game_filter == old(self).game_filter,
            final(self).auto_load == old(self).auto_load,
    {
        self.current_sort = String::from_str(sort.word());
        sort == RouteSort::Game
    }

    /// A game was picked in the game filter.
    pub fn pick_game_filter(&mut self, game: &str)
        ensures
            final(self).game_filter.names() == old(self).game_filter.names(),
            final(self).game_filter.current@ == (if has_name(old(self).game_filter.names(), game@) {
                game@
            } else {
                old(self).game_filter.current@
            }),
            final(self).selected_game_filter@ == final(self).game_filter.current@,
            final(self).current_sort == old(self).current_sort,
            final(self).search_text == old(self).search_text,
            final(self).search_deadline == old(self).search_deadline,
            final(self).selected_route == old(self).selected_route,
            final(self).auto_load == old(self).auto_load,
    {
        self.game_filter.set(game);
        self.selected_game_filter = self.game_filter.current.clone();
    }

    /// The search box changed at time `now`: the search is saved once the
    /// delay has passed with no further change.
    pub fn search_edited(&mut self, text: String, now: u64)
        ensures
            final(self).search_text@ == text@,
            final(self).search_deadline == Some(
                (if now + SEARCH_SAVE_DELAY_MS <= u64::MAX {
                    (now + SEARCH_SAVE_DELAY_MS) as u64
                } else {
                    u64::MAX
                }),
            ),
            final(self).current_sort == old(self).current_sort,
            final(self).selected_game_filter == old(self).selected_game_filter,
            final(self).selected_route == old(self).selected_route,
            final(self).game_filter == old(self).game_filter,
            final(self).auto_load == old(self).auto_load,
    {
        self.search_text = text;
        self.search_deadline = Some(now.saturating_add(SEARCH_SAVE_DELAY_MS));
    }

    /// The page's clock tick at time `now`: once the deadline has passed the
    /// search is handed back to be saved, and the deadline is cleared.
    pub fn tick(&mut self, now: u64) -> (save: Option<String>)
        ensures
            match old(self).search_deadline {
                Some(d) if now >= d => {
                    &&& final(self).search_deadline is None
                    &&& opt_view(save) == Some(old(self).search_text@)
                },
                _ => final(self).search_deadline == old(self).search_deadline && save is None,
            },
            final(self).search_text == old(self).search_text,
            final(self).current_sort == old(self).current_sort,
            final(self).selected_game_filter == old(self).selected_game_filter,
            final(self).selected_route == old(self).selected_route,
            final(self).game_filter == old(self).game_filter,
            final(self).auto_load == old(self).auto_load,
    {
        match self.search_deadline {
            Some(d) => {
                if now >= d {
                    self.search_deadline = None;
                    Some(self.search_text.clone())
                } else {
                    None
                }
            },
            None => None,
        }
    }

    /// How long until the next tick has work, when a save is pending.
    pub fn wait_before_save(&self, now: u64) -> (r: Option<u64>)
        ensures
            match self.search_deadline {
                Some(d) if now < d => r == Some((d - now) as u64),
                _ => r is None,
            },
    {
        match self.search_deadline {
            Some(d) => {
                if now < d {
                    Some(d - now)
                } else {
                    None
                }
            },
            None => None,
        }
    }

    /// The routes the list shows, in order.
    pub fn visible_routes(&self, entries: &Vec<RouteEntry>) -> (r: Vec<RouteEntry>)
        ensures
            entries_view(r@) == sorted_routes(
                sort_named(self.current_sort@),
                kept_routes(
                    entries_view(entries@),
                    sort_named(self.current_sort@),
                    self.selected_game_filter@,
                    lowercase(trim_seq(self.search_text@)),
                ),
            ),
    {
        list_routes(entries, self.sort(), &self.selected_game_filter, &self.search_text)
    }

    /// The list is drawn: while the index is still loading nothing is shown
    /// (`None`); once loaded, the routes shown, and an empty list drops the
    /// selection.
    pub fn show_routes(&mut self, loaded: bool, entries: &Vec<RouteEntry>) -> (r: Option<Vec<RouteEntry>>)
        ensures
            !loaded ==> r is None && *final(self) == *old(self),
            loaded ==> (r matches Some(shown) && {
                &&& entries_view(shown@) == sorted_routes(
                    sort_named(old(self).current_sort@),
                    kept_routes(
                        entries_view(entries@),
                        sort_named(old(self).current_sort@),
                        old(self).selected_game_filter@,
                        lowercase(trim_seq(old(self).search_text@)),
                    ),
                )
                &&& final(self).selected_route == (if shown@.len() == 0 {
                    None
                } else {
                    old(self).selected_route
                })
            }),
            final(self).current_sort == old(self).current_sort,
            final(self).selected_game_filter == old(self).selected_game_filter,
            final(self).search_text == old(self).search_text,
            final(self).search_deadline == old(self).search_deadline,
            final(self).game_filter == old(self).game_filter,
            final(self).auto_load == old(self).auto_load,
    {
        if !loaded {
            return None;
        }
        let shown = self.visible_routes(entries);
        if shown.len() == 0 {
            self.selected_route = None;
        }
        Some(shown)
    }

    /// A route line was clicked; a double click also asks to load it.
    pub fn click_route(&mut self, name: String, double: bool, actions: &mut LandingActions)
        ensures
            opt_view(final(self).selected_route) == Some(name@),
            double ==> opt_view(final(actions).load_route) == Some(name@),
            !double ==> final(actions).load_route == old(actions).load_route,
            final(actions).create_route == old(actions).create_route,
            final(actions).start_recording == old(actions).start_recording,
            final(actions).compare_routes == old(actions).compare_routes,
            final(actions).auto_load_toggled == old(actions).auto_load_toggled,
            final(self).current_sort == old(self).current_sort,
            final(self).selected_game_filter == old(self).selected_game_filter,
            final(self).search_text == old(self).search_text,
            final(self).search_deadline == old(self).search_deadline,
            final(self).game_filter == old(self).game_filter,
            final(self).auto_load == old(self).auto_load,
    {
        if double {
            actions.load_route = Some(name.clone());
        }
        self.selected_route = Some(name);
    }

    /// Whether "Load Selected Route" is enabled.
    pub fn can_load(&self) -> (r: bool)
        ensures
            r == loadable(opt_view(self.selected_route)),
    {
        match &self.selected_route {
            Some(r) => !eq_str(r, NO_ROUTES),
            None => false,
        }
    }

    /// "Load Selected Route" (or Enter): load the selection when it can be.
    pub fn load_selected(&self, actions: &mut LandingActions)
        ensures
            loadable(opt_view(self.selected_route)) ==> opt_view(final(actions).load_route) == opt_view(
                self.selected_route,
            ),
            !loadable(opt_view(self.selected_route)) ==> final(actions).load_route == old(actions).load_route,
            final(actions).create_route == old(actions).create_route,
            final(actions).start_recording == old(actions).start_recording,
            final(actions).compare_routes == old(actions).compare_routes,
            final(actions).auto_load_toggled == old(actions).auto_load_toggled,
    {
        if self.can_load() {
            actions.load_route = copy_opt(&self.selected_route);
        }
    }

    /// "Compare Routes": the selection, when it can be loaded, becomes the
    /// first route of the comparison.
    pub fn compare(&self, actions: &mut LandingActions)
        ensures
            final(actions).compare_routes matches Some(first) && opt_view(first) == (if loadable(
                opt_view(self.selected_route),
            ) {
                opt_view(self.selected_route)
            } else {
                None
            }),
            final(actions).create_route == old(actions).create_route,
            final(actions).start_recording == old(actions).start_recording,
            final(actions).load_route == old(actions).load_route,
            final(actions).auto_load_toggled == old(actions).auto_load_toggled,
    {
        if self.can_load() {
            actions.compare_routes = Some(copy_opt(&self.selected_route));
        } else {
            actions.compare_routes = Some(None);
        }
    }

    /// The auto-load switch was flipped.
    pub fn set_auto_load(&mut self, on: bool, actions: &mut LandingActions)
        ensures
            final(self).auto_load == on,
            final(actions).auto_load_toggled,
            final(actions).create_route == old(actions).create_route,
            final(actions).start_recording == old(actions).start_recording,
            final(actions).load_route == old(actions).load_route,
            final(actions).compare_routes == old(actions).compare_routes,
            final(self).current_sort == old(self).current_sort,
            final(self).selected_game_filter == old(self).selected_game_filter,
            final(self).search_text == old(self).search_text,
            final(self).search_deadline == old(self).search_deadline,
            final(self).selected_route == old(self).selected_route,
            final(self).game_filter == old(self).game_filter,
    {
        self.auto_load = on;
        actions.auto_load_toggled = true;
    }
}

} // verus!
