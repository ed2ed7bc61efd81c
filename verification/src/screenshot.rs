//! What a screenshot is of: its kind, the image name it is saved under,
//! and the battle summary layout it is drawn with.

use vstd::prelude::*;

use crate::text::{decimal_digits, is_digit, u64_text};

verus! {

/// The battle summary layouts a screenshot can use.
#[derive(Clone, Copy, Debug, PartialEq, Eq, Structural)]
pub enum ScreenshotMode {
    /// both sides
    Full,
    /// the player's damage ranges
    Player,
    /// the enemy's damage ranges
    Enemy,
}

/// What a screenshot shows.
#[derive(Clone, Copy, Debug, PartialEq, Eq, Structural)]
pub enum ShotKind {
    EventList,
    BattleSummary,
    PlayerRanges,
    EnemyRanges,
    Matchup { idx: usize, mode: ScreenshotMode },
    RunSummary,
    SetupSummary,
    /// the active tab of the route comparison page
    Compare,
}

/// The image name of a kind (the part after the route's name).
pub open spec fn image_name_of(k: ShotKind) -> Seq<char> {
    match k {
        ShotKind::EventList => "event_list"@,
        ShotKind::BattleSummary => "battle_summary"@,
        ShotKind::PlayerRanges => "player_ranges"@,
        ShotKind::EnemyRanges => "enemy_ranges"@,
        ShotKind::Matchup { idx, mode } => "matchup_"@ + decimal_digits((idx + 1) as nat) + match mode {
            ScreenshotMode::Full => ""@,
            ScreenshotMode::Player => "_player_ranges"@,
            ScreenshotMode::Enemy => "_enemy_ranges"@,
        },
        ShotKind::RunSummary => "run_summary"@,
        ShotKind::SetupSummary => "setup_summary"@,
        ShotKind::Compare => "compare"@,
    }
}

impl ShotKind {
    /// `image_name`: matchups are numbered from one.
    pub fn image_name(&self) -> (r: String)
        requires
            self matches ShotKind::Matchup { idx, .. } ==> idx < usize::MAX,
        ensures
            r@ == image_name_of(*self),
    {
        match self {
            ShotKind::EventList => String::from_str("event_list"),
            ShotKind::BattleSummary => String::from_str("battle_summary"),
            ShotKind::PlayerRanges => String::from_str("player_ranges"),
            ShotKind::EnemyRanges => String::from_str("enemy_ranges"),
            ShotKind::Matchup { idx, mode } => {
                let mut r = String::from_str("matchup_");
                r.append(u64_text((*idx + 1) as u64).as_str());
                match mode {
                    ScreenshotMode::Full => {
                        proof {
                            reveal_strlit("");
                            assert(r@ =~= r@ + ""@);
                        }
                    },
                    ScreenshotMode::Player => r.append("_player_ranges"),
                    ScreenshotMode::Enemy => r.append("_enemy_ranges"),
                }
                r
            },
            ShotKind::RunSummary => String::from_str("run_summary"),
            ShotKind::SetupSummary => String::from_str("setup_summary"),
            ShotKind::Compare => String::from_str("compare"),
        }
    }

    /// `battle_mode`: the layout of a battle summary kind.
    pub fn battle_mode(&self) -> (r: Option<ScreenshotMode>)
        ensures
            r == match *self {
                ShotKind::BattleSummary => Some(ScreenshotMode::Full),
                ShotKind::PlayerRanges => Some(ScreenshotMode::Player),
                ShotKind::EnemyRanges => Some(ScreenshotMode::Enemy),
                ShotKind::Matchup { mode, .. } => Some(mode),
                _ => None,
            },
    {
        match self {
            ShotKind::BattleSummary => Some(ScreenshotMode::Full),
            ShotKind::PlayerRanges => Some(ScreenshotMode::Player),
            ShotKind::EnemyRanges => Some(ScreenshotMode::Enemy),
            ShotKind::Matchup { mode, .. } => Some(*mode),
            _ => None,
        }
    }
}

pub open spec fn mode_suffix(mode: ScreenshotMode) -> Seq<char> {
    match mode {
        ScreenshotMode::Full => ""@,
        ScreenshotMode::Player => "_player_ranges"@,
        ScreenshotMode::Enemy => "_enemy_ranges"@,
    }
}

/// A number's digits followed by a suffix that is empty or starts with `_`
/// give back both the number and the suffix.
proof fn lemma_digits_then_suffix(a: nat, b: nat, sa: Seq<char>, sb: Seq<char>)
    requires
        decimal_digits(a) + sa == decimal_digits(b) + sb,
        sa.len() == 0 || sa[0] == '_',
        sb.len() == 0 || sb[0] == '_',
    ensures
        a == b,
        sa == sb,
{
    let da = decimal_digits(a);
    let db = decimal_digits(b);
    crate::text::lemma_decimal_digits_value(a);
    crate::text::lemma_decimal_digits_value(b);
    let x = da + sa;
    assert(x == db + sb);
    if da.len() < db.len() {
        assert(is_digit(db[da.len() as int]));
        if sa.len() == 0 {
            assert(x.len() == da.len());
        } else {
            assert(x[da.len() as int] == sa[0]);
            assert(x[da.len() as int] == db[da.len() as int]);
        }
        assert(false);
    } else if db.len() < da.len() {
        assert(is_digit(da[db.len() as int]));
        if sb.len() == 0 {
            assert(x.len() == db.len());
        } else {
            assert(x[db.len() as int] == sb[0]);
            assert(x[db.len() as int] == da[db.len() as int]);
        }
        assert(false);
    }
    assert(x.subrange(0, da.len() as int) =~= da);
    assert(x.subrange(0, db.len() as int) =~= db);
    crate::text::lemma_decimal_digits_injective(a, b);
    assert(x.subrange(da.len() as int, x.len() as int) =~= sa);
    assert(x.subrange(db.len() as int, x.len() as int) =~= sb);
}

/// Two different kinds of screenshot are never saved under the same name.
pub proof fn law_image_names_differ(a: ShotKind, b: ShotKind)
    requires
        a != b,
    ensures
        image_name_of(a) != image_name_of(b),
{
    reveal_strlit("event_list");
    reveal_strlit("battle_summary");
    reveal_strlit("player_ranges");
    reveal_strlit("enemy_ranges");
    reveal_strlit("matchup_");
    reveal_strlit("run_summary");
    reveal_strlit("setup_summary");
    reveal_strlit("compare");
    reveal_strlit("");
    reveal_strlit("_player_ranges");
    reveal_strlit("_enemy_ranges");
    let x = image_name_of(a);
    let y = image_name_of(b);
    if x == y {
        match (a, b) {
            (ShotKind::Matchup { idx: ia, mode: ma }, ShotKind::Matchup { idx: ib, mode: mb }) => {
                let p = "matchup_"@;
                assert(x == p + (decimal_digits((ia + 1) as nat) + mode_suffix(ma)));
                assert(y == p + (decimal_digits((ib + 1) as nat) + mode_suffix(mb)));
                assert(x.subrange(8, x.len() as int) =~= decimal_digits((ia + 1) as nat) + mode_suffix(ma));
                assert(y.subrange(8, y.len() as int) =~= decimal_digits((ib + 1) as nat) + mode_suffix(mb));
                lemma_digits_then_suffix((ia + 1) as nat, (ib + 1) as nat, mode_suffix(ma), mode_suffix(mb));
                assert(mode_suffix(ma).len() == mode_suffix(mb).len());
                assert(ma == mb);
                assert(false);
            },
            (ShotKind::Matchup { idx, mode }, _) => {
                assert(x[0] == 'm');
                assert(y[0] == x[0]);
                assert(false);
            },
            (_, ShotKind::Matchup { idx, mode }) => {
                assert(y[0] == 'm');
                assert(y[0] == x[0]);
                assert(false);
            },
            _ => {
                assert(x.len() == y.len());
                assert(x[0] == y[0]);
                assert(x[1] == y[1]);
                assert(false);
            },
        }
    }
}

} // verus!
