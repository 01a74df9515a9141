//! Fantasy Premier League scoring of one player's single-fixture stat line.
use vstd::prelude::*;
use vstd::string::*;

verus! {

/// FPL element type of a goalkeeper.
pub const GK: i32 = 1;
/// FPL element type of a defender.
pub const DEF: i32 = 2;
/// FPL element type of a midfielder.
pub const MID: i32 = 3;
/// FPL element type of a forward.
pub const FWD: i32 = 4;

/// One player's stat line for one fixture. `position` is the FPL element
/// type: 1 = GK, 2 = DEF, 3 = MID, 4 = FWD.
pub struct FixtureStatLine {
    pub position: i32,
    pub minutes: i32,
    pub goals: i32,
    pub assists: i32,
    pub own_goals: i32,
    pub penalties_saved: i32,
    pub penalties_missed: i32,
    pub yellow_cards: i32,
    pub red_cards: i32,
    pub saves: i32,
    pub bonus: i32,
    pub defensive_contribution: i32,
    pub goals_conceded: i32,
}

/// Integer division rounding toward zero, as Rust's `/` on signed integers.
pub open spec fn div_toward_zero(a: int, d: int) -> int {
    if a >= 0 {
        a / d
    } else {
        -((-a) / d)
    }
}

/// 2 points for 60+ minutes, 1 for any shorter appearance.
pub open spec fn appearance_points(minutes: int) -> int {
    if minutes >= 60 {
        2
    } else if minutes > 0 {
        1
    } else {
        0
    }
}

/// Points per goal: 6 for goalkeepers and defenders, 5 for midfielders,
/// 4 for everyone else.
pub open spec fn goal_value(position: int) -> int {
    if position == GK || position == DEF {
        6
    } else if position == MID {
        5
    } else {
        4
    }
}

/// Clean-sheet points: only with 60+ minutes and nothing conceded.
pub open spec fn clean_sheet_points(s: FixtureStatLine) -> int {
    if s.minutes >= 60 && s.goals_conceded == 0 {
        if s.position == GK || s.position == DEF {
            4
        } else if s.position == MID {
            1
        } else {
            0
        }
    } else {
        0
    }
}

/// Goalkeepers and defenders with 60+ minutes lose a point per two goals
/// conceded.
pub open spec fn conceded_deduction(s: FixtureStatLine) -> int {
    if s.minutes >= 60 && (s.position == GK || s.position == DEF) {
        div_toward_zero(s.goals_conceded as int, 2)
    } else {
        0
    }
}

/// Goalkeepers get a point per three saves.
pub open spec fn save_points(s: FixtureStatLine) -> int {
    if s.position == GK {
        div_toward_zero(s.saves as int, 3)
    } else {
        0
    }
}

/// Defensive-contribution threshold: 10 for defenders, 12 for midfielders and
/// forwards, none for goalkeepers (or unknown positions).
pub open spec fn dc_threshold(position: int) -> Option<int> {
    if position == DEF {
        Some(10)
    } else if position == MID || position == FWD {
        Some(12)
    } else {
        None
    }
}

/// 2 points once the defensive-contribution threshold is reached.
pub open spec fn dc_points(s: FixtureStatLine) -> int {
    match dc_threshold(s.position as int) {
        Some(t) => if s.defensive_contribution >= t {
            2
        } else {
            0
        },
        None => 0,
    }
}

/// The contributions to a stat line's score, in the order the rules apply
/// them.
pub open spec fn score_terms(s: FixtureStatLine) -> Seq<int> {
    seq![
        appearance_points(s.minutes as int),
        s.goals * goal_value(s.position as int),
        s.assists * 3,
        clean_sheet_points(s),
        -conceded_deduction(s),
        save_points(s),
        dc_points(s),
        s.penalties_saved * 5,
        -(s.penalties_missed * 2),
        -(s.yellow_cards as int),
        -(s.red_cards * 3),
        -(s.own_goals * 2),
        s.bonus as int,
    ]
}

/// Sum of the first `k` elements of `s`.
pub open spec fn prefix_sum(s: Seq<int>, k: int) -> int
    decreases k,
{
    if k <= 0 {
        0
    } else {
        prefix_sum(s, k - 1) + s[k - 1]
    }
}

/// The FPL score of a stat line.
pub open spec fn fixture_points(s: FixtureStatLine) -> int {
    prefix_sum(score_terms(s), 13)
}

pub open spec fn fits_i32(x: int) -> bool {
    i32::MIN <= x <= i32::MAX
}

/// Every product and every running total that the scoring computes fits an
/// `i32`, so the computation does not overflow.
pub open spec fn stat_line_fits(s: FixtureStatLine) -> bool {
    &&& fits_i32(s.goals * goal_value(s.position as int))
    &&& fits_i32(s.assists * 3)
    &&& fits_i32(s.penalties_saved * 5)
    &&& fits_i32(s.penalties_missed * 2)
    &&& fits_i32(s.red_cards * 3)
    &&& fits_i32(s.own_goals * 2)
    &&& forall|k: int| 1 <= k <= 13 ==> fits_i32(#[trigger] prefix_sum(score_terms(s), k))
}

/// Current Fantasy Premier League scoring rules, applied to one player's
/// single-fixture stat line.
pub fn calculate_points(s: &FixtureStatLine) -> (pts: i32)
    requires
        stat_line_fits(*s),
    ensures
        pts == fixture_points(*s),
{
    let ghost t = score_terms(*s);
    assert(prefix_sum(t, 1) == t[0]) by {
        assert(prefix_sum(t, 0) == 0);
    }
    assert(fits_i32(prefix_sum(t, 2)));
    assert(fits_i32(prefix_sum(t, 3)));
    assert(fits_i32(prefix_sum(t, 4)));
    assert(fits_i32(prefix_sum(t, 5)));
    assert(fits_i32(prefix_sum(t, 6)));
    assert(fits_i32(prefix_sum(t, 7)));
    assert(fits_i32(prefix_sum(t, 8)));
    assert(fits_i32(prefix_sum(t, 9)));
    assert(fits_i32(prefix_sum(t, 10)));
    assert(fits_i32(prefix_sum(t, 11)));
    assert(fits_i32(prefix_sum(t, 12)));
    assert(fits_i32(prefix_sum(t, 13)));

    let mut pts: i32 = 0;

    // Appearance
    if s.minutes >= 60 {
        pts += 2;
    } else if s.minutes > 0 {
        pts += 1;
    }
    assert(pts == prefix_sum(t, 1));

    // Goals scored
    let goal_mult: i32 = if s.position == GK || s.position == DEF {
        6
    } else if s.position == MID {
        5
    } else {
        4
    };
    pts += s.goals * goal_mult;
    assert(pts == prefix_sum(t, 2));

    // Assists
    pts += s.assists * 3;
    assert(pts == prefix_sum(t, 3));

    // Clean sheet (only counts with 60+ minutes played)
    if s.minutes >= 60 && s.goals_conceded == 0 {
        if s.position == GK || s.position == DEF {
            pts += 4;
        } else if s.position == MID {
            pts += 1;
        }
    }
    assert(pts == prefix_sum(t, 4));

    // Goals conceded penalty: GK/DEF only, -1 per 2 conceded, needs 60+ minutes
    if s.minutes >= 60 && (s.position == GK || s.position == DEF) {
        pts -= s.goals_conceded / 2;
    }
    assert(pts == prefix_sum(t, 5));

    // Saves: GK only, 1pt per 3 saves
    if s.position == GK {
        pts += s.saves / 3;
    }
    assert(pts == prefix_sum(t, 6));

    // Defensive contribution threshold
    let dc_threshold: Option<i32> = if s.position == DEF {
        Some(10)
    } else if s.position == MID || s.position == FWD {
        Some(12)
    } else {
        None
    };
    if let Some(threshold) = dc_threshold {
        if s.defensive_contribution >= threshold {
            pts += 2;
        }
    }
    assert(pts == prefix_sum(t, 7));

    // Penalties
    pts += s.penalties_saved * 5;
    assert(pts == prefix_sum(t, 8));
    pts -= s.penalties_missed * 2;
    assert(pts == prefix_sum(t, 9));

    // Cards
    pts -= s.yellow_cards;
    assert(pts == prefix_sum(t, 10));
    pts -= s.red_cards * 3;
    assert(pts == prefix_sum(t, 11));

    // Own goals
    pts -= s.own_goals * 2;
    assert(pts == prefix_sum(t, 12));

    // Bonus, as resolved by FPL from BPS
    pts += s.bonus;
    assert(pts == prefix_sum(t, 13));

    pts
}

/// Whether scoring a stat line stays within `i32`.
pub fn stat_line_in_range(s: &FixtureStatLine) -> (r: bool)
    ensures
        r == stat_line_fits(*s),
{
    let mult: i64 = if s.position == GK || s.position == DEF {
        6
    } else if s.position == MID {
        5
    } else {
        4
    };
    let goals = s.goals as i64 * mult;
    let assists = s.assists as i64 * 3;
    let pens_saved = s.penalties_saved as i64 * 5;
    let pens_missed = s.penalties_missed as i64 * 2;
    let reds = s.red_cards as i64 * 3;
    let own_goals = s.own_goals as i64 * 2;
    let products_fit = i32::MIN as i64 <= goals && goals <= i32::MAX as i64
        && i32::MIN as i64 <= assists && assists <= i32::MAX as i64
        && i32::MIN as i64 <= pens_saved && pens_saved <= i32::MAX as i64
        && i32::MIN as i64 <= pens_missed && pens_missed <= i32::MAX as i64
        && i32::MIN as i64 <= reds && reds <= i32::MAX as i64
        && i32::MIN as i64 <= own_goals && own_goals <= i32::MAX as i64;
    let appearance: i64 = if s.minutes >= 60 {
        2
    } else if s.minutes > 0 {
        1
    } else {
        0
    };
    let clean_sheet: i64 = if s.minutes >= 60 && s.goals_conceded == 0 {
        if s.position == GK || s.position == DEF {
            4
        } else if s.position == MID {
            1
        } else {
            0
        }
    } else {
        0
    };
    let conceded: i64 = if s.minutes >= 60 && (s.position == GK || s.position == DEF) {
        (s.goals_conceded / 2) as i64
    } else {
        0
    };
    let saves: i64 = if s.position == GK {
        (s.saves / 3) as i64
    } else {
        0
    };
    let dc: i64 = if s.position == DEF {
        if s.defensive_contribution >= 10 {
            2
        } else {
            0
        }
    } else if s.position == MID || s.position == FWD {
        if s.defensive_contribution >= 12 {
            2
        } else {
            0
        }
    } else {
        0
    };
    let terms: [i64; 13] = [
        appearance,
        goals,
        assists,
        clean_sheet,
        -conceded,
        saves,
        dc,
        pens_saved,
        -pens_missed,
        -(s.yellow_cards as i64),
        -reds,
        -own_goals,
        s.bonus as i64,
    ];
    let ghost t = score_terms(*s);
    assert(terms@ =~= t.map_values(|x: int| x as i64));
    let mut sum: i128 = 0;
    let mut ok = true;
    let mut k: usize = 0;
    assert(prefix_sum(t, 0) == 0);
    while k < 13
        invariant
            k <= 13,
            t == score_terms(*s),
            forall|j: int| 0 <= j < 13 ==> #[trigger] terms@[j] == t[j],
            sum == prefix_sum(t, k as int),
            -0x8000_0000_0000_0000 * (k as int) <= sum <= 0x8000_0000_0000_0000 * (k as int),
            ok == (forall|j: int| 1 <= j <= k ==> fits_i32(#[trigger] prefix_sum(t, j))),
        decreases 13 - k,
    {
        let term = terms[k];
        assert(term == t[k as int]);
        sum = sum + term as i128;
        assert(sum == prefix_sum(t, k as int + 1));
        let fits_now = i32::MIN as i128 <= sum && sum <= i32::MAX as i128;
        let ghost old_ok = ok;
        ok = ok && fits_now;
        proof {
            assert forall|j: int| 1 <= j <= k + 1 implies fits_i32(#[trigger] prefix_sum(t, j)) == (if j == k + 1 {
                fits_now
            } else {
                fits_i32(prefix_sum(t, j))
            }) by {}
            if old_ok && fits_now {
                assert forall|j: int| 1 <= j <= k + 1 implies fits_i32(#[trigger] prefix_sum(t, j)) by {
                    if j <= k {
                    }
                }
            }
        }
        k = k + 1;
    }
    products_fit && ok
}

/// The points of a stat line, or `None` when the scoring arithmetic would
/// leave the `i32` range.
pub fn try_calculate_points(s: &FixtureStatLine) -> (r: Option<i32>)
    ensures
        stat_line_fits(*s) ==> r == Some(fixture_points(*s) as i32),
        !stat_line_fits(*s) ==> r is None,
{
    if stat_line_in_range(s) {
        Some(calculate_points(s))
    } else {
        None
    }
}

/// A stored stat line with its player's position and the fixture's score.
pub struct MatchStatRow {
    pub id: i32,
    pub position: i32,
    /// "h" or "a": the side the player's club played on.
    pub team_side: Option<String>,
    pub minutes: Option<i32>,
    pub goals: Option<i32>,
    pub assists: Option<i32>,
    pub own_goals: Option<i32>,
    pub penalties_saved: Option<i32>,
    pub penalties_missed: Option<i32>,
    pub yellow_cards: Option<i32>,
    pub red_cards: Option<i32>,
    pub saves: Option<i32>,
    pub bonus: Option<i32>,
    pub defensive_contribution: Option<i32>,
    pub home_score: Option<i32>,
    pub away_score: Option<i32>,
}

pub open spec fn or_zero(x: Option<i32>) -> i32 {
    match x {
        Some(v) => v,
        None => 0,
    }
}

/// Goals the player's club conceded: the away score for the home side
/// ("h"), the home score otherwise; an unknown score counts as zero.
pub open spec fn conceded_by(row: MatchStatRow) -> i32 {
    if row.team_side matches Some(side) && side@ == seq!['h'] {
        or_zero(row.away_score)
    } else {
        or_zero(row.home_score)
    }
}

/// The stat line a stored row scores: unknown counts read as zero.
pub open spec fn stat_line_of_row(row: MatchStatRow) -> FixtureStatLine {
    FixtureStatLine {
        position: row.position,
        minutes: or_zero(row.minutes),
        goals: or_zero(row.goals),
        assists: or_zero(row.assists),
        own_goals: or_zero(row.own_goals),
        penalties_saved: or_zero(row.penalties_saved),
        penalties_missed: or_zero(row.penalties_missed),
        yellow_cards: or_zero(row.yellow_cards),
        red_cards: or_zero(row.red_cards),
        saves: or_zero(row.saves),
        bonus: or_zero(row.bonus),
        defensive_contribution: or_zero(row.defensive_contribution),
        goals_conceded: conceded_by(row),
    }
}

fn zero_if_none(x: Option<i32>) -> (v: i32)
    ensures
        v == or_zero(x),
{
    match x {
        Some(v) => v,
        None => 0,
    }
}

/// The stat line a stored row scores.
pub fn stat_line_for_row(row: &MatchStatRow) -> (s: FixtureStatLine)
    ensures
        s == stat_line_of_row(*row),
{
    proof {
        reveal_strlit("h");
        assert("h"@ =~= seq!['h']);
    }
    let is_home = match &row.team_side {
        Some(side) => crate::text::text_equals(side.as_str(), "h"),
        None => false,
    };
    let goals_conceded = if is_home {
        zero_if_none(row.away_score)
    } else {
        zero_if_none(row.home_score)
    };
    FixtureStatLine {
        position: row.position,
        minutes: zero_if_none(row.minutes),
        goals: zero_if_none(row.goals),
        assists: zero_if_none(row.assists),
        own_goals: zero_if_none(row.own_goals),
        penalties_saved: zero_if_none(row.penalties_saved),
        penalties_missed: zero_if_none(row.penalties_missed),
        yellow_cards: zero_if_none(row.yellow_cards),
        red_cards: zero_if_none(row.red_cards),
        saves: zero_if_none(row.saves),
        bonus: zero_if_none(row.bonus),
        defensive_contribution: zero_if_none(row.defensive_contribution),
        goals_conceded,
    }
}

// ---------------------------------------------------------------------------
// Laws
// ---------------------------------------------------------------------------

/// The same stat line with `c` goals conceded.
pub open spec fn with_conceded(s: FixtureStatLine, c: i32) -> FixtureStatLine {
    FixtureStatLine {
        position: s.position,
        minutes: s.minutes,
        goals: s.goals,
        assists: s.assists,
        own_goals: s.own_goals,
        penalties_saved: s.penalties_saved,
        penalties_missed: s.penalties_missed,
        yellow_cards: s.yellow_cards,
        red_cards: s.red_cards,
        saves: s.saves,
        bonus: s.bonus,
        defensive_contribution: s.defensive_contribution,
        goals_conceded: c,
    }
}

/// Goals conceded, for a goalkeeper or defender who played 60 minutes or
/// more: conceding the first goal loses the 4-point clean sheet and nothing
/// else, and once at least one goal is conceded, every two further goals
/// cost exactly one point.
pub proof fn lemma_goals_conceded(s: FixtureStatLine)
    requires
        s.position == 1 || s.position == 2,
        s.minutes >= 60,
        1 <= s.goals_conceded <= i32::MAX - 2,
    ensures
        fixture_points(with_conceded(s, (s.goals_conceded + 2) as i32)) == fixture_points(s) - 1,
        fixture_points(with_conceded(s, 1)) == fixture_points(with_conceded(s, 0)) - 4,
{
    reveal_with_fuel(prefix_sum, 14);
    let c = s.goals_conceded as int;
    assert(div_toward_zero(c + 2, 2) == div_toward_zero(c, 2) + 1);
    assert(with_conceded(s, s.goals_conceded) == s);
}

/// One more goal is worth 6 points to a goalkeeper or defender, 5 to a
/// midfielder and 4 to a forward; one more assist is worth 3.
pub proof fn lemma_goals_and_assists(s: FixtureStatLine)
    requires
        1 <= s.position <= 4,
        s.goals < i32::MAX,
        s.assists < i32::MAX,
    ensures
        fixture_points(FixtureStatLine { goals: (s.goals + 1) as i32, ..s }) == fixture_points(s) + if s.position
            <= 2 {
            6int
        } else if s.position == 3 {
            5int
        } else {
            4int
        },
        fixture_points(FixtureStatLine { assists: (s.assists + 1) as i32, ..s }) == fixture_points(s) + 3,
{
    reveal_with_fuel(prefix_sum, 14);
    let g = s.goals as int;
    assert((g + 1) * 6 == g * 6 + 6 && (g + 1) * 5 == g * 5 + 5 && (g + 1) * 4 == g * 4 + 4);
}

/// A saved penalty is worth 5 points, a missed penalty costs 2, a yellow card
/// 1, a red card 3 and an own goal 2; each bonus point is worth 1.
pub proof fn lemma_events(s: FixtureStatLine)
    requires
        s.penalties_saved < i32::MAX,
        s.penalties_missed < i32::MAX,
        s.yellow_cards < i32::MAX,
        s.red_cards < i32::MAX,
        s.own_goals < i32::MAX,
        s.bonus < i32::MAX,
    ensures
        fixture_points(FixtureStatLine { penalties_saved: (s.penalties_saved + 1) as i32, ..s }) == fixture_points(s)
            + 5,
        fixture_points(FixtureStatLine { penalties_missed: (s.penalties_missed + 1) as i32, ..s }) == fixture_points(s)
            - 2,
        fixture_points(FixtureStatLine { yellow_cards: (s.yellow_cards + 1) as i32, ..s }) == fixture_points(s) - 1,
        fixture_points(FixtureStatLine { red_cards: (s.red_cards + 1) as i32, ..s }) == fixture_points(s) - 3,
        fixture_points(FixtureStatLine { own_goals: (s.own_goals + 1) as i32, ..s }) == fixture_points(s) - 2,
        fixture_points(FixtureStatLine { bonus: (s.bonus + 1) as i32, ..s }) == fixture_points(s) + 1,
{
    reveal_with_fuel(prefix_sum, 14);
}

/// A goalkeeper earns a point for every three saves (from none); saves earn
/// nothing in any other position.
pub proof fn lemma_saves(s: FixtureStatLine)
    requires
        0 <= s.saves <= i32::MAX - 3,
    ensures
        s.position == 1 ==> fixture_points(FixtureStatLine { saves: (s.saves + 3) as i32, ..s }) == fixture_points(s)
            + 1,
        s.position == 1 && s.saves < 3 ==> fixture_points(FixtureStatLine { saves: 0, ..s }) == fixture_points(s),
        s.position != 1 ==> fixture_points(FixtureStatLine { saves: (s.saves + 3) as i32, ..s }) == fixture_points(
            s,
        ),
{
    reveal_with_fuel(prefix_sum, 14);
    let v = s.saves as int;
    assert(div_toward_zero(v + 3, 3) == div_toward_zero(v, 3) + 1);
}

/// Appearance: no minutes earn nothing for appearing, 1 to 59 minutes earn 1
/// point and 60 or more earn 2. Shown for a player who conceded, so that no
/// clean sheet is at stake: a midfielder or forward gains exactly 1 point at
/// 60 minutes over 59, and exactly 1 at 1 minute over 0.
pub proof fn lemma_appearance(s: FixtureStatLine)
    requires
        s.position == 3 || s.position == 4,
        s.goals_conceded >= 1,
    ensures
        fixture_points(FixtureStatLine { minutes: 60, ..s }) == fixture_points(FixtureStatLine { minutes: 59, ..s })
            + 1,
        fixture_points(FixtureStatLine { minutes: 1, ..s }) == fixture_points(FixtureStatLine { minutes: 0, ..s })
            + 1,
        fixture_points(FixtureStatLine { minutes: 90, ..s }) == fixture_points(FixtureStatLine { minutes: 60, ..s }),
        fixture_points(FixtureStatLine { minutes: 59, ..s }) == fixture_points(FixtureStatLine { minutes: 1, ..s }),
{
    reveal_with_fuel(prefix_sum, 14);
}

/// A clean sheet (60+ minutes, nothing conceded) is worth 4 points to a
/// goalkeeper or defender, 1 to a midfielder and nothing to a forward;
/// compared with conceding one goal, where no deduction applies yet.
pub proof fn lemma_clean_sheet(s: FixtureStatLine)
    requires
        1 <= s.position <= 4,
        s.minutes >= 60,
    ensures
        fixture_points(with_conceded(s, 0)) == fixture_points(with_conceded(s, 1)) + if s.position <= 2 {
            4int
        } else if s.position == 3 {
            1int
        } else {
            0int
        },
{
    reveal_with_fuel(prefix_sum, 14);
}

/// Defensive contributions earn 2 points once they reach 10 for a defender
/// or 12 for a midfielder or forward; a goalkeeper never earns them, and
/// contributions beyond the threshold earn nothing more.
pub proof fn lemma_defensive_contribution(s: FixtureStatLine)
    ensures
        s.position == 2 ==> fixture_points(FixtureStatLine { defensive_contribution: 10, ..s }) == fixture_points(
            FixtureStatLine { defensive_contribution: 9, ..s },
        ) + 2,
        s.position == 3 || s.position == 4 ==> fixture_points(FixtureStatLine { defensive_contribution: 12, ..s })
            == fixture_points(FixtureStatLine { defensive_contribution: 11, ..s }) + 2,
        s.position == 1 ==> fixture_points(FixtureStatLine { defensive_contribution: 100, ..s }) == fixture_points(
            FixtureStatLine { defensive_contribution: 0, ..s },
        ),
        2 <= s.position <= 4 ==> fixture_points(FixtureStatLine { defensive_contribution: 100, ..s })
            == fixture_points(FixtureStatLine { defensive_contribution: 12, ..s }),
        2 <= s.position <= 4 ==> fixture_points(FixtureStatLine { defensive_contribution: 0, ..s })
            == fixture_points(FixtureStatLine { defensive_contribution: 9, ..s }),
{
    reveal_with_fuel(prefix_sum, 14);
}

/// A player who did not play and has no other event scores nothing.
pub proof fn lemma_no_appearance(position: i32)
    ensures
        fixture_points(
            FixtureStatLine {
                position,
                minutes: 0,
                goals: 0,
                assists: 0,
                own_goals: 0,
                penalties_saved: 0,
                penalties_missed: 0,
                yellow_cards: 0,
                red_cards: 0,
                saves: 0,
                bonus: 0,
                defensive_contribution: 0,
                goals_conceded: 0,
            },
        ) == 0,
{
    reveal_with_fuel(prefix_sum, 14);
}

} // verus!
