//! Live data from the official FPL feed: the current gameweek, fixtures in
//! play, which fixture and side each live stat line belongs to, and how
//! often to poll.
use vstd::prelude::*;
use crate::seqs::lemma_take_succ;
use vstd::string::*;

verus! {

/// A gameweek of the FPL bootstrap feed.
#[derive(Clone, Copy)]
pub struct FplEvent {
    pub id: i32,
    pub is_current: bool,
}

pub struct FplBootstrapEvents {
    pub events: Vec<FplEvent>,
}

/// A fixture of the FPL feed. `kickoff_time` is in milliseconds since the
/// Unix epoch (UTC).
#[derive(Clone, Copy)]
pub struct FplFixture {
    pub id: i32,
    pub event: Option<i32>,
    pub kickoff_time: Option<i64>,
    pub started: Option<bool>,
    pub finished: Option<bool>,
    pub team_h: Option<i32>,
    pub team_a: Option<i32>,
    pub team_h_score: Option<i32>,
    pub team_a_score: Option<i32>,
}

/// A player's live stats in the current gameweek.
#[derive(Clone, Copy)]
pub struct FplLiveStats {
    pub minutes: i32,
    pub goals_scored: i32,
    pub assists: i32,
    pub own_goals: i32,
    pub penalties_saved: i32,
    pub penalties_missed: i32,
    pub yellow_cards: i32,
    pub red_cards: i32,
    pub saves: i32,
    pub bonus: i32,
    pub bps: i32,
    pub defensive_contribution: i32,
}

/// Which fixture a part of a live stat line comes from.
#[derive(Clone, Copy)]
pub struct FplExplain {
    pub fixture: i32,
}

pub struct FplLiveElement {
    pub id: i32,
    pub stats: FplLiveStats,
    pub explain: Vec<FplExplain>,
}

pub struct FplLiveResponse {
    pub elements: Vec<FplLiveElement>,
}

/// The first gameweek flagged current.
pub open spec fn current_event_from(events: Seq<FplEvent>, i: int) -> Option<i32>
    decreases events.len() - i,
{
    if i < 0 || i >= events.len() {
        None
    } else if events[i].is_current {
        Some(events[i].id)
    } else {
        current_event_from(events, i + 1)
    }
}

/// The current gameweek: the first event flagged current, `None` off-season.
pub fn find_current_gameweek(bootstrap: &FplBootstrapEvents) -> (r: Option<i32>)
    ensures
        r == current_event_from(bootstrap.events@, 0),
{
    let mut i: usize = 0;
    while i < bootstrap.events.len()
        invariant
            i <= bootstrap.events@.len(),
            current_event_from(bootstrap.events@, 0) == current_event_from(bootstrap.events@, i as int),
        decreases bootstrap.events.len() - i,
    {
        if bootstrap.events[i].is_current {
            return Some(bootstrap.events[i].id);
        }
        i = i + 1;
    }
    None
}

/// A fixture is in play when it has started and not finished (unknown
/// counts as no).
pub open spec fn in_play(f: FplFixture) -> bool {
    f.started == Some(true) && f.finished != Some(true)
}

pub open spec fn in_play_count(s: Seq<FplFixture>) -> nat
    decreases s.len(),
{
    if s.len() == 0 {
        0
    } else {
        in_play_count(s.drop_last()) + if in_play(s.last()) {
            1nat
        } else {
            0nat
        }
    }
}

/// Number of fixtures in play.
pub fn count_live_fixtures(fixtures: &[FplFixture]) -> (n: usize)
    ensures
        n == in_play_count(fixtures@),
{
    let mut n: usize = 0;
    let mut i: usize = 0;
    while i < fixtures.len()
        invariant
            i <= fixtures@.len(),
            n == in_play_count(fixtures@.take(i as int)),
            n <= i,
        decreases fixtures.len() - i,
    {
        proof {
            lemma_take_succ(fixtures@, i as int);
        }
        let f = fixtures[i];
        let started = match f.started {
            Some(b) => b,
            None => false,
        };
        let finished = match f.finished {
            Some(b) => b,
            None => false,
        };
        if started && !finished {
            n = n + 1;
        }
        i = i + 1;
    }
    assert(fixtures@.take(i as int) =~= fixtures@);
    n
}

/// The two clubs of a fixture.
#[derive(Clone, Copy)]
pub struct FixtureSides {
    pub fixture_id: i32,
    pub home_team_id: i32,
    pub away_team_id: i32,
}

/// The fixtures with both clubs known, in order.
pub open spec fn sides_of(s: Seq<FplFixture>) -> Seq<FixtureSides>
    decreases s.len(),
{
    if s.len() == 0 {
        Seq::empty()
    } else {
        match (s.last().team_h, s.last().team_a) {
            (Some(h), Some(a)) => sides_of(s.drop_last()).push(
                FixtureSides { fixture_id: s.last().id, home_team_id: h, away_team_id: a },
            ),
            _ => sides_of(s.drop_last()),
        }
    }
}

/// The clubs of every fixture whose clubs are both known.
pub fn fixture_sides(fixtures: &[FplFixture]) -> (r: Vec<FixtureSides>)
    ensures
        r@ == sides_of(fixtures@),
{
    let mut r: Vec<FixtureSides> = Vec::new();
    let mut i: usize = 0;
    while i < fixtures.len()
        invariant
            i <= fixtures@.len(),
            r@ == sides_of(fixtures@.take(i as int)),
        decreases fixtures.len() - i,
    {
        proof {
            lemma_take_succ(fixtures@, i as int);
        }
        let f = fixtures[i];
        match (f.team_h, f.team_a) {
            (Some(h), Some(a)) => {
                r.push(FixtureSides { fixture_id: f.id, home_team_id: h, away_team_id: a });
            },
            _ => {},
        }
        i = i + 1;
    }
    assert(fixtures@.take(i as int) =~= fixtures@);
    r
}

/// A player's club.
#[derive(Clone, Copy)]
pub struct PlayerTeam {
    pub player_id: i32,
    pub team_id: i32,
}

/// The last club recorded for a player.
pub open spec fn team_of(s: Seq<PlayerTeam>, player_id: i32) -> Option<i32>
    decreases s.len(),
{
    if s.len() == 0 {
        None
    } else if s.last().player_id == player_id {
        Some(s.last().team_id)
    } else {
        team_of(s.drop_last(), player_id)
    }
}

/// The last clubs recorded for a fixture.
pub open spec fn sides_for(s: Seq<FixtureSides>, fixture_id: i32) -> Option<FixtureSides>
    decreases s.len(),
{
    if s.len() == 0 {
        None
    } else if s.last().fixture_id == fixture_id {
        Some(s.last())
    } else {
        sides_for(s.drop_last(), fixture_id)
    }
}

/// Which side of a fixture a club played on: "h" or "a".
#[derive(PartialEq, Eq, Structural, Clone, Copy)]
pub enum TeamSide {
    Home,
    Away,
}

pub open spec fn home_code() -> Seq<char> {
    seq!['h']
}

pub open spec fn away_code() -> Seq<char> {
    seq!['a']
}

impl TeamSide {
    /// How a side is stored: "h" or "a".
    pub fn code(&self) -> (s: String)
        ensures
            s@ == match self {
                TeamSide::Home => home_code(),
                TeamSide::Away => away_code(),
            },
    {
        proof {
            reveal_strlit("h");
            reveal_strlit("a");
            assert("h"@ =~= home_code());
            assert("a"@ =~= away_code());
        }
        match self {
            TeamSide::Home => String::from_str("h"),
            TeamSide::Away => String::from_str("a"),
        }
    }
}

/// Where a live stat line is stored: the fixture of its first explained part,
/// and the side of the player's club in it. `None` (the line is skipped)
/// when the player has no explained part yet, has no known club, the fixture
/// has no known clubs, or the player's club is neither of them.
pub open spec fn stat_target(
    explain: Seq<FplExplain>,
    player_id: i32,
    teams: Seq<PlayerTeam>,
    sides: Seq<FixtureSides>,
) -> Option<(i32, TeamSide)> {
    if explain.len() == 0 {
        None
    } else {
        let fixture_id = explain[0].fixture;
        match (team_of(teams, player_id), sides_for(sides, fixture_id)) {
            (Some(team), Some(fs)) => if team == fs.home_team_id {
                Some((fixture_id, TeamSide::Home))
            } else if team == fs.away_team_id {
                Some((fixture_id, TeamSide::Away))
            } else {
                None
            },
            _ => None,
        }
    }
}

fn find_team(teams: &[PlayerTeam], player_id: i32) -> (r: Option<i32>)
    ensures
        r == team_of(teams@, player_id),
{
    let mut found: Option<i32> = None;
    let mut i: usize = 0;
    while i < teams.len()
        invariant
            i <= teams@.len(),
            found == team_of(teams@.take(i as int), player_id),
        decreases teams.len() - i,
    {
        proof {
            lemma_take_succ(teams@, i as int);
        }
        if teams[i].player_id == player_id {
            found = Some(teams[i].team_id);
        }
        i = i + 1;
    }
    assert(teams@.take(i as int) =~= teams@);
    found
}

fn find_sides(sides: &[FixtureSides], fixture_id: i32) -> (r: Option<FixtureSides>)
    ensures
        r == sides_for(sides@, fixture_id),
{
    let mut found: Option<FixtureSides> = None;
    let mut i: usize = 0;
    while i < sides.len()
        invariant
            i <= sides@.len(),
            found == sides_for(sides@.take(i as int), fixture_id),
        decreases sides.len() - i,
    {
        proof {
            lemma_take_succ(sides@, i as int);
        }
        if sides[i].fixture_id == fixture_id {
            found = Some(sides[i]);
        }
        i = i + 1;
    }
    assert(sides@.take(i as int) =~= sides@);
    found
}

/// Where a live stat line is stored (see `stat_target`).
pub fn live_stat_target(
    element: &FplLiveElement,
    teams: &[PlayerTeam],
    sides: &[FixtureSides],
) -> (r: Option<(i32, TeamSide)>)
    ensures
        r == stat_target(element.explain@, element.id, teams@, sides@),
{
    if element.explain.len() == 0 {
        return None;
    }
    let fixture_id = element.explain[0].fixture;
    let team = match find_team(teams, element.id) {
        Some(t) => t,
        None => {
            return None;
        },
    };
    let fs = match find_sides(sides, fixture_id) {
        Some(fs) => fs,
        None => {
            return None;
        },
    };
    if team == fs.home_team_id {
        Some((fixture_id, TeamSide::Home))
    } else if team == fs.away_team_id {
        Some((fixture_id, TeamSide::Away))
    } else {
        None
    }
}

/// A live stat line to store.
pub struct LiveStatRow {
    pub fixture_id: i32,
    pub player_id: i32,
    pub team_side: TeamSide,
    pub stats: FplLiveStats,
}

/// The stat lines to store, in feed order, skipping those without a target.
pub open spec fn stat_rows(
    elements: Seq<FplLiveElement>,
    teams: Seq<PlayerTeam>,
    sides: Seq<FixtureSides>,
) -> Seq<LiveStatRow>
    decreases elements.len(),
{
    if elements.len() == 0 {
        Seq::empty()
    } else {
        let el = elements.last();
        match stat_target(el.explain@, el.id, teams, sides) {
            Some((fixture_id, side)) => stat_rows(elements.drop_last(), teams, sides).push(
                LiveStatRow { fixture_id, player_id: el.id, team_side: side, stats: el.stats },
            ),
            None => stat_rows(elements.drop_last(), teams, sides),
        }
    }
}

/// The live stat lines to store from a live feed.
pub fn live_stat_rows(
    live: &FplLiveResponse,
    teams: &[PlayerTeam],
    sides: &[FixtureSides],
) -> (r: Vec<LiveStatRow>)
    ensures
        r@ == stat_rows(live.elements@, teams@, sides@),
{
    let mut r: Vec<LiveStatRow> = Vec::new();
    let mut i: usize = 0;
    while i < live.elements.len()
        invariant
            i <= live.elements@.len(),
            r@ == stat_rows(live.elements@.take(i as int), teams@, sides@),
        decreases live.elements.len() - i,
    {
        proof {
            lemma_take_succ(live.elements@, i as int);
        }
        let el = &live.elements[i];
        match live_stat_target(el, teams, sides) {
            Some((fixture_id, team_side)) => {
                r.push(LiveStatRow { fixture_id, player_id: el.id, team_side, stats: el.stats });
            },
            None => {},
        }
        i = i + 1;
    }
    assert(live.elements@.take(i as int) =~= live.elements@);
    r
}

/// What one live sync did.
pub struct LiveSyncSummary {
    pub gameweek: i32,
    pub fixtures_live: usize,
    pub players_scored: usize,
}

/// Seconds between polls while a fixture is in play.
pub const LIVE_POLL_SECS: u64 = 60;
/// Seconds between polls otherwise, or after a failed sync.
pub const IDLE_POLL_SECS: u64 = 900;

/// How long to wait before the next live sync: a minute after a sync that
/// found a fixture in play, fifteen minutes after any other sync or a
/// failure (`None`).
pub fn next_poll_secs(outcome: Option<&LiveSyncSummary>) -> (secs: u64)
    ensures
        secs == match outcome {
            Some(s) => if s.fixtures_live > 0 {
                60u64
            } else {
                900u64
            },
            None => 900u64,
        },
{
    match outcome {
        Some(s) => if s.fixtures_live > 0 {
            LIVE_POLL_SECS
        } else {
            IDLE_POLL_SECS
        },
        None => IDLE_POLL_SECS,
    }
}

} // verus!
