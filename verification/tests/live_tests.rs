use fplx::live::{
    count_live_fixtures, find_current_gameweek, fixture_sides, live_stat_rows, live_stat_target, next_poll_secs,
    FixtureSides, FplBootstrapEvents, FplEvent, FplExplain, FplFixture, FplLiveElement, FplLiveResponse, FplLiveStats,
    LiveSyncSummary, PlayerTeam, TeamSide,
};

fn fixture(id: i32, started: Option<bool>, finished: Option<bool>, h: Option<i32>, a: Option<i32>) -> FplFixture {
    FplFixture {
        id,
        event: Some(3),
        kickoff_time: None,
        started,
        finished,
        team_h: h,
        team_a: a,
        team_h_score: None,
        team_a_score: None,
    }
}

fn stats(minutes: i32) -> FplLiveStats {
    FplLiveStats {
        minutes,
        goals_scored: 0,
        assists: 0,
        own_goals: 0,
        penalties_saved: 0,
        penalties_missed: 0,
        yellow_cards: 0,
        red_cards: 0,
        saves: 0,
        bonus: 0,
        bps: 0,
        defensive_contribution: 0,
    }
}

#[test]
fn current_gameweek_is_first_flagged() {
    let b = FplBootstrapEvents {
        events: vec![
            FplEvent { id: 1, is_current: false },
            FplEvent { id: 2, is_current: true },
            FplEvent { id: 3, is_current: true },
        ],
    };
    assert_eq!(find_current_gameweek(&b), Some(2));
    assert_eq!(find_current_gameweek(&FplBootstrapEvents { events: vec![] }), None);
}

#[test]
fn live_fixtures_are_started_not_finished() {
    let fs = [
        fixture(1, Some(true), Some(false), None, None),
        fixture(2, Some(true), Some(true), None, None),
        fixture(3, Some(true), None, None, None),
        fixture(4, None, None, None, None),
    ];
    assert_eq!(count_live_fixtures(&fs), 2);
}

#[test]
fn sides_need_both_clubs() {
    let fs = [fixture(1, None, None, Some(5), Some(6)), fixture(2, None, None, Some(5), None)];
    let sides = fixture_sides(&fs);
    assert_eq!(sides.len(), 1);
    assert_eq!((sides[0].fixture_id, sides[0].home_team_id, sides[0].away_team_id), (1, 5, 6));
}

fn element(id: i32, fixtures: &[i32]) -> FplLiveElement {
    FplLiveElement { id, stats: stats(90), explain: fixtures.iter().map(|&f| FplExplain { fixture: f }).collect() }
}

#[test]
fn stat_targets() {
    let teams = [PlayerTeam { player_id: 10, team_id: 5 }, PlayerTeam { player_id: 11, team_id: 6 }, PlayerTeam { player_id: 12, team_id: 7 }];
    let sides = [FixtureSides { fixture_id: 1, home_team_id: 5, away_team_id: 6 }];
    assert!(live_stat_target(&element(10, &[1]), &teams, &sides) == Some((1, TeamSide::Home)));
    assert!(live_stat_target(&element(11, &[1, 9]), &teams, &sides) == Some((1, TeamSide::Away)));
    assert!(live_stat_target(&element(12, &[1]), &teams, &sides).is_none());
    assert!(live_stat_target(&element(10, &[]), &teams, &sides).is_none());
    assert!(live_stat_target(&element(99, &[1]), &teams, &sides).is_none());
    assert!(live_stat_target(&element(10, &[2]), &teams, &sides).is_none());
    let live = FplLiveResponse { elements: vec![element(10, &[1]), element(12, &[1]), element(11, &[1])] };
    let rows = live_stat_rows(&live, &teams, &sides);
    assert_eq!(rows.len(), 2);
    assert_eq!(rows[1].player_id, 11);
    assert!(rows[1].team_side == TeamSide::Away);
    assert_eq!(rows[0].stats.minutes, 90);
    assert_eq!(TeamSide::Home.code(), "h");
    assert_eq!(TeamSide::Away.code(), "a");
}

#[test]
fn polling_interval() {
    let live = LiveSyncSummary { gameweek: 1, fixtures_live: 2, players_scored: 30 };
    let idle = LiveSyncSummary { gameweek: 1, fixtures_live: 0, players_scored: 30 };
    assert_eq!(next_poll_secs(Some(&live)), 60);
    assert_eq!(next_poll_secs(Some(&idle)), 900);
    assert_eq!(next_poll_secs(None), 900);
}
