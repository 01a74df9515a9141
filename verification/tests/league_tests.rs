use fplx::league::{
    check_campaign_join, check_derby_join, check_round_join, classify_create_league_failure, contest_kind,
    default_contest_type, generate_code, is_unique_violation, plan_join, plan_league, ContestEntry, ContestKind,
    CreateLeagueFailure, CreateLeagueRequest, FixtureTeams, JoinError, JoinPlan, LeagueError, LeagueRow,
};
use fplx::squad::{SquadError, SquadPlayerInfo};

fn request(league_type: &str, contest_type: &str, fixture_id: Option<i32>, gameweek: Option<i32>) -> CreateLeagueRequest {
    CreateLeagueRequest {
        league_name: "Friends".to_string(),
        league_type: league_type.to_string(),
        contest_type: contest_type.to_string(),
        fixture_id,
        gameweek,
    }
}

fn is_code(s: &str) -> bool {
    s.len() == 11 && s.starts_with("FPLX-") && s[5..].chars().all(|c| c.is_ascii_alphanumeric())
}

#[test]
fn contest_types_are_read() {
    assert!(contest_kind("campaign") == Some(ContestKind::Campaign));
    assert!(contest_kind("derby") == Some(ContestKind::Derby));
    assert!(contest_kind("round") == Some(ContestKind::Round));
    assert!(contest_kind("Round") == None);
    assert_eq!(default_contest_type(), "campaign");
}

#[test]
fn join_codes_have_their_shape() {
    let a = generate_code();
    assert!(is_code(&a));
}

#[test]
fn public_campaign_league() {
    let plan = plan_league(&request("public", "campaign", Some(3), Some(4))).ok().unwrap();
    assert!(plan.contest == ContestKind::Campaign);
    assert_eq!(plan.fixture_id, None);
    assert_eq!(plan.gameweek, None);
    assert!(plan.join_code.is_none());
    assert!(plan.creator_joins);
}

#[test]
fn private_derby_league() {
    let plan = plan_league(&request("private", "derby", Some(77), Some(4))).ok().unwrap();
    assert!(plan.contest == ContestKind::Derby);
    assert_eq!(plan.fixture_id, Some(77));
    assert_eq!(plan.gameweek, None);
    assert!(is_code(plan.join_code.as_deref().unwrap()));
    assert!(!plan.creator_joins);
}

#[test]
fn round_league_scoped_to_gameweek() {
    let plan = plan_league(&request("public", "round", None, Some(9))).ok().unwrap();
    assert_eq!(plan.gameweek, Some(9));
    assert_eq!(plan.fixture_id, None);
}

#[test]
fn league_refusals() {
    assert!(matches!(plan_league(&request("secret", "campaign", None, None)), Err(LeagueError::InvalidLeagueType)));
    assert!(matches!(plan_league(&request("public", "derby", None, None)), Err(LeagueError::MissingFixture)));
    assert!(matches!(plan_league(&request("public", "round", None, None)), Err(LeagueError::MissingGameweek)));
    match plan_league(&request("public", "cup", None, None)) {
        Err(LeagueError::UnknownContestType { contest_type }) => assert_eq!(contest_type, "cup"),
        _ => panic!("expected an unknown contest type"),
    }
}

#[test]
fn create_failures_are_classified() {
    let none: Option<Option<String>> = None;
    assert!(matches!(
        classify_create_league_failure("ERROR: Public league limit reached", &Some(None)),
        CreateLeagueFailure::PublicLimit
    ));
    assert!(matches!(classify_create_league_failure("Private league limit", &none), CreateLeagueFailure::PrivateLimit));
    assert!(matches!(
        classify_create_league_failure("duplicate key", &Some(Some("23505".to_string()))),
        CreateLeagueFailure::DuplicateName
    ));
    assert!(matches!(
        classify_create_league_failure("boom", &Some(Some("40001".to_string()))),
        CreateLeagueFailure::Database
    ));
    assert!(matches!(classify_create_league_failure("Invalid league type", &none), CreateLeagueFailure::Other));
    assert!(is_unique_violation(&Some("23505".to_string())));
    assert!(!is_unique_violation(&None));
}

fn league(league_type: &str, contest_type: &str, join_code: Option<&str>) -> LeagueRow {
    LeagueRow {
        id: 1,
        league_type: league_type.to_string(),
        contest_type: contest_type.to_string(),
        fixture_id: Some(55),
        gameweek: Some(6),
        join_code: join_code.map(|s| s.to_string()),
    }
}

fn entry() -> ContestEntry {
    ContestEntry { players: (1..=11).collect(), starting_ids: vec![], captain_id: 1, vice_captain_id: 7 }
}

#[test]
fn private_league_needs_its_code() {
    let l = league("private", "campaign", Some("FPLX-abc123"));
    assert!(matches!(plan_join(&l, &None, None), Err(JoinError::InvalidJoinCode)));
    assert!(matches!(plan_join(&l, &Some("FPLX-zzz".to_string()), None), Err(JoinError::InvalidJoinCode)));
    assert!(matches!(plan_join(&l, &Some("FPLX-abc123".to_string()), None), Ok(JoinPlan::Campaign)));
    let no_code = league("private", "campaign", None);
    assert!(matches!(plan_join(&no_code, &Some("x".to_string()), None), Err(JoinError::InvalidJoinCode)));
    let public = league("public", "campaign", None);
    assert!(matches!(plan_join(&public, &None, None), Ok(JoinPlan::Campaign)));
}

#[test]
fn entries_are_required_for_one_shot_contests() {
    let d = league("public", "derby", None);
    assert!(matches!(plan_join(&d, &None, None), Err(JoinError::EntryRequired { contest: ContestKind::Derby })));
    match plan_join(&d, &None, Some(entry())) {
        Ok(JoinPlan::Derby { fixture_id, entry }) => {
            assert_eq!(fixture_id, 55);
            assert_eq!(entry.players.len(), 11);
        },
        _ => panic!("expected a derby plan"),
    }
    let mut no_fixture = league("public", "derby", None);
    no_fixture.fixture_id = None;
    assert!(matches!(plan_join(&no_fixture, &None, Some(entry())), Err(JoinError::NoFixture)));
    let r = league("public", "round", None);
    assert!(matches!(plan_join(&r, &None, None), Err(JoinError::EntryRequired { contest: ContestKind::Round })));
    assert!(matches!(plan_join(&r, &None, Some(entry())), Ok(JoinPlan::Round { gameweek: 6, .. })));
    let mut no_gw = league("public", "round", None);
    no_gw.gameweek = None;
    assert!(matches!(plan_join(&no_gw, &None, Some(entry())), Err(JoinError::NoGameweek)));
    let other = league("public", "cup", None);
    assert!(matches!(plan_join(&other, &None, None), Err(JoinError::UnknownContestType { .. })));
}

#[test]
fn campaign_join_needs_a_squad() {
    assert!(matches!(check_campaign_join(false), Err(JoinError::NoSquad)));
    assert!(check_campaign_join(true).is_ok());
}

fn derby_info() -> Vec<SquadPlayerInfo> {
    (1..=11)
        .map(|id| SquadPlayerInfo { id, position: 3, team_id: if id <= 6 { 10 } else { 20 }, now_cost: 50 })
        .collect()
}

#[test]
fn derby_join_checks() {
    let fixture = FixtureTeams { home_team_id: Some(10), away_team_id: Some(20), started: Some(false) };
    assert!(check_derby_join(&fixture, &entry(), &derby_info()).is_ok());
    let started = FixtureTeams { started: Some(true), ..fixture };
    assert!(matches!(check_derby_join(&started, &entry(), &derby_info()), Err(JoinError::AlreadyKickedOff)));
    let no_home = FixtureTeams { home_team_id: None, away_team_id: Some(20), started: None };
    assert!(matches!(check_derby_join(&no_home, &entry(), &derby_info()), Err(JoinError::NoHomeTeam)));
    let no_away = FixtureTeams { home_team_id: Some(10), away_team_id: None, started: None };
    assert!(matches!(check_derby_join(&no_away, &entry(), &derby_info()), Err(JoinError::NoAwayTeam)));
    let other_clubs = FixtureTeams { home_team_id: Some(10), away_team_id: Some(30), started: None };
    assert!(matches!(
        check_derby_join(&other_clubs, &entry(), &derby_info()),
        Err(JoinError::Squad(SquadError::PlayerNotInFixture { player_id: 7 }))
    ));
    assert!(matches!(
        check_derby_join(&fixture, &entry(), &derby_info()[..10]),
        Err(JoinError::Squad(SquadError::UnknownPlayers))
    ));
}

#[test]
fn round_join_checks() {
    assert!(matches!(
        check_round_join(6, true, &entry(), &derby_info()),
        Err(JoinError::GameweekStarted { gameweek: 6 })
    ));
    let players: Vec<i32> = (1..=15).collect();
    let round = ContestEntry {
        players,
        starting_ids: vec![1, 3, 4, 5, 8, 9, 10, 11, 13, 14, 15],
        captain_id: 13,
        vice_captain_id: 8,
    };
    let info: Vec<SquadPlayerInfo> = (1..=15)
        .map(|id| SquadPlayerInfo {
            id,
            position: match id {
                1..=2 => 1,
                3..=7 => 2,
                8..=12 => 3,
                _ => 4,
            },
            team_id: id % 5 + 1,
            now_cost: 60,
        })
        .collect();
    assert!(check_round_join(6, false, &round, &info).is_ok());
    assert!(matches!(
        check_round_join(6, false, &round, &info[..14]),
        Err(JoinError::Squad(SquadError::UnknownPlayers))
    ));
    let repeated = ContestEntry {
        players: (1..=15).collect(),
        starting_ids: vec![1, 3, 4, 5, 8, 9, 10, 11, 13, 14, 15, 13],
        captain_id: 13,
        vice_captain_id: 8,
    };
    assert!(matches!(
        check_round_join(6, false, &repeated, &info),
        Err(JoinError::Squad(SquadError::WrongStartingSize { required: 11 }))
    ));
}
