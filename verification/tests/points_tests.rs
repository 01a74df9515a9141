use fplx::league::{ContestEntry, LeagueRow};
use fplx::points::{
    campaign_standing, derby_entry_points, leaderboard_scope, rank_leaderboard, round_entry_points, standings, team_points, LeaderboardEntry,
    LeaderboardScope, PlayerScore, SquadPointsRow,
};
use uuid::Uuid;

fn row(player_id: i32, points: Option<i32>, is_starting: bool) -> SquadPointsRow {
    SquadPointsRow {
        player_id,
        first_name: format!("F{}", player_id),
        second_name: format!("S{}", player_id),
        position: 3,
        points,
        is_starting,
    }
}

fn rows() -> Vec<SquadPointsRow> {
    vec![row(1, Some(5), true), row(2, Some(7), true), row(3, None, true), row(4, Some(9), false)]
}

#[test]
fn captain_points_count_twice() {
    let id = Uuid::from_u128(7);
    let tp = team_points(id, 3, 2, 1, rows(), 90, 90, 4).unwrap();
    assert_eq!(tp.team_id, id);
    assert_eq!(tp.gameweek, 3);
    assert_eq!(tp.gross_points, 5 + 7 + 7);
    assert_eq!(tp.points_hit, 4);
    assert_eq!(tp.total_points, 15);
    assert_eq!(tp.players.len(), 4);
    assert!(tp.players[1].is_captain && tp.players[0].is_vice_captain);
    assert_eq!(tp.players[2].points, 0);
    assert_eq!(tp.players[3].first_name, "F4");
    assert!(!tp.players[3].is_starting);
}

#[test]
fn vice_captain_steps_in() {
    let tp = team_points(Uuid::nil(), 3, 2, 1, rows(), 0, 45, 0).unwrap();
    assert_eq!(tp.gross_points, 12 + 5);
    let none = team_points(Uuid::nil(), 3, 2, 1, rows(), 0, 0, 0).unwrap();
    assert_eq!(none.gross_points, 12);
}

#[test]
fn bench_points_do_not_count() {
    let tp = team_points(Uuid::nil(), 1, 4, 1, rows(), 90, 90, 0).unwrap();
    assert_eq!(tp.gross_points, 12 + 9);
}

#[test]
fn team_points_overflow_is_none() {
    let big = vec![row(1, Some(i32::MAX), true), row(2, Some(1), true)];
    assert!(team_points(Uuid::nil(), 1, 1, 2, big, 0, 0, 0).is_none());
    let hit = vec![row(1, Some(i32::MIN), true)];
    assert!(team_points(Uuid::nil(), 1, 1, 2, hit, 0, 0, 1).is_none());
}

fn score(player_id: i32, points: i32, minutes: Option<i32>) -> PlayerScore {
    PlayerScore { player_id, points, minutes }
}

#[test]
fn round_entry_scores_starters_and_armband() {
    let entry = ContestEntry { players: vec![1, 2, 3, 4], starting_ids: vec![1, 2, 3], captain_id: 2, vice_captain_id: 1 };
    let scores = [score(1, 4, None), score(2, 6, None), score(4, 10, None)];
    assert_eq!(round_entry_points(&entry, &scores, 90, 90), Some(4 + 6 + 6));
    assert_eq!(round_entry_points(&entry, &scores, 0, 90), Some(10 + 4));
    assert_eq!(round_entry_points(&entry, &scores, 0, 0), Some(10));
}

#[test]
fn derby_entry_uses_fixture_minutes() {
    let entry = ContestEntry { players: vec![1, 2, 3], starting_ids: vec![], captain_id: 2, vice_captain_id: 1 };
    let scores = [score(1, 4, Some(90)), score(2, 6, Some(0)), score(3, 1, None)];
    assert_eq!(derby_entry_points(&entry, &scores), Some(11 + 4));
    let played = [score(1, 4, Some(90)), score(2, 6, Some(10))];
    assert_eq!(derby_entry_points(&entry, &played), Some(10 + 6));
    let later = [score(2, 6, Some(10)), score(2, 8, Some(0))];
    assert_eq!(derby_entry_points(&entry, &later), Some(8));
}

fn standing(n: u128, name: &str, total_points: i32) -> LeaderboardEntry {
    LeaderboardEntry { user_id: Uuid::from_u128(n), user_name: name.to_string(), total_points }
}

#[test]
fn leaderboard_is_ranked_and_stable() {
    let ranked = rank_leaderboard(vec![
        standing(1, "a", 10),
        standing(2, "b", 30),
        standing(3, "c", 10),
        standing(4, "d", 20),
        standing(5, "e", 30),
    ]);
    let names: Vec<&str> = ranked.iter().map(|e| e.user_name.as_str()).collect();
    assert_eq!(names, vec!["b", "e", "d", "a", "c"]);
    assert_eq!(ranked[0].user_id, Uuid::from_u128(2));
    assert!(rank_leaderboard(vec![]).is_empty());
}

#[test]
fn leaderboard_scopes() {
    let mut l = LeagueRow {
        id: 1,
        league_type: "public".to_string(),
        contest_type: "round".to_string(),
        fixture_id: None,
        gameweek: Some(8),
        join_code: None,
    };
    assert!(matches!(leaderboard_scope(&l), LeaderboardScope::Round { gameweek: 8 }));
    l.contest_type = "derby".to_string();
    assert!(matches!(leaderboard_scope(&l), LeaderboardScope::Derby { fixture_id: 0 }));
    l.contest_type = "campaign".to_string();
    assert!(matches!(leaderboard_scope(&l), LeaderboardScope::Campaign));
    l.contest_type = "other".to_string();
    assert!(matches!(leaderboard_scope(&l), LeaderboardScope::Unsupported));
}

#[test]
fn campaign_member_without_squad_scores_zero() {
    let id = Uuid::from_u128(7);
    let e = campaign_standing(id, "ann".to_string(), None);
    assert_eq!(e.total_points, 0);
    assert_eq!(e.user_id, id);
    assert_eq!(e.user_name, "ann");
    assert_eq!(campaign_standing(id, "ann".to_string(), Some(-4)).total_points, -4);
}

#[test]
fn standings_of_unknown_contests_are_empty() {
    let entries = vec![standing(1, "a", 3), standing(2, "b", 9)];
    assert!(standings(&LeaderboardScope::Unsupported, entries).is_empty());
    let entries = vec![standing(1, "a", 3), standing(2, "b", 9)];
    let r = standings(&LeaderboardScope::Campaign, entries);
    assert_eq!(r[0].total_points, 9);
    assert_eq!(r[1].total_points, 3);
}
