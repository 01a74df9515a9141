use fplx::scoring::{calculate_points, stat_line_for_row, try_calculate_points, FixtureStatLine, MatchStatRow};

fn line(position: i32) -> FixtureStatLine {
    FixtureStatLine {
        position,
        minutes: 0,
        goals: 0,
        assists: 0,
        own_goals: 0,
        penalties_saved: 0,
        penalties_missed: 0,
        yellow_cards: 0,
        red_cards: 0,
        saves: 0,
        bonus: 0,
        defensive_contribution: 0,
        goals_conceded: 0,
    }
}

#[test]
fn no_minutes_scores_nothing() {
    assert_eq!(calculate_points(&line(3)), 0);
}

#[test]
fn appearance_points_depend_on_minutes() {
    let mut s = line(4);
    s.minutes = 59;
    assert_eq!(calculate_points(&s), 1);
    s.minutes = 60;
    assert_eq!(calculate_points(&s), 2);
}

#[test]
fn defender_full_match_clean_sheet() {
    let mut s = line(2);
    s.minutes = 90;
    assert_eq!(calculate_points(&s), 6);
}

#[test]
fn goal_values_by_position() {
    for (pos, value) in [(1, 6), (2, 6), (3, 5), (4, 4)] {
        let mut s = line(pos);
        s.minutes = 30;
        s.goals = 2;
        assert_eq!(calculate_points(&s), 1 + 2 * value);
    }
}

#[test]
fn goalkeeper_saves_and_conceded() {
    let mut s = line(1);
    s.minutes = 90;
    s.saves = 7;
    s.goals_conceded = 3;
    // 2 appearance, 7/3 = 2 saves, -3/2 = -1 conceded
    assert_eq!(calculate_points(&s), 3);
}

#[test]
fn midfielder_clean_sheet_and_dc() {
    let mut s = line(3);
    s.minutes = 90;
    s.defensive_contribution = 12;
    assert_eq!(calculate_points(&s), 2 + 1 + 2);
    s.defensive_contribution = 11;
    assert_eq!(calculate_points(&s), 3);
}

#[test]
fn defender_dc_threshold_is_ten() {
    let mut s = line(2);
    s.minutes = 30;
    s.defensive_contribution = 10;
    assert_eq!(calculate_points(&s), 3);
}

#[test]
fn goalkeeper_has_no_dc_bonus() {
    let mut s = line(1);
    s.minutes = 30;
    s.defensive_contribution = 40;
    assert_eq!(calculate_points(&s), 1);
}

#[test]
fn deductions_and_bonus() {
    let mut s = line(4);
    s.minutes = 70;
    s.assists = 1;
    s.penalties_missed = 1;
    s.yellow_cards = 1;
    s.red_cards = 1;
    s.own_goals = 1;
    s.bonus = 3;
    // 2 + 3 - 2 - 1 - 3 - 2 + 3
    assert_eq!(calculate_points(&s), 0);
}

#[test]
fn penalty_save_worth_five() {
    let mut s = line(1);
    s.minutes = 90;
    s.penalties_saved = 1;
    s.goals_conceded = 1;
    assert_eq!(calculate_points(&s), 2 + 5);
}

#[test]
fn negative_conceded_rounds_toward_zero() {
    let mut s = line(2);
    s.minutes = 90;
    s.goals_conceded = -3;
    // -(-3 / 2) = +1
    assert_eq!(calculate_points(&s), 3);
}

#[test]
fn try_calculate_points_detects_overflow() {
    let mut s = line(4);
    s.goals = i32::MAX;
    assert_eq!(try_calculate_points(&s), None);
    let mut t = line(4);
    t.minutes = 90;
    t.goals = 1;
    assert_eq!(try_calculate_points(&t), Some(6));
}

#[test]
fn stat_line_from_home_row() {
    let row = MatchStatRow {
        id: 1,
        position: 2,
        team_side: Some("h".to_string()),
        minutes: Some(90),
        goals: None,
        assists: Some(1),
        own_goals: None,
        penalties_saved: None,
        penalties_missed: None,
        yellow_cards: None,
        red_cards: None,
        saves: None,
        bonus: Some(2),
        defensive_contribution: None,
        home_score: Some(2),
        away_score: Some(1),
    };
    let s = stat_line_for_row(&row);
    assert_eq!(s.goals_conceded, 1);
    assert_eq!(s.goals, 0);
    assert_eq!(calculate_points(&s), 2 + 3 + 2);
    let away = MatchStatRow { team_side: Some("a".to_string()), ..row };
    assert_eq!(stat_line_for_row(&away).goals_conceded, 2);
    let unknown = MatchStatRow { team_side: None, home_score: None, ..away };
    assert_eq!(stat_line_for_row(&unknown).goals_conceded, 0);
}
