use std::collections::HashSet;
use fplx::squad::{
    assign_bench_order, check_count, check_range, check_squad_entry, check_derby_entry, find_in_squad, starting_set, validate_derby_squad,
    validate_squad, SquadError, SquadPlayerInfo,
};

fn position_of(id: i32) -> i32 {
    match id {
        1..=2 => 1,
        3..=7 => 2,
        8..=12 => 3,
        _ => 4,
    }
}

fn squad() -> Vec<SquadPlayerInfo> {
    (1..=15)
        .map(|id| SquadPlayerInfo { id, position: position_of(id), team_id: id % 5 + 1, now_cost: 60 })
        .collect()
}

fn starters() -> HashSet<i32> {
    [1, 3, 4, 5, 8, 9, 10, 11, 13, 14, 15].into_iter().collect()
}

#[test]
fn valid_squad_passes() {
    assert!(validate_squad(&squad(), &starters(), 13, 8) == Ok(()));
}

#[test]
fn wrong_size_is_refused() {
    let mut s = squad();
    s.pop();
    assert!(validate_squad(&s, &starters(), 13, 8) == Err(SquadError::WrongSquadSize { required: 15 }));
}

#[test]
fn duplicate_player_is_refused() {
    let mut s = squad();
    s[14].id = 14;
    assert!(validate_squad(&s, &starters(), 13, 8) == Err(SquadError::DuplicatePlayers));
}

#[test]
fn over_budget_is_refused() {
    let mut s = squad();
    s[0].now_cost = 200;
    assert!(validate_squad(&s, &starters(), 13, 8) == Err(SquadError::OverBudget { total_cost: 1040 }));
}

#[test]
fn cost_overflow_is_reported() {
    let mut s = squad();
    s[0].now_cost = i32::MAX;
    assert!(validate_squad(&s, &starters(), 13, 8) == Err(SquadError::CostOverflow));
}

#[test]
fn position_quota_is_checked() {
    let mut s = squad();
    s[2].position = 3;
    assert!(
        validate_squad(&s, &starters(), 13, 8)
            == Err(SquadError::WrongPositionCount { position: 2, required: 5, found: 4 })
    );
}

#[test]
fn club_limit_is_checked() {
    let mut s = squad();
    s[0].team_id = s[4].team_id;
    assert!(validate_squad(&s, &starters(), 13, 8) == Err(SquadError::TooManyFromClub { found: 4 }));
}

#[test]
fn starting_size_is_checked() {
    let mut st = starters();
    st.remove(&15);
    assert!(validate_squad(&squad(), &st, 13, 8) == Err(SquadError::WrongStartingSize { required: 11 }));
}

#[test]
fn starters_must_be_in_squad() {
    let mut st = starters();
    st.remove(&15);
    st.insert(99);
    assert!(validate_squad(&squad(), &st, 13, 8) == Err(SquadError::StartingNotInSquad));
}

#[test]
fn one_starting_goalkeeper() {
    let mut st = starters();
    st.remove(&15);
    st.insert(2);
    assert!(validate_squad(&squad(), &st, 13, 8) == Err(SquadError::StartingGoalkeeper { found: 2 }));
}

#[test]
fn starting_ranges_are_checked() {
    let st: HashSet<i32> = [1, 3, 4, 8, 9, 10, 11, 12, 13, 14, 15].into_iter().collect();
    assert!(
        validate_squad(&squad(), &st, 13, 8)
            == Err(SquadError::StartingPositionRange { position: 2, min: 3, max: 5, found: 2 })
    );
    let mut st2 = starters();
    st2.remove(&13);
    st2.remove(&14);
    st2.remove(&15);
    st2.insert(6);
    st2.insert(7);
    st2.insert(12);
    assert!(
        validate_squad(&squad(), &st2, 6, 8)
            == Err(SquadError::StartingPositionRange { position: 4, min: 1, max: 3, found: 0 })
    );
}

#[test]
fn captain_rules() {
    assert!(validate_squad(&squad(), &starters(), 13, 13) == Err(SquadError::CaptainIsViceCaptain));
    assert!(validate_squad(&squad(), &starters(), 99, 8) == Err(SquadError::CaptainNotInSquad));
    assert!(validate_squad(&squad(), &starters(), 13, 99) == Err(SquadError::ViceCaptainNotInSquad));
    assert!(validate_squad(&squad(), &starters(), 2, 8) == Err(SquadError::CaptainNotStarting));
    assert!(validate_squad(&squad(), &starters(), 13, 12) == Err(SquadError::ViceCaptainNotStarting));
}

#[test]
fn squad_entry_reports_unknown_players() {
    let ids: Vec<i32> = (1..=16).collect();
    let start: Vec<i32> = starters().into_iter().collect();
    assert!(matches!(check_squad_entry(&ids, &start, 13, 8, &squad()), Err(SquadError::UnknownPlayers)));
    let ids: Vec<i32> = (1..=15).collect();
    let set = check_squad_entry(&ids, &start, 13, 8, &squad()).ok().unwrap();
    assert_eq!(set, starters());
}

#[test]
fn starting_set_collapses_repeats() {
    let set = starting_set(&[4, 4, 5]);
    assert_eq!(set.len(), 2);
    assert!(set.contains(&4) && set.contains(&5));
}

fn derby_squad() -> Vec<SquadPlayerInfo> {
    (1..=11)
        .map(|id| SquadPlayerInfo { id, position: 3, team_id: if id <= 6 { 10 } else { 20 }, now_cost: 50 })
        .collect()
}

#[test]
fn derby_squad_rules() {
    assert!(validate_derby_squad(&derby_squad(), 10, 20, 1, 7) == Ok(()));
    let mut short = derby_squad();
    short.pop();
    assert!(validate_derby_squad(&short, 10, 20, 1, 7) == Err(SquadError::WrongSquadSize { required: 11 }));
    let mut outsider = derby_squad();
    outsider[3].team_id = 30;
    assert!(validate_derby_squad(&outsider, 10, 20, 1, 7) == Err(SquadError::PlayerNotInFixture { player_id: 4 }));
    let mut heavy = derby_squad();
    heavy[6].team_id = 10;
    heavy[7].team_id = 10;
    assert!(validate_derby_squad(&heavy, 10, 20, 1, 7) == Err(SquadError::TooManyFromClub { found: 8 }));
    assert!(validate_derby_squad(&derby_squad(), 10, 20, 1, 1) == Err(SquadError::CaptainIsViceCaptain));
    assert!(validate_derby_squad(&derby_squad(), 10, 20, 50, 1) == Err(SquadError::CaptainNotInSquad));
    let ids: Vec<i32> = (1..=12).collect();
    assert!(check_derby_entry(&ids, 1, 7, &derby_squad(), 10, 20) == Err(SquadError::UnknownPlayers));
}

#[test]
fn bench_is_numbered_in_order() {
    let players = vec![1, 20, 3, 21, 22, 5];
    let start: HashSet<i32> = [1, 3, 5].into_iter().collect();
    let slots = assign_bench_order(&players, &start);
    let orders: Vec<Option<i16>> = slots.iter().map(|s| s.bench_order).collect();
    assert_eq!(orders, vec![None, Some(0), None, Some(1), Some(2), None]);
    assert!(slots[0].is_starting && !slots[1].is_starting);
    assert_eq!(slots[3].player_id, 21);
}

#[test]
fn captain_lookup_finds_first() {
    assert_eq!(find_in_squad(&[5, 7, 7], 7), Some(1));
    assert_eq!(find_in_squad(&[5, 7], 9), None);
}

#[test]
fn position_count_and_range_checks() {
    let s = squad();
    assert!(check_count(&s, 2, 5) == Ok(()));
    assert!(check_count(&s, 4, 2) == Err(SquadError::WrongPositionCount { position: 4, required: 2, found: 3 }));
    assert!(check_range(&s, &starters(), 2, 3, 5) == Ok(()));
    assert!(
        check_range(&s, &starters(), 4, 1, 2)
            == Err(SquadError::StartingPositionRange { position: 4, min: 1, max: 2, found: 3 })
    );
}

#[test]
fn squad_entry_refuses_a_repeated_starter() {
    let ids: Vec<i32> = (1..=15).collect();
    let repeated = vec![1, 3, 4, 5, 8, 9, 10, 11, 13, 14, 15, 13];
    assert!(matches!(
        check_squad_entry(&ids, &repeated, 13, 8, &squad()),
        Err(SquadError::WrongStartingSize { required: 11 })
    ));
    let short = vec![1, 3, 4, 5, 8, 9, 10, 11, 13, 14, 14];
    assert!(matches!(
        check_squad_entry(&ids, &short, 13, 8, &squad()),
        Err(SquadError::WrongStartingSize { required: 11 })
    ));
}

#[test]
fn reordered_and_cheaper_squads_stay_valid() {
    let mut s = squad();
    s.reverse();
    assert!(validate_squad(&s, &starters(), 13, 8) == Ok(()));
    let mut cheaper = squad();
    cheaper[3].now_cost = 40;
    cheaper[9].now_cost = 0;
    assert!(validate_squad(&cheaper, &starters(), 13, 8) == Ok(()));
}

#[test]
fn squad_rules_come_before_the_starting_list() {
    let ids: Vec<i32> = (1..=14).collect();
    let mut info = squad();
    info.pop();
    let ten = vec![1, 3, 4, 5, 8, 9, 10, 11, 13, 14];
    assert!(matches!(
        check_squad_entry(&ids, &ten, 13, 8, &info),
        Err(SquadError::WrongSquadSize { required: 15 })
    ));
}
