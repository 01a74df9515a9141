use fplx::squad::SquadPlayerInfo;
use fplx::transfers::{
    check_batch, check_unlocked, free_transfers_available, plan_transfers, squad_from_rows, SquadSlot, TeamRow,
    TransferError, TransferItem,
};

fn position_of(id: i32) -> i32 {
    match id {
        1..=2 => 1,
        3..=7 => 2,
        8..=12 => 3,
        _ => 4,
    }
}

fn rows() -> Vec<SquadSlot> {
    (1..=15)
        .map(|id| SquadSlot {
            player_id: id,
            position: position_of(id),
            team_id: id % 5 + 1,
            now_cost: 60,
            is_starting: id != 2 && id != 6 && id != 7 && id != 12,
            bench_order: None,
        })
        .collect()
}

fn team(free: i32, last: Option<i32>) -> TeamRow {
    TeamRow { captain_id: 13, vice_captain_id: 8, free_transfers: free, last_transfer_gameweek: last }
}

fn info(id: i32, position: i32, team_id: i32, now_cost: i32) -> SquadPlayerInfo {
    SquadPlayerInfo { id, position, team_id, now_cost }
}

fn swap(out: i32, inn: i32) -> TransferItem {
    TransferItem { player_out_id: out, player_in_id: inn }
}

#[test]
fn empty_batch_is_refused() {
    assert!(check_batch(&[]) == Err(TransferError::NoTransfers));
    assert!(check_batch(&[swap(1, 2)]) == Ok(()));
}

#[test]
fn locked_gameweek_is_refused() {
    assert!(check_unlocked(7, true) == Err(TransferError::GameweekLocked { gameweek: 7 }));
    assert!(check_unlocked(7, false) == Ok(()));
}

#[test]
fn free_transfers_replenish_and_cap() {
    assert_eq!(free_transfers_available(&team(1, Some(3)), 5), Some(3));
    assert_eq!(free_transfers_available(&team(4, Some(1)), 9), Some(5));
    assert_eq!(free_transfers_available(&team(2, Some(5)), 5), Some(2));
    assert_eq!(free_transfers_available(&team(2, None), 5), Some(2));
    assert_eq!(free_transfers_available(&team(i32::MAX, Some(1)), 5), None);
}

#[test]
fn one_free_transfer() {
    let plan = plan_transfers(&team(1, Some(4)), 4, &rows(), &[swap(14, 40)], &[info(40, 4, 9, 70)]).ok().unwrap();
    assert_eq!(plan.summary.transfers_made, 1);
    assert_eq!(plan.summary.free_transfers_used, 1);
    assert_eq!(plan.summary.hits, 0);
    assert_eq!(plan.summary.points_cost, 0);
    assert_eq!(plan.summary.free_transfers_remaining, 0);
    assert_eq!(plan.transfers[0].points_cost, 0);
    let slot = plan.transfers[0].incoming_slot;
    assert_eq!(slot.player_id, 40);
    assert!(slot.is_starting);
    assert_eq!(plan.squad.len(), 15);
    assert!(plan.squad.iter().all(|s| s.player_id != 14));
}

#[test]
fn extra_transfers_cost_four_points_each() {
    let items = [swap(14, 40), swap(15, 41), swap(3, 42)];
    let incoming = [info(40, 4, 9, 60), info(41, 4, 9, 60), info(42, 2, 8, 60)];
    let plan = plan_transfers(&team(1, Some(5)), 5, &rows(), &items, &incoming).ok().unwrap();
    assert_eq!(plan.summary.free_transfers_used, 1);
    assert_eq!(plan.summary.hits, 2);
    assert_eq!(plan.summary.points_cost, 8);
    let costs: Vec<i32> = plan.transfers.iter().map(|t| t.points_cost).collect();
    assert_eq!(costs, vec![0, 4, 4]);
    assert_eq!(plan.summary.free_transfers_remaining, 0);
}

#[test]
fn banked_transfers_cover_the_batch() {
    let items = [swap(14, 40), swap(15, 41)];
    let incoming = [info(40, 4, 9, 60), info(41, 4, 9, 60)];
    let plan = plan_transfers(&team(1, Some(2)), 5, &rows(), &items, &incoming).ok().unwrap();
    assert_eq!(plan.summary.free_transfers_used, 2);
    assert_eq!(plan.summary.points_cost, 0);
    assert_eq!(plan.summary.free_transfers_remaining, 2);
}

#[test]
fn transfer_refusals() {
    let t = team(1, Some(1));
    assert!(matches!(
        plan_transfers(&t, 2, &rows()[..14], &[swap(14, 40)], &[info(40, 4, 9, 60)]),
        Err(TransferError::UnexpectedSquadState)
    ));
    assert!(matches!(
        plan_transfers(&t, 2, &rows(), &[swap(14, 40), swap(14, 41)], &[]),
        Err(TransferError::DuplicateOutgoing)
    ));
    assert!(matches!(plan_transfers(&t, 2, &rows(), &[swap(13, 40)], &[]), Err(TransferError::CaptainOut)));
    assert!(matches!(plan_transfers(&t, 2, &rows(), &[swap(8, 40)], &[]), Err(TransferError::ViceCaptainOut)));
    assert!(matches!(
        plan_transfers(&t, 2, &rows(), &[swap(99, 40)], &[]),
        Err(TransferError::NotInSquad { player_id: 99 })
    ));
    assert!(matches!(
        plan_transfers(&t, 2, &rows(), &[swap(14, 15)], &[]),
        Err(TransferError::AlreadyInSquad { player_id: 15 })
    ));
    assert!(matches!(
        plan_transfers(&t, 2, &rows(), &[swap(14, 40)], &[]),
        Err(TransferError::UnknownPlayer { player_id: 40 })
    ));
    assert!(matches!(
        plan_transfers(&t, 2, &rows(), &[swap(14, 40)], &[info(40, 3, 9, 60)]),
        Err(TransferError::PositionMismatch { player_id: 40 })
    ));
    assert!(matches!(
        plan_transfers(&t, 2, &rows(), &[swap(14, 40)], &[info(40, 4, 9, 200)]),
        Err(TransferError::OverBudget { total_cost: 1040 })
    ));
    assert!(matches!(
        plan_transfers(&t, 2, &rows(), &[swap(14, 40)], &[info(40, 4, 1, 60)]),
        Err(TransferError::TooManyFromClub { found: 4 })
    ));
}

#[test]
fn chained_swap_records_each_step() {
    let items = [swap(14, 40), swap(40, 41)];
    let incoming = [info(40, 4, 9, 60), info(41, 4, 9, 60)];
    let plan = plan_transfers(&team(5, Some(1)), 1, &rows(), &items, &incoming).ok().unwrap();
    let first = plan.transfers[0].incoming_slot;
    let second = plan.transfers[1].incoming_slot;
    assert_eq!(first.player_id, 40);
    assert_eq!(second.player_id, 41);
    assert_eq!(first.is_starting, second.is_starting);
    assert_eq!(first.bench_order, second.bench_order);
    assert!(plan.squad.iter().any(|s| s.player_id == 41));
    assert!(plan.squad.iter().all(|s| s.player_id != 40 && s.player_id != 14));
    let mut ids: Vec<i32> = plan.squad.iter().map(|s| s.player_id).collect();
    ids.sort();
    ids.dedup();
    assert_eq!(ids.len(), 15);
}

#[test]
fn later_rows_replace_earlier_ones() {
    let mut r = rows();
    let mut again = r[0];
    again.now_cost = 99;
    r.push(again);
    let squad = squad_from_rows(&r);
    assert_eq!(squad.len(), 15);
    assert_eq!(squad[14].player_id, 1);
    assert_eq!(squad[14].now_cost, 99);
}
