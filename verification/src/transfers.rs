//! Campaign transfers: same-position swaps, the banked free-transfer
//! economy and the points hit for extra transfers.
use vstd::prelude::*;
use crate::seqs::lemma_take_succ;
use crate::scoring::fits_i32;
use crate::text::{nat_text, int_text, append_nat, with_number};
use vstd::string::*;
use crate::squad::{
    SquadPlayerInfo, SQUAD_SIZE, BUDGET_LIMIT, MAX_PER_CLUB, total_cost, cost_fits, overfull_club,
    count_where, at_position, from_club, checked_total_cost, lemma_no_overfull_club, lemma_count_remove,
};

verus! {

/// Free transfers bank up to this many.
pub const MAX_BANKED_FREE_TRANSFERS: i32 = 5;
/// Points deducted for each transfer beyond the free ones.
pub const POINTS_PER_HIT: i32 = 4;

/// One swap: a squad player leaves, another player comes in.
#[derive(Clone, Copy)]
pub struct TransferItem {
    pub player_out_id: i32,
    pub player_in_id: i32,
}

/// A batch of swaps as a user submits it.
pub struct MakeTransfersRequest {
    pub transfers: Vec<TransferItem>,
}

/// What a batch of transfers cost.
pub struct TransferSummary {
    pub gameweek: i32,
    pub transfers_made: usize,
    pub free_transfers_used: usize,
    pub hits: usize,
    pub points_cost: i32,
    pub free_transfers_remaining: i32,
}

/// The transfer state of a Campaign team.
#[derive(Clone, Copy)]
pub struct TeamRow {
    pub captain_id: i32,
    pub vice_captain_id: i32,
    pub free_transfers: i32,
    pub last_transfer_gameweek: Option<i32>,
}

/// One player of a stored Campaign squad.
#[derive(Clone, Copy)]
pub struct SquadSlot {
    pub player_id: i32,
    pub position: i32,
    pub team_id: i32,
    pub now_cost: i32,
    pub is_starting: bool,
    pub bench_order: Option<i16>,
}

/// One transfer of an accepted batch, as it is to be recorded.
pub struct PlannedTransfer {
    pub player_out_id: i32,
    pub player_in_id: i32,
    /// 0 for a free transfer, `POINTS_PER_HIT` for a hit.
    pub points_cost: i32,
    /// The place the incoming player takes in the squad by this swap: the
    /// outgoing player's starting flag and bench number, with the incoming
    /// player's own position, club and price.
    pub incoming_slot: SquadSlot,
}

/// An accepted batch: its summary, the swaps to record, and the squad after
/// the batch.
pub struct TransferPlan {
    pub summary: TransferSummary,
    pub transfers: Vec<PlannedTransfer>,
    pub squad: Vec<SquadSlot>,
}

/// Why a batch of transfers was refused.
#[derive(PartialEq, Eq, Structural)]
pub enum TransferError {
    NoTransfers,
    GameweekLocked { gameweek: i32 },
    /// The stored squad does not hold exactly 15 players.
    UnexpectedSquadState,
    /// A running computation leaves the `i32` range.
    Overflow,
    DuplicateOutgoing,
    CaptainOut,
    ViceCaptainOut,
    NotInSquad { player_id: i32 },
    AlreadyInSquad { player_id: i32 },
    UnknownPlayer { player_id: i32 },
    PositionMismatch { player_id: i32 },
    OverBudget { total_cost: i32 },
    TooManyFromClub { found: usize },
}

// ---------------------------------------------------------------------------
// Mathematical model
// ---------------------------------------------------------------------------

/// The index of the first slot of `s` holding `id`, looking from `i` on.
pub open spec fn slot_index_from(s: Seq<SquadSlot>, id: i32, i: int) -> Option<int>
    decreases s.len() - i,
{
    if i < 0 || i >= s.len() {
        None
    } else if s[i].player_id == id {
        Some(i)
    } else {
        slot_index_from(s, id, i + 1)
    }
}

pub open spec fn slot_index(s: Seq<SquadSlot>, id: i32) -> Option<int> {
    slot_index_from(s, id, 0)
}

pub open spec fn slot_ids(s: Seq<SquadSlot>) -> Seq<i32> {
    s.map_values(|x: SquadSlot| x.player_id)
}

/// The squad that stored rows describe: a later row for the same player
/// replaces the earlier one.
pub open spec fn squad_of_rows(rows: Seq<SquadSlot>) -> Seq<SquadSlot>
    decreases rows.len(),
{
    if rows.len() == 0 {
        Seq::empty()
    } else {
        let prev = squad_of_rows(rows.drop_last());
        match slot_index(prev, rows.last().player_id) {
            Some(k) => prev.remove(k).push(rows.last()),
            None => prev.push(rows.last()),
        }
    }
}

/// The last entry of `infos` with the given id.
pub open spec fn last_info(infos: Seq<SquadPlayerInfo>, id: i32) -> Option<SquadPlayerInfo>
    decreases infos.len(),
{
    if infos.len() == 0 {
        None
    } else if infos.last().id == id {
        Some(infos.last())
    } else {
        last_info(infos.drop_last(), id)
    }
}

/// Free transfers available this gameweek: one more for each gameweek since
/// the last transfer, banked up to five.
pub open spec fn available_free_transfers(team: TeamRow, gameweek: i32) -> int {
    match team.last_transfer_gameweek {
        Some(last) => if gameweek > last {
            let banked = team.free_transfers + (gameweek - last);
            if banked < MAX_BANKED_FREE_TRANSFERS {
                banked
            } else {
                MAX_BANKED_FREE_TRANSFERS as int
            }
        } else {
            team.free_transfers as int
        },
        None => team.free_transfers as int,
    }
}

/// The replenishment arithmetic stays within `i32`.
pub open spec fn replenish_fits(team: TeamRow, gameweek: i32) -> bool {
    match team.last_transfer_gameweek {
        Some(last) => gameweek > last ==> fits_i32(gameweek - last) && fits_i32(
            team.free_transfers + (gameweek - last),
        ),
        None => true,
    }
}

/// The first armband holder that a batch tries to move out, looking from
/// index `i` on: the captain check comes before the vice-captain check for
/// each swap.
pub open spec fn armband_violation_from(items: Seq<TransferItem>, team: TeamRow, i: int) -> Option<TransferError>
    decreases items.len() - i,
{
    if i < 0 || i >= items.len() {
        None
    } else if items[i].player_out_id == team.captain_id {
        Some(TransferError::CaptainOut)
    } else if items[i].player_out_id == team.vice_captain_id {
        Some(TransferError::ViceCaptainOut)
    } else {
        armband_violation_from(items, team, i + 1)
    }
}

pub open spec fn outgoing_ids(items: Seq<TransferItem>) -> Seq<i32> {
    items.map_values(|t: TransferItem| t.player_out_id)
}

/// One swap applied to a squad.
pub open spec fn apply_transfer(
    squad: Seq<SquadSlot>,
    item: TransferItem,
    incoming: Seq<SquadPlayerInfo>,
) -> Result<Seq<SquadSlot>, TransferError> {
    match slot_index(squad, item.player_out_id) {
        None => Err(TransferError::NotInSquad { player_id: item.player_out_id }),
        Some(k) => {
            let out = squad[k];
            let rest = squad.remove(k);
            if slot_index(rest, item.player_in_id) is Some {
                Err(TransferError::AlreadyInSquad { player_id: item.player_in_id })
            } else {
                match last_info(incoming, item.player_in_id) {
                    None => Err(TransferError::UnknownPlayer { player_id: item.player_in_id }),
                    Some(info) => if info.position != out.position {
                        Err(TransferError::PositionMismatch { player_id: item.player_in_id })
                    } else {
                        Ok(
                            rest.push(
                                SquadSlot {
                                    player_id: item.player_in_id,
                                    position: info.position,
                                    team_id: info.team_id,
                                    now_cost: info.now_cost,
                                    is_starting: out.is_starting,
                                    bench_order: out.bench_order,
                                },
                            ),
                        )
                    },
                }
            }
        },
    }
}

/// The squad after the first `k` swaps, or the first error.
pub open spec fn apply_transfers(
    squad: Seq<SquadSlot>,
    items: Seq<TransferItem>,
    incoming: Seq<SquadPlayerInfo>,
    k: int,
) -> Result<Seq<SquadSlot>, TransferError>
    decreases k,
{
    if k <= 0 {
        Ok(squad)
    } else {
        match apply_transfers(squad, items, incoming, k - 1) {
            Err(e) => Err(e),
            Ok(s) => apply_transfer(s, items[k - 1], incoming),
        }
    }
}

/// What squad validation sees of a slot.
pub open spec fn slot_info(x: SquadSlot) -> SquadPlayerInfo {
    SquadPlayerInfo { id: x.player_id, position: x.position, team_id: x.team_id, now_cost: x.now_cost }
}

pub open spec fn slot_infos(s: Seq<SquadSlot>) -> Seq<SquadPlayerInfo> {
    s.map_values(|x: SquadSlot| slot_info(x))
}

/// The checks that come before the swaps are applied: the squad's size, the
/// replenishment arithmetic, no player moved out twice, and neither armband
/// holder moved out.
pub open spec fn precheck(
    team: TeamRow,
    gameweek: i32,
    squad: Seq<SquadSlot>,
    items: Seq<TransferItem>,
) -> Option<TransferError> {
    if squad.len() != SQUAD_SIZE {
        Some(TransferError::UnexpectedSquadState)
    } else if !replenish_fits(team, gameweek) {
        Some(TransferError::Overflow)
    } else if !outgoing_ids(items).no_duplicates() {
        Some(TransferError::DuplicateOutgoing)
    } else {
        armband_violation_from(items, team, 0)
    }
}

/// Free transfers used by a batch of `made` transfers.
pub open spec fn free_used(made: int, available: int) -> int {
    let usable = if available > 0 {
        available
    } else {
        0
    };
    if made < usable {
        made
    } else {
        usable
    }
}

/// The verdict on a batch, given the stored squad rows, the batch, and what
/// is known of the incoming players. On success: the squad after the batch.
pub open spec fn transfer_verdict(
    team: TeamRow,
    gameweek: i32,
    rows: Seq<SquadSlot>,
    items: Seq<TransferItem>,
    incoming: Seq<SquadPlayerInfo>,
) -> Result<Seq<SquadSlot>, TransferError> {
    let squad = squad_of_rows(rows);
    match precheck(team, gameweek, squad, items) {
        Some(e) => Err(e),
        None => match apply_transfers(squad, items, incoming, items.len() as int) {
            Err(e) => Err(e),
            Ok(after) => {
                let infos = slot_infos(after);
                let available = available_free_transfers(team, gameweek);
                let made = items.len() as int;
                let hits = made - free_used(made, available);
                if !cost_fits(infos) {
                    Err(TransferError::Overflow)
                } else if total_cost(infos) > BUDGET_LIMIT {
                    Err(TransferError::OverBudget { total_cost: total_cost(infos) as i32 })
                } else if overfull_club(infos, MAX_PER_CLUB as nat) is Some {
                    Err(TransferError::TooManyFromClub { found: overfull_club(infos, MAX_PER_CLUB as nat)->0 as usize })
                } else if !fits_i32(hits * POINTS_PER_HIT) || !fits_i32(made) || !fits_i32(available - made) {
                    Err(TransferError::Overflow)
                } else {
                    Ok(after)
                }
            },
        },
    }
}

/// The summary of an accepted batch.
pub open spec fn summary_of(team: TeamRow, gameweek: i32, items: Seq<TransferItem>) -> TransferSummary {
    let available = available_free_transfers(team, gameweek);
    let made = items.len() as int;
    let used = free_used(made, available);
    let remaining = available - made;
    TransferSummary {
        gameweek,
        transfers_made: made as usize,
        free_transfers_used: used as usize,
        hits: (made - used) as usize,
        points_cost: ((made - used) * POINTS_PER_HIT) as i32,
        free_transfers_remaining: if remaining > 0 {
            remaining as i32
        } else {
            0
        },
    }
}

/// How the `i`-th swap of an accepted batch on `squad` is recorded: the
/// incoming player's slot is the one the swap adds, the last of the squad
/// after the first `i + 1` swaps.
pub open spec fn planned_transfer(
    items: Seq<TransferItem>,
    squad: Seq<SquadSlot>,
    incoming: Seq<SquadPlayerInfo>,
    used: int,
    i: int,
) -> PlannedTransfer {
    PlannedTransfer {
        player_out_id: items[i].player_out_id,
        player_in_id: items[i].player_in_id,
        points_cost: if i < used {
            0
        } else {
            POINTS_PER_HIT
        },
        incoming_slot: apply_transfers(squad, items, incoming, i + 1)->Ok_0.last(),
    }
}

// ---------------------------------------------------------------------------
// Lemmas
// ---------------------------------------------------------------------------

/// `slot_index_from` finds the first match from `i` on.
pub proof fn lemma_slot_index_from(s: Seq<SquadSlot>, id: i32, i: int)
    requires
        0 <= i,
    ensures
        slot_index_from(s, id, i) matches Some(k) ==> i <= k < s.len() && s[k].player_id == id
            && forall|j: int| i <= j < k ==> s[j].player_id != id,
        slot_index_from(s, id, i) is None ==> forall|j: int| i <= j < s.len() ==> s[j].player_id != id,
    decreases s.len() - i,
{
    if i < s.len() && s[i].player_id != id {
        lemma_slot_index_from(s, id, i + 1);
    }
}

/// Once a swap fails, the batch fails with that error.
pub proof fn lemma_apply_error_persists(
    squad: Seq<SquadSlot>,
    items: Seq<TransferItem>,
    incoming: Seq<SquadPlayerInfo>,
    k: int,
    n: int,
)
    requires
        0 < k <= n,
        apply_transfers(squad, items, incoming, k) is Err,
    ensures
        apply_transfers(squad, items, incoming, n) == apply_transfers(squad, items, incoming, k),
    decreases n - k,
{
    if k < n {
        lemma_apply_error_persists(squad, items, incoming, k, n - 1);
    }
}

// ---------------------------------------------------------------------------
// Executable steps
// ---------------------------------------------------------------------------

/// The index of the first slot holding `id`.
fn find_slot(squad: &Vec<SquadSlot>, id: i32) -> (r: Option<usize>)
    ensures
        r matches Some(k) ==> slot_index(squad@, id) == Some(k as int),
        r is None ==> slot_index(squad@, id) is None,
{
    let mut i: usize = 0;
    while i < squad.len()
        invariant
            i <= squad@.len(),
            slot_index(squad@, id) == slot_index_from(squad@, id, i as int),
        decreases squad.len() - i,
    {
        if squad[i].player_id == id {
            return Some(i);
        }
        i = i + 1;
    }
    None
}

/// The last entry of `infos` with the given id.
fn find_info(infos: &[SquadPlayerInfo], id: i32) -> (r: Option<SquadPlayerInfo>)
    ensures
        r == last_info(infos@, id),
{
    let mut found: Option<SquadPlayerInfo> = None;
    let mut i: usize = 0;
    while i < infos.len()
        invariant
            i <= infos@.len(),
            found == last_info(infos@.take(i as int), id),
        decreases infos.len() - i,
    {
        proof {
            lemma_take_succ(infos@, i as int);
        }
        if infos[i].id == id {
            found = Some(infos[i]);
        }
        i = i + 1;
    }
    assert(infos@.take(i as int) =~= infos@);
    found
}

/// The squad that stored rows describe: a later row for the same player
/// replaces the earlier one.
pub fn squad_from_rows(rows: &[SquadSlot]) -> (squad: Vec<SquadSlot>)
    ensures
        squad@ == squad_of_rows(rows@),
{
    let mut squad: Vec<SquadSlot> = Vec::new();
    let mut i: usize = 0;
    while i < rows.len()
        invariant
            i <= rows@.len(),
            squad@ == squad_of_rows(rows@.take(i as int)),
        decreases rows.len() - i,
    {
        proof {
            lemma_take_succ(rows@, i as int);
        }
        let row = rows[i];
        proof {
            lemma_slot_index_from(squad@, row.player_id, 0);
        }
        match find_slot(&squad, row.player_id) {
            Some(k) => {
                squad.remove(k);
            },
            None => {},
        }
        squad.push(row);
        i = i + 1;
    }
    assert(rows@.take(i as int) =~= rows@);
    squad
}

/// Refuses an empty batch.
pub fn check_batch(items: &[TransferItem]) -> (r: Result<(), TransferError>)
    ensures
        items@.len() == 0 <==> r == Err::<(), TransferError>(TransferError::NoTransfers),
        items@.len() != 0 <==> r is Ok,
{
    if items.len() == 0 {
        return Err(TransferError::NoTransfers);
    }
    Ok(())
}

/// Refuses transfers once a fixture of the gameweek has kicked off.
pub fn check_unlocked(gameweek: i32, locked: bool) -> (r: Result<(), TransferError>)
    ensures
        locked <==> r == Err::<(), TransferError>(TransferError::GameweekLocked { gameweek }),
        !locked <==> r is Ok,
{
    if locked {
        return Err(TransferError::GameweekLocked { gameweek });
    }
    Ok(())
}

/// Free transfers available this gameweek, or `None` when the replenishment
/// arithmetic leaves the `i32` range.
pub fn free_transfers_available(team: &TeamRow, gameweek: i32) -> (r: Option<i32>)
    ensures
        r matches Some(n) ==> replenish_fits(*team, gameweek) && n == available_free_transfers(*team, gameweek),
        r is None ==> !replenish_fits(*team, gameweek),
{
    match team.last_transfer_gameweek {
        Some(last_gw) => {
            if gameweek > last_gw {
                let gap = gameweek as i64 - last_gw as i64;
                if gap > i32::MAX as i64 {
                    return None;
                }
                let banked = team.free_transfers as i64 + gap;
                if banked > i32::MAX as i64 {
                    return None;
                }
                if banked < MAX_BANKED_FREE_TRANSFERS as i64 {
                    Some(banked as i32)
                } else {
                    Some(MAX_BANKED_FREE_TRANSFERS)
                }
            } else {
                Some(team.free_transfers)
            }
        },
        None => Some(team.free_transfers),
    }
}

/// Whether some player is moved out twice.
fn has_duplicate_outgoing(items: &[TransferItem]) -> (r: bool)
    ensures
        r == !outgoing_ids(items@).no_duplicates(),
{
    let ghost ids = outgoing_ids(items@);
    let mut i: usize = 0;
    while i < items.len()
        invariant
            i <= items@.len(),
            ids == outgoing_ids(items@),
            forall|a: int, b: int| 0 <= a < i && 0 <= b < items@.len() && a != b ==> ids[a] != ids[b],
        decreases items.len() - i,
    {
        let mut j: usize = 0;
        while j < items.len()
            invariant
                i < items@.len(),
                j <= items@.len(),
                ids == outgoing_ids(items@),
                forall|b: int| 0 <= b < j && b != i ==> ids[i as int] != ids[b],
            decreases items.len() - j,
        {
            if j != i && items[j].player_out_id == items[i].player_out_id {
                assert(ids[i as int] == ids[j as int]);
                return true;
            }
            j = j + 1;
        }
        i = i + 1;
    }
    false
}

/// The first armband violation of the batch.
fn find_armband_violation(items: &[TransferItem], team: &TeamRow) -> (r: Option<TransferError>)
    ensures
        r == armband_violation_from(items@, *team, 0),
{
    let mut i: usize = 0;
    while i < items.len()
        invariant
            i <= items@.len(),
            armband_violation_from(items@, *team, 0) == armband_violation_from(items@, *team, i as int),
        decreases items.len() - i,
    {
        if items[i].player_out_id == team.captain_id {
            return Some(TransferError::CaptainOut);
        }
        if items[i].player_out_id == team.vice_captain_id {
            return Some(TransferError::ViceCaptainOut);
        }
        i = i + 1;
    }
    None
}

/// Applies one swap.
fn apply_one(
    squad: &mut Vec<SquadSlot>,
    item: TransferItem,
    incoming: &[SquadPlayerInfo],
) -> (r: Result<(), TransferError>)
    ensures
        match apply_transfer(old(squad)@, item, incoming@) {
            Ok(s) => r is Ok && final(squad)@ == s,
            Err(e) => r == Err::<(), TransferError>(e),
        },
{
    let k = match find_slot(squad, item.player_out_id) {
        Some(k) => k,
        None => {
            return Err(TransferError::NotInSquad { player_id: item.player_out_id });
        },
    };
    proof {
        lemma_slot_index_from(squad@, item.player_out_id, 0);
    }
    let out_slot = squad.remove(k);
    if find_slot(squad, item.player_in_id).is_some() {
        return Err(TransferError::AlreadyInSquad { player_id: item.player_in_id });
    }
    let info = match find_info(incoming, item.player_in_id) {
        Some(info) => info,
        None => {
            return Err(TransferError::UnknownPlayer { player_id: item.player_in_id });
        },
    };
    if info.position != out_slot.position {
        return Err(TransferError::PositionMismatch { player_id: item.player_in_id });
    }
    squad.push(
        SquadSlot {
            player_id: item.player_in_id,
            position: info.position,
            team_id: info.team_id,
            now_cost: info.now_cost,
            is_starting: out_slot.is_starting,
            bench_order: out_slot.bench_order,
        },
    );
    Ok(())
}

/// What squad validation sees of a squad.
fn infos_of(squad: &Vec<SquadSlot>) -> (infos: Vec<SquadPlayerInfo>)
    ensures
        infos@ == slot_infos(squad@),
{
    let mut infos: Vec<SquadPlayerInfo> = Vec::new();
    let mut i: usize = 0;
    while i < squad.len()
        invariant
            i <= squad@.len(),
            infos@ == slot_infos(squad@.take(i as int)),
        decreases squad.len() - i,
    {
        proof {
            lemma_take_succ(squad@, i as int);
            assert(slot_infos(squad@.take(i as int + 1)) =~= slot_infos(squad@.take(i as int)).push(
                slot_info(squad@[i as int]),
            ));
        }
        let x = squad[i];
        infos.push(SquadPlayerInfo { id: x.player_id, position: x.position, team_id: x.team_id, now_cost: x.now_cost });
        i = i + 1;
    }
    assert(squad@.take(i as int) =~= squad@);
    infos
}

/// Decides a batch of Campaign transfers, given the team's transfer state,
/// its stored squad rows, the batch, and what is known of the incoming
/// players. The squad must hold 15 players; no player may leave twice;
/// neither the captain nor the vice-captain may leave; each swap must take
/// out a squad player and bring in a known player of the same position who
/// is not already in the squad; the squad after the batch must be within
/// budget with at most three players per club. Free transfers are replenished
/// by one per gameweek since the last transfer, banked up to five; each
/// transfer beyond them costs `POINTS_PER_HIT` points.
pub fn plan_transfers(
    team: &TeamRow,
    gameweek: i32,
    rows: &[SquadSlot],
    items: &[TransferItem],
    incoming: &[SquadPlayerInfo],
) -> (r: Result<TransferPlan, TransferError>)
    ensures
        match transfer_verdict(*team, gameweek, rows@, items@, incoming@) {
            Err(e) => r matches Err(e2) && e2 == e,
            Ok(after) => r matches Ok(plan) && {
                let used = free_used(items@.len() as int, available_free_transfers(*team, gameweek));
                &&& plan.squad@ == after
                &&& plan.summary == summary_of(*team, gameweek, items@)
                &&& plan.transfers@.len() == items@.len()
                &&& forall|i: int| 0 <= i < items@.len() ==> #[trigger] plan.transfers@[i]
                    == planned_transfer(items@, squad_of_rows(rows@), incoming@, used, i)
            },
        },
{
    let mut squad = squad_from_rows(rows);
    if squad.len() != SQUAD_SIZE {
        return Err(TransferError::UnexpectedSquadState);
    }
    let available = match free_transfers_available(team, gameweek) {
        Some(n) => n,
        None => {
            return Err(TransferError::Overflow);
        },
    };
    if has_duplicate_outgoing(items) {
        return Err(TransferError::DuplicateOutgoing);
    }
    if let Some(e) = find_armband_violation(items, team) {
        return Err(e);
    }

    let transfers_made = items.len();
    let usable: usize = if available > 0 {
        available as usize
    } else {
        0
    };
    let free_transfers_used = if transfers_made < usable {
        transfers_made
    } else {
        usable
    };

    let ghost start = squad@;
    let mut transfers: Vec<PlannedTransfer> = Vec::new();
    let mut i: usize = 0;
    while i < items.len()
        invariant
            i <= items@.len(),
            apply_transfers(start, items@, incoming@, i as int) == Ok::<Seq<SquadSlot>, TransferError>(squad@),
            start == squad_of_rows(rows@),
            precheck(*team, gameweek, start, items@) is None,
            transfers@.len() == i,
            forall|k: int| 0 <= k < i ==> #[trigger] transfers@[k] == planned_transfer(
                items@,
                start,
                incoming@,
                free_transfers_used as int,
                k,
            ),
        decreases items.len() - i,
    {
        let item = items[i];
        match apply_one(&mut squad, item, incoming) {
            Ok(()) => {},
            Err(e) => {
                proof {
                    lemma_apply_error_persists(start, items@, incoming@, i as int + 1, items@.len() as int);
                }
                return Err(e);
            },
        }
        let this_cost = if i < free_transfers_used {
            0
        } else {
            POINTS_PER_HIT
        };
        let incoming_slot = squad[squad.len() - 1];
        transfers.push(
            PlannedTransfer {
                player_out_id: item.player_out_id,
                player_in_id: item.player_in_id,
                points_cost: this_cost,
                incoming_slot,
            },
        );
        i = i + 1;
    }

    let infos = infos_of(&squad);
    let total = match checked_total_cost(&infos) {
        Some(t) => t,
        None => {
            return Err(TransferError::Overflow);
        },
    };
    if total > BUDGET_LIMIT {
        return Err(TransferError::OverBudget { total_cost: total });
    }
    if let Some(found) = crate::squad::find_overfull_club(&infos, MAX_PER_CLUB) {
        return Err(TransferError::TooManyFromClub { found });
    }

    let hits = transfers_made - free_transfers_used;
    if hits > (i32::MAX / POINTS_PER_HIT) as usize {
        return Err(TransferError::Overflow);
    }
    let points_cost = hits as i32 * POINTS_PER_HIT;
    if transfers_made > i32::MAX as usize {
        return Err(TransferError::Overflow);
    }
    let made = transfers_made as i32;
    if (available as i64) - (made as i64) < i32::MIN as i64 {
        return Err(TransferError::Overflow);
    }
    let left = available - made;
    let free_transfers_remaining = if left > 0 {
        left
    } else {
        0
    };

    Ok(
        TransferPlan {
            summary: TransferSummary {
                gameweek,
                transfers_made,
                free_transfers_used,
                hits,
                points_cost,
                free_transfers_remaining,
            },
            transfers,
            squad,
        },
    )
}


// ---------------------------------------------------------------------------
// Laws
// ---------------------------------------------------------------------------

proof fn lemma_infos_remove(s: Seq<SquadSlot>, k: int)
    requires
        0 <= k < s.len(),
    ensures
        slot_infos(s.remove(k)) == slot_infos(s).remove(k),
{
    assert(slot_infos(s.remove(k)) =~= slot_infos(s).remove(k));
}

proof fn lemma_infos_push(s: Seq<SquadSlot>, x: SquadSlot)
    ensures
        slot_infos(s.push(x)) == slot_infos(s).push(slot_info(x)),
        slot_infos(s.push(x)).drop_last() == slot_infos(s),
{
    assert(slot_infos(s.push(x)) =~= slot_infos(s).push(slot_info(x)));
    assert(slot_infos(s.push(x)).drop_last() =~= slot_infos(s));
}

/// A successful swap keeps the squad's size and the number of players at
/// each position.
pub proof fn lemma_transfer_keeps_shape(
    squad: Seq<SquadSlot>,
    item: TransferItem,
    incoming: Seq<SquadPlayerInfo>,
    position: i32,
)
    requires
        apply_transfer(squad, item, incoming) is Ok,
    ensures
        ({
            let after = apply_transfer(squad, item, incoming)->Ok_0;
            &&& after.len() == squad.len()
            &&& count_where(slot_infos(after), at_position(position)) == count_where(
                slot_infos(squad),
                at_position(position),
            )
        }),
{
    lemma_slot_index_from(squad, item.player_out_id, 0);
    let k = slot_index(squad, item.player_out_id)->0;
    let rest = squad.remove(k);
    let info = last_info(incoming, item.player_in_id)->0;
    let x = SquadSlot {
        player_id: item.player_in_id,
        position: info.position,
        team_id: info.team_id,
        now_cost: info.now_cost,
        is_starting: squad[k].is_starting,
        bench_order: squad[k].bench_order,
    };
    lemma_infos_remove(squad, k);
    lemma_infos_push(rest, x);
    lemma_count_remove(slot_infos(squad), at_position(position), k);
}

/// Swaps keep the squad's size and the number of players at each position.
pub proof fn lemma_transfers_keep_shape(
    squad: Seq<SquadSlot>,
    items: Seq<TransferItem>,
    incoming: Seq<SquadPlayerInfo>,
    k: int,
    position: i32,
)
    requires
        apply_transfers(squad, items, incoming, k) is Ok,
    ensures
        ({
            let after = apply_transfers(squad, items, incoming, k)->Ok_0;
            &&& after.len() == squad.len()
            &&& count_where(slot_infos(after), at_position(position)) == count_where(
                slot_infos(squad),
                at_position(position),
            )
        }),
    decreases k,
{
    if k > 0 {
        lemma_transfers_keep_shape(squad, items, incoming, k - 1, position);
        let mid = apply_transfers(squad, items, incoming, k - 1)->Ok_0;
        lemma_transfer_keeps_shape(mid, items[k - 1], incoming, position);
    }
}

/// A successful swap keeps every player other than the one moved out.
pub proof fn lemma_transfer_keeps_others(
    squad: Seq<SquadSlot>,
    item: TransferItem,
    incoming: Seq<SquadPlayerInfo>,
    id: i32,
)
    requires
        apply_transfer(squad, item, incoming) is Ok,
        slot_ids(squad).contains(id),
        id != item.player_out_id,
    ensures
        slot_ids(apply_transfer(squad, item, incoming)->Ok_0).contains(id),
{
    lemma_slot_index_from(squad, item.player_out_id, 0);
    let k = slot_index(squad, item.player_out_id)->0;
    let after = apply_transfer(squad, item, incoming)->Ok_0;
    let j = choose|j: int| 0 <= j < squad.len() && slot_ids(squad)[j] == id;
    assert(j != k);
    let jj = if j < k { j } else { j - 1 };
    assert(after[jj] == squad[j]);
    assert(slot_ids(after)[jj] == id);
}

/// No armband violation from `i` on means no swap from `i` on moves out the
/// captain or the vice-captain.
pub proof fn lemma_no_armband_violation(items: Seq<TransferItem>, team: TeamRow, i: int)
    requires
        0 <= i,
        armband_violation_from(items, team, i) is None,
    ensures
        forall|j: int| i <= j < items.len() ==> (#[trigger] items[j]).player_out_id != team.captain_id
            && items[j].player_out_id != team.vice_captain_id,
    decreases items.len() - i,
{
    if i < items.len() {
        lemma_no_armband_violation(items, team, i + 1);
    }
}

/// Swaps that never move out `id` keep `id` in the squad.
pub proof fn lemma_transfers_keep_player(
    squad: Seq<SquadSlot>,
    items: Seq<TransferItem>,
    incoming: Seq<SquadPlayerInfo>,
    k: int,
    id: i32,
)
    requires
        apply_transfers(squad, items, incoming, k) is Ok,
        slot_ids(squad).contains(id),
        k <= items.len(),
        forall|j: int| 0 <= j < k ==> (#[trigger] items[j]).player_out_id != id,
    ensures
        slot_ids(apply_transfers(squad, items, incoming, k)->Ok_0).contains(id),
    decreases k,
{
    if k > 0 {
        lemma_transfers_keep_player(squad, items, incoming, k - 1, id);
        let mid = apply_transfers(squad, items, incoming, k - 1)->Ok_0;
        lemma_transfer_keeps_others(mid, items[k - 1], incoming, id);
    }
}

/// No player holds two slots of the squad.
pub open spec fn distinct_players(s: Seq<SquadSlot>) -> bool {
    forall|i: int, j: int| 0 <= i < j < s.len() ==> s[i].player_id != s[j].player_id
}

/// Removing a slot from a squad without repeats, then adding a player it no
/// longer holds, leaves a squad without repeats.
proof fn lemma_distinct_remove_push(s: Seq<SquadSlot>, k: int, x: SquadSlot)
    requires
        distinct_players(s),
        0 <= k < s.len(),
        forall|j: int| 0 <= j < s.remove(k).len() ==> s.remove(k)[j].player_id != x.player_id,
    ensures
        distinct_players(s.remove(k).push(x)),
{
    let r = s.remove(k);
    assert(distinct_players(r)) by {
        assert forall|i: int, j: int| 0 <= i < j < r.len() implies r[i].player_id != r[j].player_id by {
            let i2 = if i < k { i } else { i + 1 };
            let j2 = if j < k { j } else { j + 1 };
            assert(r[i] == s[i2] && r[j] == s[j2]);
        }
    }
    let t = r.push(x);
    assert forall|i: int, j: int| 0 <= i < j < t.len() implies t[i].player_id != t[j].player_id by {
        if j == r.len() {
            assert(t[i] == r[i]);
        } else {
            assert(t[i] == r[i] && t[j] == r[j]);
        }
    }
}

/// Adding a player a squad without repeats does not hold keeps it so.
proof fn lemma_distinct_push(s: Seq<SquadSlot>, x: SquadSlot)
    requires
        distinct_players(s),
        forall|j: int| 0 <= j < s.len() ==> s[j].player_id != x.player_id,
    ensures
        distinct_players(s.push(x)),
{
    let t = s.push(x);
    assert forall|i: int, j: int| 0 <= i < j < t.len() implies t[i].player_id != t[j].player_id by {
        if j == s.len() {
            assert(t[i] == s[i]);
        } else {
            assert(t[i] == s[i] && t[j] == s[j]);
        }
    }
}

/// Stored rows describe a squad in which no player holds two slots.
pub proof fn lemma_rows_distinct(rows: Seq<SquadSlot>)
    ensures
        distinct_players(squad_of_rows(rows)),
    decreases rows.len(),
{
    if rows.len() > 0 {
        let prev = squad_of_rows(rows.drop_last());
        lemma_rows_distinct(rows.drop_last());
        let x = rows.last();
        lemma_slot_index_from(prev, x.player_id, 0);
        match slot_index(prev, x.player_id) {
            Some(k) => {
                assert forall|j: int| 0 <= j < prev.remove(k).len() implies prev.remove(k)[j].player_id
                    != x.player_id by {
                    if j < k {
                        assert(prev.remove(k)[j] == prev[j]);
                    } else {
                        assert(prev.remove(k)[j] == prev[j + 1]);
                    }
                }
                lemma_distinct_remove_push(prev, k, x);
            },
            None => {
                lemma_distinct_push(prev, x);
            },
        }
    }
}

/// Accepted swaps keep a squad free of repeated players.
pub proof fn lemma_transfers_distinct(
    squad: Seq<SquadSlot>,
    items: Seq<TransferItem>,
    incoming: Seq<SquadPlayerInfo>,
    k: int,
)
    requires
        distinct_players(squad),
        apply_transfers(squad, items, incoming, k) is Ok,
    ensures
        distinct_players(apply_transfers(squad, items, incoming, k)->Ok_0),
    decreases k,
{
    if k > 0 {
        lemma_transfers_distinct(squad, items, incoming, k - 1);
        let mid = apply_transfers(squad, items, incoming, k - 1)->Ok_0;
        let item = items[k - 1];
        lemma_slot_index_from(mid, item.player_out_id, 0);
        let kk = slot_index(mid, item.player_out_id)->0;
        let rest = mid.remove(kk);
        lemma_slot_index_from(rest, item.player_in_id, 0);
        let after = apply_transfer(mid, item, incoming)->Ok_0;
        lemma_distinct_remove_push(mid, kk, after.last());
        assert(after == rest.push(after.last()));
    }
}

/// An accepted batch of transfers leaves a squad of 15 different players
/// with the same number of players at every position, within budget, with
/// at most three players per club, and still holding the captain and the
/// vice-captain if it held them before.
pub proof fn lemma_accepted_transfers(
    team: TeamRow,
    gameweek: i32,
    rows: Seq<SquadSlot>,
    items: Seq<TransferItem>,
    incoming: Seq<SquadPlayerInfo>,
    position: i32,
)
    requires
        transfer_verdict(team, gameweek, rows, items, incoming) is Ok,
    ensures
        ({
            let before = squad_of_rows(rows);
            let after = transfer_verdict(team, gameweek, rows, items, incoming)->Ok_0;
            &&& before.len() == 15
            &&& after.len() == 15
            &&& distinct_players(after)
            &&& count_where(slot_infos(after), at_position(position)) == count_where(
                slot_infos(before),
                at_position(position),
            )
            &&& total_cost(slot_infos(after)) <= 1000
            &&& forall|j: int| 0 <= j < after.len() ==> count_where(
                slot_infos(after),
                #[trigger] from_club(slot_infos(after)[j].team_id),
            ) <= 3
            &&& (slot_ids(before).contains(team.captain_id) ==> slot_ids(after).contains(team.captain_id))
            &&& (slot_ids(before).contains(team.vice_captain_id) ==> slot_ids(after).contains(
                team.vice_captain_id,
            ))
        }),
{
    let before = squad_of_rows(rows);
    let n = items.len() as int;
    lemma_transfers_keep_shape(before, items, incoming, n, position);
    lemma_rows_distinct(rows);
    lemma_transfers_distinct(before, items, incoming, n);
    lemma_no_overfull_club(slot_infos(apply_transfers(before, items, incoming, n)->Ok_0), 0, MAX_PER_CLUB as nat);
    lemma_no_armband_violation(items, team, 0);
    if slot_ids(before).contains(team.captain_id) {
        lemma_transfers_keep_player(before, items, incoming, n, team.captain_id);
    }
    if slot_ids(before).contains(team.vice_captain_id) {
        lemma_transfers_keep_player(before, items, incoming, n, team.vice_captain_id);
    }
}

/// The squad after recording the first `k` planned swaps on `squad` the way
/// the service stores them: the outgoing player's slot deleted, then the
/// incoming slot added.
pub open spec fn replay(squad: Seq<SquadSlot>, t: Seq<PlannedTransfer>, k: int) -> Seq<SquadSlot>
    decreases k,
{
    if k <= 0 {
        squad
    } else {
        let s = replay(squad, t, k - 1);
        match slot_index(s, t[k - 1].player_out_id) {
            Some(j) => s.remove(j).push(t[k - 1].incoming_slot),
            None => s.push(t[k - 1].incoming_slot),
        }
    }
}

proof fn lemma_replay_prefix(
    squad: Seq<SquadSlot>,
    items: Seq<TransferItem>,
    incoming: Seq<SquadPlayerInfo>,
    used: int,
    t: Seq<PlannedTransfer>,
    k: int,
)
    requires
        0 <= k <= items.len(),
        t.len() == items.len(),
        apply_transfers(squad, items, incoming, items.len() as int) is Ok,
        forall|i: int| 0 <= i < items.len() ==> #[trigger] t[i] == planned_transfer(items, squad, incoming, used, i),
    ensures
        apply_transfers(squad, items, incoming, k) is Ok,
        replay(squad, t, k) == apply_transfers(squad, items, incoming, k)->Ok_0,
    decreases k,
{
    if k > 0 {
        if apply_transfers(squad, items, incoming, k) is Err {
            lemma_apply_error_persists(squad, items, incoming, k, items.len() as int);
        }
        lemma_replay_prefix(squad, items, incoming, used, t, k - 1);
        let s = apply_transfers(squad, items, incoming, k - 1)->Ok_0;
        let item = items[k - 1];
        assert(t[k - 1] == planned_transfer(items, squad, incoming, used, k - 1));
        lemma_slot_index_from(s, item.player_out_id, 0);
    }
}

/// Recording an accepted batch's planned swaps in order, each as the
/// outgoing player's slot deleted and the incoming slot added, rebuilds
/// exactly the squad after the batch.
pub proof fn lemma_replay_plan(
    team: TeamRow,
    gameweek: i32,
    rows: Seq<SquadSlot>,
    items: Seq<TransferItem>,
    incoming: Seq<SquadPlayerInfo>,
    used: int,
    transfers: Seq<PlannedTransfer>,
)
    requires
        transfer_verdict(team, gameweek, rows, items, incoming) is Ok,
        transfers.len() == items.len(),
        forall|i: int| 0 <= i < items.len() ==> #[trigger] transfers[i] == planned_transfer(
            items,
            squad_of_rows(rows),
            incoming,
            used,
            i,
        ),
    ensures
        replay(squad_of_rows(rows), transfers, items.len() as int) == transfer_verdict(
            team,
            gameweek,
            rows,
            items,
            incoming,
        )->Ok_0,
{
    lemma_replay_prefix(squad_of_rows(rows), items, incoming, used, transfers, items.len() as int);
}

/// Sum of the points costs of the first `k` planned transfers.
pub open spec fn cost_sum(t: Seq<PlannedTransfer>, k: int) -> int
    decreases k,
{
    if k <= 0 {
        0
    } else {
        cost_sum(t, k - 1) + t[k - 1].points_cost
    }
}

/// The first `used` transfers of a batch are free and each later one costs
/// `POINTS_PER_HIT`, so the recorded costs add up to the summary's points
/// cost; free and paid transfers make up the batch; the remaining free
/// transfers are what was available less what was made, never below zero.
pub proof fn lemma_transfer_costs(
    team: TeamRow,
    gameweek: i32,
    items: Seq<TransferItem>,
    squad: Seq<SquadSlot>,
    incoming: Seq<SquadPlayerInfo>,
    transfers: Seq<PlannedTransfer>,
)
    requires
        transfers.len() == items.len(),
        forall|i: int| 0 <= i < items.len() ==> #[trigger] transfers[i] == planned_transfer(
            items,
            squad,
            incoming,
            free_used(items.len() as int, available_free_transfers(team, gameweek)),
            i,
        ),
        fits_i32((items.len() - free_used(items.len() as int, available_free_transfers(team, gameweek)))
            * POINTS_PER_HIT),
    ensures
        ({
            let summary = summary_of(team, gameweek, items);
            let available = available_free_transfers(team, gameweek);
            &&& summary.free_transfers_used + summary.hits == summary.transfers_made
            &&& summary.transfers_made == items.len()
            &&& summary.free_transfers_used <= (if available > 0 { available } else { 0 })
            &&& summary.points_cost == summary.hits * 4
            &&& cost_sum(transfers, transfers.len() as int) == summary.points_cost
            &&& summary.free_transfers_remaining == (if available - items.len() > 0 {
                available - items.len()
            } else {
                0
            })
        }),
{
    let used = free_used(items.len() as int, available_free_transfers(team, gameweek));
    assert forall|k: int| 0 <= k <= transfers.len() implies #[trigger] cost_sum(transfers, k) == (if k <= used {
        0
    } else {
        (k - used) * POINTS_PER_HIT
    }) by {
        lemma_cost_sum_prefix(transfers, used, k);
    }
    assert(cost_sum(transfers, transfers.len() as int) == (if transfers.len() <= used {
        0
    } else {
        (transfers.len() - used) * POINTS_PER_HIT
    }));
}

proof fn lemma_cost_sum_prefix(t: Seq<PlannedTransfer>, used: int, k: int)
    requires
        0 <= k <= t.len(),
        0 <= used,
        forall|i: int| 0 <= i < t.len() ==> (#[trigger] t[i]).points_cost == (if i < used { 0 } else { POINTS_PER_HIT }),
    ensures
        cost_sum(t, k) == (if k <= used { 0 } else { (k - used) * POINTS_PER_HIT }),
    decreases k,
{
    if k > 0 {
        lemma_cost_sum_prefix(t, used, k - 1);
        assert(t[k - 1].points_cost == (if k - 1 < used { 0 } else { POINTS_PER_HIT }));
    }
}

/// Replenishment: with gameweeks passed since the last transfer, one free
/// transfer per gameweek passed is added to the bank, which is capped at
/// five; otherwise (no gameweek passed, or no transfer yet) the stored count
/// stands.
pub proof fn lemma_replenishment(team: TeamRow, gameweek: i32)
    ensures
        match team.last_transfer_gameweek {
            Some(last) => if gameweek > last {
                let banked = team.free_transfers + (gameweek - last);
                &&& available_free_transfers(team, gameweek) <= MAX_BANKED_FREE_TRANSFERS
                &&& (available_free_transfers(team, gameweek) == MAX_BANKED_FREE_TRANSFERS
                    || available_free_transfers(team, gameweek) == team.free_transfers + (gameweek - last))
                &&& available_free_transfers(team, gameweek) == if banked < 5 {
                    banked
                } else {
                    5
                }
            } else {
                available_free_transfers(team, gameweek) == team.free_transfers
            },
            None => available_free_transfers(team, gameweek) == team.free_transfers,
        },
{
}

// ---------------------------------------------------------------------------
// What a user is told
// ---------------------------------------------------------------------------

/// What a user is told when a batch of transfers is refused. An over-budget
/// batch has no text here: its message shows the cost in millions as a
/// decimal number.
pub open spec fn transfer_error_text(e: TransferError) -> Option<Seq<char>> {
    match e {
        TransferError::NoTransfers => Some("No transfers submitted"@),
        TransferError::GameweekLocked { gameweek } => Some(
            "Gameweek "@ + int_text(gameweek as int)
                + " has kicked off — transfers reopen once the next gameweek is current"@,
        ),
        TransferError::UnexpectedSquadState => Some("Squad is in an unexpected state — contact support"@),
        TransferError::Overflow => Some("Transfer arithmetic is out of range"@),
        TransferError::DuplicateOutgoing => Some("Cannot transfer the same player out twice in one request"@),
        TransferError::CaptainOut => Some("Change captain before transferring them out"@),
        TransferError::ViceCaptainOut => Some("Change vice-captain before transferring them out"@),
        TransferError::NotInSquad { player_id } => Some(
            "Player "@ + int_text(player_id as int) + " is not in your squad"@,
        ),
        TransferError::AlreadyInSquad { player_id } => Some(
            "Player "@ + int_text(player_id as int) + " is already in your squad"@,
        ),
        TransferError::UnknownPlayer { player_id } => Some(
            "Player "@ + int_text(player_id as int) + " does not exist"@,
        ),
        TransferError::PositionMismatch { player_id } => Some(
            "Replacement must be the same position as the player leaving (player "@ + int_text(player_id as int)
                + " is not)"@,
        ),
        TransferError::OverBudget { .. } => None,
        TransferError::TooManyFromClub { found } => Some(
            "Max "@ + nat_text(MAX_PER_CLUB as nat) + " players allowed from a single club (found "@ + nat_text(
                found as nat,
            ) + ")"@,
        ),
    }
}

fn text_of(s: &str) -> (r: Option<String>)
    ensures
        r matches Some(t) && t@ == s@,
{
    Some(String::from_str(s))
}

impl TransferError {
    /// What a user is told; `None` for an over-budget batch.
    pub fn message(&self) -> (r: Option<String>)
        ensures
            match transfer_error_text(*self) {
                Some(t) => r matches Some(s) && s@ == t,
                None => r is None,
            },
    {
        match self {
            TransferError::NoTransfers => text_of("No transfers submitted"),
            TransferError::GameweekLocked { gameweek } => Some(
                with_number(
                    "Gameweek ",
                    *gameweek as i64,
                    " has kicked off — transfers reopen once the next gameweek is current",
                ),
            ),
            TransferError::UnexpectedSquadState => text_of("Squad is in an unexpected state — contact support"),
            TransferError::Overflow => text_of("Transfer arithmetic is out of range"),
            TransferError::DuplicateOutgoing => text_of("Cannot transfer the same player out twice in one request"),
            TransferError::CaptainOut => text_of("Change captain before transferring them out"),
            TransferError::ViceCaptainOut => text_of("Change vice-captain before transferring them out"),
            TransferError::NotInSquad { player_id } => Some(
                with_number("Player ", *player_id as i64, " is not in your squad"),
            ),
            TransferError::AlreadyInSquad { player_id } => Some(
                with_number("Player ", *player_id as i64, " is already in your squad"),
            ),
            TransferError::UnknownPlayer { player_id } => Some(
                with_number("Player ", *player_id as i64, " does not exist"),
            ),
            TransferError::PositionMismatch { player_id } => Some(
                with_number(
                    "Replacement must be the same position as the player leaving (player ",
                    *player_id as i64,
                    " is not)",
                ),
            ),
            TransferError::OverBudget { .. } => None,
            TransferError::TooManyFromClub { found } => {
                let mut s = String::from_str("Max ");
                append_nat(&mut s, MAX_PER_CLUB as u64);
                s.append(" players allowed from a single club (found ");
                append_nat(&mut s, *found as u64);
                s.append(")");
                Some(s)
            },
        }
    }
}

} // verus!
