//! Squad rules: the 15-player Campaign/Round squad, the 11-player Derby
//! squad, and the starting-XI/bench layout of a stored squad.
use vstd::prelude::*;
use crate::seqs::lemma_take_succ;
use std::collections::HashSet;
use crate::scoring::{GK, DEF, MID, FWD};
use crate::text::{nat_text, int_text, append_nat, with_nat, with_number};
use vstd::string::*;

verus! {

broadcast use vstd::std_specs::hash::group_hash_axioms;

pub const SQUAD_SIZE: usize = 15;
pub const STARTING_XI_SIZE: usize = 11;
pub const MAX_PER_CLUB: usize = 3;

/// Budget, in tenths of a million (FPL's `now_cost` unit): 100.0m.
pub const BUDGET_LIMIT: i32 = 1000;

pub const REQUIRED_GK: usize = 2;
pub const REQUIRED_DEF: usize = 5;
pub const REQUIRED_MID: usize = 5;
pub const REQUIRED_FWD: usize = 3;

pub const STARTING_GK: usize = 1;
pub const STARTING_DEF_MIN: usize = 3;
pub const STARTING_DEF_MAX: usize = 5;
pub const STARTING_MID_MIN: usize = 2;
pub const STARTING_MID_MAX: usize = 5;
pub const STARTING_FWD_MIN: usize = 1;
pub const STARTING_FWD_MAX: usize = 3;

/// A Derby squad: eleven players, all of them starting.
pub const DERBY_SQUAD_SIZE: usize = 11;
/// At most seven of a Derby squad's players may come from one of the two clubs.
pub const DERBY_MAX_PER_CLUB: usize = 7;

/// What squad validation needs to know of a player.
#[derive(Clone, Copy)]
pub struct SquadPlayerInfo {
    pub id: i32,
    pub position: i32,
    pub team_id: i32,
    pub now_cost: i32,
}

/// Why a squad was refused.
#[derive(PartialEq, Eq, Structural)]
pub enum SquadError {
    /// Some requested player ids do not name a known player.
    UnknownPlayers,
    /// The squad does not have exactly `required` players.
    WrongSquadSize { required: usize },
    /// A player appears twice.
    DuplicatePlayers,
    /// Adding up the squad's costs leaves the `i32` range.
    CostOverflow,
    /// The squad's total cost, in tenths of a million, is over budget.
    OverBudget { total_cost: i32 },
    /// The squad has `found` players at `position`, `required` are needed.
    WrongPositionCount { position: i32, required: usize, found: usize },
    /// Some club supplies `found` players, more than allowed.
    TooManyFromClub { found: usize },
    /// A Derby player who plays for neither club of the fixture.
    PlayerNotInFixture { player_id: i32 },
    /// The starting XI does not have exactly `required` players.
    WrongStartingSize { required: usize },
    /// The starting XI names a player outside the squad.
    StartingNotInSquad,
    /// The starting XI does not have exactly one goalkeeper.
    StartingGoalkeeper { found: usize },
    /// The starting XI has `found` players at `position`, outside `min..=max`.
    StartingPositionRange { position: i32, min: usize, max: usize, found: usize },
    CaptainIsViceCaptain,
    CaptainNotInSquad,
    ViceCaptainNotInSquad,
    CaptainNotStarting,
    ViceCaptainNotStarting,
}

// ---------------------------------------------------------------------------
// Mathematical model
// ---------------------------------------------------------------------------

/// The ids of a list of players, in order.
pub open spec fn player_ids(s: Seq<SquadPlayerInfo>) -> Seq<i32> {
    s.map_values(|p: SquadPlayerInfo| p.id)
}

/// Number of players of `s` that satisfy `f`.
pub open spec fn count_where(s: Seq<SquadPlayerInfo>, f: spec_fn(SquadPlayerInfo) -> bool) -> nat
    decreases s.len(),
{
    if s.len() == 0 {
        0
    } else {
        count_where(s.drop_last(), f) + if f(s.last()) {
            1nat
        } else {
            0nat
        }
    }
}

pub open spec fn at_position(position: i32) -> spec_fn(SquadPlayerInfo) -> bool {
    |p: SquadPlayerInfo| p.position == position
}

pub open spec fn from_club(team_id: i32) -> spec_fn(SquadPlayerInfo) -> bool {
    |p: SquadPlayerInfo| p.team_id == team_id
}

pub open spec fn starting_at(starting: Set<i32>, position: i32) -> spec_fn(SquadPlayerInfo) -> bool {
    |p: SquadPlayerInfo| starting.contains(p.id) && p.position == position
}

/// Total cost of a list of players.
pub open spec fn total_cost(s: Seq<SquadPlayerInfo>) -> int
    decreases s.len(),
{
    if s.len() == 0 {
        0
    } else {
        total_cost(s.drop_last()) + s.last().now_cost
    }
}

/// Every running total of the players' costs, added in order, fits an `i32`.
pub open spec fn cost_fits(s: Seq<SquadPlayerInfo>) -> bool {
    forall|k: int| 0 <= k <= s.len() ==> crate::scoring::fits_i32(#[trigger] total_cost(s.take(k)))
}

/// Looking at the players from index `i` on, in order: the number of players
/// that the club of the first one whose club supplies more than `max` players
/// supplies.
pub open spec fn overfull_club_from(s: Seq<SquadPlayerInfo>, i: int, max: nat) -> Option<nat>
    decreases s.len() - i,
{
    if i < 0 || i >= s.len() {
        None
    } else if count_where(s, from_club(s[i].team_id)) > max {
        Some(count_where(s, from_club(s[i].team_id)))
    } else {
        overfull_club_from(s, i + 1, max)
    }
}

pub open spec fn overfull_club(s: Seq<SquadPlayerInfo>, max: nat) -> Option<nat> {
    overfull_club_from(s, 0, max)
}

/// The verdict of the 15-player squad rules, checked in this order: size,
/// duplicates, budget, position quotas (GK, DEF, MID, FWD), players per club,
/// starting-XI size, starting XI within the squad, starting goalkeeper,
/// starting DEF/MID/FWD ranges, and the captain and vice-captain.
pub open spec fn squad_verdict(
    players: Seq<SquadPlayerInfo>,
    starting: Set<i32>,
    captain_id: i32,
    vice_captain_id: i32,
) -> Result<(), SquadError> {
    let ids = player_ids(players);
    let gk = count_where(players, at_position(GK));
    let def = count_where(players, at_position(DEF));
    let mid = count_where(players, at_position(MID));
    let fwd = count_where(players, at_position(FWD));
    let s_gk = count_where(players, starting_at(starting, GK));
    let s_def = count_where(players, starting_at(starting, DEF));
    let s_mid = count_where(players, starting_at(starting, MID));
    let s_fwd = count_where(players, starting_at(starting, FWD));
    if players.len() != SQUAD_SIZE {
        Err(SquadError::WrongSquadSize { required: SQUAD_SIZE })
    } else if !ids.no_duplicates() {
        Err(SquadError::DuplicatePlayers)
    } else if !cost_fits(players) {
        Err(SquadError::CostOverflow)
    } else if total_cost(players) > BUDGET_LIMIT {
        Err(SquadError::OverBudget { total_cost: total_cost(players) as i32 })
    } else if gk != REQUIRED_GK {
        Err(SquadError::WrongPositionCount { position: GK, required: REQUIRED_GK, found: gk as usize })
    } else if def != REQUIRED_DEF {
        Err(SquadError::WrongPositionCount { position: DEF, required: REQUIRED_DEF, found: def as usize })
    } else if mid != REQUIRED_MID {
        Err(SquadError::WrongPositionCount { position: MID, required: REQUIRED_MID, found: mid as usize })
    } else if fwd != REQUIRED_FWD {
        Err(SquadError::WrongPositionCount { position: FWD, required: REQUIRED_FWD, found: fwd as usize })
    } else if overfull_club(players, MAX_PER_CLUB as nat) is Some {
        Err(SquadError::TooManyFromClub { found: overfull_club(players, MAX_PER_CLUB as nat)->0 as usize })
    } else if starting.len() != STARTING_XI_SIZE {
        Err(SquadError::WrongStartingSize { required: STARTING_XI_SIZE })
    } else if !starting.subset_of(ids.to_set()) {
        Err(SquadError::StartingNotInSquad)
    } else if s_gk != STARTING_GK {
        Err(SquadError::StartingGoalkeeper { found: s_gk as usize })
    } else if !(STARTING_DEF_MIN <= s_def <= STARTING_DEF_MAX) {
        Err(SquadError::StartingPositionRange { position: DEF, min: STARTING_DEF_MIN, max: STARTING_DEF_MAX, found: s_def as usize })
    } else if !(STARTING_MID_MIN <= s_mid <= STARTING_MID_MAX) {
        Err(SquadError::StartingPositionRange { position: MID, min: STARTING_MID_MIN, max: STARTING_MID_MAX, found: s_mid as usize })
    } else if !(STARTING_FWD_MIN <= s_fwd <= STARTING_FWD_MAX) {
        Err(SquadError::StartingPositionRange { position: FWD, min: STARTING_FWD_MIN, max: STARTING_FWD_MAX, found: s_fwd as usize })
    } else if captain_id == vice_captain_id {
        Err(SquadError::CaptainIsViceCaptain)
    } else if !ids.contains(captain_id) {
        Err(SquadError::CaptainNotInSquad)
    } else if !ids.contains(vice_captain_id) {
        Err(SquadError::ViceCaptainNotInSquad)
    } else if !starting.contains(captain_id) {
        Err(SquadError::CaptainNotStarting)
    } else if !starting.contains(vice_captain_id) {
        Err(SquadError::ViceCaptainNotStarting)
    } else {
        Ok(())
    }
}

/// The first player of `s` whose club is neither `home` nor `away`.
pub open spec fn first_outsider_from(s: Seq<SquadPlayerInfo>, i: int, home: i32, away: i32) -> Option<i32>
    decreases s.len() - i,
{
    if i < 0 || i >= s.len() {
        None
    } else if s[i].team_id != home && s[i].team_id != away {
        Some(s[i].id)
    } else {
        first_outsider_from(s, i + 1, home, away)
    }
}

/// The verdict of the Derby squad rules, checked in this order: size,
/// duplicates, every player from one of the fixture's two clubs, players per
/// club, and the captain and vice-captain.
pub open spec fn derby_verdict(
    players: Seq<SquadPlayerInfo>,
    home_team_id: i32,
    away_team_id: i32,
    captain_id: i32,
    vice_captain_id: i32,
) -> Result<(), SquadError> {
    let ids = player_ids(players);
    if players.len() != DERBY_SQUAD_SIZE {
        Err(SquadError::WrongSquadSize { required: DERBY_SQUAD_SIZE })
    } else if !ids.no_duplicates() {
        Err(SquadError::DuplicatePlayers)
    } else if first_outsider_from(players, 0, home_team_id, away_team_id) is Some {
        Err(SquadError::PlayerNotInFixture {
            player_id: first_outsider_from(players, 0, home_team_id, away_team_id)->0,
        })
    } else if overfull_club(players, DERBY_MAX_PER_CLUB as nat) is Some {
        Err(SquadError::TooManyFromClub { found: overfull_club(players, DERBY_MAX_PER_CLUB as nat)->0 as usize })
    } else if captain_id == vice_captain_id {
        Err(SquadError::CaptainIsViceCaptain)
    } else if !ids.contains(captain_id) {
        Err(SquadError::CaptainNotInSquad)
    } else if !ids.contains(vice_captain_id) {
        Err(SquadError::ViceCaptainNotInSquad)
    } else {
        Ok(())
    }
}

// ---------------------------------------------------------------------------
// Counting
// ---------------------------------------------------------------------------

/// A count is never larger than the list it counts in.
pub proof fn lemma_count_bound(s: Seq<SquadPlayerInfo>, f: spec_fn(SquadPlayerInfo) -> bool)
    ensures
        count_where(s, f) <= s.len(),
    decreases s.len(),
{
    if s.len() > 0 {
        lemma_count_bound(s.drop_last(), f);
    }
}

fn count_at_position(players: &[SquadPlayerInfo], position: i32) -> (n: usize)
    ensures
        n == count_where(players@, at_position(position)),
{
    let mut n: usize = 0;
    let mut i: usize = 0;
    while i < players.len()
        invariant
            i <= players@.len(),
            n == count_where(players@.take(i as int), at_position(position)),
            n <= i,
        decreases players.len() - i,
    {
        proof {
            lemma_take_succ(players@, i as int);
        }
        if players[i].position == position {
            n = n + 1;
        }
        i = i + 1;
    }
    assert(players@.take(i as int) =~= players@);
    n
}

fn count_from_club(players: &[SquadPlayerInfo], team_id: i32) -> (n: usize)
    ensures
        n == count_where(players@, from_club(team_id)),
{
    let mut n: usize = 0;
    let mut i: usize = 0;
    while i < players.len()
        invariant
            i <= players@.len(),
            n == count_where(players@.take(i as int), from_club(team_id)),
            n <= i,
        decreases players.len() - i,
    {
        proof {
            lemma_take_succ(players@, i as int);
        }
        if players[i].team_id == team_id {
            n = n + 1;
        }
        i = i + 1;
    }
    assert(players@.take(i as int) =~= players@);
    n
}

fn count_starting_at(players: &[SquadPlayerInfo], starting: &HashSet<i32>, position: i32) -> (n: usize)
    ensures
        n == count_where(players@, starting_at(starting@, position)),
{
    let mut n: usize = 0;
    let mut i: usize = 0;
    while i < players.len()
        invariant
            i <= players@.len(),
            n == count_where(players@.take(i as int), starting_at(starting@, position)),
            n <= i,
        decreases players.len() - i,
    {
        proof {
            lemma_take_succ(players@, i as int);
        }
        if starting.contains(&players[i].id) && players[i].position == position {
            n = n + 1;
        }
        i = i + 1;
    }
    assert(players@.take(i as int) =~= players@);
    n
}

/// The total cost of the players, or `None` when a running total leaves the
/// `i32` range.
pub fn checked_total_cost(players: &[SquadPlayerInfo]) -> (total: Option<i32>)
    ensures
        total matches Some(t) ==> cost_fits(players@) && t == total_cost(players@),
        total is None ==> !cost_fits(players@),
{
    let mut total: i32 = 0;
    let mut i: usize = 0;
    assert(players@.take(0) =~= Seq::<SquadPlayerInfo>::empty());
    while i < players.len()
        invariant
            i <= players@.len(),
            total == total_cost(players@.take(i as int)),
            forall|k: int| 0 <= k <= i ==> crate::scoring::fits_i32(#[trigger] total_cost(players@.take(k))),
        decreases players.len() - i,
    {
        proof {
            lemma_take_succ(players@, i as int);
        }
        let next = total as i64 + players[i].now_cost as i64;
        if next < i32::MIN as i64 || next > i32::MAX as i64 {
            assert(!crate::scoring::fits_i32(total_cost(players@.take(i as int + 1))));
            return None;
        }
        total = next as i32;
        i = i + 1;
    }
    assert(players@.take(i as int) =~= players@);
    Some(total)
}

/// The count of the first over-full club, scanning the players in order.
pub(crate) fn find_overfull_club(players: &[SquadPlayerInfo], max: usize) -> (r: Option<usize>)
    ensures
        r matches Some(n) ==> overfull_club(players@, max as nat) == Some(n as nat),
        r is None ==> overfull_club(players@, max as nat) is None,
{
    let mut i: usize = 0;
    while i < players.len()
        invariant
            i <= players@.len(),
            overfull_club(players@, max as nat) == overfull_club_from(players@, i as int, max as nat),
        decreases players.len() - i,
    {
        let n = count_from_club(players, players[i].team_id);
        if n > max {
            return Some(n);
        }
        i = i + 1;
    }
    None
}

/// The first player who plays for neither club.
fn find_outsider(players: &[SquadPlayerInfo], home_team_id: i32, away_team_id: i32) -> (r: Option<i32>)
    ensures
        r == first_outsider_from(players@, 0, home_team_id, away_team_id),
{
    let mut i: usize = 0;
    while i < players.len()
        invariant
            i <= players@.len(),
            first_outsider_from(players@, 0, home_team_id, away_team_id)
                == first_outsider_from(players@, i as int, home_team_id, away_team_id),
        decreases players.len() - i,
    {
        if players[i].team_id != home_team_id && players[i].team_id != away_team_id {
            return Some(players[i].id);
        }
        i = i + 1;
    }
    None
}

/// The set of the players' ids, and whether some id occurs twice.
fn collect_ids(players: &[SquadPlayerInfo]) -> (r: (HashSet<i32>, bool))
    ensures
        r.0@ == player_ids(players@).to_set(),
        r.1 == !player_ids(players@).no_duplicates(),
{
    let mut set: HashSet<i32> = HashSet::new();
    let mut dup = false;
    let mut i: usize = 0;
    let ghost ids = player_ids(players@);
    while i < players.len()
        invariant
            i <= players@.len(),
            ids == player_ids(players@),
            set@ == ids.take(i as int).to_set(),
            dup == !ids.take(i as int).no_duplicates(),
        decreases players.len() - i,
    {
        let id = players[i].id;
        proof {
            lemma_take_succ(ids, i as int);
            assert(ids.take(i as int + 1) == ids.take(i as int).push(id));
            ids.take(i as int).lemma_push_to_set_commute(id);
            lemma_no_duplicates_push(ids.take(i as int), id);
        }
        let fresh = set.insert(id);
        if !fresh {
            dup = true;
        }
        i = i + 1;
    }
    assert(ids.take(i as int) =~= ids);
    (set, dup)
}

/// A sequence with one more element has no duplicates exactly when the
/// shorter one has none and does not hold the new element.
pub proof fn lemma_no_duplicates_push<A>(s: Seq<A>, x: A)
    ensures
        s.push(x).no_duplicates() <==> (s.no_duplicates() && !s.to_set().contains(x)),
{
    let t = s.push(x);
    if t.no_duplicates() {
        assert forall|i: int, j: int| 0 <= i < s.len() && 0 <= j < s.len() && i != j implies s[i] != s[j] by {
            assert(t[i] == s[i] && t[j] == s[j]);
        }
        if s.to_set().contains(x) {
            let k = choose|k: int| 0 <= k < s.len() && s[k] == x;
            assert(t[k] == t[s.len() as int]);
        }
    }
    if s.no_duplicates() && !s.to_set().contains(x) {
        assert forall|i: int, j: int| 0 <= i < t.len() && 0 <= j < t.len() && i != j implies t[i] != t[j] by {
            if i == s.len() {
                assert(s.to_set().contains(s[j]));
            } else if j == s.len() {
                assert(s.to_set().contains(s[i]));
            }
        }
    }
}

/// Whether every element of `sub` is in `sup`.
fn is_subset(sub: &HashSet<i32>, sup: &HashSet<i32>) -> (r: bool)
    ensures
        r == sub@.subset_of(sup@),
{
    let mut ok = true;
    let ghost mut seen: Seq<i32> = Seq::empty();
    for x in it: sub.iter()
        invariant
            it.seq().unref().to_set() == sub@,
            it.index() <= it.seq().len(),
            seen == it.seq().unref().take(it.index() as int),
            ok == (forall|j: int| 0 <= j < seen.len() ==> sup@.contains(seen[j])),
            it.index() == it.seq().len() ==> seen.to_set() == sub@,
    {
        proof {
            assert(it.seq().unref().take(it.index() + 1) == seen.push(*x));
            assert(it.index() + 1 == it.seq().len() ==> it.seq().unref().take(it.index() + 1)
                =~= it.seq().unref());
        }
        let ghost old_seen = seen;
        proof {
            seen = seen.push(*x);
        }
        if !sup.contains(x) {
            ok = false;
        }
        proof {
            assert(forall|j: int| 0 <= j < old_seen.len() ==> seen[j] == old_seen[j]);
            assert(seen[old_seen.len() as int] == *x);
        }
    }
    proof {
        assert(seen.to_set() == sub@);
        if ok {
            assert forall|k: i32| sub@.contains(k) implies sup@.contains(k) by {
                assert(seen.to_set().contains(k));
                let j = choose|j: int| 0 <= j < seen.len() && seen[j] == k;
            }
        } else {
            let j = choose|j: int| 0 <= j < seen.len() && !sup@.contains(seen[j]);
            assert(seen.to_set().contains(seen[j]));
        }
    }
    ok
}

// ---------------------------------------------------------------------------
// Validation
// ---------------------------------------------------------------------------

/// The squad must hold exactly `required` players at `position`.
pub fn check_count(
    players: &[SquadPlayerInfo],
    position: i32,
    required: usize,
) -> (r: Result<(), SquadError>)
    ensures
        count_where(players@, at_position(position)) == required ==> r is Ok,
        count_where(players@, at_position(position)) != required ==> r == Err::<(), SquadError>(
            SquadError::WrongPositionCount {
                position,
                required,
                found: count_where(players@, at_position(position)) as usize,
            },
        ),
{
    let count = count_at_position(players, position);
    if count != required {
        return Err(SquadError::WrongPositionCount { position, required, found: count });
    }
    Ok(())
}

/// The starting XI (the players whose ids are in `starting`) must hold
/// between `min` and `max` players at `position`.
pub fn check_range(
    players: &[SquadPlayerInfo],
    starting: &HashSet<i32>,
    position: i32,
    min: usize,
    max: usize,
) -> (r: Result<(), SquadError>)
    ensures
        ({
            let n = count_where(players@, starting_at(starting@, position));
            &&& (min <= n <= max ==> r is Ok)
            &&& (!(min <= n <= max) ==> r == Err::<(), SquadError>(
                SquadError::StartingPositionRange { position, min, max, found: n as usize },
            ))
        }),
{
    let count = count_starting_at(players, starting, position);
    if count < min || count > max {
        return Err(SquadError::StartingPositionRange { position, min, max, found: count });
    }
    Ok(())
}

/// Checks a 15-player Campaign or Round squad: its size, no player twice, the
/// budget, the 2/5/5/3 position quotas, at most three players per club, an
/// 11-player starting XI chosen from the squad with one goalkeeper, 3 to 5
/// defenders, 2 to 5 midfielders and 1 to 3 forwards, and a captain and a
/// different vice-captain who both start. The first rule broken, in that
/// order, is the error.
pub fn validate_squad(
    players: &[SquadPlayerInfo],
    starting_ids: &HashSet<i32>,
    captain_id: i32,
    vice_captain_id: i32,
) -> (r: Result<(), SquadError>)
    ensures
        r == squad_verdict(players@, starting_ids@, captain_id, vice_captain_id),
{
    if players.len() != SQUAD_SIZE {
        return Err(SquadError::WrongSquadSize { required: SQUAD_SIZE });
    }
    let (all_ids, duplicated) = collect_ids(players);
    if duplicated {
        return Err(SquadError::DuplicatePlayers);
    }
    let total = match checked_total_cost(players) {
        Some(t) => t,
        None => {
            return Err(SquadError::CostOverflow);
        },
    };
    if total > BUDGET_LIMIT {
        return Err(SquadError::OverBudget { total_cost: total });
    }
    check_count(players, GK, REQUIRED_GK)?;
    check_count(players, DEF, REQUIRED_DEF)?;
    check_count(players, MID, REQUIRED_MID)?;
    check_count(players, FWD, REQUIRED_FWD)?;

    if let Some(found) = find_overfull_club(players, MAX_PER_CLUB) {
        return Err(SquadError::TooManyFromClub { found });
    }

    if starting_ids.len() != STARTING_XI_SIZE {
        return Err(SquadError::WrongStartingSize { required: STARTING_XI_SIZE });
    }
    if !is_subset(starting_ids, &all_ids) {
        return Err(SquadError::StartingNotInSquad);
    }

    let gk_count = count_starting_at(players, starting_ids, GK);
    if gk_count != STARTING_GK {
        return Err(SquadError::StartingGoalkeeper { found: gk_count });
    }
    check_range(players, starting_ids, DEF, STARTING_DEF_MIN, STARTING_DEF_MAX)?;
    check_range(players, starting_ids, MID, STARTING_MID_MIN, STARTING_MID_MAX)?;
    check_range(players, starting_ids, FWD, STARTING_FWD_MIN, STARTING_FWD_MAX)?;

    if captain_id == vice_captain_id {
        return Err(SquadError::CaptainIsViceCaptain);
    }
    if !all_ids.contains(&captain_id) {
        return Err(SquadError::CaptainNotInSquad);
    }
    if !all_ids.contains(&vice_captain_id) {
        return Err(SquadError::ViceCaptainNotInSquad);
    }
    if !starting_ids.contains(&captain_id) {
        return Err(SquadError::CaptainNotStarting);
    }
    if !starting_ids.contains(&vice_captain_id) {
        return Err(SquadError::ViceCaptainNotStarting);
    }
    Ok(())
}

/// Checks an 11-player Derby squad for a fixture between `home_team_id` and
/// `away_team_id`: its size, no player twice, every player from one of the
/// two clubs, at most seven from either, and a captain and a different
/// vice-captain from the squad. The first rule broken, in that order, is the
/// error.
pub fn validate_derby_squad(
    players: &[SquadPlayerInfo],
    home_team_id: i32,
    away_team_id: i32,
    captain_id: i32,
    vice_captain_id: i32,
) -> (r: Result<(), SquadError>)
    ensures
        r == derby_verdict(players@, home_team_id, away_team_id, captain_id, vice_captain_id),
{
    if players.len() != DERBY_SQUAD_SIZE {
        return Err(SquadError::WrongSquadSize { required: DERBY_SQUAD_SIZE });
    }
    let (all_ids, duplicated) = collect_ids(players);
    if duplicated {
        return Err(SquadError::DuplicatePlayers);
    }
    if let Some(player_id) = find_outsider(players, home_team_id, away_team_id) {
        return Err(SquadError::PlayerNotInFixture { player_id });
    }
    if let Some(found) = find_overfull_club(players, DERBY_MAX_PER_CLUB) {
        return Err(SquadError::TooManyFromClub { found });
    }
    if captain_id == vice_captain_id {
        return Err(SquadError::CaptainIsViceCaptain);
    }
    if !all_ids.contains(&captain_id) {
        return Err(SquadError::CaptainNotInSquad);
    }
    if !all_ids.contains(&vice_captain_id) {
        return Err(SquadError::ViceCaptainNotInSquad);
    }
    Ok(())
}


// ---------------------------------------------------------------------------
// Squad requests and the stored layout
// ---------------------------------------------------------------------------

/// A Campaign squad as a user submits it.
pub struct CreateTeamRequest {
    /// Exactly 15 player ids: the full squad.
    pub players: Vec<i32>,
    /// Exactly 11 of the ids above: this gameweek's starting lineup.
    pub starting_ids: Vec<i32>,
    pub captain_id: i32,
    pub vice_captain_id: i32,
}

/// The set of the given ids.
pub fn starting_set(ids: &[i32]) -> (set: HashSet<i32>)
    ensures
        set@ == ids@.to_set(),
{
    let mut set: HashSet<i32> = HashSet::new();
    let mut i: usize = 0;
    while i < ids.len()
        invariant
            i <= ids@.len(),
            set@ == ids@.take(i as int).to_set(),
        decreases ids.len() - i,
    {
        proof {
            lemma_take_succ(ids@, i as int);
            assert(ids@.take(i as int + 1) == ids@.take(i as int).push(ids@[i as int]));
            ids@.take(i as int).lemma_push_to_set_commute(ids@[i as int]);
        }
        set.insert(ids[i]);
        i = i + 1;
    }
    assert(ids@.take(i as int) =~= ids@);
    set
}

/// A submitted starting XI lists exactly 11 players, none twice.
pub open spec fn starting_list_ok(ids: Seq<i32>) -> bool {
    ids.len() == STARTING_XI_SIZE && ids.no_duplicates()
}

/// Whether some id occurs twice in `ids`.
fn has_repeats(ids: &[i32]) -> (r: bool)
    ensures
        r == !ids@.no_duplicates(),
{
    let mut set: HashSet<i32> = HashSet::new();
    let mut dup = false;
    let mut i: usize = 0;
    while i < ids.len()
        invariant
            i <= ids@.len(),
            set@ == ids@.take(i as int).to_set(),
            dup == !ids@.take(i as int).no_duplicates(),
        decreases ids.len() - i,
    {
        let id = ids[i];
        proof {
            lemma_take_succ(ids@, i as int);
            assert(ids@.take(i as int + 1) == ids@.take(i as int).push(id));
            ids@.take(i as int).lemma_push_to_set_commute(id);
            lemma_no_duplicates_push(ids@.take(i as int), id);
        }
        let fresh = set.insert(id);
        if !fresh {
            dup = true;
        }
        i = i + 1;
    }
    assert(ids@.take(i as int) =~= ids@);
    dup
}

/// Checks a submitted 15-player squad, given what is known of the players it
/// names (`squad_info`, one entry per known player): when some named player
/// is unknown (fewer entries than ids) the error is `UnknownPlayers`;
/// otherwise the squad rules decide, with the starting XI the set of
/// `starting_ids`, and a squad that passes them is still refused with
/// `WrongStartingSize` when its starting list names a player twice. On
/// success the starting set is returned.
pub fn check_squad_entry(
    players: &[i32],
    starting_ids: &[i32],
    captain_id: i32,
    vice_captain_id: i32,
    squad_info: &[SquadPlayerInfo],
) -> (r: Result<HashSet<i32>, SquadError>)
    ensures
        squad_info@.len() != players@.len() ==> r == Err::<HashSet<i32>, SquadError>(SquadError::UnknownPlayers),
        squad_info@.len() == players@.len() ==> match squad_verdict(
            squad_info@,
            starting_ids@.to_set(),
            captain_id,
            vice_captain_id,
        ) {
            Err(e) => r == Err::<HashSet<i32>, SquadError>(e),
            Ok(()) => if starting_list_ok(starting_ids@) {
                r matches Ok(set) && set@ == starting_ids@.to_set()
            } else {
                r == Err::<HashSet<i32>, SquadError>(SquadError::WrongStartingSize { required: STARTING_XI_SIZE })
            },
        },
{
    if squad_info.len() != players.len() {
        return Err(SquadError::UnknownPlayers);
    }
    let set = starting_set(starting_ids);
    match validate_squad(squad_info, &set, captain_id, vice_captain_id) {
        Ok(()) => {},
        Err(e) => {
            return Err(e);
        },
    }
    if has_repeats(starting_ids) {
        return Err(SquadError::WrongStartingSize { required: STARTING_XI_SIZE });
    }
    proof {
        starting_ids@.unique_seq_to_set();
    }
    Ok(set)
}

/// Checks a submitted Derby squad in the same way: unknown players first,
/// then the Derby rules.
pub fn check_derby_entry(
    players: &[i32],
    captain_id: i32,
    vice_captain_id: i32,
    squad_info: &[SquadPlayerInfo],
    home_team_id: i32,
    away_team_id: i32,
) -> (r: Result<(), SquadError>)
    ensures
        squad_info@.len() != players@.len() ==> r == Err::<(), SquadError>(SquadError::UnknownPlayers),
        squad_info@.len() == players@.len() ==> r == derby_verdict(
            squad_info@,
            home_team_id,
            away_team_id,
            captain_id,
            vice_captain_id,
        ),
{
    if squad_info.len() != players.len() {
        return Err(SquadError::UnknownPlayers);
    }
    validate_derby_squad(squad_info, home_team_id, away_team_id, captain_id, vice_captain_id)
}

/// How one player of a stored squad is laid out.
pub struct SquadSlotAssignment {
    pub player_id: i32,
    pub is_starting: bool,
    /// `None` for starters; bench players are numbered 0, 1, 2, ... in
    /// squad order.
    pub bench_order: Option<i16>,
}

/// Number of players of `ids` that are not in `starting`.
pub open spec fn bench_count(ids: Seq<i32>, starting: Set<i32>) -> nat
    decreases ids.len(),
{
    if ids.len() == 0 {
        0
    } else {
        bench_count(ids.drop_last(), starting) + if starting.contains(ids.last()) {
            0nat
        } else {
            1nat
        }
    }
}

/// The layout of the `i`-th player of `ids`.
pub open spec fn slot_of(ids: Seq<i32>, starting: Set<i32>, i: int) -> SquadSlotAssignment {
    SquadSlotAssignment {
        player_id: ids[i],
        is_starting: starting.contains(ids[i]),
        bench_order: if starting.contains(ids[i]) {
            None
        } else {
            Some(bench_count(ids.take(i), starting) as i16)
        },
    }
}

/// Lays out a squad for storage: starters get no bench number, the others
/// are numbered from 0 in the order they are listed.
pub fn assign_bench_order(players: &[i32], starting_ids: &HashSet<i32>) -> (slots: Vec<SquadSlotAssignment>)
    requires
        bench_count(players@, starting_ids@) <= i16::MAX,
    ensures
        slots@.len() == players@.len(),
        forall|i: int| 0 <= i < players@.len() ==> #[trigger] slots@[i] == slot_of(players@, starting_ids@, i),
{
    let mut slots: Vec<SquadSlotAssignment> = Vec::new();
    let mut bench_order: i16 = 0;
    let mut i: usize = 0;
    while i < players.len()
        invariant
            i <= players@.len(),
            bench_count(players@, starting_ids@) <= i16::MAX,
            bench_order == bench_count(players@.take(i as int), starting_ids@),
            slots@.len() == i,
            forall|k: int| 0 <= k < i ==> #[trigger] slots@[k] == slot_of(players@, starting_ids@, k),
        decreases players.len() - i,
    {
        let pid = players[i];
        proof {
            lemma_take_succ(players@, i as int);
            lemma_bench_count_prefix(players@, starting_ids@, i as int + 1);
        }
        let is_starting = starting_ids.contains(&pid);
        let this_bench_order = if is_starting {
            None
        } else {
            let order = bench_order;
            bench_order = bench_order + 1;
            Some(order)
        };
        slots.push(SquadSlotAssignment { player_id: pid, is_starting, bench_order: this_bench_order });
        i = i + 1;
    }
    slots
}

/// A prefix never has more bench players than the whole list.
pub proof fn lemma_bench_count_prefix(ids: Seq<i32>, starting: Set<i32>, k: int)
    requires
        0 <= k <= ids.len(),
    ensures
        bench_count(ids.take(k), starting) <= bench_count(ids, starting),
    decreases ids.len() - k,
{
    if k < ids.len() {
        lemma_take_succ(ids, k);
        lemma_bench_count_prefix(ids, starting, k + 1);
    } else {
        assert(ids.take(k) =~= ids);
    }
}

/// The first position of player `id` in a list of squad ids.
pub open spec fn first_index_from(ids: Seq<i32>, id: i32, i: int) -> Option<int>
    decreases ids.len() - i,
{
    if i < 0 || i >= ids.len() {
        None
    } else if ids[i] == id {
        Some(i)
    } else {
        first_index_from(ids, id, i + 1)
    }
}

/// Where player `id` first appears in a squad listing (the captain and
/// vice-captain are looked up this way), `None` when absent.
pub fn find_in_squad(ids: &[i32], id: i32) -> (r: Option<usize>)
    ensures
        match first_index_from(ids@, id, 0) {
            Some(k) => r == Some(k as usize),
            None => r is None,
        },
{
    let mut i: usize = 0;
    while i < ids.len()
        invariant
            i <= ids@.len(),
            first_index_from(ids@, id, 0) == first_index_from(ids@, id, i as int),
        decreases ids.len() - i,
    {
        if ids[i] == id {
            return Some(i);
        }
        i = i + 1;
    }
    None
}

// ---------------------------------------------------------------------------
// Laws
// ---------------------------------------------------------------------------

/// When no club is over-full from index `i` on, every player from `i` on
/// comes from a club with at most `max` players.
pub proof fn lemma_no_overfull_club(s: Seq<SquadPlayerInfo>, i: int, max: nat)
    requires
        0 <= i,
        overfull_club_from(s, i, max) is None,
    ensures
        forall|j: int| i <= j < s.len() ==> count_where(s, #[trigger] from_club(s[j].team_id)) <= max,
    decreases s.len() - i,
{
    if i < s.len() {
        lemma_no_overfull_club(s, i + 1, max);
    }
}

/// A squad that passes validation has 15 distinct players within budget,
/// the 2/5/5/3 quotas, at most three players from any of its clubs, an
/// 11-player starting XI drawn from the squad, and a captain and a different
/// vice-captain who are both in that starting XI.
pub proof fn lemma_valid_squad(
    players: Seq<SquadPlayerInfo>,
    starting: Set<i32>,
    captain_id: i32,
    vice_captain_id: i32,
)
    requires
        squad_verdict(players, starting, captain_id, vice_captain_id) is Ok,
    ensures
        players.len() == SQUAD_SIZE,
        player_ids(players).no_duplicates(),
        cost_fits(players),
        total_cost(players) <= BUDGET_LIMIT,
        count_where(players, at_position(GK)) == REQUIRED_GK,
        count_where(players, at_position(DEF)) == REQUIRED_DEF,
        count_where(players, at_position(MID)) == REQUIRED_MID,
        count_where(players, at_position(FWD)) == REQUIRED_FWD,
        forall|j: int| 0 <= j < players.len() ==> count_where(players, #[trigger] from_club(players[j].team_id)) <= MAX_PER_CLUB,
        starting.len() == STARTING_XI_SIZE,
        starting.subset_of(player_ids(players).to_set()),
        captain_id != vice_captain_id,
        starting.contains(captain_id),
        starting.contains(vice_captain_id),
{
    lemma_no_overfull_club(players, 0, MAX_PER_CLUB as nat);
}

/// A Derby squad that passes validation has 11 distinct players, all from the
/// fixture's two clubs, at most seven from either, and a captain and a
/// different vice-captain from the squad.
pub proof fn lemma_valid_derby_squad(
    players: Seq<SquadPlayerInfo>,
    home_team_id: i32,
    away_team_id: i32,
    captain_id: i32,
    vice_captain_id: i32,
)
    requires
        derby_verdict(players, home_team_id, away_team_id, captain_id, vice_captain_id) is Ok,
    ensures
        players.len() == DERBY_SQUAD_SIZE,
        player_ids(players).no_duplicates(),
        forall|j: int| 0 <= j < players.len() ==> (#[trigger] players[j]).team_id == home_team_id
            || players[j].team_id == away_team_id,
        forall|j: int| 0 <= j < players.len() ==> count_where(players, #[trigger] from_club(players[j].team_id)) <= DERBY_MAX_PER_CLUB,
        captain_id != vice_captain_id,
        player_ids(players).contains(captain_id),
        player_ids(players).contains(vice_captain_id),
{
    lemma_no_overfull_club(players, 0, DERBY_MAX_PER_CLUB as nat);
    lemma_no_outsider(players, 0, home_team_id, away_team_id);
}

/// When no outsider is found from index `i` on, every player from `i` on
/// plays for one of the two clubs.
pub proof fn lemma_no_outsider(s: Seq<SquadPlayerInfo>, i: int, home: i32, away: i32)
    requires
        0 <= i,
        first_outsider_from(s, i, home, away) is None,
    ensures
        forall|j: int| i <= j < s.len() ==> (#[trigger] s[j]).team_id == home || s[j].team_id == away,
    decreases s.len() - i,
{
    if i < s.len() {
        lemma_no_outsider(s, i + 1, home, away);
    }
}

// ---------------------------------------------------------------------------
// Reordering and repricing a squad
// ---------------------------------------------------------------------------

/// Counting over a sequence with one element removed.
pub proof fn lemma_count_remove(s: Seq<SquadPlayerInfo>, f: spec_fn(SquadPlayerInfo) -> bool, k: int)
    requires
        0 <= k < s.len(),
    ensures
        count_where(s.remove(k), f) + (if f(s[k]) { 1int } else { 0int }) == count_where(s, f),
    decreases s.len(),
{
    if k == s.len() - 1 {
        assert(s.remove(k) =~= s.drop_last());
    } else {
        let t = s.drop_last();
        lemma_count_remove(t, f, k);
        assert(s.remove(k) =~= t.remove(k).push(s.last()));
        assert(s.remove(k).drop_last() =~= t.remove(k));
    }
}

/// The total cost of a sequence with one element removed.
proof fn lemma_total_cost_remove(s: Seq<SquadPlayerInfo>, k: int)
    requires
        0 <= k < s.len(),
    ensures
        total_cost(s.remove(k)) + s[k].now_cost == total_cost(s),
    decreases s.len(),
{
    if k == s.len() - 1 {
        assert(s.remove(k) =~= s.drop_last());
    } else {
        let t = s.drop_last();
        lemma_total_cost_remove(t, k);
        assert(s.remove(k) =~= t.remove(k).push(s.last()));
        assert(s.remove(k).drop_last() =~= t.remove(k));
    }
}

/// In a reordering `q` of `p`, the last player of `p` sits at some index
/// `k` of `q`, and the rest of `q` is a reordering of the rest of `p`.
proof fn lemma_reorder_step(q: Seq<SquadPlayerInfo>, p: Seq<SquadPlayerInfo>) -> (k: int)
    requires
        q.to_multiset() == p.to_multiset(),
        p.len() > 0,
    ensures
        0 <= k < q.len(),
        q[k] == p.last(),
        q.remove(k).to_multiset() == p.drop_last().to_multiset(),
{
    broadcast use vstd::seq_lib::group_to_multiset_ensures, vstd::multiset::group_multiset_axioms;

    let x = p.last();
    assert(p =~= p.drop_last().push(x));
    assert(p.to_multiset() == p.drop_last().to_multiset().insert(x));
    assert(q.to_multiset().count(x) > 0);
    assert(q.contains(x));
    let k = choose|k: int| 0 <= k < q.len() && q[k] == x;
    assert(q.remove(k).to_multiset() =~= p.drop_last().to_multiset());
    k
}

/// Reordering a list of players keeps every count.
pub proof fn lemma_count_reorder(q: Seq<SquadPlayerInfo>, p: Seq<SquadPlayerInfo>, f: spec_fn(SquadPlayerInfo) -> bool)
    requires
        q.to_multiset() == p.to_multiset(),
    ensures
        count_where(q, f) == count_where(p, f),
    decreases p.len(),
{
    broadcast use vstd::seq_lib::group_to_multiset_ensures;

    if p.len() == 0 {
        assert(q.len() == q.to_multiset().len());
    } else {
        let k = lemma_reorder_step(q, p);
        lemma_count_reorder(q.remove(k), p.drop_last(), f);
        lemma_count_remove(q, f, k);
    }
}

/// Reordering a list of players keeps its total cost.
pub proof fn lemma_total_cost_reorder(q: Seq<SquadPlayerInfo>, p: Seq<SquadPlayerInfo>)
    requires
        q.to_multiset() == p.to_multiset(),
    ensures
        total_cost(q) == total_cost(p),
    decreases p.len(),
{
    broadcast use vstd::seq_lib::group_to_multiset_ensures;

    if p.len() == 0 {
        assert(q.len() == q.to_multiset().len());
    } else {
        let k = lemma_reorder_step(q, p);
        lemma_total_cost_reorder(q.remove(k), p.drop_last());
        lemma_total_cost_remove(q, k);
    }
}

/// Reordering a list of players reorders its ids.
proof fn lemma_ids_reorder(q: Seq<SquadPlayerInfo>, p: Seq<SquadPlayerInfo>)
    requires
        q.to_multiset() == p.to_multiset(),
    ensures
        player_ids(q).to_multiset() == player_ids(p).to_multiset(),
    decreases p.len(),
{
    broadcast use vstd::seq_lib::group_to_multiset_ensures, vstd::multiset::group_multiset_axioms;

    if p.len() == 0 {
        assert(q.len() == q.to_multiset().len());
        assert(player_ids(q) =~= player_ids(p));
    } else {
        let k = lemma_reorder_step(q, p);
        lemma_ids_reorder(q.remove(k), p.drop_last());
        let x = p.last();
        assert(player_ids(q.remove(k)) =~= player_ids(q).remove(k));
        assert(player_ids(p) =~= player_ids(p.drop_last()).push(x.id));
        assert(player_ids(q)[k] == x.id);
        assert(player_ids(q).to_multiset().count(x.id) > 0);
        assert(player_ids(q).to_multiset() =~= player_ids(q).to_multiset().remove(x.id).insert(x.id));
    }
}

/// Some club supplies more than `max` players exactly when the first such
/// club in order exists.
proof fn lemma_overfull_club_witness(s: Seq<SquadPlayerInfo>, i: int, max: nat)
    requires
        0 <= i,
        overfull_club_from(s, i, max) is Some,
    ensures
        exists|j: int| i <= j < s.len() && count_where(s, #[trigger] from_club(s[j].team_id)) > max,
    decreases s.len() - i,
{
    if count_where(s, from_club(s[i].team_id)) <= max {
        lemma_overfull_club_witness(s, i + 1, max);
    }
}

/// Reordering a list of players does not make a club overfull.
proof fn lemma_overfull_reorder(q: Seq<SquadPlayerInfo>, p: Seq<SquadPlayerInfo>, max: nat)
    requires
        q.to_multiset() == p.to_multiset(),
        overfull_club(p, max) is None,
    ensures
        overfull_club(q, max) is None,
{
    broadcast use vstd::seq_lib::group_to_multiset_ensures;

    lemma_no_overfull_club(p, 0, max);
    if overfull_club(q, max) is Some {
        lemma_overfull_club_witness(q, 0, max);
        let j = choose|j: int| 0 <= j < q.len() && count_where(q, #[trigger] from_club(q[j].team_id)) > max;
        assert(q.to_multiset().count(q[j]) > 0);
        assert(p.contains(q[j]));
        let jp = choose|jp: int| 0 <= jp < p.len() && p[jp] == q[j];
        lemma_count_reorder(q, p, from_club(q[j].team_id));
        assert(count_where(p, from_club(p[jp].team_id)) <= max);
    }
}

/// Reordering a squad's players does not change whether the squad passes the
/// rules, provided no running total of the costs leaves `i32` in either order
/// (there the cost check depends on the order).
pub proof fn lemma_verdict_reorder(
    p: Seq<SquadPlayerInfo>,
    q: Seq<SquadPlayerInfo>,
    starting: Set<i32>,
    captain_id: i32,
    vice_captain_id: i32,
)
    requires
        q.to_multiset() == p.to_multiset(),
        cost_fits(p),
        cost_fits(q),
    ensures
        (squad_verdict(q, starting, captain_id, vice_captain_id) is Ok) == (squad_verdict(
            p,
            starting,
            captain_id,
            vice_captain_id,
        ) is Ok),
{
    broadcast use vstd::seq_lib::group_to_multiset_ensures;

    assert(q.len() == p.len()) by {
        assert(q.len() == q.to_multiset().len());
        assert(p.len() == p.to_multiset().len());
    }
    lemma_total_cost_reorder(q, p);
    lemma_count_reorder(q, p, at_position(GK));
    lemma_count_reorder(q, p, at_position(DEF));
    lemma_count_reorder(q, p, at_position(MID));
    lemma_count_reorder(q, p, at_position(FWD));
    lemma_count_reorder(q, p, starting_at(starting, GK));
    lemma_count_reorder(q, p, starting_at(starting, DEF));
    lemma_count_reorder(q, p, starting_at(starting, MID));
    lemma_count_reorder(q, p, starting_at(starting, FWD));
    let iq = player_ids(q);
    let ip = player_ids(p);
    lemma_ids_reorder(q, p);
    if ip.no_duplicates() {
        ip.lemma_multiset_has_no_duplicates();
        iq.lemma_multiset_has_no_duplicates_conv();
    }
    if iq.no_duplicates() {
        iq.lemma_multiset_has_no_duplicates();
        ip.lemma_multiset_has_no_duplicates_conv();
    }
    assert(iq.to_set() =~= ip.to_set()) by {
        assert forall|x: i32| iq.to_set().contains(x) == ip.to_set().contains(x) by {
            assert(iq.contains(x) == (iq.to_multiset().count(x) > 0));
            assert(ip.contains(x) == (ip.to_multiset().count(x) > 0));
        }
    }
    assert(iq.contains(captain_id) == ip.contains(captain_id)) by {
        assert(iq.contains(captain_id) == (iq.to_multiset().count(captain_id) > 0));
        assert(ip.contains(captain_id) == (ip.to_multiset().count(captain_id) > 0));
    }
    assert(iq.contains(vice_captain_id) == ip.contains(vice_captain_id)) by {
        assert(iq.contains(vice_captain_id) == (iq.to_multiset().count(vice_captain_id) > 0));
        assert(ip.contains(vice_captain_id) == (ip.to_multiset().count(vice_captain_id) > 0));
    }
    if overfull_club(p, MAX_PER_CLUB as nat) is None {
        lemma_overfull_reorder(q, p, MAX_PER_CLUB as nat);
    }
    if overfull_club(q, MAX_PER_CLUB as nat) is None {
        lemma_overfull_reorder(p, q, MAX_PER_CLUB as nat);
    }
}

/// `q` lists the same players as `p`, in the same order, at the same
/// positions and clubs, each at most as expensive.
pub open spec fn repriced_down(q: Seq<SquadPlayerInfo>, p: Seq<SquadPlayerInfo>) -> bool {
    &&& q.len() == p.len()
    &&& forall|k: int| #![trigger q[k]] 0 <= k < q.len() ==> {
        &&& q[k].id == p[k].id
        &&& q[k].position == p[k].position
        &&& q[k].team_id == p[k].team_id
        &&& q[k].now_cost <= p[k].now_cost
    }
}

/// Counts that look only at what repricing keeps are equal.
proof fn lemma_count_pointwise(q: Seq<SquadPlayerInfo>, p: Seq<SquadPlayerInfo>, f: spec_fn(SquadPlayerInfo) -> bool)
    requires
        q.len() == p.len(),
        forall|k: int| 0 <= k < q.len() ==> f(#[trigger] q[k]) == f(p[k]),
    ensures
        count_where(q, f) == count_where(p, f),
    decreases q.len(),
{
    if q.len() > 0 {
        assert forall|k: int| 0 <= k < q.drop_last().len() implies f(#[trigger] q.drop_last()[k]) == f(
            p.drop_last()[k],
        ) by {
            assert(q.drop_last()[k] == q[k] && p.drop_last()[k] == p[k]);
        }
        lemma_count_pointwise(q.drop_last(), p.drop_last(), f);
        assert(f(q[q.len() - 1]) == f(p[p.len() - 1]));
    }
}

proof fn lemma_total_cost_down(q: Seq<SquadPlayerInfo>, p: Seq<SquadPlayerInfo>)
    requires
        repriced_down(q, p),
    ensures
        total_cost(q) <= total_cost(p),
    decreases q.len(),
{
    if q.len() > 0 {
        assert(repriced_down(q.drop_last(), p.drop_last())) by {
            assert forall|k: int| 0 <= k < q.drop_last().len() implies q.drop_last()[k] == q[k]
                && p.drop_last()[k] == p[k] by {}
        }
        lemma_total_cost_down(q.drop_last(), p.drop_last());
        assert(q[q.len() - 1].now_cost <= p[p.len() - 1].now_cost);
    }
}

proof fn lemma_overfull_down(q: Seq<SquadPlayerInfo>, p: Seq<SquadPlayerInfo>, i: int, max: nat)
    requires
        repriced_down(q, p),
        0 <= i,
    ensures
        overfull_club_from(q, i, max) == overfull_club_from(p, i, max),
    decreases q.len() - i,
{
    if i < q.len() {
        let t = p[i].team_id;
        assert(q[i].id == p[i].id);
        assert forall|k: int| 0 <= k < q.len() implies from_club(t)(#[trigger] q[k]) == from_club(t)(p[k]) by {
            assert(q[k].id == p[k].id);
        }
        lemma_count_pointwise(q, p, from_club(t));
        lemma_overfull_down(q, p, i + 1, max);
    }
}

/// Lowering prices keeps a valid squad valid, provided no running total of
/// the new costs leaves `i32`.
pub proof fn lemma_verdict_cheaper(
    p: Seq<SquadPlayerInfo>,
    q: Seq<SquadPlayerInfo>,
    starting: Set<i32>,
    captain_id: i32,
    vice_captain_id: i32,
)
    requires
        squad_verdict(p, starting, captain_id, vice_captain_id) is Ok,
        repriced_down(q, p),
        cost_fits(q),
    ensures
        squad_verdict(q, starting, captain_id, vice_captain_id) is Ok,
{
    assert(player_ids(q) =~= player_ids(p)) by {
        assert forall|k: int| 0 <= k < q.len() implies player_ids(q)[k] == player_ids(p)[k] by {
            assert(q[k].id == p[k].id);
        }
    }
    lemma_total_cost_down(q, p);
    lemma_count_pointwise(q, p, at_position(GK));
    lemma_count_pointwise(q, p, at_position(DEF));
    lemma_count_pointwise(q, p, at_position(MID));
    lemma_count_pointwise(q, p, at_position(FWD));
    lemma_count_pointwise(q, p, starting_at(starting, GK));
    lemma_count_pointwise(q, p, starting_at(starting, DEF));
    lemma_count_pointwise(q, p, starting_at(starting, MID));
    lemma_count_pointwise(q, p, starting_at(starting, FWD));
    lemma_overfull_down(q, p, 0, MAX_PER_CLUB as nat);
}

// ---------------------------------------------------------------------------
// What a user is told
// ---------------------------------------------------------------------------

/// A position's name: goalkeeper, defender, midfielder or forward.
pub open spec fn position_name(position: i32) -> Seq<char> {
    if position == GK {
        "goalkeeper"@
    } else if position == DEF {
        "defender"@
    } else if position == MID {
        "midfielder"@
    } else {
        "forward"@
    }
}

/// A position's name in the plural.
pub open spec fn position_plural(position: i32) -> Seq<char> {
    if position == GK {
        "goalkeepers"@
    } else if position == DEF {
        "defenders"@
    } else if position == MID {
        "midfielders"@
    } else {
        "forwards"@
    }
}

fn position_name_str(position: i32) -> (s: &'static str)
    ensures
        s@ == position_name(position),
{
    if position == GK {
        "goalkeeper"
    } else if position == DEF {
        "defender"
    } else if position == MID {
        "midfielder"
    } else {
        "forward"
    }
}

fn position_plural_str(position: i32) -> (s: &'static str)
    ensures
        s@ == position_plural(position),
{
    if position == GK {
        "goalkeepers"
    } else if position == DEF {
        "defenders"
    } else if position == MID {
        "midfielders"
    } else {
        "forwards"
    }
}

/// What a user is told when a squad is refused, `per_club` being the club
/// limit of the rules that refused it. An over-budget squad has no text
/// here: its message shows the cost in millions as a decimal number.
pub open spec fn squad_error_text(e: SquadError, per_club: nat) -> Option<Seq<char>> {
    match e {
        SquadError::UnknownPlayers => Some("One or more selected players do not exist"@),
        SquadError::WrongSquadSize { required } => Some(
            "Squad must have exactly "@ + nat_text(required as nat) + " players"@,
        ),
        SquadError::DuplicatePlayers => Some("Squad contains duplicate players"@),
        SquadError::CostOverflow => Some("Squad cost is out of range"@),
        SquadError::OverBudget { .. } => None,
        SquadError::WrongPositionCount { position, required, found } => Some(
            "Squad must have exactly "@ + nat_text(required as nat) + " "@ + position_name(position) + "s (found "@
                + nat_text(found as nat) + ")"@,
        ),
        SquadError::TooManyFromClub { found } => Some(
            "Max "@ + nat_text(per_club) + " players allowed from a single club (found "@ + nat_text(found as nat)
                + ")"@,
        ),
        SquadError::PlayerNotInFixture { player_id } => Some(
            "Player "@ + int_text(player_id as int) + " does not play for either club in this fixture"@,
        ),
        SquadError::WrongStartingSize { required } => Some(
            "Starting XI must have exactly "@ + nat_text(required as nat) + " players"@,
        ),
        SquadError::StartingNotInSquad => Some("Starting XI must be chosen from the 15-player squad"@),
        SquadError::StartingGoalkeeper { .. } => Some("Starting XI must include exactly 1 goalkeeper"@),
        SquadError::StartingPositionRange { position, min, max, found } => Some(
            "Starting XI must have between "@ + nat_text(min as nat) + " and "@ + nat_text(max as nat) + " "@
                + position_plural(position) + " (found "@ + nat_text(found as nat) + ")"@,
        ),
        SquadError::CaptainIsViceCaptain => Some("Captain and vice-captain must be different players"@),
        SquadError::CaptainNotInSquad => Some("Captain must be part of the squad"@),
        SquadError::ViceCaptainNotInSquad => Some("Vice-captain must be part of the squad"@),
        SquadError::CaptainNotStarting => Some("Captain must be in the starting XI"@),
        SquadError::ViceCaptainNotStarting => Some("Vice-captain must be in the starting XI"@),
    }
}

fn text_of(s: &str) -> (r: Option<String>)
    ensures
        r matches Some(t) && t@ == s@,
{
    Some(String::from_str(s))
}

impl SquadError {
    /// What a user is told, `per_club` being the club limit of the rules that
    /// refused the squad; `None` for an over-budget squad.
    pub fn message(&self, per_club: usize) -> (r: Option<String>)
        ensures
            match squad_error_text(*self, per_club as nat) {
                Some(t) => r matches Some(s) && s@ == t,
                None => r is None,
            },
    {
        match self {
            SquadError::UnknownPlayers => text_of("One or more selected players do not exist"),
            SquadError::WrongSquadSize { required } => Some(
                with_nat("Squad must have exactly ", *required as u64, " players"),
            ),
            SquadError::DuplicatePlayers => text_of("Squad contains duplicate players"),
            SquadError::CostOverflow => text_of("Squad cost is out of range"),
            SquadError::OverBudget { .. } => None,
            SquadError::WrongPositionCount { position, required, found } => {
                let mut s = with_nat("Squad must have exactly ", *required as u64, " ");
                s.append(position_name_str(*position));
                s.append("s (found ");
                append_nat(&mut s, *found as u64);
                s.append(")");
                Some(s)
            },
            SquadError::TooManyFromClub { found } => {
                let mut s = with_nat("Max ", per_club as u64, " players allowed from a single club (found ");
                append_nat(&mut s, *found as u64);
                s.append(")");
                Some(s)
            },
            SquadError::PlayerNotInFixture { player_id } => Some(
                with_number("Player ", *player_id as i64, " does not play for either club in this fixture"),
            ),
            SquadError::WrongStartingSize { required } => Some(
                with_nat("Starting XI must have exactly ", *required as u64, " players"),
            ),
            SquadError::StartingNotInSquad => text_of("Starting XI must be chosen from the 15-player squad"),
            SquadError::StartingGoalkeeper { .. } => text_of("Starting XI must include exactly 1 goalkeeper"),
            SquadError::StartingPositionRange { position, min, max, found } => {
                let mut s = with_nat("Starting XI must have between ", *min as u64, " and ");
                append_nat(&mut s, *max as u64);
                s.append(" ");
                s.append(position_plural_str(*position));
                s.append(" (found ");
                append_nat(&mut s, *found as u64);
                s.append(")");
                Some(s)
            },
            SquadError::CaptainIsViceCaptain => text_of("Captain and vice-captain must be different players"),
            SquadError::CaptainNotInSquad => text_of("Captain must be part of the squad"),
            SquadError::ViceCaptainNotInSquad => text_of("Vice-captain must be part of the squad"),
            SquadError::CaptainNotStarting => text_of("Captain must be in the starting XI"),
            SquadError::ViceCaptainNotStarting => text_of("Vice-captain must be in the starting XI"),
        }
    }
}

/// When no club supplies more than `max` players, there is no overfull club.
proof fn lemma_overfull_club_none(s: Seq<SquadPlayerInfo>, i: int, max: nat)
    requires
        0 <= i,
        forall|j: int| i <= j < s.len() ==> count_where(s, #[trigger] from_club(s[j].team_id)) <= max,
    ensures
        overfull_club_from(s, i, max) is None,
    decreases s.len() - i,
{
    if i < s.len() {
        lemma_overfull_club_none(s, i + 1, max);
    }
}

/// A 15-player squad is accepted exactly when every rule holds: 15
/// different players whose costs add up, without leaving `i32`, to at most
/// 1000 (100.0m); 2 goalkeepers, 5 defenders, 5 midfielders and 3 forwards;
/// at most 3 players from any club; a starting XI of 11 players from the
/// squad with exactly 1 goalkeeper, 3 to 5 defenders, 2 to 5 midfielders and
/// 1 to 3 forwards; and a captain and a different vice-captain, both in the
/// squad and both starting.
pub proof fn lemma_squad_accepted(
    players: Seq<SquadPlayerInfo>,
    starting: Set<i32>,
    captain_id: i32,
    vice_captain_id: i32,
)
    ensures
        squad_verdict(players, starting, captain_id, vice_captain_id) is Ok <==> {
            let ids = player_ids(players);
            &&& players.len() == 15
            &&& ids.no_duplicates()
            &&& cost_fits(players)
            &&& total_cost(players) <= 1000
            &&& count_where(players, at_position(1)) == 2
            &&& count_where(players, at_position(2)) == 5
            &&& count_where(players, at_position(3)) == 5
            &&& count_where(players, at_position(4)) == 3
            &&& forall|j: int| 0 <= j < players.len() ==> count_where(players, #[trigger] from_club(players[j].team_id)) <= 3
            &&& starting.len() == 11
            &&& starting.subset_of(ids.to_set())
            &&& count_where(players, starting_at(starting, 1)) == 1
            &&& 3 <= count_where(players, starting_at(starting, 2)) <= 5
            &&& 2 <= count_where(players, starting_at(starting, 3)) <= 5
            &&& 1 <= count_where(players, starting_at(starting, 4)) <= 3
            &&& captain_id != vice_captain_id
            &&& ids.contains(captain_id)
            &&& ids.contains(vice_captain_id)
            &&& starting.contains(captain_id)
            &&& starting.contains(vice_captain_id)
        },
{
    if squad_verdict(players, starting, captain_id, vice_captain_id) is Ok {
        lemma_no_overfull_club(players, 0, MAX_PER_CLUB as nat);
    }
    if forall|j: int| 0 <= j < players.len() ==> count_where(players, #[trigger] from_club(players[j].team_id)) <= 3 {
        lemma_overfull_club_none(players, 0, MAX_PER_CLUB as nat);
    }
}

proof fn lemma_no_outsider_converse(s: Seq<SquadPlayerInfo>, i: int, home: i32, away: i32)
    requires
        0 <= i,
        forall|j: int| i <= j < s.len() ==> (#[trigger] s[j]).team_id == home || s[j].team_id == away,
    ensures
        first_outsider_from(s, i, home, away) is None,
    decreases s.len() - i,
{
    if i < s.len() {
        lemma_no_outsider_converse(s, i + 1, home, away);
    }
}

/// A Derby squad is accepted exactly when it has 11 different players, all
/// from the fixture's two clubs, at most 7 from either, and a captain and a
/// different vice-captain from the squad.
pub proof fn lemma_derby_accepted(
    players: Seq<SquadPlayerInfo>,
    home_team_id: i32,
    away_team_id: i32,
    captain_id: i32,
    vice_captain_id: i32,
)
    ensures
        derby_verdict(players, home_team_id, away_team_id, captain_id, vice_captain_id) is Ok <==> {
            let ids = player_ids(players);
            &&& players.len() == 11
            &&& ids.no_duplicates()
            &&& forall|j: int| 0 <= j < players.len() ==> (#[trigger] players[j]).team_id == home_team_id
                || players[j].team_id == away_team_id
            &&& forall|j: int| 0 <= j < players.len() ==> count_where(players, #[trigger] from_club(players[j].team_id)) <= 7
            &&& captain_id != vice_captain_id
            &&& ids.contains(captain_id)
            &&& ids.contains(vice_captain_id)
        },
{
    if derby_verdict(players, home_team_id, away_team_id, captain_id, vice_captain_id) is Ok {
        lemma_valid_derby_squad(players, home_team_id, away_team_id, captain_id, vice_captain_id);
    }
    if forall|j: int| 0 <= j < players.len() ==> (#[trigger] players[j]).team_id == home_team_id
        || players[j].team_id == away_team_id {
        lemma_no_outsider_converse(players, 0, home_team_id, away_team_id);
    }
    if forall|j: int| 0 <= j < players.len() ==> count_where(players, #[trigger] from_club(players[j].team_id)) <= 7 {
        lemma_overfull_club_none(players, 0, DERBY_MAX_PER_CLUB as nat);
    }
}

} // verus!
