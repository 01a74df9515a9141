//! Points: a Campaign squad's gameweek total, the totals of one-shot Round
//! and Derby entries, and league leaderboards.
use vstd::prelude::*;
use crate::seqs::lemma_take_succ;
use uuid::Uuid;
use crate::scoring::fits_i32;
use crate::league::{ContestEntry, ContestKind, LeagueRow, contest_kind, contest_kind_of};

verus! {

// ---------------------------------------------------------------------------
// Campaign squads
// ---------------------------------------------------------------------------

/// A player of a Campaign squad with their cached current-gameweek points.
pub struct SquadPointsRow {
    pub player_id: i32,
    pub first_name: String,
    pub second_name: String,
    pub position: i32,
    pub points: Option<i32>,
    pub is_starting: bool,
}

/// A squad player's points as reported.
pub struct PlayerPoints {
    pub player_id: i32,
    pub first_name: String,
    pub second_name: String,
    pub position: i32,
    pub points: i32,
    pub is_captain: bool,
    pub is_vice_captain: bool,
    pub is_starting: bool,
}

/// A Campaign squad's points for a gameweek.
pub struct TeamPoints {
    pub team_id: Uuid,
    pub gameweek: i32,
    /// Starting XI points plus the armband bonus.
    pub gross_points: i32,
    /// Points deducted for transfer hits this gameweek.
    pub points_hit: i32,
    /// `gross_points - points_hit`.
    pub total_points: i32,
    pub players: Vec<PlayerPoints>,
}

/// A row's points, counting unknown as zero.
pub open spec fn row_points(r: SquadPointsRow) -> int {
    match r.points {
        Some(p) => p as int,
        None => 0,
    }
}

/// Points of the starters among the first `k` rows.
pub open spec fn starters_total(rows: Seq<SquadPointsRow>, k: int) -> int
    decreases k,
{
    if k <= 0 {
        0
    } else {
        starters_total(rows, k - 1) + if rows[k - 1].is_starting {
            row_points(rows[k - 1])
        } else {
            0
        }
    }
}

/// Points of the first row for player `id` (zero when there is none).
pub open spec fn first_row_points_from(rows: Seq<SquadPointsRow>, id: i32, i: int) -> int
    decreases rows.len() - i,
{
    if i < 0 || i >= rows.len() {
        0
    } else if rows[i].player_id == id {
        row_points(rows[i])
    } else {
        first_row_points_from(rows, id, i + 1)
    }
}

/// The armband bonus: the captain's points are counted twice when the
/// captain played in the gameweek; otherwise the vice-captain's, when the
/// vice-captain played; otherwise nothing.
pub open spec fn armband_bonus(
    rows: Seq<SquadPointsRow>,
    captain_id: i32,
    vice_captain_id: i32,
    captain_minutes: i64,
    vice_minutes: i64,
) -> int {
    if captain_minutes > 0 {
        first_row_points_from(rows, captain_id, 0)
    } else if vice_minutes > 0 {
        first_row_points_from(rows, vice_captain_id, 0)
    } else {
        0
    }
}

/// Every running total of the computation fits an `i32`.
pub open spec fn team_points_fit(
    rows: Seq<SquadPointsRow>,
    captain_id: i32,
    vice_captain_id: i32,
    captain_minutes: i64,
    vice_minutes: i64,
    points_hit: i32,
) -> bool {
    let gross = starters_total(rows, rows.len() as int) + armband_bonus(
        rows,
        captain_id,
        vice_captain_id,
        captain_minutes,
        vice_minutes,
    );
    &&& forall|k: int| 0 <= k <= rows.len() ==> fits_i32(#[trigger] starters_total(rows, k))
    &&& fits_i32(gross)
    &&& fits_i32(gross - points_hit)
}

/// How a squad row is reported.
pub open spec fn player_points_of(r: SquadPointsRow, captain_id: i32, vice_captain_id: i32) -> PlayerPoints {
    PlayerPoints {
        player_id: r.player_id,
        first_name: r.first_name,
        second_name: r.second_name,
        position: r.position,
        points: row_points(r) as i32,
        is_captain: r.player_id == captain_id,
        is_vice_captain: r.player_id == vice_captain_id,
        is_starting: r.is_starting,
    }
}

proof fn lemma_first_row_points_from(rows: Seq<SquadPointsRow>, id: i32, i: int)
    requires
        0 <= i <= rows.len(),
    ensures
        (forall|j: int| i <= j < rows.len() ==> rows[j].player_id != id) ==> first_row_points_from(rows, id, i) == 0,
    decreases rows.len() - i,
{
    if i < rows.len() {
        lemma_first_row_points_from(rows, id, i + 1);
    }
}

/// A Campaign squad's points for a gameweek, from its players' cached
/// points: only the starting XI counts; the captain's points count twice when
/// the captain played (`captain_minutes > 0`), otherwise the vice-captain's
/// when the vice-captain played; the gameweek's transfer hits are deducted.
/// `None` when a running total leaves the `i32` range.
pub fn team_points(
    team_id: Uuid,
    gameweek: i32,
    captain_id: i32,
    vice_captain_id: i32,
    rows: Vec<SquadPointsRow>,
    captain_minutes: i64,
    vice_minutes: i64,
    points_hit: i32,
) -> (r: Option<TeamPoints>)
    ensures
        !team_points_fit(rows@, captain_id, vice_captain_id, captain_minutes, vice_minutes, points_hit) ==> r is None,
        team_points_fit(rows@, captain_id, vice_captain_id, captain_minutes, vice_minutes, points_hit) ==> (r matches Some(tp) && {
            let gross = starters_total(rows@, rows@.len() as int) + armband_bonus(
                rows@,
                captain_id,
                vice_captain_id,
                captain_minutes,
                vice_minutes,
            );
            &&& tp.team_id == team_id
            &&& tp.gameweek == gameweek
            &&& tp.gross_points == gross
            &&& tp.points_hit == points_hit
            &&& tp.total_points == gross - points_hit
            &&& tp.players@.len() == rows@.len()
            &&& forall|i: int| 0 <= i < rows@.len() ==> #[trigger] tp.players@[i] == player_points_of(
                rows@[i],
                captain_id,
                vice_captain_id,
            )
        }),
{
    let ghost orig = rows@;
    let n = rows.len();
    let mut rest = rows;
    let mut total: i32 = 0;
    let mut captain_points: Option<i32> = None;
    let mut vice_points: Option<i32> = None;
    let mut out: Vec<PlayerPoints> = Vec::new();
    let mut i: usize = 0;
    while i < n
        invariant
            n == orig.len(),
            orig == rows@,
            i <= n,
            rest@ == orig.skip(i as int),
            total == starters_total(orig, i as int),
            forall|k: int| 0 <= k <= i ==> fits_i32(#[trigger] starters_total(orig, k)),
            out@.len() == i,
            forall|k: int| 0 <= k < i ==> #[trigger] out@[k] == player_points_of(orig[k], captain_id, vice_captain_id),
            first_row_points_from(orig, captain_id, 0) == match captain_points {
                Some(p) => p as int,
                None => first_row_points_from(orig, captain_id, i as int),
            },
            captain_points is None ==> forall|k: int| 0 <= k < i ==> orig[k].player_id != captain_id,
            first_row_points_from(orig, vice_captain_id, 0) == match vice_points {
                Some(p) => p as int,
                None => first_row_points_from(orig, vice_captain_id, i as int),
            },
            vice_points is None ==> forall|k: int| 0 <= k < i ==> orig[k].player_id != vice_captain_id,
        decreases n - i,
    {
        let r = rest.remove(0);
        assert(r == orig[i as int]);
        assert(rest@ =~= orig.skip(i as int + 1));
        let points = match r.points {
            Some(p) => p,
            None => 0,
        };
        if r.is_starting {
            let next = total as i64 + points as i64;
            if next < i32::MIN as i64 || next > i32::MAX as i64 {
                assert(!fits_i32(starters_total(orig, i as int + 1)));
                return None;
            }
            total = next as i32;
        }
        if captain_points.is_none() && r.player_id == captain_id {
            captain_points = Some(points);
        }
        if vice_points.is_none() && r.player_id == vice_captain_id {
            vice_points = Some(points);
        }
        out.push(
            PlayerPoints {
                player_id: r.player_id,
                first_name: r.first_name,
                second_name: r.second_name,
                position: r.position,
                points,
                is_captain: r.player_id == captain_id,
                is_vice_captain: r.player_id == vice_captain_id,
                is_starting: r.is_starting,
            },
        );
        i = i + 1;
    }
    proof {
        lemma_first_row_points_from(orig, captain_id, n as int);
        lemma_first_row_points_from(orig, vice_captain_id, n as int);
    }
    let bonus: i32 = if captain_minutes > 0 {
        match captain_points {
            Some(p) => p,
            None => 0,
        }
    } else if vice_minutes > 0 {
        match vice_points {
            Some(p) => p,
            None => 0,
        }
    } else {
        0
    };
    let gross = total as i64 + bonus as i64;
    if gross < i32::MIN as i64 || gross > i32::MAX as i64 {
        return None;
    }
    let net = gross - points_hit as i64;
    if net < i32::MIN as i64 || net > i32::MAX as i64 {
        return None;
    }
    Some(
        TeamPoints {
            team_id,
            gameweek,
            gross_points: gross as i32,
            points_hit,
            total_points: net as i32,
            players: out,
        },
    )
}

// ---------------------------------------------------------------------------
// One-shot entries
// ---------------------------------------------------------------------------

/// A player's points in the scope of an entry (a gameweek or a fixture),
/// with the minutes they played there when known.
#[derive(Clone, Copy)]
pub struct PlayerScore {
    pub player_id: i32,
    pub points: i32,
    pub minutes: Option<i32>,
}

/// The last score for player `id` among `scores`.
pub open spec fn last_score(scores: Seq<PlayerScore>, id: i32) -> Option<PlayerScore>
    decreases scores.len(),
{
    if scores.len() == 0 {
        None
    } else if scores.last().player_id == id {
        Some(scores.last())
    } else {
        last_score(scores.drop_last(), id)
    }
}

/// A player's points, zero when they have no score.
pub open spec fn points_of(scores: Seq<PlayerScore>, id: i32) -> int {
    match last_score(scores, id) {
        Some(s) => s.points as int,
        None => 0,
    }
}

/// A player's minutes, zero when unknown.
pub open spec fn minutes_of(scores: Seq<PlayerScore>, id: i32) -> int {
    match last_score(scores, id) {
        Some(s) => match s.minutes {
            Some(m) => m as int,
            None => 0,
        },
        None => 0,
    }
}

/// Points of the first `k` players of `ids`.
pub open spec fn ids_total(ids: Seq<i32>, scores: Seq<PlayerScore>, k: int) -> int
    decreases k,
{
    if k <= 0 {
        0
    } else {
        ids_total(ids, scores, k - 1) + points_of(scores, ids[k - 1])
    }
}

/// An entry's points: the listed players' points, plus the captain's again
/// when the captain played, otherwise the vice-captain's when the
/// vice-captain played.
pub open spec fn entry_total(
    ids: Seq<i32>,
    scores: Seq<PlayerScore>,
    captain_id: i32,
    vice_captain_id: i32,
    captain_minutes: int,
    vice_minutes: int,
) -> int {
    ids_total(ids, scores, ids.len() as int) + if captain_minutes > 0 {
        points_of(scores, captain_id)
    } else if vice_minutes > 0 {
        points_of(scores, vice_captain_id)
    } else {
        0
    }
}

/// Every running total of an entry's points fits an `i32`.
pub open spec fn entry_total_fits(
    ids: Seq<i32>,
    scores: Seq<PlayerScore>,
    captain_id: i32,
    vice_captain_id: i32,
    captain_minutes: int,
    vice_minutes: int,
) -> bool {
    &&& forall|k: int| 0 <= k <= ids.len() ==> fits_i32(#[trigger] ids_total(ids, scores, k))
    &&& fits_i32(entry_total(ids, scores, captain_id, vice_captain_id, captain_minutes, vice_minutes))
}

/// The last score for player `id`.
fn find_score(scores: &[PlayerScore], id: i32) -> (r: Option<PlayerScore>)
    ensures
        r == last_score(scores@, id),
{
    let mut found: Option<PlayerScore> = None;
    let mut i: usize = 0;
    while i < scores.len()
        invariant
            i <= scores@.len(),
            found == last_score(scores@.take(i as int), id),
        decreases scores.len() - i,
    {
        proof {
            lemma_take_succ(scores@, i as int);
        }
        if scores[i].player_id == id {
            found = Some(scores[i]);
        }
        i = i + 1;
    }
    assert(scores@.take(i as int) =~= scores@);
    found
}

fn score_points(scores: &[PlayerScore], id: i32) -> (p: i32)
    ensures
        p == points_of(scores@, id),
{
    match find_score(scores, id) {
        Some(s) => s.points,
        None => 0,
    }
}

/// The total of an entry, given the captain's and vice-captain's minutes.
fn entry_points(
    ids: &[i32],
    scores: &[PlayerScore],
    captain_id: i32,
    vice_captain_id: i32,
    captain_minutes: i64,
    vice_minutes: i64,
) -> (r: Option<i32>)
    ensures
        entry_total_fits(ids@, scores@, captain_id, vice_captain_id, captain_minutes as int, vice_minutes as int)
            ==> r == Some(entry_total(ids@, scores@, captain_id, vice_captain_id, captain_minutes as int, vice_minutes as int) as i32),
        !entry_total_fits(ids@, scores@, captain_id, vice_captain_id, captain_minutes as int, vice_minutes as int)
            ==> r is None,
{
    let mut total: i32 = 0;
    let mut i: usize = 0;
    while i < ids.len()
        invariant
            i <= ids@.len(),
            total == ids_total(ids@, scores@, i as int),
            forall|k: int| 0 <= k <= i ==> fits_i32(#[trigger] ids_total(ids@, scores@, k)),
        decreases ids.len() - i,
    {
        let next = total as i64 + score_points(scores, ids[i]) as i64;
        if next < i32::MIN as i64 || next > i32::MAX as i64 {
            assert(!fits_i32(ids_total(ids@, scores@, i as int + 1)));
            return None;
        }
        total = next as i32;
        i = i + 1;
    }
    let bonus: i32 = if captain_minutes > 0 {
        score_points(scores, captain_id)
    } else if vice_minutes > 0 {
        score_points(scores, vice_captain_id)
    } else {
        0
    };
    let sum = total as i64 + bonus as i64;
    if sum < i32::MIN as i64 || sum > i32::MAX as i64 {
        return None;
    }
    Some(sum as i32)
}

/// Points of a Round entry, from its starting XI's points in the league's
/// gameweek (`scores`, one per player; a later score for the same player
/// replaces an earlier one), the captain's counted again when the captain
/// played in the gameweek, otherwise the vice-captain's when they played.
/// `None` when a running total leaves the `i32` range.
pub fn round_entry_points(
    entry: &ContestEntry,
    scores: &[PlayerScore],
    captain_minutes: i64,
    vice_minutes: i64,
) -> (r: Option<i32>)
    ensures
        entry_total_fits(entry.starting_ids@, scores@, entry.captain_id, entry.vice_captain_id,
            captain_minutes as int, vice_minutes as int) ==> r == Some(entry_total(
            entry.starting_ids@,
            scores@,
            entry.captain_id,
            entry.vice_captain_id,
            captain_minutes as int,
            vice_minutes as int,
        ) as i32),
        !entry_total_fits(entry.starting_ids@, scores@, entry.captain_id, entry.vice_captain_id,
            captain_minutes as int, vice_minutes as int) ==> r is None,
{
    entry_points(&entry.starting_ids, scores, entry.captain_id, entry.vice_captain_id, captain_minutes, vice_minutes)
}

/// Points of a Derby entry, from all its players' points in the league's
/// fixture (`scores`, with the minutes each played there; a later score for
/// the same player replaces an earlier one), the captain's counted again when
/// the captain played in the fixture, otherwise the vice-captain's when they
/// played. `None` when a running total leaves the `i32` range.
pub fn derby_entry_points(entry: &ContestEntry, scores: &[PlayerScore]) -> (r: Option<i32>)
    ensures
        ({
            let cm = minutes_of(scores@, entry.captain_id);
            let vm = minutes_of(scores@, entry.vice_captain_id);
            &&& entry_total_fits(entry.players@, scores@, entry.captain_id, entry.vice_captain_id, cm, vm)
                ==> r == Some(entry_total(entry.players@, scores@, entry.captain_id, entry.vice_captain_id, cm, vm) as i32)
            &&& !entry_total_fits(entry.players@, scores@, entry.captain_id, entry.vice_captain_id, cm, vm)
                ==> r is None
        }),
{
    let captain_minutes: i64 = match find_score(scores, entry.captain_id) {
        Some(s) => match s.minutes {
            Some(m) => m as i64,
            None => 0,
        },
        None => 0,
    };
    let vice_minutes: i64 = match find_score(scores, entry.vice_captain_id) {
        Some(s) => match s.minutes {
            Some(m) => m as i64,
            None => 0,
        },
        None => 0,
    };
    entry_points(&entry.players, scores, entry.captain_id, entry.vice_captain_id, captain_minutes, vice_minutes)
}

// ---------------------------------------------------------------------------
// Leaderboards
// ---------------------------------------------------------------------------

/// A participant's standing in a league.
pub struct LeaderboardEntry {
    pub user_id: Uuid,
    pub user_name: String,
    pub total_points: i32,
}

/// A Campaign member's standing: their squad's total for the gameweek, or 0
/// when they have no squad that could be scored.
pub fn campaign_standing(user_id: Uuid, user_name: String, squad_total: Option<i32>) -> (e: LeaderboardEntry)
    ensures
        e.user_id == user_id,
        e.user_name@ == user_name@,
        e.total_points == match squad_total {
            Some(t) => t,
            None => 0,
        },
{
    let total_points = match squad_total {
        Some(t) => t,
        None => 0,
    };
    LeaderboardEntry { user_id, user_name, total_points }
}

/// Where a league's standings are scored from.
pub enum LeaderboardScope {
    /// Each participant's Campaign squad, for the current gameweek.
    Campaign,
    /// Each entry, in the league's gameweek (0 when none is set).
    Round { gameweek: i32 },
    /// Each entry, in the league's fixture (0 when none is set).
    Derby { fixture_id: i32 },
    /// An unknown contest type: no standings.
    Unsupported,
}

/// Where a league's standings are scored from.
pub fn leaderboard_scope(league: &LeagueRow) -> (r: LeaderboardScope)
    ensures
        match contest_kind_of(league.contest_type@) {
            Some(ContestKind::Campaign) => r is Campaign,
            Some(ContestKind::Round) => r matches LeaderboardScope::Round { gameweek } && gameweek == match league.gameweek {
                Some(g) => g,
                None => 0,
            },
            Some(ContestKind::Derby) => r matches LeaderboardScope::Derby { fixture_id } && fixture_id == match league.fixture_id {
                Some(f) => f,
                None => 0,
            },
            None => r is Unsupported,
        },
{
    match contest_kind(league.contest_type.as_str()) {
        Some(ContestKind::Campaign) => LeaderboardScope::Campaign,
        Some(ContestKind::Round) => LeaderboardScope::Round {
            gameweek: match league.gameweek {
                Some(g) => g,
                None => 0,
            },
        },
        Some(ContestKind::Derby) => LeaderboardScope::Derby {
            fixture_id: match league.fixture_id {
                Some(f) => f,
                None => 0,
            },
        },
        None => LeaderboardScope::Unsupported,
    }
}

/// The first position from `i` on whose points are below `points`.
pub open spec fn insert_position_from(s: Seq<LeaderboardEntry>, points: i32, i: int) -> int
    decreases s.len() - i,
{
    if i < 0 || i >= s.len() {
        s.len() as int
    } else if s[i].total_points < points {
        i
    } else {
        insert_position_from(s, points, i + 1)
    }
}

/// `x` placed after every entry with at least as many points.
pub open spec fn insert_ranked(s: Seq<LeaderboardEntry>, x: LeaderboardEntry) -> Seq<LeaderboardEntry> {
    s.insert(insert_position_from(s, x.total_points, 0), x)
}

/// Standings: most points first; entries with equal points keep their
/// incoming order.
pub open spec fn ranked(s: Seq<LeaderboardEntry>) -> Seq<LeaderboardEntry>
    decreases s.len(),
{
    if s.len() == 0 {
        Seq::empty()
    } else {
        insert_ranked(ranked(s.drop_last()), s.last())
    }
}

proof fn lemma_insert_position_from(s: Seq<LeaderboardEntry>, points: i32, i: int)
    requires
        0 <= i <= s.len(),
    ensures
        i <= insert_position_from(s, points, i) <= s.len(),
        forall|j: int| i <= j < insert_position_from(s, points, i) ==> s[j].total_points >= points,
        insert_position_from(s, points, i) < s.len() ==> s[insert_position_from(s, points, i)].total_points < points,
    decreases s.len() - i,
{
    if i < s.len() && s[i].total_points >= points {
        lemma_insert_position_from(s, points, i + 1);
    }
}

/// Sorts league standings: most points first, ties in the order they came in.
pub fn rank_leaderboard(entries: Vec<LeaderboardEntry>) -> (r: Vec<LeaderboardEntry>)
    ensures
        r@ == ranked(entries@),
{
    let ghost orig = entries@;
    let n = entries.len();
    let mut entries = entries;
    let mut out: Vec<LeaderboardEntry> = Vec::new();
    let mut i: usize = 0;
    while i < n
        invariant
            n == orig.len(),
            i <= n,
            entries@ == orig.skip(i as int),
            out@ == ranked(orig.take(i as int)),
        decreases n - i,
    {
        let e = entries.remove(0);
        assert(e == orig[i as int]);
        assert(entries@ =~= orig.skip(i as int + 1));
        proof {
            lemma_take_succ(orig, i as int);
            lemma_insert_position_from(out@, e.total_points, 0);
        }
        let mut pos: usize = 0;
        while pos < out.len() && out[pos].total_points >= e.total_points
            invariant
                pos <= out@.len(),
                insert_position_from(out@, e.total_points, 0) == insert_position_from(out@, e.total_points, pos as int),
            decreases out.len() - pos,
        {
            pos = pos + 1;
        }
        out.insert(pos, e);
        i = i + 1;
    }
    assert(orig.take(n as int) =~= orig);
    out
}

// ---------------------------------------------------------------------------
// Laws
// ---------------------------------------------------------------------------

/// Entries of `s` with exactly `points` points, in order.
pub open spec fn with_points(s: Seq<LeaderboardEntry>, points: i32) -> Seq<LeaderboardEntry>
    decreases s.len(),
{
    if s.len() == 0 {
        Seq::empty()
    } else if s.last().total_points == points {
        with_points(s.drop_last(), points).push(s.last())
    } else {
        with_points(s.drop_last(), points)
    }
}

pub open spec fn is_ranked(s: Seq<LeaderboardEntry>) -> bool {
    forall|i: int, j: int| 0 <= i < j < s.len() ==> s[i].total_points >= s[j].total_points
}

proof fn lemma_with_points_append(a: Seq<LeaderboardEntry>, b: Seq<LeaderboardEntry>, points: i32)
    ensures
        with_points(a + b, points) == with_points(a, points) + with_points(b, points),
    decreases b.len(),
{
    if b.len() == 0 {
        assert(a + b =~= a);
        assert(with_points(b, points) =~= Seq::<LeaderboardEntry>::empty());
        assert(with_points(a, points) + with_points(b, points) =~= with_points(a, points));
    } else {
        lemma_with_points_append(a, b.drop_last(), points);
        assert((a + b).drop_last() =~= a + b.drop_last());
        assert((a + b).last() == b.last());
        if b.last().total_points == points {
            assert(with_points(a, points) + with_points(b.drop_last(), points).push(b.last()) =~= (
            with_points(a, points) + with_points(b.drop_last(), points)).push(b.last()));
        }
    }
}

proof fn lemma_with_points_none(s: Seq<LeaderboardEntry>, points: i32)
    requires
        forall|j: int| 0 <= j < s.len() ==> s[j].total_points != points,
    ensures
        with_points(s, points) == Seq::<LeaderboardEntry>::empty(),
    decreases s.len(),
{
    if s.len() > 0 {
        lemma_with_points_none(s.drop_last(), points);
    }
}

/// Inserting into ranked standings keeps them ranked, adds `x` once, and
/// places `x` after every entry with its own points.
proof fn lemma_insert_ranked(s: Seq<LeaderboardEntry>, x: LeaderboardEntry, points: i32)
    requires
        is_ranked(s),
    ensures
        is_ranked(insert_ranked(s, x)),
        insert_ranked(s, x).to_multiset() == s.to_multiset().insert(x),
        with_points(insert_ranked(s, x), points) == if x.total_points == points {
            with_points(s, points).push(x)
        } else {
            with_points(s, points)
        },
{
    let p = insert_position_from(s, x.total_points, 0);
    lemma_insert_position_from(s, x.total_points, 0);
    let t = s.insert(p, x);
    assert forall|i: int, j: int| 0 <= i < j < t.len() implies t[i].total_points >= t[j].total_points by {
        if j < p {
        } else if j == p {
        } else if i < p {
            if i + 1 <= j - 1 {
            }
        } else if i == p {
            if p < s.len() {
                assert(s[p].total_points >= s[j - 1].total_points || j - 1 == p);
            }
        } else {
        }
    }
    vstd::seq_lib::to_multiset_insert(s, p, x);
    let a = s.take(p);
    let b = s.skip(p);
    assert(s =~= a + b);
    assert(t =~= a + seq![x] + b);
    lemma_with_points_append(a, b, points);
    lemma_with_points_append(a + seq![x], b, points);
    lemma_with_points_append(a, seq![x], points);
    assert(seq![x].drop_last() =~= Seq::<LeaderboardEntry>::empty());
    assert(seq![x].last() == x);
    assert(with_points(Seq::<LeaderboardEntry>::empty(), points) == Seq::<LeaderboardEntry>::empty());
    if x.total_points == points {
        assert forall|j: int| 0 <= j < b.len() implies b[j].total_points != points by {
            if p < s.len() {
                assert(s[p].total_points < x.total_points);
                assert(s[p].total_points >= s[p + j].total_points || j == 0);
            }
        }
        lemma_with_points_none(b, points);
        assert(with_points(a, points) + with_points(b, points) =~= with_points(a, points));
        assert(with_points(seq![x], points) =~= seq![x]);
        assert(with_points(a, points) + seq![x] =~= with_points(a, points).push(x));
    } else {
        assert(with_points(seq![x], points) =~= Seq::<LeaderboardEntry>::empty());
        assert(with_points(a, points) + Seq::<LeaderboardEntry>::empty() =~= with_points(a, points));
    }
}

/// Standings list every participant's entry exactly as many times as it was
/// given, most points first, and entries with equal points in the order
/// they were given.
pub proof fn lemma_ranked(s: Seq<LeaderboardEntry>, points: i32)
    ensures
        is_ranked(ranked(s)),
        ranked(s).to_multiset() == s.to_multiset(),
        with_points(ranked(s), points) == with_points(s, points),
    decreases s.len(),
{
    broadcast use vstd::seq_lib::group_to_multiset_ensures;
    if s.len() == 0 {
        assert(ranked(s).to_multiset() =~= s.to_multiset());
    } else {
        lemma_ranked(s.drop_last(), points);
        lemma_insert_ranked(ranked(s.drop_last()), s.last(), points);
        assert(s =~= s.drop_last().push(s.last()));
    }
}

/// A league's standings from its participants' entries, scored in the
/// league's scope: ranked by points, ties in the order they came in; a
/// league of an unknown contest type has no standings.
pub fn standings(scope: &LeaderboardScope, entries: Vec<LeaderboardEntry>) -> (r: Vec<LeaderboardEntry>)
    ensures
        scope is Unsupported ==> r@.len() == 0,
        !(scope is Unsupported) ==> r@ == ranked(entries@),
{
    match scope {
        LeaderboardScope::Unsupported => Vec::new(),
        _ => rank_leaderboard(entries),
    }
}

/// A squad row with other cached points.
pub open spec fn with_row_points(r: SquadPointsRow, points: Option<i32>) -> SquadPointsRow {
    SquadPointsRow {
        player_id: r.player_id,
        first_name: r.first_name,
        second_name: r.second_name,
        position: r.position,
        points,
        is_starting: r.is_starting,
    }
}

proof fn lemma_starters_total_bench(rows: Seq<SquadPointsRow>, i: int, points: Option<i32>, k: int)
    requires
        0 <= i < rows.len(),
        !rows[i].is_starting,
        0 <= k <= rows.len(),
    ensures
        starters_total(rows.update(i, with_row_points(rows[i], points)), k) == starters_total(rows, k),
    decreases k,
{
    if k > 0 {
        lemma_starters_total_bench(rows, i, points, k - 1);
    }
}

proof fn lemma_first_row_points_bench(rows: Seq<SquadPointsRow>, i: int, points: Option<i32>, id: i32, j: int)
    requires
        0 <= i < rows.len(),
        rows[i].player_id != id,
        0 <= j,
    ensures
        first_row_points_from(rows.update(i, with_row_points(rows[i], points)), id, j) == first_row_points_from(
            rows,
            id,
            j,
        ),
    decreases rows.len() - j,
{
    if j < rows.len() {
        lemma_first_row_points_bench(rows, i, points, id, j + 1);
    }
}

/// The bench never scores: changing the cached points of a squad player who
/// is not in the starting XI and is neither captain nor vice-captain changes
/// neither the starters' total nor the armband bonus, so not the squad's
/// gross or total points (see `team_points`).
pub proof fn lemma_bench_never_scores(
    rows: Seq<SquadPointsRow>,
    i: int,
    points: Option<i32>,
    captain_id: i32,
    vice_captain_id: i32,
    captain_minutes: i64,
    vice_minutes: i64,
)
    requires
        0 <= i < rows.len(),
        !rows[i].is_starting,
        rows[i].player_id != captain_id,
        rows[i].player_id != vice_captain_id,
    ensures
        ({
            let changed = rows.update(i, with_row_points(rows[i], points));
            &&& starters_total(changed, changed.len() as int) == starters_total(rows, rows.len() as int)
            &&& armband_bonus(changed, captain_id, vice_captain_id, captain_minutes, vice_minutes)
                == armband_bonus(rows, captain_id, vice_captain_id, captain_minutes, vice_minutes)
        }),
{
    lemma_starters_total_bench(rows, i, points, rows.len() as int);
    lemma_first_row_points_bench(rows, i, points, captain_id, 0);
    lemma_first_row_points_bench(rows, i, points, vice_captain_id, 0);
}

proof fn lemma_first_row_points_at(rows: Seq<SquadPointsRow>, id: i32, i: int, k: int)
    requires
        0 <= k <= i < rows.len(),
        rows[i].player_id == id,
        forall|j: int| k <= j < i ==> rows[j].player_id != id,
    ensures
        first_row_points_from(rows, id, k) == row_points(rows[i]),
    decreases i - k,
{
    if k < i {
        lemma_first_row_points_at(rows, id, i, k + 1);
    }
}

/// The armband, in terms of the squad rows: when the captain played (any
/// minutes at all), the captain's points count once more, read from the
/// captain's first row (0 when the captain has no row or no points);
/// otherwise, when the vice-captain played, the vice-captain's points do, in
/// the same way; otherwise nothing is added.
pub proof fn lemma_armband(
    rows: Seq<SquadPointsRow>,
    captain_id: i32,
    vice_captain_id: i32,
    captain_minutes: i64,
    vice_minutes: i64,
)
    ensures
        forall|i: int| #![trigger rows[i]]
            0 <= i < rows.len() && rows[i].player_id == captain_id && (forall|j: int| 0 <= j < i ==> rows[j].player_id
                != captain_id) && captain_minutes > 0 ==> armband_bonus(
                rows,
                captain_id,
                vice_captain_id,
                captain_minutes,
                vice_minutes,
            ) == match rows[i].points {
                Some(p) => p as int,
                None => 0,
            },
        (forall|j: int| 0 <= j < rows.len() ==> rows[j].player_id != captain_id) && captain_minutes > 0
            ==> armband_bonus(rows, captain_id, vice_captain_id, captain_minutes, vice_minutes) == 0,
        forall|i: int| #![trigger rows[i]]
            0 <= i < rows.len() && rows[i].player_id == vice_captain_id && (forall|j: int| 0 <= j < i ==> rows[j].player_id
                != vice_captain_id) && captain_minutes <= 0 && vice_minutes > 0 ==> armband_bonus(
                rows,
                captain_id,
                vice_captain_id,
                captain_minutes,
                vice_minutes,
            ) == match rows[i].points {
                Some(p) => p as int,
                None => 0,
            },
        (forall|j: int| 0 <= j < rows.len() ==> rows[j].player_id != vice_captain_id) && captain_minutes <= 0
            && vice_minutes > 0 ==> armband_bonus(rows, captain_id, vice_captain_id, captain_minutes, vice_minutes)
            == 0,
        captain_minutes <= 0 && vice_minutes <= 0 ==> armband_bonus(
            rows,
            captain_id,
            vice_captain_id,
            captain_minutes,
            vice_minutes,
        ) == 0,
{
    assert forall|i: int| #![trigger rows[i]]
        0 <= i < rows.len() && rows[i].player_id == captain_id && (forall|j: int| 0 <= j < i ==> rows[j].player_id
            != captain_id) implies first_row_points_from(rows, captain_id, 0) == row_points(rows[i]) by {
        lemma_first_row_points_at(rows, captain_id, i, 0);
    }
    assert forall|i: int| #![trigger rows[i]]
        0 <= i < rows.len() && rows[i].player_id == vice_captain_id && (forall|j: int| 0 <= j < i
            ==> rows[j].player_id != vice_captain_id) implies first_row_points_from(rows, vice_captain_id, 0)
        == row_points(rows[i]) by {
        lemma_first_row_points_at(rows, vice_captain_id, i, 0);
    }
    lemma_first_row_points_from(rows, captain_id, 0);
    lemma_first_row_points_from(rows, vice_captain_id, 0);
}

/// After a new score, the last score of its player is that score, and every
/// other player's last score is unchanged.
proof fn lemma_last_score_push(scores: Seq<PlayerScore>, sc: PlayerScore, id: i32)
    ensures
        last_score(scores.push(sc), id) == if id == sc.player_id {
            Some(sc)
        } else {
            last_score(scores, id)
        },
{
    assert(scores.push(sc).drop_last() =~= scores);
}

proof fn lemma_no_score(scores: Seq<PlayerScore>, id: i32)
    requires
        forall|j: int| 0 <= j < scores.len() ==> scores[j].player_id != id,
    ensures
        last_score(scores, id) is None,
    decreases scores.len(),
{
    if scores.len() > 0 {
        lemma_no_score(scores.drop_last(), id);
    }
}

proof fn lemma_ids_total_new_score(ids: Seq<i32>, scores: Seq<PlayerScore>, sc: PlayerScore, i: int, k: int)
    requires
        0 <= i < ids.len(),
        ids[i] == sc.player_id,
        forall|j: int| 0 <= j < ids.len() && j != i ==> ids[j] != sc.player_id,
        forall|j: int| 0 <= j < scores.len() ==> scores[j].player_id != sc.player_id,
        0 <= k <= ids.len(),
    ensures
        ids_total(ids, scores.push(sc), k) == ids_total(ids, scores, k) + if k > i {
            sc.points as int
        } else {
            0
        },
    decreases k,
{
    if k > 0 {
        lemma_ids_total_new_score(ids, scores, sc, i, k - 1);
        lemma_last_score_push(scores, sc, ids[k - 1]);
        lemma_no_score(scores, sc.player_id);
    }
}

/// Scoring an entry adds up the recorded points of its listed players as
/// they are, negative ones included: recording a first score of `p` points
/// for a player listed once in the entry, who is neither captain nor
/// vice-captain, raises the entry's total by exactly `p`.
pub proof fn lemma_entry_new_score(
    ids: Seq<i32>,
    scores: Seq<PlayerScore>,
    i: int,
    points: i32,
    minutes: Option<i32>,
    captain_id: i32,
    vice_captain_id: i32,
    captain_minutes: int,
    vice_minutes: int,
)
    requires
        0 <= i < ids.len(),
        forall|j: int| 0 <= j < ids.len() && j != i ==> ids[j] != ids[i],
        forall|j: int| 0 <= j < scores.len() ==> scores[j].player_id != ids[i],
        ids[i] != captain_id,
        ids[i] != vice_captain_id,
    ensures
        entry_total(
            ids,
            scores.push(PlayerScore { player_id: ids[i], points, minutes }),
            captain_id,
            vice_captain_id,
            captain_minutes,
            vice_minutes,
        ) == entry_total(ids, scores, captain_id, vice_captain_id, captain_minutes, vice_minutes) + points,
{
    let sc = PlayerScore { player_id: ids[i], points, minutes };
    lemma_ids_total_new_score(ids, scores, sc, i, ids.len() as int);
    lemma_last_score_push(scores, sc, captain_id);
    lemma_last_score_push(scores, sc, vice_captain_id);
}

proof fn lemma_starters_total_change(rows: Seq<SquadPointsRow>, i: int, points: Option<i32>, k: int)
    requires
        0 <= i < rows.len(),
        rows[i].is_starting,
        0 <= k <= rows.len(),
    ensures
        starters_total(rows.update(i, with_row_points(rows[i], points)), k) == starters_total(rows, k) + if k > i {
            (match points {
                Some(p) => p as int,
                None => 0,
            }) - row_points(rows[i])
        } else {
            0
        },
    decreases k,
{
    if k > 0 {
        lemma_starters_total_change(rows, i, points, k - 1);
    }
}

/// Every starter scores: changing the cached points of a starting player who
/// is neither captain nor vice-captain changes the starters' total by exactly
/// the change in that player's points (unknown points counting as 0), and
/// leaves the armband bonus alone.
pub proof fn lemma_starter_scores(
    rows: Seq<SquadPointsRow>,
    i: int,
    points: Option<i32>,
    captain_id: i32,
    vice_captain_id: i32,
    captain_minutes: i64,
    vice_minutes: i64,
)
    requires
        0 <= i < rows.len(),
        rows[i].is_starting,
        rows[i].player_id != captain_id,
        rows[i].player_id != vice_captain_id,
    ensures
        ({
            let changed = rows.update(i, with_row_points(rows[i], points));
            let before = match rows[i].points {
                Some(p) => p as int,
                None => 0,
            };
            let after = match points {
                Some(p) => p as int,
                None => 0,
            };
            &&& starters_total(changed, changed.len() as int) == starters_total(rows, rows.len() as int) + after
                - before
            &&& armband_bonus(changed, captain_id, vice_captain_id, captain_minutes, vice_minutes)
                == armband_bonus(rows, captain_id, vice_captain_id, captain_minutes, vice_minutes)
        }),
{
    lemma_starters_total_change(rows, i, points, rows.len() as int);
    lemma_first_row_points_bench(rows, i, points, captain_id, 0);
    lemma_first_row_points_bench(rows, i, points, vice_captain_id, 0);
}

proof fn lemma_last_score_at(scores: Seq<PlayerScore>, id: i32, k: int)
    requires
        0 <= k < scores.len(),
        scores[k].player_id == id,
        forall|j: int| k < j < scores.len() ==> scores[j].player_id != id,
    ensures
        last_score(scores, id) == Some(scores[k]),
    decreases scores.len(),
{
    if k < scores.len() - 1 {
        lemma_last_score_at(scores.drop_last(), id, k);
    }
}

/// A player's points and minutes in an entry's scope are read from their
/// last recorded score, as recorded (0 when absent or, for minutes, unknown).
pub proof fn lemma_recorded_score(scores: Seq<PlayerScore>, id: i32)
    ensures
        forall|k: int| #![trigger scores[k]]
            0 <= k < scores.len() && scores[k].player_id == id && (forall|j: int| k < j < scores.len()
                ==> scores[j].player_id != id) ==> points_of(scores, id) == scores[k].points && minutes_of(
                scores,
                id,
            ) == match scores[k].minutes {
                Some(m) => m as int,
                None => 0,
            },
        (forall|j: int| 0 <= j < scores.len() ==> scores[j].player_id != id) ==> points_of(scores, id) == 0
            && minutes_of(scores, id) == 0,
{
    assert forall|k: int| #![trigger scores[k]]
        0 <= k < scores.len() && scores[k].player_id == id && (forall|j: int| k < j < scores.len()
            ==> scores[j].player_id != id) implies last_score(scores, id) == Some(scores[k]) by {
        lemma_last_score_at(scores, id, k);
    }
    if forall|j: int| 0 <= j < scores.len() ==> scores[j].player_id != id {
        lemma_no_score(scores, id);
    }
}

/// An entry's armband: when the captain played (any minutes at all), the
/// captain's recorded points count once more, whatever the vice-captain
/// did; otherwise, when the vice-captain played, the vice-captain's do;
/// otherwise nothing is added to the listed players' points.
pub proof fn lemma_entry_armband(
    ids: Seq<i32>,
    scores: Seq<PlayerScore>,
    captain_id: i32,
    vice_captain_id: i32,
    captain_minutes: int,
    vice_minutes: int,
)
    ensures
        captain_minutes > 0 ==> entry_total(ids, scores, captain_id, vice_captain_id, captain_minutes, vice_minutes)
            == entry_total(ids, scores, captain_id, vice_captain_id, 0, 0) + points_of(scores, captain_id),
        captain_minutes <= 0 && vice_minutes > 0 ==> entry_total(
            ids,
            scores,
            captain_id,
            vice_captain_id,
            captain_minutes,
            vice_minutes,
        ) == entry_total(ids, scores, captain_id, vice_captain_id, 0, 0) + points_of(scores, vice_captain_id),
        captain_minutes <= 0 && vice_minutes <= 0 ==> entry_total(
            ids,
            scores,
            captain_id,
            vice_captain_id,
            captain_minutes,
            vice_minutes,
        ) == ids_total(ids, scores, ids.len() as int),
        entry_total(ids, scores, captain_id, vice_captain_id, 0, 0) == ids_total(ids, scores, ids.len() as int),
{
}

} // verus!
