//! Leagues: creating Campaign, Derby and Round leagues, and deciding
//! whether a user may join one.
use vstd::prelude::*;
use vstd::string::*;
use crate::outside::{random_alphanumeric, is_ascii_alphanumeric};
use crate::squad::{
    SquadError, SquadPlayerInfo, STARTING_XI_SIZE, check_squad_entry, check_derby_entry, squad_verdict, derby_verdict,
    starting_list_ok, squad_error_text,
};
use crate::text::{text_equals, text_contains, occurs_in, int_text, with_number};

verus! {

/// A squad submitted once for a Derby or Round contest.
pub struct ContestEntry {
    pub players: Vec<i32>,
    pub starting_ids: Vec<i32>,
    pub captain_id: i32,
    pub vice_captain_id: i32,
}

/// A league as a user asks to create it.
pub struct CreateLeagueRequest {
    pub league_name: String,
    /// "public" or "private".
    pub league_type: String,
    /// "campaign", "derby" or "round".
    pub contest_type: String,
    pub fixture_id: Option<i32>,
    pub gameweek: Option<i32>,
}

/// A request to join a league.
pub struct JoinLeagueRequest {
    pub join_code: Option<String>,
    /// Required for Derby and Round leagues, ignored for Campaign ones.
    pub entry: Option<ContestEntry>,
}

/// A stored league.
pub struct LeagueRow {
    pub id: i32,
    pub league_type: String,
    pub contest_type: String,
    pub fixture_id: Option<i32>,
    pub gameweek: Option<i32>,
    pub join_code: Option<String>,
}

/// The three contest formats.
#[derive(PartialEq, Eq, Structural, Clone, Copy)]
pub enum ContestKind {
    /// A season-long persistent squad.
    Campaign,
    /// One fixture, an 11-player squad from its two clubs.
    Derby,
    /// One gameweek, a fresh 15-player squad.
    Round,
}

pub open spec fn campaign_text() -> Seq<char> {
    seq!['c', 'a', 'm', 'p', 'a', 'i', 'g', 'n']
}

pub open spec fn derby_text() -> Seq<char> {
    seq!['d', 'e', 'r', 'b', 'y']
}

pub open spec fn round_text() -> Seq<char> {
    seq!['r', 'o', 'u', 'n', 'd']
}

pub open spec fn public_text() -> Seq<char> {
    seq!['p', 'u', 'b', 'l', 'i', 'c']
}

pub open spec fn private_text() -> Seq<char> {
    seq!['p', 'r', 'i', 'v', 'a', 't', 'e']
}

/// The contest format a stored or requested `contest_type` names.
pub open spec fn contest_kind_of(s: Seq<char>) -> Option<ContestKind> {
    if s == campaign_text() {
        Some(ContestKind::Campaign)
    } else if s == derby_text() {
        Some(ContestKind::Derby)
    } else if s == round_text() {
        Some(ContestKind::Round)
    } else {
        None
    }
}

/// Reads a contest format.
pub fn contest_kind(s: &str) -> (r: Option<ContestKind>)
    ensures
        r == contest_kind_of(s@),
{
    proof {
        reveal_strlit("campaign");
        reveal_strlit("derby");
        reveal_strlit("round");
        assert("campaign"@ =~= campaign_text());
        assert("derby"@ =~= derby_text());
        assert("round"@ =~= round_text());
    }
    if text_equals(s, "campaign") {
        Some(ContestKind::Campaign)
    } else if text_equals(s, "derby") {
        Some(ContestKind::Derby)
    } else if text_equals(s, "round") {
        Some(ContestKind::Round)
    } else {
        None
    }
}

/// The contest format of a league request that names none: Campaign.
pub fn default_contest_type() -> (s: String)
    ensures
        s@ == campaign_text(),
{
    proof {
        reveal_strlit("campaign");
    }
    let s = String::from_str("campaign");
    assert(s@ =~= campaign_text());
    s
}

/// The prefix of every join code.
pub open spec fn join_code_prefix() -> Seq<char> {
    seq!['F', 'P', 'L', 'X', '-']
}

/// A join code: "FPLX-" followed by six ASCII letters or digits.
pub open spec fn is_join_code(s: Seq<char>) -> bool {
    &&& s.len() == 11
    &&& s.take(5) == join_code_prefix()
    &&& forall|i: int| 5 <= i < 11 ==> is_ascii_alphanumeric(#[trigger] s[i])
}

/// A fresh, random join code for a private league.
pub fn generate_code() -> (code: String)
    ensures
        is_join_code(code@),
{
    let suffix = random_alphanumeric(6);
    proof {
        reveal_strlit("FPLX-");
    }
    let mut code = String::from_str("FPLX-");
    code.append(suffix.as_str());
    assert(code@.take(5) =~= join_code_prefix());
    assert(forall|i: int| 5 <= i < 11 ==> code@[i] == suffix@[i - 5]);
    code
}

/// Why a league could not be created.
pub enum LeagueError {
    InvalidLeagueType,
    /// A Derby league names no fixture.
    MissingFixture,
    /// A Round league names no gameweek.
    MissingGameweek,
    UnknownContestType { contest_type: String },
}

/// How a league is to be created.
pub struct LeaguePlan {
    pub contest: ContestKind,
    pub fixture_id: Option<i32>,
    pub gameweek: Option<i32>,
    /// A join code for private leagues.
    pub join_code: Option<String>,
    /// Campaign leagues enter their creator straight away.
    pub creator_joins: bool,
}

/// Decides how to create a league: the league type must be "public" or
/// "private"; a Campaign league is scoped to nothing, a Derby league to its
/// fixture and a Round league to its gameweek, which must be given; a
/// private league gets a fresh join code; the creator of a Campaign league
/// joins it at once.
pub fn plan_league(req: &CreateLeagueRequest) -> (r: Result<LeaguePlan, LeagueError>)
    ensures
        ({
            let lt = req.league_type@;
            let kind = contest_kind_of(req.contest_type@);
            if lt != public_text() && lt != private_text() {
                r matches Err(LeagueError::InvalidLeagueType)
            } else {
                match kind {
                    None => r matches Err(LeagueError::UnknownContestType { contest_type })
                        && contest_type@ == req.contest_type@,
                    Some(ContestKind::Derby) if req.fixture_id is None => r matches Err(
                        LeagueError::MissingFixture,
                    ),
                    Some(ContestKind::Round) if req.gameweek is None => r matches Err(
                        LeagueError::MissingGameweek,
                    ),
                    Some(k) => r matches Ok(plan) && {
                        &&& plan.contest == k
                        &&& plan.fixture_id == (if k == ContestKind::Derby {
                            req.fixture_id
                        } else {
                            None
                        })
                        &&& plan.gameweek == (if k == ContestKind::Round {
                            req.gameweek
                        } else {
                            None
                        })
                        &&& (plan.join_code is Some <==> lt == private_text())
                        &&& (plan.join_code matches Some(code) ==> is_join_code(code@))
                        &&& plan.creator_joins == (k == ContestKind::Campaign)
                    },
                }
            }
        }),
{
    proof {
        reveal_strlit("public");
        reveal_strlit("private");
        assert("public"@ =~= public_text());
        assert("private"@ =~= private_text());
    }
    let is_public = text_equals(req.league_type.as_str(), "public");
    let is_private = text_equals(req.league_type.as_str(), "private");
    if !is_public && !is_private {
        return Err(LeagueError::InvalidLeagueType);
    }
    let (contest, fixture_id, gameweek) = match contest_kind(req.contest_type.as_str()) {
        Some(ContestKind::Campaign) => (ContestKind::Campaign, None, None),
        Some(ContestKind::Derby) => match req.fixture_id {
            Some(f) => (ContestKind::Derby, Some(f), None),
            None => {
                return Err(LeagueError::MissingFixture);
            },
        },
        Some(ContestKind::Round) => match req.gameweek {
            Some(g) => (ContestKind::Round, None, Some(g)),
            None => {
                return Err(LeagueError::MissingGameweek);
            },
        },
        None => {
            return Err(LeagueError::UnknownContestType { contest_type: req.contest_type.clone() });
        },
    };
    let join_code = if is_private {
        Some(generate_code())
    } else {
        None
    };
    Ok(
        LeaguePlan {
            contest,
            fixture_id,
            gameweek,
            join_code,
            creator_joins: contest == ContestKind::Campaign,
        },
    )
}

/// The Postgres error code of a unique-constraint violation.
pub open spec fn unique_violation_text() -> Seq<char> {
    seq!['2', '3', '5', '0', '5']
}

/// Whether a database error code reports a unique-constraint violation.
pub fn is_unique_violation(code: &Option<String>) -> (r: bool)
    ensures
        r == (code matches Some(c) && c@ == unique_violation_text()),
{
    proof {
        reveal_strlit("23505");
        assert("23505"@ =~= unique_violation_text());
    }
    match code {
        Some(c) => text_equals(c.as_str(), "23505"),
        None => false,
    }
}

pub open spec fn public_limit_marker() -> Seq<char> {
    seq!['P', 'u', 'b', 'l', 'i', 'c', ' ', 'l', 'e', 'a', 'g', 'u', 'e', ' ', 'l', 'i', 'm', 'i', 't']
}

pub open spec fn private_limit_marker() -> Seq<char> {
    seq!['P', 'r', 'i', 'v', 'a', 't', 'e', ' ', 'l', 'e', 'a', 'g', 'u', 'e', ' ', 'l', 'i', 'm', 'i', 't']
}

/// What a user is told when creating a league failed.
pub enum CreateLeagueFailure {
    /// The per-creator limit of three public leagues was hit.
    PublicLimit,
    /// The per-creator limit of two private leagues was hit.
    PrivateLimit,
    /// The creator already has a league with this name.
    DuplicateName,
    /// Some other database error.
    Database,
    /// Any other error, reported as its own text.
    Other,
}

/// Classifies a failed league creation from the error's text and, for a
/// database error, its code (`db_error` is `None` for other errors): the
/// creation-limit triggers are recognised by their text first, then unique
/// violations, then any other database error.
pub fn classify_create_league_failure(err_text: &str, db_error: &Option<Option<String>>) -> (r: CreateLeagueFailure)
    ensures
        occurs_in(err_text@, public_limit_marker()) ==> r is PublicLimit,
        !occurs_in(err_text@, public_limit_marker()) && occurs_in(err_text@, private_limit_marker())
            ==> r is PrivateLimit,
        !occurs_in(err_text@, public_limit_marker()) && !occurs_in(err_text@, private_limit_marker())
            ==> match db_error {
            Some(code) => if code matches Some(c) && c@ == unique_violation_text() {
                r is DuplicateName
            } else {
                r is Database
            },
            None => r is Other,
        },
{
    proof {
        reveal_strlit("Public league limit");
        reveal_strlit("Private league limit");
        assert("Public league limit"@ =~= public_limit_marker());
        assert("Private league limit"@ =~= private_limit_marker());
    }
    if text_contains(err_text, "Public league limit") {
        CreateLeagueFailure::PublicLimit
    } else if text_contains(err_text, "Private league limit") {
        CreateLeagueFailure::PrivateLimit
    } else {
        match db_error {
            Some(code) => if is_unique_violation(code) {
                CreateLeagueFailure::DuplicateName
            } else {
                CreateLeagueFailure::Database
            },
            None => CreateLeagueFailure::Other,
        }
    }
}

/// Why a user may not join a league.
pub enum JoinError {
    InvalidJoinCode,
    /// A Campaign league needs the user's squad to exist first.
    NoSquad,
    /// A Derby or Round league needs an entry.
    EntryRequired { contest: ContestKind },
    /// The Derby league names no fixture.
    NoFixture,
    /// The Round league names no gameweek.
    NoGameweek,
    /// The Derby fixture has kicked off.
    AlreadyKickedOff,
    NoHomeTeam,
    NoAwayTeam,
    /// A fixture of the Round gameweek has kicked off.
    GameweekStarted { gameweek: i32 },
    UnknownContestType { contest_type: String },
    /// The entry breaks the contest's squad rules.
    Squad(SquadError),
    AlreadyJoined,
}

/// What joining needs next.
pub enum JoinPlan {
    /// Check that the user's Campaign squad exists.
    Campaign,
    /// Validate the entry against the fixture.
    Derby { fixture_id: i32, entry: ContestEntry },
    /// Validate the entry for the gameweek.
    Round { gameweek: i32, entry: ContestEntry },
}

/// The first decision on a join: a private league needs its join code (and
/// refuses all when it has none); then a Campaign league needs nothing more
/// here, while a Derby league needs an entry and a configured fixture, and a
/// Round league an entry and a configured gameweek.
pub fn plan_join(
    league: &LeagueRow,
    join_code: &Option<String>,
    entry: Option<ContestEntry>,
) -> (r: Result<JoinPlan, JoinError>)
    ensures
        ({
            let code_ok = league.league_type@ != private_text() || (league.join_code matches Some(expected)
                && join_code matches Some(given) && given@ == expected@);
            if !code_ok {
                r matches Err(JoinError::InvalidJoinCode)
            } else {
                match contest_kind_of(league.contest_type@) {
                    Some(ContestKind::Campaign) => r matches Ok(JoinPlan::Campaign),
                    Some(ContestKind::Derby) => match (entry, league.fixture_id) {
                        (None, _) => r matches Err(JoinError::EntryRequired { contest: ContestKind::Derby }),
                        (Some(_), None) => r matches Err(JoinError::NoFixture),
                        (Some(e), Some(f)) => r matches Ok(JoinPlan::Derby { fixture_id, entry: e2 })
                            && fixture_id == f && e2 == e,
                    },
                    Some(ContestKind::Round) => match (entry, league.gameweek) {
                        (None, _) => r matches Err(JoinError::EntryRequired { contest: ContestKind::Round }),
                        (Some(_), None) => r matches Err(JoinError::NoGameweek),
                        (Some(e), Some(g)) => r matches Ok(JoinPlan::Round { gameweek, entry: e2 })
                            && gameweek == g && e2 == e,
                    },
                    None => r matches Err(JoinError::UnknownContestType { contest_type })
                        && contest_type@ == league.contest_type@,
                }
            }
        }),
{
    proof {
        reveal_strlit("private");
        assert("private"@ =~= private_text());
    }
    if text_equals(league.league_type.as_str(), "private") {
        let ok = match (&league.join_code, join_code) {
            (Some(expected), Some(given)) => text_equals(given.as_str(), expected.as_str()),
            _ => false,
        };
        if !ok {
            return Err(JoinError::InvalidJoinCode);
        }
    }
    match contest_kind(league.contest_type.as_str()) {
        Some(ContestKind::Campaign) => Ok(JoinPlan::Campaign),
        Some(ContestKind::Derby) => {
            let entry = match entry {
                Some(e) => e,
                None => {
                    return Err(JoinError::EntryRequired { contest: ContestKind::Derby });
                },
            };
            match league.fixture_id {
                Some(fixture_id) => Ok(JoinPlan::Derby { fixture_id, entry }),
                None => Err(JoinError::NoFixture),
            }
        },
        Some(ContestKind::Round) => {
            let entry = match entry {
                Some(e) => e,
                None => {
                    return Err(JoinError::EntryRequired { contest: ContestKind::Round });
                },
            };
            match league.gameweek {
                Some(gameweek) => Ok(JoinPlan::Round { gameweek, entry }),
                None => Err(JoinError::NoGameweek),
            }
        },
        None => Err(JoinError::UnknownContestType { contest_type: league.contest_type.clone() }),
    }
}

/// A Campaign join needs the user's squad to exist.
pub fn check_campaign_join(is_team_created: bool) -> (r: Result<(), JoinError>)
    ensures
        is_team_created <==> r is Ok,
        !is_team_created ==> r matches Err(JoinError::NoSquad),
{
    if !is_team_created {
        return Err(JoinError::NoSquad);
    }
    Ok(())
}

/// The clubs and state of a Derby fixture.
pub struct FixtureTeams {
    pub home_team_id: Option<i32>,
    pub away_team_id: Option<i32>,
    pub started: Option<bool>,
}

/// A Derby join: the fixture must not have kicked off (unknown counts as not
/// started) and must have both clubs set; then the entry must pass the Derby
/// rules, with `squad_info` what is known of its players.
pub fn check_derby_join(
    fixture: &FixtureTeams,
    entry: &ContestEntry,
    squad_info: &[SquadPlayerInfo],
) -> (r: Result<(), JoinError>)
    ensures
        fixture.started == Some(true) ==> r matches Err(JoinError::AlreadyKickedOff),
        fixture.started != Some(true) && fixture.home_team_id is None ==> r matches Err(JoinError::NoHomeTeam),
        fixture.started != Some(true) && fixture.home_team_id is Some && fixture.away_team_id is None
            ==> r matches Err(JoinError::NoAwayTeam),
        fixture.started != Some(true) ==> match (fixture.home_team_id, fixture.away_team_id) {
            (Some(home), Some(away)) => if squad_info@.len() != entry.players@.len() {
                r matches Err(JoinError::Squad(SquadError::UnknownPlayers))
            } else {
                match derby_verdict(squad_info@, home, away, entry.captain_id, entry.vice_captain_id) {
                    Ok(()) => r is Ok,
                    Err(e) => r matches Err(JoinError::Squad(e2)) && e2 == e,
                }
            },
            _ => true,
        },
{
    if let Some(true) = fixture.started {
        return Err(JoinError::AlreadyKickedOff);
    }
    let home = match fixture.home_team_id {
        Some(h) => h,
        None => {
            return Err(JoinError::NoHomeTeam);
        },
    };
    let away = match fixture.away_team_id {
        Some(a) => a,
        None => {
            return Err(JoinError::NoAwayTeam);
        },
    };
    match check_derby_entry(&entry.players, entry.captain_id, entry.vice_captain_id, squad_info, home, away) {
        Ok(()) => Ok(()),
        Err(e) => Err(JoinError::Squad(e)),
    }
}

/// A Round join: no fixture of the gameweek may have kicked off; then the
/// entry must name only known players (`squad_info` is what is known of
/// them), pass the 15-player squad rules, and list no starter twice.
pub fn check_round_join(
    gameweek: i32,
    locked: bool,
    entry: &ContestEntry,
    squad_info: &[SquadPlayerInfo],
) -> (r: Result<(), JoinError>)
    ensures
        locked ==> (r matches Err(JoinError::GameweekStarted { gameweek: g }) && g == gameweek),
        !locked ==> {
            if squad_info@.len() != entry.players@.len() {
                r matches Err(JoinError::Squad(SquadError::UnknownPlayers))
            } else {
                match squad_verdict(
                    squad_info@,
                    entry.starting_ids@.to_set(),
                    entry.captain_id,
                    entry.vice_captain_id,
                ) {
                    Ok(()) => if starting_list_ok(entry.starting_ids@) {
                        r is Ok
                    } else {
                        r matches Err(JoinError::Squad(SquadError::WrongStartingSize { required }))
                            && required == STARTING_XI_SIZE
                    },
                    Err(e) => r matches Err(JoinError::Squad(e2)) && e2 == e,
                }
            }
        },
{
    if locked {
        return Err(JoinError::GameweekStarted { gameweek });
    }
    match check_squad_entry(&entry.players, &entry.starting_ids, entry.captain_id, entry.vice_captain_id, squad_info) {
        Ok(_) => Ok(()),
        Err(e) => Err(JoinError::Squad(e)),
    }
}

// ---------------------------------------------------------------------------
// What a user is told
// ---------------------------------------------------------------------------

/// What a user is told when a league cannot be created.
pub open spec fn league_error_text(e: LeagueError) -> Seq<char> {
    match e {
        LeagueError::InvalidLeagueType => "Invalid league type"@,
        LeagueError::MissingFixture => "A derby league needs a fixture_id"@,
        LeagueError::MissingGameweek => "A round league needs a gameweek"@,
        LeagueError::UnknownContestType { contest_type } => "Unknown contest type: "@ + contest_type@,
    }
}

impl LeagueError {
    /// What a user is told.
    pub fn message(&self) -> (s: String)
        ensures
            s@ == league_error_text(*self),
    {
        match self {
            LeagueError::InvalidLeagueType => String::from_str("Invalid league type"),
            LeagueError::MissingFixture => String::from_str("A derby league needs a fixture_id"),
            LeagueError::MissingGameweek => String::from_str("A round league needs a gameweek"),
            LeagueError::UnknownContestType { contest_type } => {
                let mut s = String::from_str("Unknown contest type: ");
                s.append(contest_type.as_str());
                s
            },
        }
    }
}

/// What a user is told when a join is refused, `per_club` being the club
/// limit of the league's squad rules; `None` for an over-budget entry.
pub open spec fn join_error_text(e: JoinError, per_club: nat) -> Option<Seq<char>> {
    match e {
        JoinError::InvalidJoinCode => Some("Invalid join code"@),
        JoinError::NoSquad => Some("Create your squad before joining a campaign league"@),
        JoinError::EntryRequired { contest } => Some(
            match contest {
                ContestKind::Derby => "A derby entry is required to join"@,
                ContestKind::Round => "A round entry is required to join"@,
                ContestKind::Campaign => "An entry is required to join"@,
            },
        ),
        JoinError::NoFixture => Some("Derby league has no fixture configured"@),
        JoinError::NoGameweek => Some("Round league has no gameweek configured"@),
        JoinError::AlreadyKickedOff => Some("This derby has already kicked off"@),
        JoinError::NoHomeTeam => Some("Fixture has no home team set"@),
        JoinError::NoAwayTeam => Some("Fixture has no away team set"@),
        JoinError::GameweekStarted { gameweek } => Some(
            "Gameweek "@ + int_text(gameweek as int) + " has already kicked off"@,
        ),
        JoinError::UnknownContestType { contest_type } => Some("Unknown contest type: "@ + contest_type@),
        JoinError::Squad(e) => squad_error_text(e, per_club),
        JoinError::AlreadyJoined => Some("You have already joined this league"@),
    }
}

fn join_text(s: &str) -> (r: Option<String>)
    ensures
        r matches Some(t) && t@ == s@,
{
    Some(String::from_str(s))
}

impl JoinError {
    /// What a user is told, `per_club` being the club limit of the league's
    /// squad rules; `None` for an over-budget entry.
    pub fn message(&self, per_club: usize) -> (r: Option<String>)
        ensures
            match join_error_text(*self, per_club as nat) {
                Some(t) => r matches Some(s) && s@ == t,
                None => r is None,
            },
    {
        match self {
            JoinError::InvalidJoinCode => join_text("Invalid join code"),
            JoinError::NoSquad => join_text("Create your squad before joining a campaign league"),
            JoinError::EntryRequired { contest } => match contest {
                ContestKind::Derby => join_text("A derby entry is required to join"),
                ContestKind::Round => join_text("A round entry is required to join"),
                ContestKind::Campaign => join_text("An entry is required to join"),
            },
            JoinError::NoFixture => join_text("Derby league has no fixture configured"),
            JoinError::NoGameweek => join_text("Round league has no gameweek configured"),
            JoinError::AlreadyKickedOff => join_text("This derby has already kicked off"),
            JoinError::NoHomeTeam => join_text("Fixture has no home team set"),
            JoinError::NoAwayTeam => join_text("Fixture has no away team set"),
            JoinError::GameweekStarted { gameweek } => Some(
                with_number("Gameweek ", *gameweek as i64, " has already kicked off"),
            ),
            JoinError::UnknownContestType { contest_type } => {
                let mut s = String::from_str("Unknown contest type: ");
                s.append(contest_type.as_str());
                Some(s)
            },
            JoinError::Squad(e) => e.message(per_club),
            JoinError::AlreadyJoined => join_text("You have already joined this league"),
        }
    }
}

} // verus!
