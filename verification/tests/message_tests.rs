use fplx::auth::AuthError;
use fplx::league::{ContestKind, JoinError, LeagueError};
use fplx::squad::SquadError;
use fplx::transfers::TransferError;

#[test]
fn squad_messages() {
    let e = SquadError::WrongPositionCount { position: 1, required: 2, found: 3 };
    assert_eq!(e.message(3).unwrap(), "Squad must have exactly 2 goalkeepers (found 3)");
    let e = SquadError::StartingPositionRange { position: 2, min: 3, max: 5, found: 12 };
    assert_eq!(e.message(3).unwrap(), "Starting XI must have between 3 and 5 defenders (found 12)");
    assert_eq!(
        SquadError::TooManyFromClub { found: 8 }.message(7).unwrap(),
        "Max 7 players allowed from a single club (found 8)"
    );
    assert_eq!(
        SquadError::PlayerNotInFixture { player_id: -40 }.message(7).unwrap(),
        "Player -40 does not play for either club in this fixture"
    );
    assert_eq!(SquadError::WrongSquadSize { required: 15 }.message(3).unwrap(), "Squad must have exactly 15 players");
    assert!(SquadError::OverBudget { total_cost: 1040 }.message(3).is_none());
}

#[test]
fn transfer_messages() {
    assert_eq!(
        TransferError::GameweekLocked { gameweek: 12 }.message().unwrap(),
        "Gameweek 12 has kicked off — transfers reopen once the next gameweek is current"
    );
    assert_eq!(
        TransferError::PositionMismatch { player_id: 2147483647 }.message().unwrap(),
        "Replacement must be the same position as the player leaving (player 2147483647 is not)"
    );
    assert_eq!(
        TransferError::NotInSquad { player_id: -2147483648 }.message().unwrap(),
        "Player -2147483648 is not in your squad"
    );
    assert_eq!(
        TransferError::TooManyFromClub { found: 4 }.message().unwrap(),
        "Max 3 players allowed from a single club (found 4)"
    );
    assert!(TransferError::OverBudget { total_cost: 1001 }.message().is_none());
}

#[test]
fn league_and_join_messages() {
    assert_eq!(
        LeagueError::UnknownContestType { contest_type: "cup".to_string() }.message(),
        "Unknown contest type: cup"
    );
    assert_eq!(
        JoinError::GameweekStarted { gameweek: 0 }.message(3).unwrap(),
        "Gameweek 0 has already kicked off"
    );
    assert_eq!(
        JoinError::EntryRequired { contest: ContestKind::Derby }.message(7).unwrap(),
        "A derby entry is required to join"
    );
    assert_eq!(
        JoinError::Squad(SquadError::TooManyFromClub { found: 9 }).message(7).unwrap(),
        "Max 7 players allowed from a single club (found 9)"
    );
    assert_eq!(AuthError::TokenExpired.message(), "Token expired");
}
