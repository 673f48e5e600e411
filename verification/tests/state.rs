use poker_cash_game_program::{
    CreateGameData, GameAccount, GameStatus, JoinGameArgs, Pubkey, SeatedPlayer,
};

fn key(b: u8) -> Pubkey {
    Pubkey::new_from_array([b; 32])
}

fn table(max_players: u16, players: Vec<SeatedPlayer>) -> GameAccount {
    GameAccount {
        owner: key(4),
        max_players,
        min_deposit: 10,
        max_deposit: 1000,
        players,
        status: GameStatus::Inactive,
    }
}

fn seat(b: u8) -> SeatedPlayer {
    SeatedPlayer { address: key(b), balance: 1, add_on: 2 }
}

#[test]
fn an_empty_table_is_well_formed() {
    assert!(table(0, vec![]).well_formed());
    assert!(table(6, vec![]).well_formed());
}

#[test]
fn distinct_players_within_the_seats_are_well_formed() {
    assert!(table(3, vec![seat(1), seat(2), seat(3)]).well_formed());
    assert!(table(u16::MAX, vec![seat(1)]).well_formed());
}

#[test]
fn more_players_than_seats_are_not_well_formed() {
    assert!(!table(2, vec![seat(1), seat(2), seat(3)]).well_formed());
    assert!(!table(0, vec![seat(1)]).well_formed());
}

#[test]
fn a_player_with_two_seats_is_not_well_formed() {
    assert!(!table(6, vec![seat(1), seat(1)]).well_formed());
    assert!(!table(6, vec![seat(1), seat(2), seat(3), seat(2)]).well_formed());
    let mut other = seat(3);
    other.balance = 77;
    assert!(!table(6, vec![seat(3), seat(1), other]).well_formed());
}

#[test]
fn defaults_are_all_zero() {
    assert_eq!(Pubkey::default(), key(0));
    assert_eq!(SeatedPlayer::default(), SeatedPlayer { address: key(0), balance: 0, add_on: 0 });
    assert_eq!(JoinGameArgs::default(), JoinGameArgs { amount: 0 });
    assert_eq!(
        CreateGameData::default(),
        CreateGameData { max_players: 0, min_deposit: 0, max_deposit: 0 }
    );
}
