use poker_cash_game_program::{
    create_cash_game, create_cash_game_with_authority, find_pool_authority, set_game_status,
    CreateGameData, CreateGameParams, GameAccount, GameStatus, GameStatusData, PokerError, Pubkey,
    SeatedPlayer, SetGameStatus, TokenAccount,
};

fn key(b: u8) -> Pubkey {
    Pubkey::new_from_array([b; 32])
}

fn program_id() -> Pubkey {
    key(240)
}

fn blank_record() -> GameAccount {
    GameAccount {
        owner: key(0),
        max_players: 0,
        min_deposit: 0,
        max_deposit: 0,
        players: Vec::new(),
        status: GameStatus::Active,
    }
}

fn create_accounts(pool_owner: Pubkey, pool_amount: u64) -> CreateGameParams {
    CreateGameParams {
        game_key: key(1),
        game_account: blank_record(),
        token_account: TokenAccount { key: key(2), mint: key(3), owner: pool_owner, amount: pool_amount },
        payer: key(4),
    }
}

fn data() -> CreateGameData {
    CreateGameData { max_players: 6, min_deposit: 10, max_deposit: 1000 }
}

#[test]
fn create_fills_in_the_ledger() {
    let authority = find_pool_authority(&key(1), &program_id()).unwrap();
    let mut accounts = create_accounts(authority, 0);
    assert_eq!(create_cash_game(&program_id(), &mut accounts, data()), Ok(()));
    assert_eq!(
        accounts.game_account,
        GameAccount {
            owner: key(4),
            max_players: 6,
            min_deposit: 10,
            max_deposit: 1000,
            players: Vec::new(),
            status: GameStatus::Inactive,
        }
    );
    assert_eq!(accounts.game_key, key(1));
    assert_eq!(accounts.payer, key(4));
    assert_eq!(accounts.token_account.owner, authority);
}

#[test]
fn create_refuses_a_pool_owned_by_someone_else() {
    let mut accounts = create_accounts(key(9), 0);
    let before = accounts.clone();
    assert_eq!(
        create_cash_game(&program_id(), &mut accounts, data()),
        Err(PokerError::IncorrectTokenOwner)
    );
    assert_eq!(accounts, before);
}

#[test]
fn create_refuses_the_authority_of_another_ledger() {
    let other = find_pool_authority(&key(77), &program_id()).unwrap();
    let mut accounts = create_accounts(other, 0);
    assert_eq!(
        create_cash_game(&program_id(), &mut accounts, data()),
        Err(PokerError::IncorrectTokenOwner)
    );
}

#[test]
fn create_refuses_the_authority_under_another_program() {
    let other = find_pool_authority(&key(1), &key(241)).unwrap();
    let mut accounts = create_accounts(other, 0);
    assert_eq!(
        create_cash_game(&program_id(), &mut accounts, data()),
        Err(PokerError::IncorrectTokenOwner)
    );
}

#[test]
fn create_refuses_a_pool_that_holds_value() {
    let authority = find_pool_authority(&key(1), &program_id()).unwrap();
    let mut accounts = create_accounts(authority, 1);
    let before = accounts.clone();
    assert_eq!(
        create_cash_game(&program_id(), &mut accounts, data()),
        Err(PokerError::InitialTokenAccountBalanceNonZero)
    );
    assert_eq!(accounts, before);
}

#[test]
fn create_checks_the_owner_before_the_amount() {
    let mut accounts = create_accounts(key(9), 5);
    assert_eq!(
        create_cash_game(&program_id(), &mut accounts, data()),
        Err(PokerError::IncorrectTokenOwner)
    );
}

#[test]
fn create_with_authority_goes_by_the_authority_given() {
    let mut accounts = create_accounts(key(9), 0);
    assert_eq!(create_cash_game_with_authority(Some(key(9)), &mut accounts, data()), Ok(()));
    assert_eq!(accounts.game_account.status, GameStatus::Inactive);
    assert_eq!(accounts.game_account.owner, key(4));

    let mut accounts = create_accounts(key(9), 0);
    assert_eq!(
        create_cash_game_with_authority(None, &mut accounts, data()),
        Err(PokerError::IncorrectTokenOwner)
    );
    assert_eq!(
        create_cash_game_with_authority(Some(key(8)), &mut accounts, data()),
        Err(PokerError::IncorrectTokenOwner)
    );
}

#[test]
fn create_accepts_any_bounds() {
    let mut accounts = create_accounts(key(9), 0);
    let odd = CreateGameData { max_players: 0, min_deposit: 50, max_deposit: 5 };
    assert_eq!(create_cash_game_with_authority(Some(key(9)), &mut accounts, odd), Ok(()));
    assert_eq!(accounts.game_account.max_players, 0);
    assert_eq!(accounts.game_account.min_deposit, 50);
    assert_eq!(accounts.game_account.max_deposit, 5);
}

fn status_accounts(status: GameStatus, payer: Pubkey) -> SetGameStatus {
    SetGameStatus {
        game_account: GameAccount {
            owner: key(4),
            max_players: 6,
            min_deposit: 10,
            max_deposit: 1000,
            players: vec![SeatedPlayer { address: key(5), balance: 100, add_on: 7 }],
            status,
        },
        payer,
    }
}

#[test]
fn owner_sets_the_status_either_way() {
    let mut accounts = status_accounts(GameStatus::Inactive, key(4));
    assert_eq!(set_game_status(&mut accounts, GameStatusData { status: GameStatus::Active }), Ok(()));
    assert_eq!(accounts.game_account.status, GameStatus::Active);
    assert_eq!(set_game_status(&mut accounts, GameStatusData { status: GameStatus::Active }), Ok(()));
    assert_eq!(accounts.game_account.status, GameStatus::Active);
    assert_eq!(
        set_game_status(&mut accounts, GameStatusData { status: GameStatus::Inactive }),
        Ok(())
    );
    assert_eq!(accounts.game_account.status, GameStatus::Inactive);
    assert_eq!(
        accounts.game_account.players,
        vec![SeatedPlayer { address: key(5), balance: 100, add_on: 7 }]
    );
    assert_eq!(accounts.game_account.owner, key(4));
}

#[test]
fn only_the_owner_sets_the_status() {
    let mut accounts = status_accounts(GameStatus::Inactive, key(5));
    let before = accounts.clone();
    assert_eq!(
        set_game_status(&mut accounts, GameStatusData { status: GameStatus::Active }),
        Err(PokerError::NotGameOwner)
    );
    assert_eq!(accounts, before);
}
