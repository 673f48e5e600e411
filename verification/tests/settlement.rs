use poker_cash_game_program::{
    get_associated_token_address, settle, settle_with_holdings, GameAccount, GameStatus,
    PokerError, Pubkey, SeatedPlayer, Settle, SettleAccounts, SettleOp, SettleParams,
    TokenAccount, Transfer,
};

fn key(b: u8) -> Pubkey {
    Pubkey::new_from_array([b; 32])
}

fn mint() -> Pubkey {
    key(3)
}

fn seat(b: u8, balance: u64, add_on: u64) -> SeatedPlayer {
    SeatedPlayer { address: key(b), balance, add_on }
}

fn accounts(players: Vec<SeatedPlayer>) -> SettleAccounts {
    SettleAccounts {
        game_account: GameAccount {
            owner: key(4),
            max_players: 6,
            min_deposit: 10,
            max_deposit: 1000,
            players,
            status: GameStatus::Active,
        },
        token_account: TokenAccount { key: key(2), mint: mint(), owner: key(20), amount: 10_000 },
        payer: key(4),
        pda_account: key(20),
    }
}

fn add(b: u8, amount: u64) -> Settle {
    Settle { addr: key(b), op: SettleOp::Add(amount) }
}

fn sub(b: u8, amount: u64) -> Settle {
    Settle { addr: key(b), op: SettleOp::Sub(amount) }
}

fn batch(settles: Vec<Settle>) -> SettleParams {
    SettleParams { settles }
}

/// The holding account of the participant `b`, in these tests: any address
/// will do where the holdings are handed in.
fn holding(b: u8) -> Pubkey {
    key(b + 100)
}

fn holdings(players: &[u8]) -> Vec<Option<Pubkey>> {
    players.iter().map(|b| Some(holding(*b))).collect()
}

fn payout(to: Pubkey, amount: u64) -> Transfer {
    Transfer { from: key(2), to, authority: key(20), amount }
}

#[test]
fn only_the_owner_settles() {
    let mut a = accounts(vec![seat(5, 100, 0)]);
    a.payer = key(5);
    let before = a.clone();
    assert_eq!(
        settle_with_holdings(&mut a, &vec![holding(5)], &holdings(&[5]), batch(vec![add(5, 1)])),
        Err(PokerError::NotGameOwner)
    );
    assert_eq!(a, before);
}

#[test]
fn only_an_active_table_is_settled() {
    let mut a = accounts(vec![seat(5, 100, 0)]);
    a.game_account.status = GameStatus::Inactive;
    let before = a.clone();
    assert_eq!(
        settle_with_holdings(&mut a, &vec![holding(5)], &holdings(&[5]), batch(vec![add(5, 1)])),
        Err(PokerError::GameNotActive)
    );
    assert_eq!(a, before);
}

#[test]
fn the_owner_is_checked_before_the_status() {
    let mut a = accounts(vec![seat(5, 100, 0)]);
    a.payer = key(5);
    a.game_account.status = GameStatus::Inactive;
    assert_eq!(
        settle_with_holdings(&mut a, &vec![], &holdings(&[5]), batch(vec![])),
        Err(PokerError::NotGameOwner)
    );
}

#[test]
fn an_empty_settlement_changes_nothing() {
    let mut a = accounts(vec![seat(5, 100, 7), seat(6, 50, 0)]);
    let before = a.clone();
    assert_eq!(settle_with_holdings(&mut a, &vec![], &holdings(&[5, 6]), batch(vec![])), Ok(vec![]));
    assert_eq!(a, before);
}

#[test]
fn adjustments_change_balances_and_nobody_leaves() {
    let mut a = accounts(vec![seat(5, 100, 7), seat(6, 50, 0), seat(7, 10, 0)]);
    let settles = batch(vec![add(5, 40), sub(6, 30), sub(7, 10)]);
    assert_eq!(settle_with_holdings(&mut a, &vec![], &holdings(&[5, 6, 7]), settles), Ok(vec![]));
    assert_eq!(a.game_account.players, vec![seat(5, 140, 7), seat(6, 20, 0), seat(7, 0, 0)]);
}

#[test]
fn two_adds_for_one_player_add_up() {
    let mut a = accounts(vec![seat(6, 50, 0), seat(5, 100, 7)]);
    let settles = batch(vec![add(5, 30), add(5, 12)]);
    assert_eq!(settle_with_holdings(&mut a, &vec![], &holdings(&[6, 5]), settles), Ok(vec![]));
    assert_eq!(a.game_account.players, vec![seat(6, 50, 0), seat(5, 142, 7)]);

    let mut b = accounts(vec![seat(6, 50, 0), seat(5, 100, 7)]);
    let settles = batch(vec![add(5, 12), add(5, 30)]);
    assert_eq!(settle_with_holdings(&mut b, &vec![], &holdings(&[6, 5]), settles), Ok(vec![]));
    assert_eq!(b.game_account.players, a.game_account.players);
}

#[test]
fn adjustments_apply_in_the_order_of_the_batch() {
    // the subtraction can only be made once the addition has been
    let mut a = accounts(vec![seat(5, 10, 0)]);
    let settles = batch(vec![add(5, 30), sub(5, 35)]);
    assert_eq!(settle_with_holdings(&mut a, &vec![], &holdings(&[5]), settles), Ok(vec![]));
    assert_eq!(a.game_account.players, vec![seat(5, 5, 0)]);

    let mut b = accounts(vec![seat(5, 10, 0)]);
    let settles = batch(vec![sub(5, 35), add(5, 30)]);
    assert_eq!(
        settle_with_holdings(&mut b, &vec![], &holdings(&[5]), settles),
        Err(PokerError::DepositTooLarge)
    );
    assert_eq!(b.game_account.players, vec![seat(5, 10, 0)]);
}

#[test]
fn a_sub_beyond_the_balance_fails_the_whole_settlement() {
    let mut a = accounts(vec![seat(5, 100, 7), seat(6, 50, 0)]);
    let before = a.clone();
    let settles = batch(vec![add(5, 40), sub(6, 51), add(6, 100)]);
    assert_eq!(
        settle_with_holdings(&mut a, &vec![holding(5)], &holdings(&[5, 6]), settles),
        Err(PokerError::DepositTooLarge)
    );
    assert_eq!(a, before);
}

#[test]
fn a_sub_of_the_whole_balance_is_made() {
    let mut a = accounts(vec![seat(5, 100, 7)]);
    assert_eq!(
        settle_with_holdings(&mut a, &vec![], &holdings(&[5]), batch(vec![sub(5, 100)])),
        Ok(vec![])
    );
    assert_eq!(a.game_account.players, vec![seat(5, 0, 7)]);
}

#[test]
fn the_add_on_does_not_count_for_a_sub() {
    let mut a = accounts(vec![seat(5, 10, 500)]);
    assert_eq!(
        settle_with_holdings(&mut a, &vec![], &holdings(&[5]), batch(vec![sub(5, 11)])),
        Err(PokerError::DepositTooLarge)
    );
    assert_eq!(a.game_account.players, vec![seat(5, 10, 500)]);
}

#[test]
fn an_add_beyond_the_range_fails_the_whole_settlement() {
    let mut a = accounts(vec![seat(5, u64::MAX - 5, 0), seat(6, 50, 0)]);
    let before = a.clone();
    let settles = batch(vec![sub(6, 10), add(5, 6)]);
    assert_eq!(
        settle_with_holdings(&mut a, &vec![], &holdings(&[5, 6]), settles),
        Err(PokerError::DepositTooLarge)
    );
    assert_eq!(a, before);
    assert_eq!(
        settle_with_holdings(&mut a, &vec![], &holdings(&[5, 6]), batch(vec![add(5, 5)])),
        Ok(vec![])
    );
    assert_eq!(a.game_account.players, vec![seat(5, u64::MAX, 0), seat(6, 50, 0)]);
}

#[test]
fn an_adjustment_for_someone_not_seated_fails_the_whole_settlement() {
    let mut a = accounts(vec![seat(5, 100, 7), seat(6, 50, 0)]);
    let before = a.clone();
    let settles = batch(vec![add(5, 40), add(9, 1)]);
    assert_eq!(
        settle_with_holdings(&mut a, &vec![], &holdings(&[5, 6]), settles),
        Err(PokerError::NotAtTable)
    );
    assert_eq!(a, before);
}

#[test]
fn a_payout_pays_balance_and_add_on_and_unseats() {
    let mut a = accounts(vec![seat(5, 100, 7), seat(6, 50, 0), seat(7, 10, 1)]);
    assert_eq!(
        settle_with_holdings(&mut a, &vec![holding(6)], &holdings(&[5, 6, 7]), batch(vec![])),
        Ok(vec![payout(holding(6), 50)])
    );
    assert_eq!(a.game_account.players, vec![seat(5, 100, 7), seat(7, 10, 1)]);
    assert_eq!(a.token_account, TokenAccount { key: key(2), mint: mint(), owner: key(20), amount: 10_000 });
    assert_eq!(a.payer, key(4));
    assert_eq!(a.pda_account, key(20));
}

#[test]
fn a_payout_comes_after_the_adjustments() {
    let mut a = accounts(vec![seat(5, 150, 20)]);
    assert_eq!(
        settle_with_holdings(&mut a, &vec![holding(5)], &holdings(&[5]), batch(vec![add(5, 30)])),
        Ok(vec![payout(holding(5), 200)])
    );
    assert_eq!(a.game_account.players, vec![]);
}

#[test]
fn several_leave_at_once_whatever_their_seats() {
    let players = vec![seat(5, 100, 7), seat(6, 50, 0), seat(7, 10, 1), seat(8, 1, 1)];
    let all = holdings(&[5, 6, 7, 8]);

    let mut a = accounts(players.clone());
    assert_eq!(
        settle_with_holdings(&mut a, &vec![holding(5), holding(7)], &all, batch(vec![])),
        Ok(vec![payout(holding(5), 107), payout(holding(7), 11)])
    );
    assert_eq!(a.game_account.players, vec![seat(6, 50, 0), seat(8, 1, 1)]);

    let mut b = accounts(players.clone());
    assert_eq!(
        settle_with_holdings(&mut b, &vec![holding(8), holding(5)], &all, batch(vec![])),
        Ok(vec![payout(holding(8), 2), payout(holding(5), 107)])
    );
    assert_eq!(b.game_account.players, vec![seat(6, 50, 0), seat(7, 10, 1)]);

    let mut c = accounts(players);
    assert_eq!(
        settle_with_holdings(
            &mut c,
            &vec![holding(5), holding(6), holding(7), holding(8)],
            &all,
            batch(vec![sub(6, 50), add(8, 50)])
        ),
        Ok(vec![
            payout(holding(5), 107),
            payout(holding(6), 0),
            payout(holding(7), 11),
            payout(holding(8), 52)
        ])
    );
    assert_eq!(c.game_account.players, vec![]);
}

#[test]
fn a_payout_to_an_unknown_account_fails_the_whole_settlement() {
    let mut a = accounts(vec![seat(5, 100, 7), seat(6, 50, 0)]);
    let before = a.clone();
    assert_eq!(
        settle_with_holdings(
            &mut a,
            &vec![holding(5), holding(9)],
            &holdings(&[5, 6]),
            batch(vec![add(6, 5)])
        ),
        Err(PokerError::NotAtTable)
    );
    assert_eq!(a, before);
}

#[test]
fn nobody_is_paid_out_twice() {
    let mut a = accounts(vec![seat(5, 100, 7), seat(6, 50, 0)]);
    let before = a.clone();
    assert_eq!(
        settle_with_holdings(
            &mut a,
            &vec![holding(5), holding(5)],
            &holdings(&[5, 6]),
            batch(vec![])
        ),
        Err(PokerError::NotAtTable)
    );
    assert_eq!(a, before);
}

#[test]
fn a_seat_without_a_holding_account_is_never_paid_out() {
    let mut a = accounts(vec![seat(5, 100, 7), seat(6, 50, 0)]);
    let known = vec![None, Some(holding(6))];
    assert_eq!(
        settle_with_holdings(&mut a, &vec![holding(5)], &known, batch(vec![])),
        Err(PokerError::NotAtTable)
    );
    assert_eq!(
        settle_with_holdings(&mut a, &vec![holding(6)], &known, batch(vec![])),
        Ok(vec![payout(holding(6), 50)])
    );
    assert_eq!(a.game_account.players, vec![seat(5, 100, 7)]);
}

#[test]
fn a_payout_that_cannot_be_counted_fails_the_whole_settlement() {
    let mut a = accounts(vec![seat(5, u64::MAX - 5, 6), seat(6, 50, 0)]);
    let before = a.clone();
    assert_eq!(
        settle_with_holdings(
            &mut a,
            &vec![holding(6), holding(5)],
            &holdings(&[5, 6]),
            batch(vec![])
        ),
        Err(PokerError::DepositTooLarge)
    );
    assert_eq!(a, before);
    assert_eq!(
        settle_with_holdings(&mut a, &vec![holding(5)], &holdings(&[5, 6]), batch(vec![sub(5, 1)])),
        Ok(vec![payout(holding(5), u64::MAX)])
    );
}

#[test]
fn adjustments_are_made_before_any_payout_is_looked_at() {
    let mut a = accounts(vec![seat(5, 100, 7)]);
    assert_eq!(
        settle_with_holdings(&mut a, &vec![holding(9)], &holdings(&[5]), batch(vec![sub(5, 101)])),
        Err(PokerError::DepositTooLarge)
    );
    assert_eq!(
        settle_with_holdings(&mut a, &vec![holding(9)], &holdings(&[5]), batch(vec![add(9, 1)])),
        Err(PokerError::NotAtTable)
    );
}

#[test]
fn settle_finds_the_holding_accounts_itself() {
    let leaving = get_associated_token_address(&key(6), &mint()).unwrap();
    let expected = anchor_spl::associated_token::get_associated_token_address(
        &anchor_lang::prelude::Pubkey::new_from_array([6; 32]),
        &anchor_lang::prelude::Pubkey::new_from_array(mint().to_bytes()),
    );
    assert_eq!(leaving.to_bytes(), expected.to_bytes());

    let mut a = accounts(vec![seat(5, 100, 7), seat(6, 50, 3), seat(7, 10, 1)]);
    assert_eq!(
        settle(&mut a, &vec![leaving], batch(vec![add(6, 5), sub(5, 5)])),
        Ok(vec![payout(leaving, 58)])
    );
    assert_eq!(a.game_account.players, vec![seat(5, 95, 7), seat(7, 10, 1)]);
}

#[test]
fn settle_does_not_pay_to_the_participant_s_own_address() {
    let mut a = accounts(vec![seat(5, 100, 7)]);
    let before = a.clone();
    assert_eq!(settle(&mut a, &vec![key(5)], batch(vec![])), Err(PokerError::NotAtTable));
    assert_eq!(a, before);
}

#[test]
fn settle_does_not_pay_to_the_holding_account_for_another_mint() {
    let other = get_associated_token_address(&key(5), &key(33)).unwrap();
    let mut a = accounts(vec![seat(5, 100, 7)]);
    assert_eq!(settle(&mut a, &vec![other], batch(vec![])), Err(PokerError::NotAtTable));
    assert_eq!(a.game_account.players, vec![seat(5, 100, 7)]);
}

#[test]
fn settle_pays_several_in_the_order_asked() {
    let five = get_associated_token_address(&key(5), &mint()).unwrap();
    let seven = get_associated_token_address(&key(7), &mint()).unwrap();
    let mut a = accounts(vec![seat(5, 100, 7), seat(6, 50, 3), seat(7, 10, 1)]);
    assert_eq!(
        settle(&mut a, &vec![seven, five], batch(vec![])),
        Ok(vec![payout(seven, 11), payout(five, 107)])
    );
    assert_eq!(a.game_account.players, vec![seat(6, 50, 3)]);
}
