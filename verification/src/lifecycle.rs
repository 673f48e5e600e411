//! Lifecycle: a table is created, and its owner opens and pauses the game.

use vstd::prelude::*;
use crate::errors::PokerError;
use crate::pubkey::{find_pool_authority, pool_authority, Pubkey};
use crate::state::{
    CreateGameData, CreateGameParams, GameAccount, GameStatus, GameStatusData, Ledger,
    SeatedPlayer, SetGameStatus,
};

verus! {

/// What creating a table comes to, where `authority` is the address, if
/// there is one, by which the ledger is to own its pool: the new ledger,
/// which belongs to the payer, is inactive and has no seat taken; or why it
/// may not be created. The pool must be owned by the authority
/// (`IncorrectTokenOwner`) and hold nothing
/// (`InitialTokenAccountBalanceNonZero`).
pub open spec fn create_outcome(
    accounts: CreateGameParams,
    authority: Option<Pubkey>,
    data: CreateGameData,
) -> Result<Ledger, PokerError> {
    if authority != Some(accounts.token_account.owner) {
        Err(PokerError::IncorrectTokenOwner)
    } else if accounts.token_account.amount != 0 {
        Err(PokerError::InitialTokenAccountBalanceNonZero)
    } else {
        Ok(
            Ledger {
                owner: accounts.payer,
                max_players: data.max_players,
                min_deposit: data.min_deposit,
                max_deposit: data.max_deposit,
                players: Seq::empty(),
                status: GameStatus::Inactive,
            },
        )
    }
}

/// Creates a table whose pool authority is known.
///
/// `authority` is the address derived from the ledger's own, or `None` where
/// there is none. On success the record is the new ledger. A refused
/// creation leaves the record as it was.
pub fn create_cash_game_with_authority(
    authority: Option<Pubkey>,
    accounts: &mut CreateGameParams,
    data: CreateGameData,
) -> (res: Result<(), PokerError>)
    ensures
        match res {
            Ok(()) => {
                &&& create_outcome(*old(accounts), authority, data) == Ok::<_, PokerError>(
                    final(accounts).game_account@,
                )
                &&& final(accounts).game_account@.wf()
                &&& final(accounts).game_key == old(accounts).game_key
                &&& final(accounts).token_account == old(accounts).token_account
                &&& final(accounts).payer == old(accounts).payer
            },
            Err(e) => {
                &&& create_outcome(*old(accounts), authority, data) == Err::<Ledger, _>(e)
                &&& *final(accounts) == *old(accounts)
            },
        },
{
    let pool_owned = match authority {
        Some(address) => address == accounts.token_account.owner,
        None => false,
    };
    if !pool_owned {
        return Err(PokerError::IncorrectTokenOwner);
    }
    if accounts.token_account.amount != 0 {
        return Err(PokerError::InitialTokenAccountBalanceNonZero);
    }
    let players: Vec<SeatedPlayer> = Vec::with_capacity(data.max_players as usize);
    accounts.game_account = GameAccount {
        owner: accounts.payer,
        max_players: data.max_players,
        min_deposit: data.min_deposit,
        max_deposit: data.max_deposit,
        players,
        status: GameStatus::Inactive,
    };
    Ok(())
}

/// Creates a table.
///
/// The pool that goes with it must be owned by the address derived from the
/// ledger's own address under `program_id`, and hold nothing. On success the
/// record is the new ledger: it belongs to the payer, is inactive and has no
/// seat taken. A refused creation leaves the record as it was.
pub fn create_cash_game(program_id: &Pubkey, accounts: &mut CreateGameParams, data: CreateGameData) -> (res:
    Result<(), PokerError>)
    ensures
        match res {
            Ok(()) => {
                &&& create_outcome(
                    *old(accounts),
                    pool_authority(old(accounts).game_key, *program_id),
                    data,
                ) == Ok::<_, PokerError>(final(accounts).game_account@)
                &&& final(accounts).game_account@.wf()
                &&& final(accounts).game_key == old(accounts).game_key
                &&& final(accounts).token_account == old(accounts).token_account
                &&& final(accounts).payer == old(accounts).payer
            },
            Err(e) => {
                &&& create_outcome(
                    *old(accounts),
                    pool_authority(old(accounts).game_key, *program_id),
                    data,
                ) == Err::<Ledger, _>(e)
                &&& *final(accounts) == *old(accounts)
            },
        },
{
    let authority = find_pool_authority(&accounts.game_key, program_id);
    create_cash_game_with_authority(authority, accounts, data)
}

/// Sets the status of a table. Only its owner may; anyone else is refused
/// with `NotGameOwner`, and the ledger stays as it was. The owner may set any
/// status at any time.
pub fn set_game_status(accounts: &mut SetGameStatus, data: GameStatusData) -> (res: Result<
    (),
    PokerError,
>)
    ensures
        final(accounts).payer == old(accounts).payer,
        old(accounts).game_account@.wf() ==> final(accounts).game_account@.wf(),
        match res {
            Ok(()) => {
                &&& old(accounts).game_account.owner == old(accounts).payer
                &&& final(accounts).game_account@ == old(accounts).game_account@.with_status(
                    data.status,
                )
            },
            Err(e) => {
                &&& e == PokerError::NotGameOwner
                &&& old(accounts).game_account.owner != old(accounts).payer
                &&& *final(accounts) == *old(accounts)
            },
        },
{
    if !(accounts.game_account.owner == accounts.payer) {
        return Err(PokerError::NotGameOwner);
    }
    accounts.game_account.status = data.status;
    Ok(())
}

} // verus!
