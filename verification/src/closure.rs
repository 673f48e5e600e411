//! Closure: the owner of an empty table takes what is left in the pool and
//! gives up the table.

use vstd::prelude::*;
use crate::errors::PokerError;
use crate::pubkey::Pubkey;
use crate::state::{CloseGame, Ledger, Transfer};

verus! {

impl Ledger {
    /// Why `caller` may not close the table, if anything stands against it:
    /// the caller is not the owner, or somebody is seated.
    pub open spec fn close_refusal(self, caller: Pubkey) -> Option<PokerError> {
        if self.owner != caller {
            Some(PokerError::NotGameOwner)
        } else if self.players.len() > 0 {
            Some(PokerError::PlayersStillAtTable)
        } else {
            None
        }
    }
}

/// What closing a table comes to: the transfer that sweeps the pool, if the
/// pool holds anything, after which the custody service may destroy the pool
/// and the record; or why the table may not be closed. Only the owner may
/// close (`NotGameOwner`), and only a table at which nobody is seated
/// (`PlayersStillAtTable`). All that the pool holds goes to the payer's
/// account, on the word of the pool's authority.
pub open spec fn close_outcome(accounts: CloseGame) -> Result<Option<Transfer>, PokerError> {
    match accounts.game_account@.close_refusal(accounts.payer) {
        Some(e) => Err(e),
        None => Ok(
            if accounts.game_token_account.amount > 0 {
                Some(
                    Transfer {
                        from: accounts.game_token_account.key,
                        to: accounts.payer_token_account.key,
                        authority: accounts.pda_account,
                        amount: accounts.game_token_account.amount,
                    },
                )
            } else {
                None
            },
        ),
    }
}

/// How much a sweep moves.
pub open spec fn swept(sweep: Option<Transfer>) -> nat {
    match sweep {
        Some(order) => order.amount as nat,
        None => 0,
    }
}

/// A table at which somebody is seated cannot be closed: the attempt is
/// refused, and with `PlayersStillAtTable` where the owner makes it. The
/// owner of a table at which nobody is seated can always close it, and then
/// all that the pool holds is swept.
pub proof fn lemma_close_guard(accounts: CloseGame)
    ensures
        accounts.game_account.players@.len() >= 1 ==> close_outcome(accounts) is Err,
        accounts.game_account.players@.len() >= 1 && accounts.game_account.owner == accounts.payer
            ==> close_outcome(accounts) == Err::<Option<Transfer>, _>(
            PokerError::PlayersStillAtTable,
        ),
        accounts.game_account.players@.len() == 0 && accounts.game_account.owner == accounts.payer
            ==> close_outcome(accounts) is Ok && swept(close_outcome(accounts)->Ok_0)
            == accounts.game_token_account.amount,
{
}

/// Closes a table.
///
/// On success the custody service is to make the returned transfer, if there
/// is one, and then to destroy the pool and the ledger's record, both in
/// favour of the payer. A refusal asks for nothing.
pub fn close_game(accounts: &CloseGame) -> (res: Result<Option<Transfer>, PokerError>)
    ensures
        res == close_outcome(*accounts),
{
    if !(accounts.game_account.owner == accounts.payer) {
        return Err(PokerError::NotGameOwner);
    }
    if accounts.game_account.players.len() > 0 {
        return Err(PokerError::PlayersStillAtTable);
    }
    if accounts.game_token_account.amount > 0 {
        Ok(
            Some(
                Transfer {
                    from: accounts.game_token_account.key,
                    to: accounts.payer_token_account.key,
                    authority: accounts.pda_account,
                    amount: accounts.game_token_account.amount,
                },
            ),
        )
    } else {
        Ok(None)
    }
}

} // verus!
