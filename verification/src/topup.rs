//! Top-up: a seated participant brings more value to the table.

use vstd::prelude::*;
use crate::errors::PokerError;
use crate::pubkey::{find_pool_authority, pool_authority, Pubkey};
use crate::state::{
    addresses, committed, find_seat, lemma_committed_update, lemma_contains_has_first, seat_of,
    seated, AddChips, AddChipsData, GameStatus, Ledger, SeatedPlayer, Transfer,
};

verus! {

/// A seat after `amount` was added to it. While the game is active the
/// amount goes to the add-on, which is set aside until the participant is
/// paid out; otherwise it goes to the balance. `None` where the sum cannot
/// be counted.
pub open spec fn credited(seat: SeatedPlayer, status: GameStatus, amount: u64) -> Option<
    SeatedPlayer,
> {
    if status == GameStatus::Active {
        if seat.add_on + amount <= u64::MAX {
            Some(SeatedPlayer { add_on: (seat.add_on + amount) as u64, ..seat })
        } else {
            None
        }
    } else {
        if seat.balance + amount <= u64::MAX {
            Some(SeatedPlayer { balance: (seat.balance + amount) as u64, ..seat })
        } else {
            None
        }
    }
}

impl Ledger {
    /// The ledger after `amount` was added to the seat of `who`, or why it
    /// may not be added. The reasons are tried in this order: the participant
    /// has no seat; the pool is not owned by the ledger's authority; the
    /// amount is above the maximum for one deposit, or the seat cannot count
    /// it.
    pub open spec fn add_chips(self, pool_owned: bool, who: Pubkey, amount: u64) -> Result<
        Ledger,
        PokerError,
    > {
        if !seated(self.players, who) {
            Err(PokerError::NotAtTable)
        } else if !pool_owned {
            Err(PokerError::IncorrectTokenOwner)
        } else if amount > self.max_deposit {
            Err(PokerError::DepositTooLarge)
        } else {
            let i = seat_of(self.players, who);
            match credited(self.players[i], self.status, amount) {
                Some(seat) => Ok(self.with_players(self.players.update(i, seat))),
                None => Err(PokerError::DepositTooLarge),
            }
        }
    }
}

/// What a top-up comes to, where `authority` is the address, if there is
/// one, by which the ledger owns its pool: the ledger with the amount added
/// and the amount to move from the participant's account into the pool on
/// the participant's word; or why it may not be added.
pub open spec fn add_chips_outcome(
    accounts: AddChips,
    authority: Option<Pubkey>,
    data: AddChipsData,
) -> Result<(Ledger, Transfer), PokerError> {
    let pool_owned = authority == Some(accounts.game_token_account.owner);
    match accounts.game_account@.add_chips(pool_owned, accounts.owner, data.amount) {
        Ok(ledger) => Ok(
            (
                ledger,
                Transfer {
                    from: accounts.player_token_account.key,
                    to: accounts.game_token_account.key,
                    authority: accounts.owner,
                    amount: data.amount,
                },
            ),
        ),
        Err(e) => Err(e),
    }
}

/// Deposit bounds. Nobody adds more at once than the maximum for one
/// deposit: the attempt is refused, so that nothing is to be moved.
pub proof fn lemma_top_up_above_maximum_refused(
    accounts: AddChips,
    authority: Option<Pubkey>,
    data: AddChipsData,
)
    requires
        data.amount > accounts.game_account@.max_deposit,
    ensures
        add_chips_outcome(accounts, authority, data) is Err,
        seated(accounts.game_account@.players, accounts.owner) && authority == Some(
            accounts.game_token_account.owner,
        ) ==> add_chips_outcome(accounts, authority, data) == Err::<(Ledger, Transfer), _>(
            PokerError::DepositTooLarge,
        ),
{
}

/// A top-up raises what the ledger owes by just the amount added, and leaves
/// every other seat, and the place of every seat, as it was.
pub proof fn lemma_top_up_committed(ledger: Ledger, pool_owned: bool, who: Pubkey, amount: u64)
    ensures
        ledger.add_chips(pool_owned, who, amount) matches Ok(after) ==> {
            &&& committed(after.players) == committed(ledger.players) + amount
            &&& addresses(after.players) == addresses(ledger.players)
            &&& forall|j: int|
                0 <= j < ledger.players.len() && j != seat_of(ledger.players, who)
                    ==> after.players[j] == ledger.players[j]
        },
{
    if let Ok(after) = ledger.add_chips(pool_owned, who, amount) {
        lemma_contains_has_first(addresses(ledger.players), who);
        let i = seat_of(ledger.players, who);
        lemma_committed_update(ledger.players, i, after.players[i]);
        assert(addresses(after.players) =~= addresses(ledger.players));
    }
}

/// Adds to a seat at a table whose pool authority is known.
///
/// `authority` is the address derived from the ledger's own, or `None` where
/// there is none. On success the seat has the amount, and the amount is
/// returned for the custody service to move. A refused top-up changes
/// nothing, and nothing is to be moved.
pub fn add_chips_with_authority(
    authority: Option<Pubkey>,
    accounts: &mut AddChips,
    data: AddChipsData,
) -> (res: Result<Transfer, PokerError>)
    requires
        old(accounts).game_account@.wf(),
    ensures
        final(accounts).game_account@.wf(),
        match res {
            Ok(order) => {
                &&& add_chips_outcome(*old(accounts), authority, data) == Ok::<_, PokerError>(
                    (final(accounts).game_account@, order),
                )
                &&& final(accounts).game_key == old(accounts).game_key
                &&& final(accounts).game_token_account == old(accounts).game_token_account
                &&& final(accounts).player_token_account == old(accounts).player_token_account
                &&& final(accounts).owner == old(accounts).owner
            },
            Err(e) => {
                &&& add_chips_outcome(*old(accounts), authority, data) == Err::<
                    (Ledger, Transfer),
                    _,
                >(e)
                &&& *final(accounts) == *old(accounts)
            },
        },
{
    let i = match find_seat(&accounts.game_account.players, &accounts.owner) {
        Some(i) => i,
        None => {
            return Err(PokerError::NotAtTable);
        },
    };
    let pool_owned = match authority {
        Some(address) => address == accounts.game_token_account.owner,
        None => false,
    };
    if !pool_owned {
        return Err(PokerError::IncorrectTokenOwner);
    }
    if data.amount > accounts.game_account.max_deposit {
        return Err(PokerError::DepositTooLarge);
    }
    let seat = accounts.game_account.players[i];
    let active = accounts.game_account.status == GameStatus::Active;
    let sum = if active {
        seat.add_on.checked_add(data.amount)
    } else {
        seat.balance.checked_add(data.amount)
    };
    let sum = match sum {
        Some(sum) => sum,
        None => {
            return Err(PokerError::DepositTooLarge);
        },
    };
    let seat = if active {
        SeatedPlayer { address: seat.address, balance: seat.balance, add_on: sum }
    } else {
        SeatedPlayer { address: seat.address, balance: sum, add_on: seat.add_on }
    };
    let ghost before = accounts.game_account.players@;
    accounts.game_account.players.set(i, seat);
    assert(addresses(accounts.game_account.players@) =~= addresses(before));
    Ok(
        Transfer {
            from: accounts.player_token_account.key,
            to: accounts.game_token_account.key,
            authority: accounts.owner,
            amount: data.amount,
        },
    )
}

/// Adds to the seat of a participant.
///
/// The pool must be owned by the address derived from the ledger's own
/// address under `program_id`. On success the seat has the amount, in its
/// add-on while the game is active and in its balance otherwise, and the
/// amount is returned for the custody service to move. A refused top-up
/// changes nothing, and nothing is to be moved.
pub fn add_chips(program_id: &Pubkey, accounts: &mut AddChips, data: AddChipsData) -> (res: Result<
    Transfer,
    PokerError,
>)
    requires
        old(accounts).game_account@.wf(),
    ensures
        final(accounts).game_account@.wf(),
        match res {
            Ok(order) => {
                &&& add_chips_outcome(
                    *old(accounts),
                    pool_authority(old(accounts).game_key, *program_id),
                    data,
                ) == Ok::<_, PokerError>((final(accounts).game_account@, order))
                &&& final(accounts).game_key == old(accounts).game_key
                &&& final(accounts).game_token_account == old(accounts).game_token_account
                &&& final(accounts).player_token_account == old(accounts).player_token_account
                &&& final(accounts).owner == old(accounts).owner
            },
            Err(e) => {
                &&& add_chips_outcome(
                    *old(accounts),
                    pool_authority(old(accounts).game_key, *program_id),
                    data,
                ) == Err::<(Ledger, Transfer), _>(e)
                &&& *final(accounts) == *old(accounts)
            },
        },
{
    let authority = find_pool_authority(&accounts.game_key, program_id);
    add_chips_with_authority(authority, accounts, data)
}

} // verus!
