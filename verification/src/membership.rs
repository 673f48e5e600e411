//! Admission: a participant takes a seat with a first deposit.

use vstd::prelude::*;
use crate::errors::PokerError;
use crate::pubkey::{find_pool_authority, pool_authority, Pubkey};
use crate::state::{
    addresses, distinct_addresses, find_seat, seated, JoinGame, JoinGameArgs, Ledger,
    SeatedPlayer, Transfer,
};

verus! {

impl Ledger {
    /// The ledger after `player` has taken a seat with `amount`.
    pub open spec fn join(self, player: Pubkey, amount: u64) -> Ledger {
        self.with_players(
            self.players.push(SeatedPlayer { address: player, balance: amount, add_on: 0 }),
        )
    }

    /// Why `player` may not join with `amount`, if anything stands against
    /// it. The reasons are tried in this order: the pool is not owned by the
    /// ledger's authority; the table is full; the deposit is below the
    /// minimum; it is above the maximum; the participant is seated already.
    pub open spec fn join_refusal(self, pool_owned: bool, player: Pubkey, amount: u64) -> Option<
        PokerError,
    > {
        if !pool_owned {
            Some(PokerError::IncorrectTokenOwner)
        } else if self.full() {
            Some(PokerError::GameFull)
        } else if amount < self.min_deposit {
            Some(PokerError::DepositTooSmall)
        } else if amount > self.max_deposit {
            Some(PokerError::DepositTooLarge)
        } else if seated(self.players, player) {
            Some(PokerError::AlreadyAtTable)
        } else {
            None
        }
    }
}

/// What joining comes to, where `authority` is the address, if there is one,
/// by which the ledger owns its pool: the ledger with the new seat and the
/// deposit to move from the participant's account into the pool on the
/// participant's word; or why the participant may not join.
pub open spec fn join_outcome(accounts: JoinGame, authority: Option<Pubkey>, data: JoinGameArgs) -> Result<
    (Ledger, Transfer),
    PokerError,
> {
    let ledger = accounts.game_account@;
    let pool_owned = authority == Some(accounts.game_token_account.owner);
    match ledger.join_refusal(pool_owned, accounts.player, data.amount) {
        Some(e) => Err(e),
        None => Ok(
            (
                ledger.join(accounts.player, data.amount),
                Transfer {
                    from: accounts.player_token_account.key,
                    to: accounts.game_token_account.key,
                    authority: accounts.player,
                    amount: data.amount,
                },
            ),
        ),
    }
}

/// A newcomer's seat leaves the participants distinct.
pub proof fn lemma_join_keeps_distinct(players: Seq<SeatedPlayer>, p: SeatedPlayer)
    requires
        distinct_addresses(players),
        !seated(players, p.address),
    ensures
        distinct_addresses(players.push(p)),
        addresses(players.push(p)) == addresses(players).push(p.address),
{
    let before = addresses(players);
    let after = addresses(players.push(p));
    assert(after =~= before.push(p.address));
    assert forall|a: int, b: int| 0 <= a < after.len() && 0 <= b < after.len() && a != b implies after[a]
        != after[b] by {
        if a < before.len() {
            assert(before[a] == after[a]);
            assert(before.contains(after[a]));
        }
        if b < before.len() {
            assert(before[b] == after[b]);
            assert(before.contains(after[b]));
        }
    }
}

/// Capacity. Nobody joins a table of which every seat is taken: the attempt
/// is refused, and with `GameFull` where the pool is owned as it must be.
pub proof fn lemma_full_table_admits_nobody(
    accounts: JoinGame,
    authority: Option<Pubkey>,
    data: JoinGameArgs,
)
    requires
        accounts.game_account@.players.len() == accounts.game_account@.max_players,
    ensures
        join_outcome(accounts, authority, data) is Err,
        authority == Some(accounts.game_token_account.owner) ==> join_outcome(
            accounts,
            authority,
            data,
        ) == Err::<(Ledger, Transfer), _>(PokerError::GameFull),
{
}

/// Deposit bounds. Nobody joins with less than the minimum or more than the
/// maximum: the attempt is refused, so that nothing is to be moved.
pub proof fn lemma_deposit_out_of_bounds_refused(
    accounts: JoinGame,
    authority: Option<Pubkey>,
    data: JoinGameArgs,
)
    requires
        data.amount < accounts.game_account@.min_deposit || data.amount
            > accounts.game_account@.max_deposit,
    ensures
        join_outcome(accounts, authority, data) is Err,
        authority == Some(accounts.game_token_account.owner) && !accounts.game_account@.full()
            ==> join_outcome(accounts, authority, data) == Err::<(Ledger, Transfer), _>(
            if data.amount < accounts.game_account@.min_deposit {
                PokerError::DepositTooSmall
            } else {
                PokerError::DepositTooLarge
            },
        ),
{
}

/// Identity. Whoever is seated cannot join again: the attempt is refused, and
/// with `AlreadyAtTable` where nothing else stands against it.
pub proof fn lemma_seated_cannot_join(
    accounts: JoinGame,
    authority: Option<Pubkey>,
    data: JoinGameArgs,
)
    requires
        seated(accounts.game_account@.players, accounts.player),
    ensures
        join_outcome(accounts, authority, data) is Err,
        ({
            let ledger = accounts.game_account@;
            &&& authority == Some(accounts.game_token_account.owner)
            &&& !ledger.full()
            &&& ledger.min_deposit <= data.amount <= ledger.max_deposit
        }) ==> join_outcome(accounts, authority, data) == Err::<(Ledger, Transfer), _>(
            PokerError::AlreadyAtTable,
        ),
{
}

/// Identity. Whoever has joined is seated, once, and cannot join a second
/// time, whatever the deposit.
pub proof fn lemma_second_join_refused(
    ledger: Ledger,
    player: Pubkey,
    first: u64,
    pool_owned: bool,
    second: u64,
)
    requires
        ledger.wf(),
        ledger.join_refusal(true, player, first) is None,
    ensures
        ledger.join(player, first).wf(),
        seated(ledger.join(player, first).players, player),
        ledger.join(player, first).join_refusal(pool_owned, player, second) is Some,
{
    let seat = SeatedPlayer { address: player, balance: first, add_on: 0 };
    lemma_join_keeps_distinct(ledger.players, seat);
    let after = addresses(ledger.players.push(seat));
    assert(after[ledger.players.len() as int] == player);
}

/// Seats a participant at a table whose pool authority is known.
///
/// `authority` is the address derived from the ledger's own, or `None` where
/// there is none. On success the ledger has the new seat, and the deposit is
/// returned for the custody service to move. A refused participant changes
/// nothing, and nothing is to be moved.
pub fn join_game_with_authority(
    authority: Option<Pubkey>,
    accounts: &mut JoinGame,
    data: JoinGameArgs,
) -> (res: Result<Transfer, PokerError>)
    requires
        old(accounts).game_account@.wf(),
    ensures
        final(accounts).game_account@.wf(),
        match res {
            Ok(order) => {
                &&& join_outcome(*old(accounts), authority, data) == Ok::<_, PokerError>(
                    (final(accounts).game_account@, order),
                )
                &&& final(accounts).game_key == old(accounts).game_key
                &&& final(accounts).game_token_account == old(accounts).game_token_account
                &&& final(accounts).player_token_account == old(accounts).player_token_account
                &&& final(accounts).player == old(accounts).player
            },
            Err(e) => {
                &&& join_outcome(*old(accounts), authority, data) == Err::<(Ledger, Transfer), _>(e)
                &&& *final(accounts) == *old(accounts)
            },
        },
{
    let pool_owned = match authority {
        Some(address) => address == accounts.game_token_account.owner,
        None => false,
    };
    if !pool_owned {
        return Err(PokerError::IncorrectTokenOwner);
    }
    if accounts.game_account.players.len() >= accounts.game_account.max_players as usize {
        return Err(PokerError::GameFull);
    }
    if data.amount < accounts.game_account.min_deposit {
        return Err(PokerError::DepositTooSmall);
    }
    if data.amount > accounts.game_account.max_deposit {
        return Err(PokerError::DepositTooLarge);
    }
    if find_seat(&accounts.game_account.players, &accounts.player).is_some() {
        return Err(PokerError::AlreadyAtTable);
    }
    let seat = SeatedPlayer { address: accounts.player, balance: data.amount, add_on: 0 };
    proof {
        lemma_join_keeps_distinct(accounts.game_account.players@, seat);
    }
    accounts.game_account.players.push(seat);
    Ok(
        Transfer {
            from: accounts.player_token_account.key,
            to: accounts.game_token_account.key,
            authority: accounts.player,
            amount: data.amount,
        },
    )
}

/// Seats a participant with a first deposit.
///
/// The pool must be owned by the address derived from the ledger's own
/// address under `program_id`. On success the ledger has the new seat, with
/// the deposit as its balance, and the deposit is returned for the custody
/// service to move. A refused participant changes nothing, and nothing is to
/// be moved.
pub fn join_game(program_id: &Pubkey, accounts: &mut JoinGame, data: JoinGameArgs) -> (res: Result<
    Transfer,
    PokerError,
>)
    requires
        old(accounts).game_account@.wf(),
    ensures
        final(accounts).game_account@.wf(),
        match res {
            Ok(order) => {
                &&& join_outcome(
                    *old(accounts),
                    pool_authority(old(accounts).game_key, *program_id),
                    data,
                ) == Ok::<_, PokerError>((final(accounts).game_account@, order))
                &&& final(accounts).game_key == old(accounts).game_key
                &&& final(accounts).game_token_account == old(accounts).game_token_account
                &&& final(accounts).player_token_account == old(accounts).player_token_account
                &&& final(accounts).player == old(accounts).player
            },
            Err(e) => {
                &&& join_outcome(
                    *old(accounts),
                    pool_authority(old(accounts).game_key, *program_id),
                    data,
                ) == Err::<(Ledger, Transfer), _>(e)
                &&& *final(accounts) == *old(accounts)
            },
        },
{
    let authority = find_pool_authority(&accounts.game_key, program_id);
    join_game_with_authority(authority, accounts, data)
}

} // verus!
