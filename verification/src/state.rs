//! The game ledger, the accounts that an operation is given, and the values
//! that it takes and returns.

use vstd::prelude::*;
use crate::pubkey::Pubkey;

verus! {

/// Whether a game is being played at the table.
#[derive(Clone, Copy, Debug, PartialEq, Eq, Structural)]
pub enum GameStatus {
    Active,
    Inactive,
}

/// One participant's seat: who sits there and what the ledger owes them.
#[derive(Clone, Copy, Debug, Default, PartialEq, Eq)]
pub struct SeatedPlayer {
    /// The participant. No two seats of a ledger have the same address.
    pub address: Pubkey,
    /// The running balance, which settlement adjusts.
    pub balance: u64,
    /// What the participant added while the game was active. It is set aside
    /// until the participant is paid out.
    pub add_on: u64,
}

/// The persistent record of one table.
#[derive(Clone, Debug, PartialEq, Eq)]
pub struct GameAccount {
    /// Who may change the status, settle and close.
    pub owner: Pubkey,
    /// How many seats the table has.
    pub max_players: u16,
    /// The least amount with which a participant may join.
    pub min_deposit: u64,
    /// The greatest amount that a participant may bring in at once.
    pub max_deposit: u64,
    /// The seats that are taken.
    pub players: Vec<SeatedPlayer>,
    pub status: GameStatus,
}

/// A ledger as a mathematical value: `GameAccount` with a sequence of seats.
pub struct Ledger {
    pub owner: Pubkey,
    pub max_players: u16,
    pub min_deposit: u64,
    pub max_deposit: u64,
    pub players: Seq<SeatedPlayer>,
    pub status: GameStatus,
}

impl View for GameAccount {
    type V = Ledger;

    open spec fn view(&self) -> Ledger {
        Ledger {
            owner: self.owner,
            max_players: self.max_players,
            min_deposit: self.min_deposit,
            max_deposit: self.max_deposit,
            players: self.players@,
            status: self.status,
        }
    }
}

/// What the ledger owes to the participant of one seat.
pub open spec fn stake(p: SeatedPlayer) -> nat {
    (p.balance + p.add_on) as nat
}

/// What the ledger owes to all the given seats together.
pub open spec fn committed(players: Seq<SeatedPlayer>) -> nat
    decreases players.len(),
{
    if players.len() == 0 {
        0
    } else {
        committed(players.drop_last()) + stake(players.last())
    }
}

/// Whether `i` is the first place of `s` that holds `x`.
pub open spec fn is_first<A>(s: Seq<A>, x: A, i: int) -> bool {
    &&& 0 <= i < s.len()
    &&& s[i] == x
    &&& forall|j: int| 0 <= j < i ==> s[j] != x
}

/// The first place of `s` that holds `x`. It means nothing where `s` does not
/// hold `x`.
pub open spec fn first_index<A>(s: Seq<A>, x: A) -> int {
    choose|i: int| is_first(s, x, i)
}

/// The participants of the given seats, in the order of the seats.
pub open spec fn addresses(players: Seq<SeatedPlayer>) -> Seq<Pubkey> {
    Seq::new(players.len(), |i: int| players[i].address)
}

/// Whether `who` has one of the given seats.
pub open spec fn seated(players: Seq<SeatedPlayer>, who: Pubkey) -> bool {
    addresses(players).contains(who)
}

/// The first of the given seats that `who` has. It means nothing where `who`
/// is not seated.
pub open spec fn seat_of(players: Seq<SeatedPlayer>, who: Pubkey) -> int {
    first_index(addresses(players), who)
}

/// Whether no two of the given seats belong to the same participant.
pub open spec fn distinct_addresses(players: Seq<SeatedPlayer>) -> bool {
    addresses(players).no_duplicates()
}

impl Ledger {
    /// The invariant of a ledger: no more seats are taken than the table has,
    /// and nobody has two.
    pub open spec fn wf(self) -> bool {
        &&& self.players.len() <= self.max_players
        &&& distinct_addresses(self.players)
    }

    /// Whether every seat of the table is taken.
    pub open spec fn full(self) -> bool {
        self.players.len() >= self.max_players
    }

    /// The same ledger with other seats.
    pub open spec fn with_players(self, players: Seq<SeatedPlayer>) -> Ledger {
        Ledger { players, ..self }
    }

    /// The same ledger with another status.
    pub open spec fn with_status(self, status: GameStatus) -> Ledger {
        Ledger { status, ..self }
    }
}

/// A first place of `x` is the one that `first_index` names.
pub proof fn lemma_first_index<A>(s: Seq<A>, x: A, i: int)
    requires
        is_first(s, x, i),
    ensures
        s.contains(x),
        first_index(s, x) == i,
{
    let k = first_index(s, x);
    assert(is_first(s, x, k));
}

/// What occurs in a sequence has a first place there.
pub proof fn lemma_contains_has_first<A>(s: Seq<A>, x: A)
    requires
        s.contains(x),
    ensures
        is_first(s, x, first_index(s, x)),
    decreases s.len(),
{
    let w = choose|i: int| 0 <= i < s.len() && s[i] == x;
    let front = s.take(w);
    if front.contains(x) {
        lemma_contains_has_first(front, x);
        let k = first_index(front, x);
        assert(front[k] == s[k]);
        assert forall|j: int| 0 <= j < k implies s[j] != x by {
            assert(front[j] == s[j]);
        }
        assert(is_first(s, x, k));
    } else {
        assert forall|j: int| 0 <= j < w implies s[j] != x by {
            assert(front[j] == s[j]);
        }
        assert(is_first(s, x, w));
    }
}

/// Taking a seat adds its stake to what the ledger owes.
pub proof fn lemma_committed_push(players: Seq<SeatedPlayer>, p: SeatedPlayer)
    ensures
        committed(players.push(p)) == committed(players) + stake(p),
{
    assert(players.push(p).drop_last() =~= players);
}

/// Changing one seat changes what the ledger owes by the difference of the
/// two stakes.
pub proof fn lemma_committed_update(players: Seq<SeatedPlayer>, i: int, p: SeatedPlayer)
    requires
        0 <= i < players.len(),
    ensures
        committed(players.update(i, p)) == committed(players) - stake(players[i]) + stake(p),
    decreases players.len(),
{
    let after = players.update(i, p);
    if i == players.len() - 1 {
        assert(after.drop_last() =~= players.drop_last());
    } else {
        assert(after.drop_last() =~= players.drop_last().update(i, p));
        lemma_committed_update(players.drop_last(), i, p);
    }
}

/// Vacating one seat takes its stake off what the ledger owes.
pub proof fn lemma_committed_remove(players: Seq<SeatedPlayer>, i: int)
    requires
        0 <= i < players.len(),
    ensures
        committed(players.remove(i)) == committed(players) - stake(players[i]),
    decreases players.len(),
{
    let after = players.remove(i);
    if i == players.len() - 1 {
        assert(after =~= players.drop_last());
    } else {
        assert(after.drop_last() =~= players.drop_last().remove(i));
        assert(after.last() == players.last());
        lemma_committed_remove(players.drop_last(), i);
    }
}

/// The seat of `who` among `players`, if `who` has one.
pub fn find_seat(players: &Vec<SeatedPlayer>, who: &Pubkey) -> (r: Option<usize>)
    ensures
        match r {
            Some(i) => seated(players@, *who) && seat_of(players@, *who) == i && i < players.len(),
            None => !seated(players@, *who),
        },
{
    let ghost seats = addresses(players@);
    let mut i: usize = 0;
    while i < players.len()
        invariant
            i <= players.len(),
            seats == addresses(players@),
            forall|j: int| 0 <= j < i ==> seats[j] != *who,
        decreases players.len() - i,
    {
        if players[i].address == *who {
            proof {
                assert(seats[i as int] == *who);
                lemma_first_index(seats, *who, i as int);
            }
            return Some(i);
        }
        i += 1;
    }
    None
}

impl GameAccount {
    /// Whether the record keeps the invariant of a ledger. Every operation
    /// keeps it; a record that comes from elsewhere is to be tested before it
    /// is handed to one.
    pub fn well_formed(&self) -> (r: bool)
        ensures
            r == self@.wf(),
    {
        if self.players.len() > self.max_players as usize {
            return false;
        }
        let ghost seats = addresses(self.players@);
        let mut i: usize = 0;
        while i < self.players.len()
            invariant
                i <= self.players.len(),
                seats == addresses(self.players@),
                forall|a: int, b: int| 0 <= a < b < i ==> seats[a] != seats[b],
            decreases self.players.len() - i,
        {
            let mut j: usize = 0;
            while j < i
                invariant
                    j <= i,
                    i < self.players.len(),
                    seats == addresses(self.players@),
                    forall|b: int| 0 <= b < j ==> seats[b] != seats[i as int],
                decreases i - j,
            {
                if self.players[j].address == self.players[i].address {
                    assert(seats[j as int] == seats[i as int]);
                    return false;
                }
                j += 1;
            }
            i += 1;
        }
        true
    }
}

/// The account in which a holder keeps units of one mint, as far as the
/// ledger reads it.
#[derive(Clone, Copy, Debug, PartialEq, Eq)]
pub struct TokenAccount {
    /// The account's own address.
    pub key: Pubkey,
    /// The unit of account.
    pub mint: Pubkey,
    /// Who may move value out of the account.
    pub owner: Pubkey,
    /// How many units it holds.
    pub amount: u64,
}

/// An order to the custody service: move `amount` units from the account
/// `from` to the account `to`, on the word of `authority`.
#[derive(Clone, Copy, Debug, PartialEq, Eq)]
pub struct Transfer {
    pub from: Pubkey,
    pub to: Pubkey,
    pub authority: Pubkey,
    pub amount: u64,
}

/// What `create_cash_game` is told of the new table.
#[derive(Clone, Copy, Debug, Default, PartialEq, Eq)]
pub struct CreateGameData {
    pub max_players: u16,
    pub min_deposit: u64,
    pub max_deposit: u64,
}

/// What `join_game` is told: the deposit.
#[derive(Clone, Copy, Debug, Default, PartialEq, Eq)]
pub struct JoinGameArgs {
    pub amount: u64,
}

/// What `set_game_status` is told: the status to set.
#[derive(Clone, Copy, Debug, PartialEq, Eq)]
pub struct GameStatusData {
    pub status: GameStatus,
}

/// What `add_chips` is told: the amount to add.
#[derive(Clone, Copy, Debug, PartialEq, Eq)]
pub struct AddChipsData {
    pub amount: u64,
}

/// One adjustment of a balance: so much more, or so much less.
#[derive(Clone, Copy, Debug, PartialEq, Eq)]
pub enum SettleOp {
    Add(u64),
    Sub(u64),
}

/// An adjustment and the participant whose balance it changes.
#[derive(Clone, Copy, Debug, PartialEq, Eq)]
pub struct Settle {
    pub addr: Pubkey,
    pub op: SettleOp,
}

/// What `settle` is told: the adjustments, in the order in which they apply.
#[derive(Clone, Debug, PartialEq, Eq)]
pub struct SettleParams {
    pub settles: Vec<Settle>,
}

/// The accounts of `create_cash_game`.
#[derive(Clone, Debug, PartialEq, Eq)]
pub struct CreateGameParams {
    /// The address of the ledger.
    pub game_key: Pubkey,
    /// The record to fill in.
    pub game_account: GameAccount,
    /// The custody pool that goes with the ledger.
    pub token_account: TokenAccount,
    /// Who creates the table and pays for its record.
    pub payer: Pubkey,
}

/// The accounts of `join_game`.
#[derive(Clone, Debug, PartialEq, Eq)]
pub struct JoinGame {
    /// The address of the ledger.
    pub game_key: Pubkey,
    pub game_account: GameAccount,
    /// The custody pool.
    pub game_token_account: TokenAccount,
    /// The account out of which the participant pays.
    pub player_token_account: TokenAccount,
    /// The participant who joins.
    pub player: Pubkey,
}

/// The accounts of `set_game_status`.
#[derive(Clone, Debug, PartialEq, Eq)]
pub struct SetGameStatus {
    pub game_account: GameAccount,
    /// The caller.
    pub payer: Pubkey,
}

/// The accounts of `add_chips`.
#[derive(Clone, Debug, PartialEq, Eq)]
pub struct AddChips {
    /// The address of the ledger.
    pub game_key: Pubkey,
    pub game_account: GameAccount,
    /// The custody pool.
    pub game_token_account: TokenAccount,
    /// The account out of which the participant pays.
    pub player_token_account: TokenAccount,
    /// The participant who adds to their seat.
    pub owner: Pubkey,
}

/// The accounts of `settle`, but for the accounts to pay out to.
#[derive(Clone, Debug, PartialEq, Eq)]
pub struct SettleAccounts {
    pub game_account: GameAccount,
    /// The custody pool.
    pub token_account: TokenAccount,
    /// The caller.
    pub payer: Pubkey,
    /// The address on whose word value leaves the pool.
    pub pda_account: Pubkey,
}

/// The accounts of `close_game`.
#[derive(Clone, Debug, PartialEq, Eq)]
pub struct CloseGame {
    pub game_account: GameAccount,
    /// The custody pool.
    pub game_token_account: TokenAccount,
    /// The account to which what is left in the pool goes.
    pub payer_token_account: TokenAccount,
    /// The address on whose word value leaves the pool.
    pub pda_account: Pubkey,
    /// The caller.
    pub payer: Pubkey,
}

} // verus!
