//! Conservation: the custody pool always holds at least what the ledger owes
//! to the participants who are seated.
//!
//! The pool is not in the library's hands. What is stated here is that the
//! transfers which the operations ask for, once made, keep the pool and the
//! ledger in step.

use vstd::prelude::*;
use crate::membership::lemma_join_keeps_distinct;
use crate::pubkey::Pubkey;
use crate::settlement::{
    adjust, holding_accounts, lemma_adjust_committed, lemma_departure, net_adjustment, settlement,
    total,
};
use crate::state::{
    addresses, committed, lemma_committed_push, GameStatus, Ledger, SeatedPlayer, Settle,
};
use crate::topup::lemma_top_up_committed;

verus! {

/// A table and its custody pool, seen together.
pub struct Table {
    /// The address of the pool.
    pub pool: Pubkey,
    /// The pool's unit of account.
    pub mint: Pubkey,
    /// The address on whose word value leaves the pool.
    pub authority: Pubkey,
    /// How much the pool holds.
    pub held: nat,
    pub ledger: Ledger,
}

/// One call of an operation, with all that it is given.
pub enum Operation {
    Join { pool_owned: bool, player: Pubkey, amount: u64 },
    AddChips { pool_owned: bool, who: Pubkey, amount: u64 },
    SetStatus { caller: Pubkey, status: GameStatus },
    Settle { caller: Pubkey, settles: Seq<Settle>, recipients: Seq<Pubkey> },
    Close { caller: Pubkey },
}

impl Table {
    /// Whether the ledger is in order and the pool holds at least what the
    /// ledger owes.
    pub open spec fn sound(self) -> bool {
        &&& self.ledger.wf()
        &&& self.held >= committed(self.ledger.players)
    }

    /// What the pool holds beyond what the ledger owes: the rake.
    pub open spec fn rake(self) -> int {
        self.held - committed(self.ledger.players)
    }

    /// The table after one operation, the transfers that it asks for having
    /// been made. A refused operation changes nothing; nor does a settlement
    /// whose payouts the pool cannot cover, since the custody service then
    /// refuses a transfer.
    pub open spec fn step(self, op: Operation) -> Table {
        match op {
            Operation::Join { pool_owned, player, amount } => {
                match self.ledger.join_refusal(pool_owned, player, amount) {
                    None => Table {
                        held: self.held + amount as nat,
                        ledger: self.ledger.join(player, amount),
                        ..self
                    },
                    Some(_) => self,
                }
            },
            Operation::AddChips { pool_owned, who, amount } => {
                match self.ledger.add_chips(pool_owned, who, amount) {
                    Ok(ledger) => Table { held: self.held + amount as nat, ledger, ..self },
                    Err(_) => self,
                }
            },
            Operation::SetStatus { caller, status } => {
                if self.ledger.owner == caller {
                    Table { ledger: self.ledger.with_status(status), ..self }
                } else {
                    self
                }
            },
            Operation::Settle { caller, settles, recipients } => {
                match settlement(
                    self.ledger,
                    caller,
                    settles,
                    holding_accounts(self.ledger.players, self.mint),
                    recipients,
                    self.pool,
                    self.authority,
                ) {
                    Ok((players, paid)) => if total(paid) <= self.held {
                        Table {
                            held: (self.held - total(paid)) as nat,
                            ledger: self.ledger.with_players(players),
                            ..self
                        }
                    } else {
                        self
                    },
                    Err(_) => self,
                }
            },
            Operation::Close { caller } => {
                match self.ledger.close_refusal(caller) {
                    None => Table { held: 0, ..self },
                    Some(_) => self,
                }
            },
        }
    }

    /// Whether the pool can bear the operation: a settlement that is not
    /// refused must not add more to the balances, all in all, than the rake.
    /// Every other operation can be borne.
    pub open spec fn bears(self, op: Operation) -> bool {
        op matches Operation::Settle { caller, settles, recipients } ==> (settlement(
            self.ledger,
            caller,
            settles,
            holding_accounts(self.ledger.players, self.mint),
            recipients,
            self.pool,
            self.authority,
        ) is Ok ==> net_adjustment(settles) <= self.rake())
    }

    /// The table after the operations of `ops`, one after the other.
    pub open spec fn run(self, ops: Seq<Operation>) -> Table
        decreases ops.len(),
    {
        if ops.len() == 0 {
            self
        } else {
            self.step(ops.first()).run(ops.drop_first())
        }
    }

    /// Whether the pool can bear each operation of `ops` when its turn comes.
    pub open spec fn bears_all(self, ops: Seq<Operation>) -> bool
        decreases ops.len(),
    {
        ops.len() == 0 || (self.bears(ops.first()) && self.step(ops.first()).bears_all(
            ops.drop_first(),
        ))
    }
}

/// Conservation, for one operation. An operation that the pool can bear
/// leaves the ledger in order and the pool with at least what the ledger
/// owes. Deposits and payouts leave the rake as it was; a settlement takes
/// from the rake what it adds to the balances; closing leaves nothing.
pub proof fn lemma_step_conserves(table: Table, op: Operation)
    requires
        table.sound(),
        table.bears(op),
    ensures
        table.step(op).sound(),
        match op {
            Operation::Settle { caller, settles, recipients } => table.step(op) != table
                ==> table.step(op).rake() == table.rake() - net_adjustment(settles),
            Operation::Close { caller } => table.step(op) != table ==> table.step(op).held == 0
                && committed(table.step(op).ledger.players) == 0,
            _ => table.step(op).rake() == table.rake(),
        },
{
    let ledger = table.ledger;
    match op {
        Operation::Join { pool_owned, player, amount } => {
            if ledger.join_refusal(pool_owned, player, amount) is None {
                let seat = SeatedPlayer { address: player, balance: amount, add_on: 0 };
                lemma_join_keeps_distinct(ledger.players, seat);
                lemma_committed_push(ledger.players, seat);
            }
        },
        Operation::AddChips { pool_owned, who, amount } => {
            if let Ok(after) = ledger.add_chips(pool_owned, who, amount) {
                lemma_top_up_committed(ledger, pool_owned, who, amount);
                assert(addresses(after.players).len() == after.players.len());
                assert(addresses(ledger.players).len() == ledger.players.len());
            }
        },
        Operation::SetStatus { caller, status } => {},
        Operation::Settle { caller, settles, recipients } => {
            let holdings = holding_accounts(ledger.players, table.mint);
            if let Ok((players, paid)) = settlement(
                ledger,
                caller,
                settles,
                holdings,
                recipients,
                table.pool,
                table.authority,
            ) {
                let adjusted = adjust(ledger.players, settles)->Ok_0;
                lemma_adjust_committed(ledger.players, settles);
                assert(addresses(adjusted).len() == adjusted.len());
                assert(addresses(ledger.players).len() == ledger.players.len());
                lemma_departure(adjusted, holdings, recipients, table.pool, table.authority);
            }
        },
        Operation::Close { caller } => {
            if ledger.close_refusal(caller) is None {
                assert(ledger.players.len() == 0);
            }
        },
    }
}

/// Conservation. Whatever operations are made in whatever order, as long as
/// the pool can bear each, the ledger stays in order and the pool holds at
/// least what the ledger owes to those who are seated.
pub proof fn lemma_conservation(table: Table, ops: Seq<Operation>)
    requires
        table.sound(),
        table.bears_all(ops),
    ensures
        table.run(ops).sound(),
    decreases ops.len(),
{
    if ops.len() > 0 {
        lemma_step_conserves(table, ops.first());
        lemma_conservation(table.step(ops.first()), ops.drop_first());
    }
}

} // verus!
