//! The reasons for which an operation on a game ledger is refused.

use vstd::prelude::*;

verus! {

/// Why an operation was refused. Each variant belongs to one precondition of
/// one or more operations; a refused operation leaves the ledger untouched.
#[derive(Clone, Copy, Debug, PartialEq, Eq, Structural)]
pub enum PokerError {
    /// The custody pool is not owned by the address derived from the ledger.
    IncorrectTokenOwner,
    /// The custody pool handed to a new ledger already holds value.
    InitialTokenAccountBalanceNonZero,
    /// Every seat of the table is taken.
    GameFull,
    /// The deposit is below the table's minimum.
    DepositTooSmall,
    /// The deposit is above the table's maximum, or a balance would leave the
    /// range of its integer type.
    DepositTooLarge,
    /// The participant already has a seat.
    AlreadyAtTable,
    /// The caller is not the owner of the ledger.
    NotGameOwner,
    /// The participant has no seat.
    NotAtTable,
    /// Settlement was asked of a table that is not active.
    GameNotActive,
    /// The table cannot be closed while someone is seated.
    PlayersStillAtTable,
}

} // verus!
