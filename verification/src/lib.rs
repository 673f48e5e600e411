//! Escrowed ledger for a recurring cash game.
//!
//! Participants deposit into a pooled custody account, their balances are
//! adjusted by the table's owner while the game runs, and those who leave are
//! paid out of the pool. The functions here decide every operation on the
//! ledger record and say which transfers the custody service has to carry out;
//! they move no value themselves.

pub mod closure;
pub mod custody;
pub mod errors;
pub mod lifecycle;
pub mod membership;
pub mod pubkey;
pub mod settlement;
pub mod state;
pub mod topup;

pub use closure::close_game;
pub use errors::PokerError;
pub use lifecycle::{create_cash_game, create_cash_game_with_authority, set_game_status};
pub use membership::{join_game, join_game_with_authority};
pub use pubkey::{
    find_pool_authority, find_program_address, get_associated_token_address, Pubkey,
};
pub use settlement::{settle, settle_with_holdings};
pub use state::{
    AddChips, AddChipsData, CloseGame, CreateGameData, CreateGameParams, GameAccount, GameStatus,
    GameStatusData, JoinGame, JoinGameArgs, SeatedPlayer, SetGameStatus, Settle, SettleAccounts,
    SettleOp, SettleParams, TokenAccount, Transfer,
};
pub use topup::{add_chips, add_chips_with_authority};
