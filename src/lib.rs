//! Roulette game engine: wheel rules, outcome generation, the host's ledger
//! and round state machine, and the cross-chain request/confirm protocol.

pub mod contract;
pub mod outcome;
pub mod query;
pub mod settlement;
pub mod state;
pub mod types;
pub mod wheel;

pub use wheel::{get_color, is_black, is_red, BetType};
pub use types::{Bet, GameState, InstantiationArgument, Message, Operation, Player, RouletteAbi, RouletteEvent, SpinResult, Winner};
pub use contract::{decimal_string, ChainContext, Effect, RouletteContract};
pub use outcome::{draw_pocket, pocket_from_digest, seed, to_le8};
pub use settlement::{bet_payout, SettlementNotice};
pub use state::{BetRejection, RouletteState};
