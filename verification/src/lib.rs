//! A points-accounting ledger: per-player balances, a count of players
//! holding a nonzero balance, and an append-only history of scoring events,
//! all gated so that only a designated owner may mutate state.
//!
//! The persistent store, the identity mechanism and the clock are external
//! collaborators: callers hand in the caller identity and the current
//! timestamp as plain values, and the ledger state lives in an explicitly
//! passed [`ledger::GamepointsContract`] value.

mod assoc;
pub mod keys;
pub mod laws;
pub mod ledger;
pub mod model;

pub use keys::Address;
pub use keys::DataKey;
pub use ledger::GamepointsContract;
pub use model::GamePointsError;
pub use model::GameResult;
pub use model::PlayerScore;
pub use model::ResetEvent;
