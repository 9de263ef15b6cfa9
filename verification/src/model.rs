//! The abstract ledger state and the mathematical transitions of the two
//! mutating operations. The executable contract in [`crate::ledger`] is
//! proved to follow these transitions exactly.

use vstd::prelude::*;

use crate::keys::Address;

verus! {

/// One scoring event, recorded in the history on every successful award.
/// The history is an append-only log: two events sharing the composite
/// key (player, timestamp, game id) both stay recorded.
#[derive(Clone, Copy, PartialEq, Eq, Structural, Debug)]
pub struct GameResult {
    pub player: Address,
    pub points_awarded: u64,
    pub game_id: u32,
    pub timestamp: u64,
}

/// A derived, non-persistent projection of one player's standing.
#[derive(Clone, Copy, PartialEq, Eq, Structural, Debug)]
pub struct PlayerScore {
    pub player: Address,
    pub points: u64,
    pub game_id: u32,
    pub timestamp: u64,
}

/// The notification emitted by a reset: the player and the prior balance.
/// An observable event for external monitors, never a stored record.
#[derive(Clone, Copy, PartialEq, Eq, Structural, Debug)]
pub struct ResetEvent {
    pub player: Address,
    pub prior_balance: u64,
}

/// Why a mutating operation was rejected. Every rejection happens before
/// any write, so a failed operation leaves all state unchanged.
#[derive(Clone, Copy, PartialEq, Eq, Structural, Debug)]
pub enum GamePointsError {
    /// The caller is not the stored owner.
    Unauthorized,
    /// An award of zero points.
    InvalidAmount,
    /// The award would push the balance past `u64::MAX`.
    Overflow,
}

/// The abstract state of the ledger: the owner identity, the balances of
/// the players currently holding points (absence means zero), the
/// maintained player counter, and the append-only history.
#[verifier::ext_equal]
pub struct LedgerState {
    pub owner: Address,
    pub balances: Map<Address, u64>,
    pub player_count: nat,
    pub history: Seq<GameResult>,
}

/// A player's balance: the stored entry, or zero when none is stored.
pub open spec fn balance_of(s: LedgerState, player: Address) -> u64 {
    if s.balances.dom().contains(player) {
        s.balances[player]
    } else {
        0
    }
}

/// Well-formedness: stored balances are strictly positive (a zero balance
/// is represented by absence), and the counter equals the number of
/// players holding a nonzero balance.
pub open spec fn state_wf(s: LedgerState) -> bool {
    &&& forall|p: Address| s.balances.dom().contains(p) ==> #[trigger] s.balances[p] > 0
    &&& s.balances.dom().finite()
    &&& s.player_count == s.balances.dom().len()
}

/// The state right after construction: the owner is set, nobody holds
/// points, the counter is zero and the history is empty.
pub open spec fn initial_state(owner: Address) -> LedgerState {
    LedgerState {
        owner,
        balances: Map::empty(),
        player_count: 0,
        history: Seq::empty(),
    }
}

/// The award transition: the next state and the result of awarding
/// `points` to `player`. Rejects a non-owner caller, a zero amount, and an
/// addition past `u64::MAX`, each before any write; otherwise credits the
/// points, bumps the counter when the player had none, and appends one
/// history record.
pub open spec fn spec_award(
    s: LedgerState,
    caller: Address,
    player: Address,
    points: u64,
    game_id: u32,
    timestamp: u64,
) -> (LedgerState, Result<u64, GamePointsError>) {
    if caller != s.owner {
        (s, Err(GamePointsError::Unauthorized))
    } else if points == 0 {
        (s, Err(GamePointsError::InvalidAmount))
    } else if balance_of(s, player) + points > u64::MAX {
        (s, Err(GamePointsError::Overflow))
    } else {
        let prior = balance_of(s, player);
        let new_total = (prior + points) as u64;
        let record = GameResult { player, points_awarded: points, game_id, timestamp };
        let next = LedgerState {
            balances: s.balances.insert(player, new_total),
            player_count: if prior == 0 {
                s.player_count + 1
            } else {
                s.player_count
            },
            history: s.history.push(record),
            ..s
        };
        (next, Ok(new_total))
    }
}

/// The reset transition: the next state and the result of resetting
/// `player`. Rejects a non-owner caller; otherwise returns the prior
/// balance, deletes the balance entry when it was positive (decrementing
/// the counter, floored at zero), and is a successful no-op on a player
/// with no balance. The history is never touched.
pub open spec fn spec_reset(s: LedgerState, caller: Address, player: Address) -> (
    LedgerState,
    Result<u64, GamePointsError>,
) {
    if caller != s.owner {
        (s, Err(GamePointsError::Unauthorized))
    } else {
        let prior = balance_of(s, player);
        if prior > 0 {
            let next = LedgerState {
                balances: s.balances.remove(player),
                player_count: if s.player_count > 0 {
                    (s.player_count - 1) as nat
                } else {
                    0
                },
                ..s
            };
            (next, Ok(prior))
        } else {
            (s, Ok(prior))
        }
    }
}

} // verus!
