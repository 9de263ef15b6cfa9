//! Laws of the ledger, stated and proved over the abstract transitions of
//! [`crate::model`]. Together with the contracts of [`crate::ledger`],
//! which tie the executable operations to those transitions, they carry
//! the guarantees to every reachable contract state.

use vstd::prelude::*;

use crate::keys::Address;
use crate::model::GamePointsError;
use crate::model::LedgerState;
use crate::model::balance_of;
use crate::model::initial_state;
use crate::model::spec_award;
use crate::model::spec_reset;
use crate::model::state_wf;

verus! {

/// Law: right after construction every player's balance is zero. With the
/// two frame laws below, a player never awarded points keeps balance zero
/// through any run of awards and resets.
pub proof fn lemma_initial_balance_zero(owner: Address, player: Address)
    ensures
        balance_of(initial_state(owner), player) == 0,
{
}

/// Law: an award touches no balance but the awarded player's, whether it
/// succeeds or fails.
pub proof fn lemma_award_preserves_others(
    s: LedgerState,
    caller: Address,
    player: Address,
    points: u64,
    game_id: u32,
    timestamp: u64,
    other: Address,
)
    requires
        other != player,
    ensures
        balance_of(spec_award(s, caller, player, points, game_id, timestamp).0, other)
            == balance_of(s, other),
{
}

/// Law: a reset touches no balance but the reset player's, whether it
/// succeeds or fails.
pub proof fn lemma_reset_preserves_others(
    s: LedgerState,
    caller: Address,
    player: Address,
    other: Address,
)
    requires
        other != player,
    ensures
        balance_of(spec_reset(s, caller, player).0, other) == balance_of(s, other),
{
}

/// Law: the initial state satisfies the ledger invariant.
pub proof fn lemma_initial_state_wf(owner: Address)
    ensures
        state_wf(initial_state(owner)),
{
    assert(initial_state(owner).balances.dom() =~= Set::<Address>::empty());
}

/// Law: an award preserves the ledger invariant — in particular the
/// counter keeps equalling the number of players holding a nonzero
/// balance, increasing by exactly one iff the prior balance was zero.
pub proof fn lemma_award_preserves_state_wf(
    s: LedgerState,
    caller: Address,
    player: Address,
    points: u64,
    game_id: u32,
    timestamp: u64,
)
    requires
        state_wf(s),
    ensures
        state_wf(spec_award(s, caller, player, points, game_id, timestamp).0),
{
    let next = spec_award(s, caller, player, points, game_id, timestamp).0;
    if caller == s.owner && points > 0 && balance_of(s, player) + points <= u64::MAX {
        vstd::set::axiom_set_insert_len(s.balances.dom(), player);
        assert(next.balances.dom() =~= s.balances.dom().insert(player));
    }
}

/// Law: a reset preserves the ledger invariant — the counter keeps
/// equalling the number of players holding a nonzero balance, decreasing
/// by exactly one iff the prior balance was positive.
pub proof fn lemma_reset_preserves_state_wf(s: LedgerState, caller: Address, player: Address)
    requires
        state_wf(s),
    ensures
        state_wf(spec_reset(s, caller, player).0),
{
    let next = spec_reset(s, caller, player).0;
    if caller == s.owner && balance_of(s, player) > 0 {
        vstd::set::axiom_set_remove_len(s.balances.dom(), player);
        assert(next.balances.dom() =~= s.balances.dom().remove(player));
    }
}

/// Law: the owner is set exactly once, at construction — no transition
/// ever reassigns it.
pub proof fn lemma_owner_immutable(
    s: LedgerState,
    caller: Address,
    player: Address,
    points: u64,
    game_id: u32,
    timestamp: u64,
)
    ensures
        spec_award(s, caller, player, points, game_id, timestamp).0.owner == s.owner,
        spec_reset(s, caller, player).0.owner == s.owner,
        initial_state(caller).owner == caller,
{
}

/// Law: history records are immutable and never deleted. An award appends
/// exactly one record and leaves every existing record in place; a reset
/// never touches the history.
pub proof fn lemma_history_append_only(
    s: LedgerState,
    caller: Address,
    player: Address,
    points: u64,
    game_id: u32,
    timestamp: u64,
)
    ensures
        ({
            let after = spec_award(s, caller, player, points, game_id, timestamp).0.history;
            &&& after.len() >= s.history.len()
            &&& forall|i: int| 0 <= i < s.history.len() ==> after[i] == s.history[i]
        }),
        spec_reset(s, caller, player).0.history == s.history,
{
}

/// Law: resetting twice in a row yields the prior balance, then zero —
/// the second reset succeeds, changes nothing, and returns zero.
pub proof fn lemma_reset_idempotent(s: LedgerState, caller: Address, player: Address)
    requires
        caller == s.owner,
    ensures
        spec_reset(s, caller, player).1 == Ok::<u64, GamePointsError>(balance_of(s, player)),
        balance_of(spec_reset(s, caller, player).0, player) == 0,
        spec_reset(spec_reset(s, caller, player).0, caller, player).1 == Ok::<
            u64,
            GamePointsError,
        >(0u64),
        spec_reset(spec_reset(s, caller, player).0, caller, player).0 == spec_reset(
            s,
            caller,
            player,
        ).0,
{
}

} // verus!
