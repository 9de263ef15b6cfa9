//! The executable points ledger.
//!
//! [`GamepointsContract`] is the explicitly passed storage context: it owns
//! the owner record, the balance table, the player counter and the history
//! log. Every operation is proved to follow the abstract transitions of
//! [`crate::model`] exactly, and every rejection happens before any write.

use vstd::prelude::*;

use crate::assoc::distinct_players;
use crate::assoc::has_player;
use crate::assoc::lemma_pairs_to_map_dom;
use crate::assoc::lemma_pairs_to_map_index;
use crate::assoc::lemma_pairs_to_map_len;
use crate::assoc::lemma_pairs_to_map_push;
use crate::assoc::lemma_pairs_to_map_remove;
use crate::assoc::pairs_to_map;
use crate::keys::Address;
use crate::model::GamePointsError;
use crate::model::GameResult;
use crate::model::LedgerState;
use crate::model::PlayerScore;
use crate::model::ResetEvent;
use crate::model::balance_of;
use crate::model::initial_state;
use crate::model::spec_award;
use crate::model::spec_reset;
use crate::model::state_wf;

verus! {

/// The points ledger: owner identity, balance table (one entry per player
/// holding a nonzero balance), maintained player counter, and append-only
/// history of scoring events.
pub struct GamepointsContract {
    owner: Address,
    balances: Vec<(Address, u64)>,
    player_count: usize,
    history: Vec<GameResult>,
}

impl View for GamepointsContract {
    type V = LedgerState;

    closed spec fn view(&self) -> LedgerState {
        LedgerState {
            owner: self.owner,
            balances: pairs_to_map(self.balances@),
            player_count: self.player_count as nat,
            history: self.history@,
        }
    }
}

impl GamepointsContract {
    /// Representation invariant: each player has at most one entry, every
    /// stored balance is strictly positive (zero is represented by
    /// absence), and the counter equals the number of entries.
    pub closed spec fn wf(&self) -> bool {
        &&& distinct_players(self.balances@)
        &&& forall|i: int|
            0 <= i < self.balances@.len() ==> (#[trigger] self.balances@[i]).1 > 0
        &&& self.player_count == self.balances@.len()
    }

    /// The representation invariant carries the abstract invariant: the
    /// counter equals the number of players holding a nonzero balance.
    pub proof fn lemma_wf_state(&self)
        requires
            self.wf(),
        ensures
            state_wf(self@),
    {
        lemma_pairs_to_map_dom(self.balances@);
        lemma_pairs_to_map_len(self.balances@);
        assert forall|p: Address| self@.balances.dom().contains(p) implies #[trigger] self@
            .balances[p] > 0 by {
            let j = choose|j: int|
                0 <= j < self.balances@.len() && (#[trigger] self.balances@[j]).0 == p;
            lemma_pairs_to_map_index(self.balances@, j);
        }
    }

    /// Construction: sets the owner once. The owner field has no setter,
    /// so the set-once discipline holds by construction.
    pub fn construct(owner: Address) -> (contract: Self)
        ensures
            contract.wf(),
            state_wf(contract@),
            contract@ == initial_state(owner),
    {
        let contract = GamepointsContract {
            owner,
            balances: Vec::new(),
            player_count: 0,
            history: Vec::new(),
        };
        proof {
            assert(contract@.balances =~= Map::<Address, u64>::empty());
            assert(contract@ =~= initial_state(owner));
            contract.lemma_wf_state();
        }
        contract
    }

    /// The stored owner identity.
    pub fn get_owner(&self) -> (owner: Address)
        ensures
            owner == self@.owner,
    {
        self.owner
    }

    /// The access gate: succeeds exactly when the caller is the stored
    /// owner, with no side effect. Every mutating operation consults it
    /// before touching any state.
    pub fn require_owner(&self, caller: Address) -> (auth: Result<(), GamePointsError>)
        ensures
            auth == Ok::<(), GamePointsError>(()) <==> caller == self@.owner,
            auth is Err ==> auth == Err::<(), GamePointsError>(GamePointsError::Unauthorized),
    {
        if caller == self.owner {
            Ok(())
        } else {
            Err(GamePointsError::Unauthorized)
        }
    }

    /// Index of the player's balance entry, if one is stored.
    fn find_player_index(&self, player: Address) -> (found: Option<usize>)
        ensures
            match found {
                Some(i) => i < self.balances@.len() && self.balances@[i as int].0 == player,
                None => !has_player(self.balances@, player),
            },
    {
        let n = self.balances.len();
        let mut i: usize = 0;
        while i < n
            invariant
                n == self.balances@.len(),
                i <= n,
                forall|j: int| 0 <= j < i ==> (#[trigger] self.balances@[j]).0 != player,
            decreases n - i,
        {
            if self.balances[i].0 == player {
                return Some(i);
            }
            i = i + 1;
        }
        None
    }

    /// Balance read: the stored balance, or zero when none is stored.
    /// Total, read-only, and open to any caller.
    pub fn get_player_points(&self, player: Address) -> (points: u64)
        requires
            self.wf(),
        ensures
            points == balance_of(self@, player),
    {
        match self.find_player_index(player) {
            Some(i) => {
                proof {
                    lemma_pairs_to_map_index(self.balances@, i as int);
                }
                self.balances[i].1
            },
            None => {
                proof {
                    lemma_pairs_to_map_dom(self.balances@);
                }
                0
            },
        }
    }

    /// Composite read-only projection of one player's standing, stamped
    /// with the caller-supplied current time and the generic game id zero.
    pub fn get_player_info(&self, player: Address, timestamp: u64) -> (info: PlayerScore)
        requires
            self.wf(),
        ensures
            info == (PlayerScore {
                player,
                points: balance_of(self@, player),
                game_id: 0,
                timestamp,
            }),
    {
        let points = self.get_player_points(player);
        PlayerScore { player, points, game_id: 0, timestamp }
    }

    /// Placeholder by design: no ranking is specified, and the result is
    /// the empty sequence whatever the limit and whatever the ledger holds.
    pub fn get_leaderboard(&self, _limit: u32) -> (board: Vec<PlayerScore>)
        ensures
            board@ == Seq::<PlayerScore>::empty(),
    {
        let board: Vec<PlayerScore> = Vec::new();
        proof {
            assert(board@ =~= Seq::<PlayerScore>::empty());
        }
        board
    }

    /// The maintained player counter: how many players hold a nonzero
    /// balance.
    pub fn get_player_count(&self) -> (count: usize)
        ensures
            count == self@.player_count,
    {
        self.player_count
    }

    /// Award `points` to `player`: owner-gated, rejecting a zero amount
    /// and an addition past `u64::MAX` before any write; otherwise credits
    /// the points, bumps the counter when the player held none, appends
    /// one history record, and returns the new balance.
    pub fn add_points(
        &mut self,
        caller: Address,
        player: Address,
        points: u64,
        game_id: u32,
        timestamp: u64,
    ) -> (outcome: Result<u64, GamePointsError>)
        requires
            old(self).wf(),
        ensures
            final(self).wf(),
            state_wf(final(self)@),
            final(self)@ == spec_award(old(self)@, caller, player, points, game_id, timestamp).0,
            outcome == spec_award(old(self)@, caller, player, points, game_id, timestamp).1,
            outcome is Ok <==> caller == old(self)@.owner && points > 0 && balance_of(
                old(self)@,
                player,
            ) + points <= u64::MAX,
            outcome matches Ok(total) ==> {
                &&& total == balance_of(old(self)@, player) + points
                &&& balance_of(final(self)@, player) == total
                &&& forall|q: Address|
                    q != player ==> #[trigger] balance_of(final(self)@, q) == balance_of(
                        old(self)@,
                        q,
                    )
                &&& final(self)@.player_count == old(self)@.player_count + (
                if balance_of(old(self)@, player) == 0 {
                    1int
                } else {
                    0int
                })
                &&& final(self)@.history == old(self)@.history.push(
                    GameResult { player, points_awarded: points, game_id, timestamp },
                )
            },
            outcome is Err ==> *final(self) == *old(self),
            outcome == Err::<u64, GamePointsError>(GamePointsError::Unauthorized) <==> caller
                != old(self)@.owner,
            outcome == Err::<u64, GamePointsError>(GamePointsError::InvalidAmount) <==> caller
                == old(self)@.owner && points == 0,
            outcome == Err::<u64, GamePointsError>(GamePointsError::Overflow) <==> caller == old(
                self,
            )@.owner && points > 0 && balance_of(old(self)@, player) + points > u64::MAX,
            final(self)@.owner == old(self)@.owner,
    {
        proof {
            self.lemma_wf_state();
        }
        if caller != self.owner {
            return Err(GamePointsError::Unauthorized);
        }
        if points == 0 {
            return Err(GamePointsError::InvalidAmount);
        }
        let prior = self.get_player_points(player);
        if prior > u64::MAX - points {
            return Err(GamePointsError::Overflow);
        }
        let new_total = prior + points;
        let ghost s0 = self.balances@;
        match self.find_player_index(player) {
            Some(i) => {
                let _replaced = self.balances.remove(i);
                self.balances.push((player, new_total));
                proof {
                    let s1 = s0.remove(i as int);
                    s0.remove_ensures(i as int);
                    lemma_pairs_to_map_index(s0, i as int);
                    lemma_pairs_to_map_remove(s0, i as int);
                    lemma_pairs_to_map_push(s1, (player, new_total));
                    assert forall|k: int| 0 <= k < s0.len() && k != i implies (#[trigger] s0[k]).0
                        != player by {
                        if k < i {
                            assert(s0[k].0 != s0[i as int].0);
                        } else {
                            assert(s0[i as int].0 != s0[k].0);
                        }
                    }
                    assert(distinct_players(s1));
                    assert(forall|k: int| 0 <= k < s1.len() ==> (#[trigger] s1[k]).0 != player);
                    assert(distinct_players(self.balances@));
                    assert(pairs_to_map(self.balances@) =~= pairs_to_map(s0).insert(
                        player,
                        new_total,
                    ));
                }
            },
            None => {
                self.balances.push((player, new_total));
                let n = self.balances.len();
                proof {
                    assert(self.player_count < n);
                    lemma_pairs_to_map_dom(s0);
                    assert(!pairs_to_map(s0).dom().contains(player));
                    lemma_pairs_to_map_push(s0, (player, new_total));
                    assert forall|j: int| 0 <= j < s0.len() implies (#[trigger] s0[j]).0
                        != player by {
                        if s0[j].0 == player {
                            assert(has_player(s0, player));
                        }
                    }
                    assert(distinct_players(self.balances@));
                }
                self.player_count = self.player_count + 1;
            },
        }
        self.history.push(GameResult { player, points_awarded: points, game_id, timestamp });
        proof {
            let target = spec_award(old(self)@, caller, player, points, game_id, timestamp).0;
            assert(self@ =~= target);
            self.lemma_wf_state();
            assert forall|q: Address| q != player implies #[trigger] balance_of(self@, q)
                == balance_of(old(self)@, q) by {
                assert(self@.balances.dom().contains(q) <==> old(self)@.balances.dom().contains(
                    q,
                ));
            }
        }
        Ok(new_total)
    }

    /// Reset `player`'s balance: owner-gated; returns the prior balance
    /// (zero when none was stored), deletes a positive balance entry and
    /// decrements the counter (floored at zero), and pushes the reset
    /// notification carrying (player, prior balance) onto `events` — a
    /// successful no-op, notification included, on a player with no
    /// balance. The history is never touched.
    pub fn reset_player_points(
        &mut self,
        caller: Address,
        player: Address,
        events: &mut Vec<ResetEvent>,
    ) -> (outcome: Result<u64, GamePointsError>)
        requires
            old(self).wf(),
        ensures
            final(self).wf(),
            state_wf(final(self)@),
            final(self)@ == spec_reset(old(self)@, caller, player).0,
            outcome == spec_reset(old(self)@, caller, player).1,
            outcome is Ok <==> caller == old(self)@.owner,
            outcome matches Ok(prior) ==> {
                &&& prior == balance_of(old(self)@, player)
                &&& balance_of(final(self)@, player) == 0
                &&& forall|q: Address|
                    q != player ==> #[trigger] balance_of(final(self)@, q) == balance_of(
                        old(self)@,
                        q,
                    )
                &&& prior > 0 ==> final(self)@.player_count + 1 == old(self)@.player_count
                &&& prior == 0 ==> *final(self) == *old(self)
                &&& final(self)@.history == old(self)@.history
                &&& final(events)@ == old(events)@.push(
                    ResetEvent { player, prior_balance: prior },
                )
            },
            outcome is Err ==> *final(self) == *old(self) && final(events)@ == old(events)@
                && outcome == Err::<u64, GamePointsError>(GamePointsError::Unauthorized)
                && caller != old(self)@.owner,
    {
        proof {
            self.lemma_wf_state();
        }
        if caller != self.owner {
            return Err(GamePointsError::Unauthorized);
        }
        let ghost s0 = self.balances@;
        let prior: u64;
        match self.find_player_index(player) {
            Some(i) => {
                prior = self.balances[i].1;
                let _removed = self.balances.remove(i);
                proof {
                    s0.remove_ensures(i as int);
                    lemma_pairs_to_map_index(s0, i as int);
                    lemma_pairs_to_map_remove(s0, i as int);
                    lemma_pairs_to_map_dom(s0);
                    assert(distinct_players(self.balances@));
                    assert(prior > 0);
                    assert(self.player_count > 0);
                }
                self.player_count = if self.player_count > 0 {
                    self.player_count - 1
                } else {
                    0
                };
            },
            None => {
                prior = 0;
                proof {
                    lemma_pairs_to_map_dom(s0);
                    assert(balance_of(self@, player) == 0);
                }
            },
        }
        events.push(ResetEvent { player, prior_balance: prior });
        proof {
            let target = spec_reset(old(self)@, caller, player).0;
            assert(self@ =~= target);
            self.lemma_wf_state();
            assert forall|q: Address| q != player implies #[trigger] balance_of(self@, q)
                == balance_of(old(self)@, q) by {
                assert(self@.balances.dom().contains(q) <==> old(self)@.balances.dom().contains(
                    q,
                ));
            }
        }
        Ok(prior)
    }

    /// How many scoring events the history holds.
    pub fn history_len(&self) -> (n: usize)
        ensures
            n == self@.history.len(),
    {
        self.history.len()
    }

    /// One scoring event of the history, oldest first.
    pub fn history_record(&self, i: usize) -> (record: GameResult)
        requires
            i < self@.history.len(),
        ensures
            record == self@.history[i as int],
    {
        self.history[i]
    }
}

} // verus!
