//! Identities and the storage key space.
//!
//! The persistent store is an external collaborator keyed by opaque values;
//! [`DataKey`] is the deterministic, collision-free mapping from the
//! ledger's logical entities to such keys. As a tagged variant type, keys of
//! different entity kinds can never coincide, whatever their parameters;
//! [`lemma_key_space_injective`] states that contract.

use vstd::prelude::*;

verus! {

/// An opaque caller or player identity, held as a plain value.
#[derive(Clone, Copy, PartialEq, Eq, Structural, Debug)]
pub struct Address {
    pub id: u64,
}

/// A storage key for one logical entity of the ledger.
#[derive(Clone, Copy, PartialEq, Eq, Structural, Debug)]
pub enum DataKey {
    /// The single owner record.
    Owner,
    /// A player's balance entry.
    Points(Address),
    /// The single counter of players holding a nonzero balance.
    PlayerCount,
    /// A history record, keyed by (player, timestamp, game id).
    GameHistory(Address, u64, u32),
}

/// Law: the key space is injective. Keys of distinct entity kinds never
/// collide, and within a kind the key determines the parameters, so each
/// logical entity owns exactly one storage cell.
pub proof fn lemma_key_space_injective()
    ensures
        DataKey::Owner != DataKey::PlayerCount,
        forall|p: Address| DataKey::Points(p) != DataKey::Owner,
        forall|p: Address| DataKey::Points(p) != DataKey::PlayerCount,
        forall|p: Address, t: u64, g: u32|
            DataKey::GameHistory(p, t, g) != DataKey::Owner
                && DataKey::GameHistory(p, t, g) != DataKey::PlayerCount,
        forall|p: Address, q: Address, t: u64, g: u32|
            DataKey::Points(p) != DataKey::GameHistory(q, t, g),
        forall|p: Address, q: Address| DataKey::Points(p) == DataKey::Points(q) ==> p == q,
        forall|p: Address, q: Address, t: u64, t2: u64, g: u32, g2: u32|
            DataKey::GameHistory(p, t, g) == DataKey::GameHistory(q, t2, g2) ==> p == q && t == t2
                && g == g2,
{
}

} // verus!
