//! Spec-level bridge between the executable balance table — a vector of
//! (player, balance) pairs with pairwise-distinct players — and the
//! abstract balance map of [`crate::model::LedgerState`].

use vstd::prelude::*;

use crate::keys::Address;

verus! {

/// No player appears in two entries of the table.
pub open spec fn distinct_players(s: Seq<(Address, u64)>) -> bool {
    forall|i: int, j: int|
        0 <= i < j < s.len() ==> (#[trigger] s[i]).0 != (#[trigger] s[j]).0
}

/// Some entry of the table belongs to `p`.
pub open spec fn has_player(s: Seq<(Address, u64)>, p: Address) -> bool {
    exists|j: int| 0 <= j < s.len() && (#[trigger] s[j]).0 == p
}

/// The map held by the table; under [`distinct_players`] the entry order
/// is irrelevant.
pub open spec fn pairs_to_map(s: Seq<(Address, u64)>) -> Map<Address, u64>
    decreases s.len(),
{
    if s.len() == 0 {
        Map::empty()
    } else {
        pairs_to_map(s.drop_last()).insert(s.last().0, s.last().1)
    }
}

/// The domain of the table's map is exactly the set of players with an entry.
pub proof fn lemma_pairs_to_map_dom(s: Seq<(Address, u64)>)
    ensures
        forall|p: Address| #[trigger] pairs_to_map(s).dom().contains(p) <==> has_player(s, p),
    decreases s.len(),
{
    if s.len() == 0 {
    } else {
        let butlast = s.drop_last();
        lemma_pairs_to_map_dom(butlast);
        assert forall|p: Address| #[trigger]
            pairs_to_map(s).dom().contains(p) <==> has_player(s, p) by {
            if pairs_to_map(s).dom().contains(p) {
                if p == s.last().0 {
                    assert(s[s.len() - 1].0 == p);
                } else {
                    assert(pairs_to_map(butlast).dom().contains(p));
                    assert(has_player(butlast, p));
                    let j = choose|j: int| 0 <= j < butlast.len() && (#[trigger] butlast[j]).0 == p;
                    assert(s[j].0 == p);
                }
            }
            if has_player(s, p) {
                let j = choose|j: int| 0 <= j < s.len() && (#[trigger] s[j]).0 == p;
                if j == s.len() - 1 {
                    assert(pairs_to_map(s).dom().contains(p));
                } else {
                    assert(butlast[j].0 == p);
                    assert(has_player(butlast, p));
                    assert(pairs_to_map(butlast).dom().contains(p));
                }
            }
        }
    }
}

/// Under distinctness, the map sends each tabled player to its entry's balance.
pub proof fn lemma_pairs_to_map_index(s: Seq<(Address, u64)>, i: int)
    requires
        distinct_players(s),
        0 <= i < s.len(),
    ensures
        pairs_to_map(s).dom().contains(s[i].0),
        pairs_to_map(s)[s[i].0] == s[i].1,
    decreases s.len(),
{
    lemma_pairs_to_map_dom(s);
    if i == s.len() - 1 {
    } else {
        let butlast = s.drop_last();
        assert(butlast[i] == s[i]);
        lemma_pairs_to_map_index(butlast, i);
        assert(s[i].0 != s.last().0);
    }
}

/// Under distinctness, the map's domain has exactly one element per entry.
pub proof fn lemma_pairs_to_map_len(s: Seq<(Address, u64)>)
    requires
        distinct_players(s),
    ensures
        pairs_to_map(s).dom().finite(),
        pairs_to_map(s).dom().len() == s.len(),
    decreases s.len(),
{
    if s.len() == 0 {
        assert(pairs_to_map(s).dom() =~= Set::<Address>::empty());
    } else {
        let butlast = s.drop_last();
        lemma_pairs_to_map_len(butlast);
        lemma_pairs_to_map_dom(butlast);
        assert(!has_player(butlast, s.last().0)) by {
            if has_player(butlast, s.last().0) {
                let j = choose|j: int|
                    0 <= j < butlast.len() && (#[trigger] butlast[j]).0 == s.last().0;
                assert(s[j].0 == s.last().0);
            }
        }
        vstd::set::axiom_set_insert_len(pairs_to_map(butlast).dom(), s.last().0);
        assert(pairs_to_map(s).dom() =~= pairs_to_map(butlast).dom().insert(s.last().0));
    }
}

/// Appending a fresh entry inserts its pair into the map.
pub proof fn lemma_pairs_to_map_push(s: Seq<(Address, u64)>, entry: (Address, u64))
    ensures
        pairs_to_map(s.push(entry)) == pairs_to_map(s).insert(entry.0, entry.1),
{
    assert(s.push(entry).drop_last() =~= s);
    assert(s.push(entry).last() == entry);
}

/// Under distinctness, removing the entry at `i` removes exactly that
/// player from the map.
pub proof fn lemma_pairs_to_map_remove(s: Seq<(Address, u64)>, i: int)
    requires
        distinct_players(s),
        0 <= i < s.len(),
    ensures
        pairs_to_map(s.remove(i)) =~= pairs_to_map(s).remove(s[i].0),
    decreases s.len(),
{
    s.remove_ensures(i);
    lemma_pairs_to_map_dom(s.drop_last());
    if i == s.len() - 1 {
        assert(s.remove(i) =~= s.drop_last());
        assert(!has_player(s.drop_last(), s[i].0)) by {
            if has_player(s.drop_last(), s[i].0) {
                let j = choose|j: int|
                    0 <= j < s.drop_last().len() && (#[trigger] s.drop_last()[j]).0 == s[i].0;
                assert(s[j].0 == s[i].0);
            }
        }
        assert(pairs_to_map(s.drop_last()).insert(s.last().0, s.last().1).remove(s[i].0)
            =~= pairs_to_map(s.drop_last()));
    } else {
        let butlast = s.drop_last();
        assert(distinct_players(butlast)) by {
            assert(forall|a: int, b: int|
                0 <= a < b < butlast.len() ==> butlast[a] == s[a] && butlast[b] == s[b]);
        }
        lemma_pairs_to_map_remove(butlast, i);
        assert(s.remove(i).drop_last() =~= butlast.remove(i)) by {
            s.remove_ensures(i);
            butlast.remove_ensures(i);
        }
        assert(s.remove(i).last() == s.last()) by {
            s.remove_ensures(i);
        }
        assert(pairs_to_map(s.remove(i)) == pairs_to_map(butlast.remove(i)).insert(
            s.last().0,
            s.last().1,
        ));
        assert(s[i].0 != s.last().0);
    }
}

} // verus!
