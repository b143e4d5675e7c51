//! What the registry holds, in numbers.

use vstd::prelude::*;
use crate::messages::ids_view;
use crate::state::{AppState, enumerates};

verus! {

/// How many sessions, connections and connected players there are.
#[derive(Clone, Copy, Debug, PartialEq, Eq, Structural)]
pub struct GameMetrics {
    pub total_games: usize,
    pub active_connections: usize,
    pub total_players_connected: usize,
}

/// The lengths of the rosters under the given keys, added up.
pub open spec fn total_over(rosters: Map<Seq<char>, Seq<Seq<char>>>, keys: Seq<Seq<char>>) -> nat
    decreases keys.len(),
{
    if keys.len() == 0 {
        0
    } else {
        total_over(rosters, keys.drop_last()) + rosters[keys.last()].len()
    }
}

/// How many players the rosters hold, all sessions together.
pub open spec fn connected_players(rosters: Map<Seq<char>, Seq<Seq<char>>>) -> nat {
    total_over(rosters, choose|keys: Seq<Seq<char>>| enumerates(rosters, keys))
}

/// A number of players as a machine word holds it: itself, or the largest
/// word where it is beyond that.
pub open spec fn saturated(n: nat) -> usize {
    if n <= usize::MAX {
        n as usize
    } else {
        usize::MAX
    }
}

/// The total counts one key wherever it stands in the list.
proof fn lemma_total_remove(rosters: Map<Seq<char>, Seq<Seq<char>>>, keys: Seq<Seq<char>>, j: int)
    requires
        0 <= j < keys.len(),
    ensures
        total_over(rosters, keys) == total_over(rosters, keys.remove(j)) + rosters[keys[j]].len(),
    decreases keys.len(),
{
    if j == keys.len() - 1 {
        assert(keys.remove(j) =~= keys.drop_last());
    } else {
        lemma_total_remove(rosters, keys.drop_last(), j);
        assert(keys.remove(j).drop_last() =~= keys.drop_last().remove(j));
        assert(keys.remove(j).last() == keys.last());
    }
}

/// Taking one entry out of a list without duplicates takes its key out
/// and leaves every other.
proof fn lemma_remove_contains(keys: Seq<Seq<char>>, j: int)
    requires
        keys.no_duplicates(),
        0 <= j < keys.len(),
    ensures
        keys.remove(j).no_duplicates(),
        forall|k: Seq<char>| keys.remove(j).contains(k) <==> (keys.contains(k) && k != keys[j]),
{
    let rest = keys.remove(j);
    assert forall|k: Seq<char>| rest.contains(k) <==> (keys.contains(k) && k != keys[j]) by {
        if rest.contains(k) {
            let i = choose|i: int| 0 <= i < rest.len() && rest[i] == k;
            if i < j {
                assert(keys[i] == k);
            } else {
                assert(keys[i + 1] == k);
            }
        }
        if keys.contains(k) && k != keys[j] {
            let i = choose|i: int| 0 <= i < keys.len() && keys[i] == k;
            if i < j {
                assert(rest[i] == k);
            } else {
                assert(rest[i - 1] == k);
            }
        }
    }
}

/// Two lists of the same keys, each without duplicates, give the same
/// total: the order in which rosters are counted does not matter.
pub proof fn lemma_total_any_order(
    rosters: Map<Seq<char>, Seq<Seq<char>>>,
    first: Seq<Seq<char>>,
    second: Seq<Seq<char>>,
)
    requires
        first.no_duplicates(),
        second.no_duplicates(),
        forall|k: Seq<char>| first.contains(k) <==> second.contains(k),
    ensures
        total_over(rosters, first) == total_over(rosters, second),
    decreases first.len(),
{
    if first.len() == 0 {
        if second.len() > 0 {
            assert(second.contains(second[0]));
            assert(first.contains(second[0]));
        }
    } else {
        let x = first.last();
        assert(first.contains(x));
        assert(second.contains(x));
        let j = choose|j: int| 0 <= j < second.len() && second[j] == x;
        let head = first.remove(first.len() - 1);
        let rest = second.remove(j);
        assert(head =~= first.drop_last());
        lemma_remove_contains(first, first.len() - 1);
        lemma_remove_contains(second, j);
        assert forall|k: Seq<char>| head.contains(k) <==> rest.contains(k) by {
            assert(head.contains(k) <==> (first.contains(k) && k != x));
            assert(rest.contains(k) <==> (second.contains(k) && k != x));
        }
        lemma_total_any_order(rosters, head, rest);
        lemma_total_remove(rosters, second, j);
    }
}

/// The number of connected players is the total over any list of the keys.
pub proof fn lemma_connected_players(rosters: Map<Seq<char>, Seq<Seq<char>>>, keys: Seq<Seq<char>>)
    requires
        enumerates(rosters, keys),
    ensures
        connected_players(rosters) == total_over(rosters, keys),
{
    let chosen = choose|keys: Seq<Seq<char>>| enumerates(rosters, keys);
    lemma_total_any_order(rosters, chosen, keys);
}

/// Counts what the registry holds: its sessions, its connections, and the
/// players on its rosters, all sessions together. A count beyond the
/// largest machine word is given as that word. The registry is only read.
pub fn game_metrics(state: &AppState) -> (metrics: GameMetrics)
    ensures
        metrics.total_games == state@.games.dom().len(),
        metrics.active_connections == state@.connections.dom().len(),
        metrics.total_players_connected == saturated(connected_players(state@.rosters)),
{
    let keys = state.roster_keys();
    let ghost listed = ids_view(keys@);
    let mut total: usize = 0;
    let mut i: usize = 0;
    proof {
        assert(listed.take(0) =~= Seq::empty());
    }
    while i < keys.len()
        invariant
            i <= keys@.len(),
            listed == ids_view(keys@),
            enumerates(state@.rosters, listed),
            total == saturated(total_over(state@.rosters, listed.take(i as int))),
        decreases keys@.len() - i,
    {
        proof {
            assert(listed.take(i + 1).drop_last() =~= listed.take(i as int));
            assert(listed.take(i + 1).last() == keys@[i as int]@);
            assert(state@.rosters.contains_key(keys@[i as int]@)) by {
                assert(listed[i as int] == keys@[i as int]@);
                assert(listed.contains(keys@[i as int]@));
            }
        }
        total = total.saturating_add(state.roster_len(keys[i].as_str()));
        i += 1;
    }
    proof {
        assert(listed.take(i as int) =~= listed);
        lemma_connected_players(state@.rosters, listed);
    }
    GameMetrics {
        total_games: state.game_count(),
        active_connections: state.connection_count(),
        total_players_connected: total,
    }
}

} // verus!
