//! The final standings of a race: the roster ordered by finishing time,
//! players of equal time in roster order, players without a time last.

use vstd::prelude::*;
use crate::models::{Player, PlayerView, roster_view};

verus! {

/// The player at roster position `i` stands before the one at position `j`:
/// by the smaller key, and with equal keys by the earlier position.
pub open spec fn stands_before(players: Seq<PlayerView>, i: int, j: int) -> bool {
    ||| players[i].finish_key() < players[j].finish_key()
    ||| (players[i].finish_key() == players[j].finish_key() && i < j)
}

/// `order` lists roster positions below `n`, each before the next in the
/// sense of [`stands_before`], and there are `n` of them: every position
/// below `n` occurs exactly once.
pub open spec fn is_standing_order(players: Seq<PlayerView>, n: int, order: Seq<int>) -> bool {
    &&& order.len() == n
    &&& forall|k: int| 0 <= k < order.len() ==> 0 <= #[trigger] order[k] < n
    &&& forall|a: int, b: int|
        0 <= a < b < order.len() ==> stands_before(players, #[trigger] order[a], #[trigger] order[b])
}

/// `order` with position `i` put where it belongs: behind the last entry
/// that stands before it.
pub open spec fn insert_position(players: Seq<PlayerView>, order: Seq<int>, i: int) -> Seq<int>
    decreases order.len(),
{
    if order.len() == 0 {
        seq![i]
    } else if stands_before(players, order.last(), i) {
        order.push(i)
    } else {
        insert_position(players, order.drop_last(), i).push(order.last())
    }
}

/// The first `n` roster positions in the order of the standings.
pub open spec fn standing_order(players: Seq<PlayerView>, n: nat) -> Seq<int>
    decreases n,
{
    if n == 0 {
        Seq::empty()
    } else {
        insert_position(players, standing_order(players, (n - 1) as nat), n - 1)
    }
}

/// The standings: the players in the order of [`standing_order`].
pub open spec fn standings_of(players: Seq<PlayerView>) -> Seq<PlayerView> {
    standing_order(players, players.len()).map_values(|i: int| players[i])
}

/// Putting position `i` into an order of the positions below `i` gives an
/// order of the positions up to `i`, one longer, that keeps every entry.
pub proof fn lemma_insert_position(players: Seq<PlayerView>, order: Seq<int>, i: int)
    requires
        0 <= i,
        forall|k: int| 0 <= k < order.len() ==> 0 <= #[trigger] order[k] < i,
        forall|a: int, b: int|
            0 <= a < b < order.len() ==> stands_before(players, #[trigger] order[a], #[trigger] order[b]),
    ensures
        insert_position(players, order, i).len() == order.len() + 1,
        forall|k: int|
            0 <= k < order.len() + 1 ==> 0 <= #[trigger] insert_position(players, order, i)[k] <= i,
        forall|a: int, b: int|
            0 <= a < b < order.len() + 1 ==> stands_before(
                players,
                #[trigger] insert_position(players, order, i)[a],
                #[trigger] insert_position(players, order, i)[b],
            ),
        forall|k: int|
            0 <= k < order.len() + 1 ==> {
                ||| #[trigger] insert_position(players, order, i)[k] == i
                ||| order.contains(insert_position(players, order, i)[k])
            },
        insert_position(players, order, i).contains(i),
        forall|k: int|
            0 <= k < order.len() ==> insert_position(players, order, i).contains(#[trigger] order[k]),
    decreases order.len(),
{
    let out = insert_position(players, order, i);
    if order.len() == 0 {
        assert(out[0] == i);
    } else if stands_before(players, order.last(), i) {
        assert(out[order.len() as int] == i);
        assert forall|k: int| 0 <= k < order.len() implies out.contains(#[trigger] order[k]) by {
            assert(out[k] == order[k]);
        }
        assert forall|k: int| 0 <= k < order.len() + 1 implies 0 <= #[trigger] out[k] <= i by {
            if k < order.len() {
                assert(out[k] == order[k]);
            }
        }
        assert forall|a: int, b: int| 0 <= a < b < order.len() + 1 implies stands_before(
            players,
            #[trigger] out[a],
            #[trigger] out[b],
        ) by {
            if b == order.len() && a < order.len() - 1 {
                assert(stands_before(players, order[a], order[order.len() - 1]));
            }
        }
        assert forall|k: int| 0 <= k < order.len() + 1 implies {
            ||| #[trigger] out[k] == i
            ||| order.contains(out[k])
        } by {
            if k < order.len() {
                assert(order[k] == out[k]);
            }
        }
    } else {
        let rest = order.drop_last();
        let inner = insert_position(players, rest, i);
        lemma_insert_position(players, rest, i);
        assert(out == inner.push(order.last()));
        assert(out.contains(i)) by {
            let t = choose|t: int| 0 <= t < inner.len() && inner[t] == i;
            assert(out[t] == i);
        }
        assert forall|k: int| 0 <= k < order.len() implies out.contains(#[trigger] order[k]) by {
            if k < rest.len() {
                assert(rest[k] == order[k]);
                assert(inner.contains(rest[k]));
                let t = choose|t: int| 0 <= t < inner.len() && inner[t] == order[k];
                assert(out[t] == order[k]);
            } else {
                assert(out[order.len() as int] == order[k]);
            }
        }
        assert forall|k: int| 0 <= k < order.len() + 1 implies 0 <= #[trigger] out[k] <= i by {
            if k < order.len() {
                assert(out[k] == inner[k]);
            } else {
                assert(out[k] == order[order.len() - 1]);
            }
        }
        assert forall|a: int, b: int| 0 <= a < b < order.len() + 1 implies stands_before(
            players,
            #[trigger] out[a],
            #[trigger] out[b],
        ) by {
            if b == order.len() {
                assert(out[b] == order.last());
                assert(out[a] == inner[a]);
                if inner[a] == i {
                } else {
                    assert(rest.contains(inner[a]));
                    let t = choose|t: int| 0 <= t < rest.len() && rest[t] == inner[a];
                    assert(order[t] == inner[a]);
                    assert(stands_before(players, order[t], order[order.len() - 1]));
                }
            } else {
                assert(out[a] == inner[a] && out[b] == inner[b]);
            }
        }
        assert forall|k: int| 0 <= k < order.len() + 1 implies {
            ||| #[trigger] out[k] == i
            ||| order.contains(out[k])
        } by {
            if k < order.len() {
                assert(out[k] == inner[k]);
                if inner[k] != i {
                    assert(rest.contains(inner[k]));
                    let t = choose|t: int| 0 <= t < rest.len() && rest[t] == inner[k];
                    assert(order[t] == inner[k]);
                }
            } else {
                assert(out[k] == order[order.len() - 1]);
            }
        }
    }
}

/// The standings list every roster position once, each before the next:
/// they are sorted by finishing time, and players of equal time keep the
/// order of the roster.
pub proof fn lemma_standing_order(players: Seq<PlayerView>, n: nat)
    ensures
        is_standing_order(players, n as int, standing_order(players, n)),
        forall|i: int| 0 <= i < n ==> standing_order(players, n).contains(i),
    decreases n,
{
    if n > 0 {
        let before = standing_order(players, (n - 1) as nat);
        lemma_standing_order(players, (n - 1) as nat);
        lemma_insert_position(players, before, n - 1);
        assert forall|i: int| 0 <= i < n implies standing_order(players, n).contains(i) by {
            if i < n - 1 {
                assert(before.contains(i));
                let t = choose|t: int| 0 <= t < before.len() && before[t] == i;
                assert(standing_order(players, n).contains(before[t]));
            }
        }
    }
}

/// The standings hold every player of the roster and nobody else, with
/// finishing times that never fall from one place to the next; players
/// without a time come last.
pub proof fn lemma_standings(players: Seq<PlayerView>)
    ensures
        standings_of(players).len() == players.len(),
        forall|i: int| 0 <= i < players.len() ==> standings_of(players).contains(#[trigger] players[i]),
        forall|k: int|
            0 <= k < players.len() ==> players.contains(#[trigger] standings_of(players)[k]),
        forall|a: int, b: int|
            0 <= a < b < players.len() ==> (#[trigger] standings_of(players)[a]).finish_key() <= (
            #[trigger] standings_of(players)[b]).finish_key(),
{
    let order = standing_order(players, players.len());
    let standings = standings_of(players);
    lemma_standing_order(players, players.len());
    assert forall|i: int| 0 <= i < players.len() implies standings.contains(#[trigger] players[i]) by {
        assert(order.contains(i));
        let t = choose|t: int| 0 <= t < order.len() && order[t] == i;
        assert(standings[t] == players[i]);
    }
    assert forall|k: int| 0 <= k < players.len() implies players.contains(#[trigger] standings[k]) by {
        assert(standings[k] == players[order[k]]);
    }
    assert forall|a: int, b: int| 0 <= a < b < players.len() implies (#[trigger] standings[a]).finish_key()
        <= (#[trigger] standings[b]).finish_key() by {
        assert(stands_before(players, order[a], order[b]));
    }
}

/// Where the entries from `at` on do not stand before position `i`, and
/// the entry before `at` does, position `i` belongs at `at`.
pub proof fn lemma_insert_position_at(players: Seq<PlayerView>, order: Seq<int>, i: int, at: int)
    requires
        0 <= at <= order.len(),
        forall|k: int| at <= k < order.len() ==> !stands_before(players, #[trigger] order[k], i),
        at > 0 ==> stands_before(players, order[at - 1], i),
    ensures
        insert_position(players, order, i) == order.insert(at, i),
    decreases order.len(),
{
    if order.len() == 0 {
        assert(order.insert(at, i) =~= seq![i]);
    } else if at == order.len() {
        assert(order.insert(at, i) =~= order.push(i));
    } else {
        assert(!stands_before(players, order[order.len() - 1], i));
        lemma_insert_position_at(players, order.drop_last(), i, at);
        assert(order.insert(at, i) =~= order.drop_last().insert(at, i).push(order.last()));
    }
}

/// The players in the order of the standings, each a copy.
pub fn sorted_by_finish(players: &Vec<Player>) -> (sorted: Vec<Player>)
    ensures
        roster_view(sorted@) == standings_of(roster_view(players@)),
{
    let ghost model = roster_view(players@);
    let ghost mut order: Seq<int> = Seq::empty();
    let mut sorted: Vec<Player> = Vec::new();
    let mut i: usize = 0;
    proof {
        assert(roster_view(sorted@) =~= order.map_values(|k: int| model[k]));
    }
    while i < players.len()
        invariant
            i <= players@.len(),
            model == roster_view(players@),
            order == standing_order(model, i as nat),
            sorted@.len() == i,
            roster_view(sorted@) == order.map_values(|k: int| model[k]),
        decreases players@.len() - i,
    {
        proof {
            lemma_standing_order(model, i as nat);
        }
        let key = players[i].finish_key();
        let mut at: usize = sorted.len();
        while at > 0 && sorted[at - 1].finish_key() > key
            invariant
                at <= sorted@.len(),
                i < players@.len(),
                sorted@.len() == i,
                order.len() == i,
                model == roster_view(players@),
                key == model[i as int].finish_key(),
                roster_view(sorted@) == order.map_values(|k: int| model[k]),
                forall|k: int| 0 <= k < order.len() ==> 0 <= #[trigger] order[k] < i,
                forall|k: int| at <= k < order.len() ==> !stands_before(model, #[trigger] order[k], i as int),
            decreases at,
        {
            proof {
                assert(roster_view(sorted@)[at - 1] == model[order[at - 1]]);
            }
            at -= 1;
        }
        proof {
            if at > 0 {
                assert(roster_view(sorted@)[at - 1] == model[order[at - 1]]);
                assert(stands_before(model, order[at - 1], i as int));
            }
            lemma_insert_position_at(model, order, i as int, at as int);
        }
        let ghost previous = sorted@;
        sorted.insert(at, players[i].clone());
        proof {
            let next = order.insert(at as int, i as int);
            assert(roster_view(sorted@) =~= next.map_values(|k: int| model[k])) by {
                assert forall|k: int| 0 <= k < next.len() implies roster_view(sorted@)[k]
                    == model[next[k]] by {
                    if k < at {
                        assert(roster_view(previous)[k] == model[order[k]]);
                    } else if k > at {
                        assert(roster_view(previous)[k - 1] == model[order[k - 1]]);
                    }
                }
            }
            order = next;
        }
        i += 1;
    }
    sorted
}

} // verus!
