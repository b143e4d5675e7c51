//! What holds of a session whatever happens to it.

use vstd::prelude::*;
use crate::models::{Accuracy, GameError, GameStateView, GameStatus, PlayerView, other_than};
use crate::state::{AppStateView, PlayerConnectionView};

verus! {

/// One thing that can happen to a session.
pub enum Transition {
    Join { player: PlayerView },
    Leave { player_id: Seq<char> },
    Start { by_player_id: Seq<char>, now: i64 },
    Progress { player_id: Seq<char>, progress: u32, wpm: u32, accuracy: Accuracy },
    Finish { player_id: Seq<char>, wpm: u32, accuracy: Accuracy, finished_at: i64 },
    Finalize,
}

impl GameStateView {
    /// The session after one transition.
    pub open spec fn after(self, transition: Transition) -> GameStateView {
        match transition {
            Transition::Join { player } => self.joined(player),
            Transition::Leave { player_id } => self.left(player_id),
            Transition::Start { by_player_id, now } => self.started(by_player_id, now),
            Transition::Progress { player_id, progress, wpm, accuracy } => self.progressed(
                player_id,
                progress,
                wpm,
                accuracy,
            ),
            Transition::Finish { player_id, wpm, accuracy, finished_at } => self.finished_by(
                player_id,
                wpm,
                accuracy,
                finished_at,
            ),
            Transition::Finalize => self.finalized(),
        }
    }

    /// The session after a sequence of transitions, first to last.
    pub open spec fn after_all(self, transitions: Seq<Transition>) -> GameStateView
        decreases transitions.len(),
    {
        if transitions.len() == 0 {
            self
        } else {
            self.after_all(transitions.drop_last()).after(transitions.last())
        }
    }

    /// The session after each of `players` in turn asked to join.
    pub open spec fn joined_all(self, players: Seq<PlayerView>) -> GameStateView
        decreases players.len(),
    {
        if players.len() == 0 {
            self
        } else {
            self.joined_all(players.drop_last()).joined(players.last())
        }
    }

    /// A join leaves a roster within its capacity within it, and a join
    /// that finds the roster full changes nothing.
    pub proof fn lemma_join(self, player: PlayerView)
        ensures
            self.within_capacity() ==> self.joined(player).within_capacity(),
            self.is_full() ==> self.joined(player) == self,
            !self.is_full() ==> self.joined(player).players == self.players.push(player),
            self.joined(player).max_players == self.max_players,
    {
    }

    /// However many players ask to join a new session, its roster never
    /// grows beyond its capacity.
    pub proof fn lemma_joins_within_capacity(
        id: Seq<char>,
        code: Seq<char>,
        difficulty: Seq<char>,
        text: Seq<char>,
        host_id: Seq<char>,
        players: Seq<PlayerView>,
    )
        ensures
            GameStateView::fresh(id, code, difficulty, text, host_id).joined_all(
                players,
            ).within_capacity(),
        decreases players.len(),
    {
        let fresh = GameStateView::fresh(id, code, difficulty, text, host_id);
        if players.len() > 0 {
            Self::lemma_joins_within_capacity(id, code, difficulty, text, host_id, players.drop_last());
            fresh.joined_all(players.drop_last()).lemma_join(players.last());
        }
    }

    /// Before a position that holds an id there is a first one that does.
    proof fn lemma_first_before(self, player_id: Seq<char>, k: int)
        requires
            0 <= k < self.players.len(),
            self.players[k].id == player_id,
        ensures
            exists|i: int| self.is_first_with_id(player_id, i),
        decreases k,
    {
        if exists|j: int| 0 <= j < k && (#[trigger] self.players[j]).id == player_id {
            let j = choose|j: int| 0 <= j < k && (#[trigger] self.players[j]).id == player_id;
            self.lemma_first_before(player_id, j);
        } else {
            assert(self.is_first_with_id(player_id, k));
        }
    }

    /// Where the roster holds an id, [`Self::index_of`] is the first
    /// position that holds it.
    pub proof fn lemma_has_first(self, player_id: Seq<char>)
        requires
            self.has_player(player_id),
        ensures
            self.is_first_with_id(player_id, self.index_of(player_id)),
    {
        let k = choose|k: int| 0 <= k < self.players.len() && (#[trigger] self.players[k]).id == player_id;
        self.lemma_first_before(player_id, k);
    }

    /// No transition takes a roster beyond its capacity, and none changes
    /// the capacity or what the session was created with.
    pub proof fn lemma_capacity_kept(self, transition: Transition)
        ensures
            self.within_capacity() ==> self.after(transition).within_capacity(),
            self.after(transition).max_players == self.max_players,
            self.after(transition).id == self.id,
            self.after(transition).host_id == self.host_id,
    {
        match transition {
            Transition::Leave { player_id } => {
                self.players.lemma_filter_len(other_than(player_id));
            },
            Transition::Progress { player_id, progress, wpm, accuracy } => {
                if self.has_player(player_id) {
                    self.lemma_has_first(player_id);
                }
            },
            Transition::Finish { player_id, wpm, accuracy, finished_at } => {
                if self.has_player(player_id) {
                    self.lemma_has_first(player_id);
                }
            },
            _ => {},
        }
    }

    /// The race starts exactly where the session is waiting and the host
    /// asks. Any other request is refused and changes nothing.
    pub proof fn lemma_start(self, by_player_id: Seq<char>, now: i64)
        ensures
            self.start_error(by_player_id).is_none() <==> (self.status == GameStatus::Waiting
                && by_player_id == self.host_id),
            self.start_error(by_player_id).is_none() ==> self.started(by_player_id, now)
                == (GameStateView { status: GameStatus::Playing, started_at: Some(now), ..self }),
            self.start_error(by_player_id).is_some() ==> self.started(by_player_id, now) == self,
            self.start_error(by_player_id) == Some(GameError::NotHost) <==> by_player_id
                != self.host_id,
    {
    }

    /// An empty roster has not finished, nor has one with a player who has
    /// not; a roster with players who have all finished has.
    pub proof fn lemma_all_finished(self)
        ensures
            self.players.len() == 0 ==> !self.all_finished(),
            (exists|i: int| 0 <= i < self.players.len() && !(#[trigger] self.players[i]).finished)
                ==> !self.all_finished(),
            (self.players.len() > 0 && forall|i: int|
                0 <= i < self.players.len() ==> (#[trigger] self.players[i]).finished)
                ==> self.all_finished(),
    {
    }

    /// The check that ends a race ends it at most once: after it, the same
    /// check finds nothing to do.
    pub proof fn lemma_finalize_once(self)
        ensures
            !self.finalized().ready_to_finalize(),
            self.finalized().finalized() == self.finalized(),
            self.ready_to_finalize() ==> self.finalized().status == GameStatus::Finished,
            !self.ready_to_finalize() ==> self.finalized() == self,
    {
    }

    /// A transition leaves the status where it is or moves it one step
    /// forward: from waiting to playing, or from playing to finished.
    pub proof fn lemma_status_step(self, transition: Transition)
        ensures
            self.after(transition).status == self.status || self.after(transition).status.rank()
                == self.status.rank() + 1,
    {
    }

    /// The status never moves backward.
    pub proof fn lemma_status_monotonic(self, transitions: Seq<Transition>)
        ensures
            self.after_all(transitions).status.rank() >= self.status.rank(),
        decreases transitions.len(),
    {
        if transitions.len() > 0 {
            self.lemma_status_monotonic(transitions.drop_last());
            self.after_all(transitions.drop_last()).lemma_status_step(transitions.last());
        }
    }

    /// A finished race stays finished, and never ends a second time.
    pub proof fn lemma_finished_is_final(self, transitions: Seq<Transition>)
        requires
            self.status == GameStatus::Finished,
        ensures
            self.after_all(transitions).status == GameStatus::Finished,
            !self.after_all(transitions).ready_to_finalize(),
    {
        self.lemma_status_monotonic(transitions);
    }

    /// The winner, where there is one, has finished, and no finisher has a
    /// smaller finishing time; of the finishers with the winner's time the
    /// winner is the first in the roster. There is none only while nobody
    /// has finished.
    pub proof fn lemma_winner(self)
        ensures
            match self.winner() {
                Some(id) => exists|i: int| self.is_winner_at(i) && self.players[i].id == id,
                None => forall|j: int|
                    0 <= j < self.players.len() ==> !(#[trigger] self.players[j]).finished,
            },
    {
        if exists|i: int| self.is_winner_at(i) {
            let i = choose|i: int| self.is_winner_at(i);
            assert(self.is_winner_at(i) && self.players[i].id == self.winner().unwrap());
        } else {
            if exists|j: int| 0 <= j < self.players.len() && (#[trigger] self.players[j]).finished {
                let n = self.players.len() as int;
                self.lemma_some_winner(n);
                let i = choose|i: int| self.leads(n, i);
                assert(self.is_winner_at(i));
            }
        }
    }

    /// Among the first `n` players, if one has finished, one stands first.
    proof fn lemma_some_winner(self, n: int)
        requires
            0 <= n <= self.players.len(),
        ensures
            (exists|j: int| 0 <= j < n && (#[trigger] self.players[j]).finished) ==> exists|i: int|
                self.leads(n, i),
        decreases n,
    {
        if n > 0 {
            let last = n - 1;
            self.lemma_some_winner(last);
            if exists|j: int| 0 <= j < last && (#[trigger] self.players[j]).finished {
                let i = choose|i: int| self.leads(last, i);
                if self.players[last].finished && self.players[last].finish_key()
                    < self.players[i].finish_key() {
                    assert(self.leads(n, last));
                } else {
                    assert(self.leads(n, i));
                }
            } else if self.players[last].finished {
                assert(self.leads(n, last));
            }
        }
    }

    /// Position `i` is the winner's among the first `n` players.
    pub open spec fn leads(self, n: int, i: int) -> bool {
        &&& 0 <= i < n
        &&& self.players[i].finished
        &&& forall|j: int|
            0 <= j < n && (#[trigger] self.players[j]).finished ==> {
                ||| self.players[i].finish_key() < self.players[j].finish_key()
                ||| (self.players[i].finish_key() == self.players[j].finish_key() && i <= j)
            }
    }
}

/// `first` stands in the roster somewhere before `second`.
pub open spec fn stand_in_order(players: Seq<PlayerView>, first: PlayerView, second: PlayerView) -> bool {
    exists|i: int, j: int|
        0 <= i < j < players.len() && #[trigger] players[i] == first && #[trigger] players[j]
            == second
}

/// What is left of a roster when players leave keeps the order of the
/// roster: any two that stay stood in the same order before.
proof fn lemma_filter_keeps_order(players: Seq<PlayerView>, keep: spec_fn(PlayerView) -> bool)
    ensures
        forall|a: int, b: int|
            0 <= a < b < players.filter(keep).len() ==> stand_in_order(
                players,
                #[trigger] players.filter(keep)[a],
                #[trigger] players.filter(keep)[b],
            ),
    decreases players.len(),
{
    reveal(Seq::filter);
    if players.len() > 0 {
        let rest = players.drop_last();
        let kept = rest.filter(keep);
        let all = players.filter(keep);
        lemma_filter_keeps_order(rest, keep);
        assert forall|a: int, b: int| 0 <= a < b < all.len() implies stand_in_order(
            players,
            #[trigger] all[a],
            #[trigger] all[b],
        ) by {
            if b < kept.len() {
                assert(stand_in_order(rest, kept[a], kept[b]));
                let (i, j) = choose|i: int, j: int|
                    0 <= i < j < rest.len() && #[trigger] rest[i] == kept[a] && #[trigger] rest[j]
                        == kept[b];
                assert(players[i] == all[a] && players[j] == all[b]);
            } else {
                rest.lemma_filter_contains_rev(keep, kept[a]);
                let i = choose|i: int| 0 <= i < rest.len() && rest[i] == kept[a];
                let j = players.len() - 1;
                assert(players[i] == all[a] && players[j] == all[b]);
            }
        }
    }
}

impl GameStateView {
    /// No two players of the roster have the same id.
    pub open spec fn unique_ids(self) -> bool {
        forall|i: int, j: int|
            0 <= i < j < self.players.len() ==> (#[trigger] self.players[i]).id != (
            #[trigger] self.players[j]).id
    }

    /// As long as nobody joins under an id that is in the roster, no two
    /// players of the roster have the same id.
    pub proof fn lemma_unique_ids_kept(self, transition: Transition)
        requires
            self.unique_ids(),
            transition matches Transition::Join { player } ==> !self.has_player(player.id),
        ensures
            self.after(transition).unique_ids(),
    {
        let after = self.after(transition);
        match transition {
            Transition::Join { player } => {
                assert forall|i: int, j: int| 0 <= i < j < after.players.len() implies (
                #[trigger] after.players[i]).id != (#[trigger] after.players[j]).id by {
                    if j == self.players.len() {
                        assert(self.players[i].id != player.id);
                    } else {
                        assert(self.players[i].id != self.players[j].id);
                    }
                }
            },
            Transition::Leave { player_id } => {
                lemma_filter_keeps_order(self.players, other_than(player_id));
                assert forall|a: int, b: int| 0 <= a < b < after.players.len() implies (
                #[trigger] after.players[a]).id != (#[trigger] after.players[b]).id by {
                    assert(stand_in_order(self.players, after.players[a], after.players[b]));
                    let (i, j) = choose|i: int, j: int|
                        0 <= i < j < self.players.len() && #[trigger] self.players[i]
                            == after.players[a] && #[trigger] self.players[j] == after.players[b];
                    assert(self.players[i].id != self.players[j].id);
                }
            },
            Transition::Progress { player_id, progress, wpm, accuracy } => {
                if self.has_player(player_id) {
                    self.lemma_has_first(player_id);
                    assert forall|i: int, j: int| 0 <= i < j < after.players.len() implies (
                    #[trigger] after.players[i]).id != (#[trigger] after.players[j]).id by {
                        assert(self.players[i].id != self.players[j].id);
                    }
                }
            },
            Transition::Finish { player_id, wpm, accuracy, finished_at } => {
                if self.has_player(player_id) {
                    self.lemma_has_first(player_id);
                    assert forall|i: int, j: int| 0 <= i < j < after.players.len() implies (
                    #[trigger] after.players[i]).id != (#[trigger] after.players[j]).id by {
                        assert(self.players[i].id != self.players[j].id);
                    }
                }
            },
            _ => {},
        }
    }
}

impl AppStateView {
    /// Every session is kept under its own id and has a roster within its
    /// capacity.
    pub open spec fn sound(self) -> bool {
        forall|game_id: Seq<char>| #[trigger]
            self.games.contains_key(game_id) ==> self.games[game_id].id == game_id
                && self.games[game_id].within_capacity()
    }

    /// The registry starts out sound, and whatever a command does to it
    /// leaves it sound: no session ever holds more players than it admits.
    pub proof fn lemma_sound_kept(
        self,
        game_id: Seq<char>,
        player: PlayerView,
        transition: Transition,
        code: Seq<char>,
        difficulty: Seq<char>,
        text: Seq<char>,
        host_id: Seq<char>,
        connection: PlayerConnectionView,
    )
        requires
            self.sound(),
        ensures
            AppStateView::empty().sound(),
            self.with_new_game(GameStateView::fresh(game_id, code, difficulty, text, host_id)).sound(),
            self.after_join(game_id, player).sound(),
            self.games.contains_key(game_id) ==> self.with_game(
                game_id,
                self.games[game_id].after(transition),
            ).sound(),
            self.registered(player.id, connection).sound(),
            self.unregistered(player.id).sound(),
    {
        if self.games.contains_key(game_id) {
            self.games[game_id].lemma_capacity_kept(transition);
            self.games[game_id].lemma_capacity_kept(Transition::Join { player });
        }
    }
}

} // verus!
