//! The race session: its players, its status, and the transitions between
//! them. Every executable function is specified over the mathematical model
//! of the session, [`GameStateView`].

use vstd::prelude::*;
use crate::clock::unix_now;
use crate::standings::{sorted_by_finish, standings_of};
use crate::text::str_eq;

verus! {

/// A typing accuracy, carried as the bit pattern of an IEEE-754
/// single-precision number. The session stores and forwards it unread.
#[derive(Clone, Copy, Debug, PartialEq, Eq, Structural)]
pub struct Accuracy {
    pub bits: u32,
}

impl Accuracy {
    /// The accuracy with the given bit pattern.
    pub fn from_bits(bits: u32) -> (accuracy: Accuracy)
        ensures
            accuracy.bits == bits,
    {
        Accuracy { bits }
    }

    /// The bit pattern of this accuracy.
    pub fn to_bits(self) -> (bits: u32)
        ensures
            bits == self.bits,
    {
        self.bits
    }
}

/// Where a race stands. A race only ever moves forward:
/// `Waiting`, then `Playing`, then `Finished`.
#[derive(Clone, Copy, Debug, PartialEq, Eq, Structural)]
pub enum GameStatus {
    Waiting,
    Playing,
    Finished,
}

impl GameStatus {
    /// The position of a status in the order in which a race passes through them.
    pub open spec fn rank(self) -> nat {
        match self {
            GameStatus::Waiting => 0,
            GameStatus::Playing => 1,
            GameStatus::Finished => 2,
        }
    }
}

/// One connected participant of a race.
#[derive(Debug)]
pub struct Player {
    pub id: String,
    pub user_id: String,
    pub username: String,
    pub wpm: u32,
    pub accuracy: Accuracy,
    pub progress: u32,
    pub finished: bool,
    pub finished_at: Option<i64>,
}

/// The mathematical value of a [`Player`].
pub struct PlayerView {
    pub id: Seq<char>,
    pub user_id: Seq<char>,
    pub username: Seq<char>,
    pub wpm: u32,
    pub accuracy: Accuracy,
    pub progress: u32,
    pub finished: bool,
    pub finished_at: Option<i64>,
}

impl View for Player {
    type V = PlayerView;

    open spec fn view(&self) -> PlayerView {
        PlayerView {
            id: self.id@,
            user_id: self.user_id@,
            username: self.username@,
            wpm: self.wpm,
            accuracy: self.accuracy,
            progress: self.progress,
            finished: self.finished,
            finished_at: self.finished_at,
        }
    }
}

impl PlayerView {
    /// A player who has just connected: nothing typed, not finished.
    pub open spec fn fresh(id: Seq<char>, user_id: Seq<char>, username: Seq<char>) -> PlayerView {
        PlayerView {
            id,
            user_id,
            username,
            wpm: 0,
            accuracy: Accuracy { bits: 0 },
            progress: 0,
            finished: false,
            finished_at: None,
        }
    }

    /// This player with a new progress report.
    pub open spec fn with_progress(self, progress: u32, wpm: u32, accuracy: Accuracy) -> PlayerView {
        PlayerView { progress, wpm, accuracy, ..self }
    }

    /// This player after finishing at `finished_at`.
    pub open spec fn with_finish(self, wpm: u32, accuracy: Accuracy, finished_at: i64) -> PlayerView {
        PlayerView { finished: true, finished_at: Some(finished_at), wpm, accuracy, ..self }
    }

    /// The key by which finishers are ranked: the finishing time, and the
    /// largest time there is for a player without one.
    pub open spec fn finish_key(self) -> int {
        match self.finished_at {
            Some(t) => t as int,
            None => i64::MAX as int,
        }
    }
}

/// Whether a player has another id than the given one.
pub open spec fn other_than(player_id: Seq<char>) -> spec_fn(PlayerView) -> bool {
    |p: PlayerView| p.id != player_id
}

/// The mathematical values of a roster of players, in roster order.
pub open spec fn roster_view(players: Seq<Player>) -> Seq<PlayerView> {
    players.map_values(|p: Player| p@)
}

impl Clone for Player {
    fn clone(&self) -> (copy: Player)
        ensures
            copy@ == self@,
    {
        Player {
            id: self.id.clone(),
            user_id: self.user_id.clone(),
            username: self.username.clone(),
            wpm: self.wpm,
            accuracy: self.accuracy,
            progress: self.progress,
            finished: self.finished,
            finished_at: self.finished_at,
        }
    }
}

impl Player {
    /// A player who has just connected.
    pub fn new(id: String, user_id: String, username: String) -> (player: Player)
        ensures
            player@ == PlayerView::fresh(id@, user_id@, username@),
    {
        Player {
            id,
            user_id,
            username,
            wpm: 0,
            accuracy: Accuracy { bits: 0 },
            progress: 0,
            finished: false,
            finished_at: None,
        }
    }

    /// The key by which finishers are ranked.
    pub fn finish_key(&self) -> (key: i64)
        ensures
            key == self@.finish_key(),
    {
        match self.finished_at {
            Some(t) => t,
            None => i64::MAX,
        }
    }
}

/// Why a command was refused.
#[derive(Clone, Copy, Debug, PartialEq, Eq, Structural)]
pub enum GameError {
    /// The credential was not accepted.
    AuthFailed,
    /// A race command arrived before any credential.
    NotAuthenticated,
    /// No session has the given id.
    GameNotFound,
    /// Someone other than the host tried to start the race.
    NotHost,
    /// The race has left the waiting state.
    AlreadyStarted,
    /// The roster is full.
    AtCapacity,
}

/// The number of players a new session admits.
pub const MAX_PLAYERS: u32 = 10;

/// One race: its roster, its status and what was agreed when it was created.
#[derive(Debug)]
pub struct GameState {
    pub id: String,
    pub code: String,
    pub difficulty: String,
    pub text: String,
    pub host_id: String,
    pub players: Vec<Player>,
    pub status: GameStatus,
    pub started_at: Option<i64>,
    pub max_players: u32,
}

/// The mathematical value of a [`GameState`].
pub struct GameStateView {
    pub id: Seq<char>,
    pub code: Seq<char>,
    pub difficulty: Seq<char>,
    pub text: Seq<char>,
    pub host_id: Seq<char>,
    pub players: Seq<PlayerView>,
    pub status: GameStatus,
    pub started_at: Option<i64>,
    pub max_players: u32,
}

impl View for GameState {
    type V = GameStateView;

    open spec fn view(&self) -> GameStateView {
        GameStateView {
            id: self.id@,
            code: self.code@,
            difficulty: self.difficulty@,
            text: self.text@,
            host_id: self.host_id@,
            players: roster_view(self.players@),
            status: self.status,
            started_at: self.started_at,
            max_players: self.max_players,
        }
    }
}

impl GameStateView {
    /// A session as it is created: waiting, with nobody in it.
    pub open spec fn fresh(
        id: Seq<char>,
        code: Seq<char>,
        difficulty: Seq<char>,
        text: Seq<char>,
        host_id: Seq<char>,
    ) -> GameStateView {
        GameStateView {
            id,
            code,
            difficulty,
            text,
            host_id,
            players: Seq::empty(),
            status: GameStatus::Waiting,
            started_at: None,
            max_players: MAX_PLAYERS,
        }
    }

    /// The roster is within the session's capacity.
    pub open spec fn within_capacity(self) -> bool {
        self.players.len() <= self.max_players
    }

    /// No further player can join.
    pub open spec fn is_full(self) -> bool {
        self.players.len() >= self.max_players
    }

    /// The session after `player` asked to join: appended to the roster,
    /// unless the roster is full.
    pub open spec fn joined(self, player: PlayerView) -> GameStateView {
        if self.is_full() {
            self
        } else {
            GameStateView { players: self.players.push(player), ..self }
        }
    }

    /// The session after every player with the given id has left.
    pub open spec fn left(self, player_id: Seq<char>) -> GameStateView {
        GameStateView {
            players: self.players.filter(other_than(player_id)),
            ..self
        }
    }

    /// Some player of the roster has the given id.
    pub open spec fn has_player(self, player_id: Seq<char>) -> bool {
        exists|i: int| 0 <= i < self.players.len() && (#[trigger] self.players[i]).id == player_id
    }

    /// `i` is the first position of the roster that holds the given id.
    pub open spec fn is_first_with_id(self, player_id: Seq<char>, i: int) -> bool {
        &&& 0 <= i < self.players.len()
        &&& self.players[i].id == player_id
        &&& forall|j: int| 0 <= j < i ==> (#[trigger] self.players[j]).id != player_id
    }

    /// The first position of the roster that holds the given id, where there is one.
    pub open spec fn index_of(self, player_id: Seq<char>) -> int {
        choose|i: int| self.is_first_with_id(player_id, i)
    }

    /// Why `by_player_id` may not start the race, if anything stands against it.
    /// Not being the host is reported before a race that has already started.
    pub open spec fn start_error(self, by_player_id: Seq<char>) -> Option<GameError> {
        if by_player_id != self.host_id {
            Some(GameError::NotHost)
        } else if self.status != GameStatus::Waiting {
            Some(GameError::AlreadyStarted)
        } else {
            None
        }
    }

    /// The session after `by_player_id` asked at time `now` to start the race.
    pub open spec fn started(self, by_player_id: Seq<char>, now: i64) -> GameStateView {
        if self.start_error(by_player_id).is_none() {
            GameStateView { status: GameStatus::Playing, started_at: Some(now), ..self }
        } else {
            self
        }
    }

    /// The session after a progress report of the given player: the first
    /// roster entry with that id takes the three values; without such an
    /// entry nothing changes.
    pub open spec fn progressed(
        self,
        player_id: Seq<char>,
        progress: u32,
        wpm: u32,
        accuracy: Accuracy,
    ) -> GameStateView {
        if self.has_player(player_id) {
            let i = self.index_of(player_id);
            GameStateView {
                players: self.players.update(i, self.players[i].with_progress(progress, wpm, accuracy)),
                ..self
            }
        } else {
            self
        }
    }

    /// The session after the given player reported the end of their run at
    /// `finished_at`. The status is left as it is: see [`Self::finalized`].
    pub open spec fn finished_by(
        self,
        player_id: Seq<char>,
        wpm: u32,
        accuracy: Accuracy,
        finished_at: i64,
    ) -> GameStateView {
        if self.has_player(player_id) {
            let i = self.index_of(player_id);
            GameStateView {
                players: self.players.update(i, self.players[i].with_finish(wpm, accuracy, finished_at)),
                ..self
            }
        } else {
            self
        }
    }

    /// There is at least one player, and every player has finished.
    pub open spec fn all_finished(self) -> bool {
        &&& self.players.len() > 0
        &&& forall|i: int| 0 <= i < self.players.len() ==> (#[trigger] self.players[i]).finished
    }

    /// The race is being played and everyone in it has finished: it is about
    /// to end.
    pub open spec fn ready_to_finalize(self) -> bool {
        self.status == GameStatus::Playing && self.all_finished()
    }

    /// The session after the check that ends a race: `Finished` if it was
    /// being played and everyone has finished, unchanged otherwise.
    pub open spec fn finalized(self) -> GameStateView {
        if self.ready_to_finalize() {
            GameStateView { status: GameStatus::Finished, ..self }
        } else {
            self
        }
    }

    /// `i` is the position of the winner: a finisher whose key no finisher
    /// undercuts, and the first of the roster among those with that key.
    pub open spec fn is_winner_at(self, i: int) -> bool {
        &&& 0 <= i < self.players.len()
        &&& self.players[i].finished
        &&& forall|j: int|
            0 <= j < self.players.len() && (#[trigger] self.players[j]).finished ==> {
                ||| self.players[i].finish_key() < self.players[j].finish_key()
                ||| (self.players[i].finish_key() == self.players[j].finish_key() && i <= j)
            }
    }

    /// The id of the winner, if anyone has finished.
    pub open spec fn winner(self) -> Option<Seq<char>> {
        if exists|i: int| self.is_winner_at(i) {
            Some(self.players[choose|i: int| self.is_winner_at(i)].id)
        } else {
            None
        }
    }
}

/// Taking the values of a roster commutes with removing one entry.
proof fn lemma_roster_view_remove(players: Seq<Player>, i: int)
    requires
        0 <= i < players.len(),
    ensures
        roster_view(players.remove(i)) == roster_view(players).remove(i),
{
    assert(roster_view(players.remove(i)) =~= roster_view(players).remove(i));
}

/// Removes from `players`, in place, every player with the given id.
fn remove_by_id(players: &mut Vec<Player>, player_id: &str)
    ensures
        roster_view(final(players)@) == roster_view(old(players)@).filter(other_than(player_id@)),
{
    let ghost keep = other_than(player_id@);
    let ghost before = roster_view(players@);
    let ghost mut seen: int = 0;
    let mut i: usize = 0;
    proof {
        assert(before.take(0) =~= Seq::empty());
        assert(before.skip(0) =~= before);
        assert(Seq::<PlayerView>::empty().filter(keep) =~= Seq::empty()) by {
            reveal(Seq::filter);
        }
        assert(roster_view(players@) =~= before.take(0).filter(keep) + before.skip(0));
    }
    while i < players.len()
        invariant
            0 <= seen <= before.len(),
            i == before.take(seen).filter(keep).len(),
            roster_view(players@) == before.take(seen).filter(keep) + before.skip(seen),
            keep == other_than(player_id@),
        decreases before.len() - seen,
    {
        let ghost kept = before.take(seen).filter(keep);
        let ghost current = players@;
        proof {
            assert(roster_view(current).len() == kept.len() + before.skip(seen).len());
            assert(seen < before.len());
            assert(roster_view(current)[i as int] == before.skip(seen)[0]);
            assert(current[i as int]@ == before[seen]);
            assert(before.take(seen + 1) =~= before.take(seen).push(before[seen]));
            before.take(seen).lemma_filter_push(before[seen], keep);
        }
        if str_eq(players[i].id.as_str(), player_id) {
            players.remove(i);
            proof {
                lemma_roster_view_remove(current, i as int);
                assert(roster_view(players@) =~= kept + before.skip(seen + 1));
            }
        } else {
            i += 1;
            proof {
                assert(roster_view(players@) =~= kept.push(before[seen]) + before.skip(seen + 1));
            }
        }
        proof {
            seen = seen + 1;
        }
    }
    proof {
        assert(roster_view(players@).len() == i + before.skip(seen).len());
        assert(seen == before.len());
        assert(before.take(seen) =~= before);
        assert(roster_view(players@) =~= before.filter(keep));
    }
}

impl GameState {
    /// A session as it is created: waiting, with nobody in it and room for
    /// [`MAX_PLAYERS`].
    pub fn new(id: String, code: String, difficulty: String, text: String, host_id: String) -> (game:
        GameState)
        ensures
            game@ == GameStateView::fresh(id@, code@, difficulty@, text@, host_id@),
            game@.within_capacity(),
    {
        let game = GameState {
            id,
            code,
            difficulty,
            text,
            host_id,
            players: Vec::new(),
            status: GameStatus::Waiting,
            started_at: None,
            max_players: MAX_PLAYERS,
        };
        proof {
            assert(roster_view(game.players@) =~= Seq::empty());
        }
        game
    }

    /// Lets `player` join: appended to the roster, unless the roster is
    /// full, in which case nothing changes. Says whether the player joined.
    /// An id that is already in the roster is not looked for.
    pub fn add_player(&mut self, player: Player) -> (joined: bool)
        ensures
            joined == !old(self)@.is_full(),
            final(self)@ == old(self)@.joined(player@),
            !joined ==> final(self)@ == old(self)@,
            old(self)@.within_capacity() ==> final(self)@.within_capacity(),
    {
        if self.players.len() >= self.max_players as usize {
            return false;
        }
        self.players.push(player);
        proof {
            assert(roster_view(self.players@) =~= roster_view(old(self).players@).push(player@));
        }
        true
    }

    /// Removes every player with the given id from the roster. The status
    /// stays as it is.
    pub fn remove_player(&mut self, player_id: &str)
        ensures
            final(self)@ == old(self)@.left(player_id@),
    {
        remove_by_id(&mut self.players, player_id);
    }

    /// Whether there is at least one player and every player has finished.
    pub fn check_all_finished(&self) -> (all: bool)
        ensures
            all == self@.all_finished(),
    {
        if self.players.len() == 0 {
            return false;
        }
        let mut i: usize = 0;
        while i < self.players.len()
            invariant
                i <= self.players@.len(),
                forall|j: int| 0 <= j < i ==> (#[trigger] self@.players[j]).finished,
            decreases self.players@.len() - i,
        {
            if !self.players[i].finished {
                proof {
                    assert(!self@.players[i as int].finished);
                }
                return false;
            }
            i += 1;
        }
        true
    }
}

impl GameStateView {
    /// The first position that holds an id is the one position that
    /// [`Self::index_of`] names.
    pub proof fn lemma_index_of(self, player_id: Seq<char>, i: int)
        requires
            self.is_first_with_id(player_id, i),
        ensures
            self.has_player(player_id),
            self.index_of(player_id) == i,
    {
        let k = self.index_of(player_id);
        assert(self.is_first_with_id(player_id, k));
        if k < i {
            assert(self.players[k].id != player_id);
        }
        if i < k {
            assert(self.players[i].id != player_id);
        }
    }
}

impl GameState {
    /// The first position of the roster that holds the given id.
    pub fn position(&self, player_id: &str) -> (found: Option<usize>)
        ensures
            match found {
                Some(i) => self@.is_first_with_id(player_id@, i as int),
                None => !self@.has_player(player_id@),
            },
    {
        let mut i: usize = 0;
        while i < self.players.len()
            invariant
                i <= self.players@.len(),
                forall|j: int| 0 <= j < i ==> (#[trigger] self@.players[j]).id != player_id@,
            decreases self.players@.len() - i,
        {
            if str_eq(self.players[i].id.as_str(), player_id) {
                return Some(i);
            }
            i += 1;
        }
        None
    }

    /// The first player of the roster with the given id, to be changed in
    /// place.
    pub fn get_player_mut(&mut self, player_id: &str) -> (found: Option<&mut Player>)
        ensures
            match found {
                Some(player) => {
                    &&& old(self)@.has_player(player_id@)
                    &&& (*player)@ == old(self)@.players[old(self)@.index_of(player_id@)]
                    &&& final(self)@ == GameStateView {
                        players: old(self)@.players.update(
                            old(self)@.index_of(player_id@),
                            (*final(player))@,
                        ),
                        ..old(self)@
                    }
                },
                None => !old(self)@.has_player(player_id@) && final(self)@ == old(self)@,
            },
    {
        match self.position(player_id) {
            Some(i) => {
                proof {
                    self@.lemma_index_of(player_id@, i as int);
                }
                let player = &mut self.players[i];
                proof {
                    assert(roster_view(old(self).players@.update(i as int, *final(player)))
                        =~= roster_view(old(self).players@).update(i as int, (*final(player))@));
                }
                Some(player)
            },
            None => None,
        }
    }
}

impl GameStateView {
    /// A position that meets [`Self::is_winner_at`] is the winner's.
    pub proof fn lemma_winner_at(self, i: int)
        requires
            self.is_winner_at(i),
        ensures
            self.winner() == Some(self.players[i].id),
    {
        let k = choose|k: int| self.is_winner_at(k);
        assert(self.is_winner_at(k));
        assert(self.players[k].finished && self.players[i].finished);
        assert(k == i);
    }

    /// Without a finisher there is no winner.
    pub proof fn lemma_no_winner(self)
        requires
            forall|j: int| 0 <= j < self.players.len() ==> !(#[trigger] self.players[j]).finished,
        ensures
            self.winner().is_none(),
    {
        if exists|i: int| self.is_winner_at(i) {
            let i = choose|i: int| self.is_winner_at(i);
            assert(self.players[i].finished);
        }
    }
}

impl GameState {
    /// Whether `by_player_id` may start the race: refused with `NotHost`
    /// for anyone but the host, then with `AlreadyStarted` unless the
    /// session is waiting.
    pub fn check_start(&self, by_player_id: &str) -> (outcome: Result<(), GameError>)
        ensures
            match outcome {
                Ok(_) => self@.start_error(by_player_id@).is_none(),
                Err(e) => self@.start_error(by_player_id@) == Some(e),
            },
    {
        if !str_eq(self.host_id.as_str(), by_player_id) {
            return Err(GameError::NotHost);
        }
        if self.status != GameStatus::Waiting {
            return Err(GameError::AlreadyStarted);
        }
        Ok(())
    }

    /// Starts the race at time `now` on behalf of `by_player_id`: refused
    /// with `NotHost` for anyone but the host, then with `AlreadyStarted`
    /// unless the session is waiting. A refusal changes nothing.
    pub fn start_at(&mut self, by_player_id: &str, now: i64) -> (outcome: Result<(), GameError>)
        ensures
            final(self)@ == old(self)@.started(by_player_id@, now),
            match outcome {
                Ok(_) => old(self)@.start_error(by_player_id@).is_none(),
                Err(e) => old(self)@.start_error(by_player_id@) == Some(e),
            },
    {
        match self.check_start(by_player_id) {
            Ok(()) => {
                self.status = GameStatus::Playing;
                self.started_at = Some(now);
                Ok(())
            },
            Err(e) => Err(e),
        }
    }

    /// Starts the race now on behalf of `by_player_id` and returns the
    /// starting time that was recorded; refused as [`Self::start_at`] refuses.
    pub fn start_game(&mut self, by_player_id: &str) -> (outcome: Result<i64, GameError>)
        ensures
            match outcome {
                Ok(now) => {
                    &&& old(self)@.start_error(by_player_id@).is_none()
                    &&& final(self)@ == old(self)@.started(by_player_id@, now)
                },
                Err(e) => {
                    &&& old(self)@.start_error(by_player_id@) == Some(e)
                    &&& final(self)@ == old(self)@
                },
            },
    {
        let now = unix_now();
        match self.start_at(by_player_id, now) {
            Ok(()) => Ok(now),
            Err(e) => Err(e),
        }
    }

    /// Takes a progress report of the given player. The values are stored
    /// as they come; a player who is not in the roster is passed over.
    pub fn update_progress(&mut self, player_id: &str, progress: u32, wpm: u32, accuracy: Accuracy)
        ensures
            final(self)@ == old(self)@.progressed(player_id@, progress, wpm, accuracy),
    {
        match self.get_player_mut(player_id) {
            Some(player) => {
                player.progress = progress;
                player.wpm = wpm;
                player.accuracy = accuracy;
            },
            None => {},
        }
    }

    /// Records that the given player finished at `finished_at`. A second
    /// report of the same player stamps the time anew; a player who is not
    /// in the roster is passed over. The status is not touched.
    pub fn finish_at(&mut self, player_id: &str, wpm: u32, accuracy: Accuracy, finished_at: i64)
        ensures
            final(self)@ == old(self)@.finished_by(player_id@, wpm, accuracy, finished_at),
    {
        match self.get_player_mut(player_id) {
            Some(player) => {
                player.finished = true;
                player.finished_at = Some(finished_at);
                player.wpm = wpm;
                player.accuracy = accuracy;
            },
            None => {},
        }
    }

    /// Records that the given player finished now, and returns the time
    /// that was stamped.
    pub fn finish(&mut self, player_id: &str, wpm: u32, accuracy: Accuracy) -> (finished_at: i64)
        ensures
            final(self)@ == old(self)@.finished_by(player_id@, wpm, accuracy, finished_at),
    {
        let now = unix_now();
        self.finish_at(player_id, wpm, accuracy, now);
        now
    }

    /// Ends the race if it is being played and everyone in it has finished.
    /// Says whether the race ended by this call.
    pub fn finalize(&mut self) -> (ended: bool)
        ensures
            ended == old(self)@.ready_to_finalize(),
            final(self)@ == old(self)@.finalized(),
    {
        if self.status == GameStatus::Playing && self.check_all_finished() {
            self.status = GameStatus::Finished;
            true
        } else {
            false
        }
    }

    /// The id of the winner: the finisher with the smallest finishing time,
    /// and of several with that time the first of the roster. `None` while
    /// nobody has finished.
    pub fn get_winner(&self) -> (winner: Option<String>)
        ensures
            match winner {
                Some(id) => self@.winner() == Some(id@),
                None => self@.winner().is_none(),
            },
            winner.is_none() <==> forall|j: int|
                0 <= j < self@.players.len() ==> !(#[trigger] self@.players[j]).finished,
    {
        let mut best: Option<usize> = None;
        let mut i: usize = 0;
        while i < self.players.len()
            invariant
                i <= self.players@.len(),
                match best {
                    Some(b) => {
                        &&& b < i
                        &&& self@.players[b as int].finished
                        &&& forall|j: int|
                            0 <= j < i && (#[trigger] self@.players[j]).finished ==> {
                                ||| self@.players[b as int].finish_key() < self@.players[j].finish_key()
                                ||| (self@.players[b as int].finish_key()
                                    == self@.players[j].finish_key() && b <= j)
                            }
                    },
                    None => forall|j: int| 0 <= j < i ==> !(#[trigger] self@.players[j]).finished,
                },
            decreases self.players@.len() - i,
        {
            if self.players[i].finished {
                let better = match best {
                    Some(b) => self.players[i].finish_key() < self.players[b].finish_key(),
                    None => true,
                };
                if better {
                    best = Some(i);
                }
            }
            i += 1;
        }
        match best {
            Some(b) => {
                proof {
                    assert(self@.is_winner_at(b as int));
                    self@.lemma_winner_at(b as int);
                }
                Some(self.players[b].id.clone())
            },
            None => {
                proof {
                    self@.lemma_no_winner();
                }
                None
            },
        }
    }
}

impl Clone for GameState {
    fn clone(&self) -> (copy: GameState)
        ensures
            copy@ == self@,
    {
        let mut players: Vec<Player> = Vec::new();
        let mut i: usize = 0;
        while i < self.players.len()
            invariant
                i <= self.players@.len(),
                players@.len() == i,
                forall|j: int| 0 <= j < i ==> (#[trigger] players@[j])@ == self.players@[j]@,
            decreases self.players@.len() - i,
        {
            players.push(self.players[i].clone());
            i += 1;
        }
        proof {
            assert(roster_view(players@) =~= roster_view(self.players@));
        }
        GameState {
            id: self.id.clone(),
            code: self.code.clone(),
            difficulty: self.difficulty.clone(),
            text: self.text.clone(),
            host_id: self.host_id.clone(),
            players,
            status: self.status,
            started_at: self.started_at,
            max_players: self.max_players,
        }
    }
}

impl GameStateView {
    /// The final standings: the roster by finishing time, players of equal
    /// time in roster order, players without a time last.
    pub open spec fn standings(self) -> Seq<PlayerView> {
        standings_of(self.players)
    }
}

impl GameState {
    /// The final standings, each player a copy.
    pub fn final_standings(&self) -> (standings: Vec<Player>)
        ensures
            roster_view(standings@) == self@.standings(),
    {
        sorted_by_finish(&self.players)
    }
}

impl GameError {
    /// What the client is told of this refusal.
    pub open spec fn text(self) -> Seq<char> {
        match self {
            GameError::AuthFailed => "Authentication failed"@,
            GameError::NotAuthenticated => "Not authenticated"@,
            GameError::GameNotFound => "Game not found"@,
            GameError::NotHost => "Only the host can start the game"@,
            GameError::AlreadyStarted => "Game already started"@,
            GameError::AtCapacity => "Game is full"@,
        }
    }

    /// What the client is told of this refusal.
    pub fn message(&self) -> (text: String)
        ensures
            text@ == self.text(),
    {
        match self {
            GameError::AuthFailed => "Authentication failed".to_owned(),
            GameError::NotAuthenticated => "Not authenticated".to_owned(),
            GameError::GameNotFound => "Game not found".to_owned(),
            GameError::NotHost => "Only the host can start the game".to_owned(),
            GameError::AlreadyStarted => "Game already started".to_owned(),
            GameError::AtCapacity => "Game is full".to_owned(),
        }
    }
}

} // verus!
