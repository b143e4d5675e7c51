//! What each command does to the registry, and whom it tells.

use vstd::prelude::*;
use crate::clock::unix_now;
use crate::messages::{Broadcast, BroadcastView, ServerMessage, ServerMessageView};
use crate::models::{Accuracy, GameError, GameState, GameStatus, Player, PlayerView};
use crate::state::{AppState, AppStateView};

verus! {

impl AppStateView {
    /// The registry after a progress report of a player of a session.
    pub open spec fn after_progress(
        self,
        game_id: Seq<char>,
        player_id: Seq<char>,
        progress: u32,
        wpm: u32,
        accuracy: Accuracy,
    ) -> AppStateView {
        match self.game(game_id) {
            Some(game) => self.with_game(game_id, game.progressed(player_id, progress, wpm, accuracy)),
            None => self,
        }
    }
}

/// Takes a progress report of a player and addresses it to the others of
/// the session. The report goes out whether or not the session or the
/// player is known.
pub fn handle_update_progress(
    state: &mut AppState,
    game_id: &str,
    player_id: &str,
    progress: u32,
    wpm: u32,
    accuracy: Accuracy,
) -> (fanout: Broadcast)
    ensures
        final(state)@ == old(state)@.after_progress(game_id@, player_id@, progress, wpm, accuracy),
        fanout@ == (BroadcastView {
            recipients: old(state)@.recipients(game_id@, Some(player_id@)),
            message: ServerMessageView::PlayerProgress {
                player_id: player_id@,
                progress,
                wpm,
                accuracy,
            },
        }),
{
    let report = |game: GameState| -> (after: GameState)
        ensures
            after@ == game@.progressed(player_id@, progress, wpm, accuracy),
        {
            let mut game = game;
            game.update_progress(player_id, progress, wpm, accuracy);
            game
        };
    state.update_game(game_id, report);
    let message = ServerMessage::PlayerProgress {
        player_id: player_id.to_owned(),
        progress,
        wpm,
        accuracy,
    };
    state.broadcast_to_game(game_id, message, Some(player_id))
}

/// What a player gets on joining, and what the others are told.
#[derive(Debug)]
pub struct Joined {
    /// For the player who joined: the session as it is now.
    pub reply: ServerMessage,
    /// For the others of the session: who joined.
    pub announcement: Broadcast,
}

impl AppStateView {
    /// Why a player cannot join a session, if anything stands against it.
    pub open spec fn join_error(self, game_id: Seq<char>) -> Option<GameError> {
        match self.game(game_id) {
            None => Some(GameError::GameNotFound),
            Some(game) => if game.is_full() {
                Some(GameError::AtCapacity)
            } else {
                None
            },
        }
    }

    /// The registry after a player asked to join a session.
    pub open spec fn after_join(self, game_id: Seq<char>, player: PlayerView) -> AppStateView {
        if self.join_error(game_id).is_none() {
            self.with_game(game_id, self.games[game_id].joined(player))
        } else {
            self
        }
    }

    /// The registry after a player left a session.
    pub open spec fn after_leave(self, game_id: Seq<char>, player_id: Seq<char>) -> AppStateView {
        match self.game(game_id) {
            Some(game) => self.with_game(game_id, game.left(player_id)),
            None => self,
        }
    }

    /// Why a player cannot start a session, if anything stands against it.
    pub open spec fn start_error(self, game_id: Seq<char>, player_id: Seq<char>) -> Option<GameError> {
        match self.game(game_id) {
            None => Some(GameError::GameNotFound),
            Some(game) => game.start_error(player_id),
        }
    }

    /// The registry after a player asked at time `now` to start a session.
    pub open spec fn after_start(self, game_id: Seq<char>, player_id: Seq<char>, now: i64) -> AppStateView {
        if self.start_error(game_id, player_id).is_none() {
            self.with_game(game_id, self.games[game_id].started(player_id, now))
        } else {
            self
        }
    }

    /// The registry after a player of a session reported the end of their
    /// run at `finished_at`: the report is recorded, and the race ends with
    /// it if it was being played and everyone has now finished.
    pub open spec fn after_finish(
        self,
        game_id: Seq<char>,
        player_id: Seq<char>,
        wpm: u32,
        accuracy: Accuracy,
        finished_at: i64,
    ) -> AppStateView {
        match self.game(game_id) {
            Some(game) => self.with_game(
                game_id,
                game.finished_by(player_id, wpm, accuracy, finished_at).finalized(),
            ),
            None => self,
        }
    }

    /// What the session is told when a player reports the end of their
    /// run: that the player finished, and after it, if the race ends with
    /// this report, the winner and the standings.
    pub open spec fn finish_broadcasts(
        self,
        game_id: Seq<char>,
        player_id: Seq<char>,
        wpm: u32,
        accuracy: Accuracy,
        finished_at: i64,
    ) -> Seq<BroadcastView> {
        let everyone = self.recipients(game_id, None);
        let report = BroadcastView {
            recipients: everyone,
            message: ServerMessageView::PlayerFinished { player_id, wpm, accuracy, finished_at },
        };
        match self.game(game_id) {
            Some(game) => {
                let recorded = game.finished_by(player_id, wpm, accuracy, finished_at);
                if recorded.ready_to_finalize() {
                    seq![
                        report,
                        BroadcastView {
                            recipients: everyone,
                            message: ServerMessageView::GameFinished {
                                winner_id: recorded.winner(),
                                final_standings: recorded.standings(),
                            },
                        },
                    ]
                } else {
                    seq![report]
                }
            },
            None => seq![report],
        }
    }
}

/// The mathematical values of a list of broadcasts, in order.
pub open spec fn broadcasts_view(fanouts: Seq<Broadcast>) -> Seq<BroadcastView> {
    fanouts.map_values(|fanout: Broadcast| fanout@)
}

/// What everyone connected to a session is told when its race starts.
pub open spec fn start_notice(before: AppStateView, game_id: Seq<char>, now: i64) -> BroadcastView {
    BroadcastView {
        recipients: before.recipients(game_id, None),
        message: ServerMessageView::GameStarted { started_at: now },
    }
}

/// `after` and `outcome` are what comes of the registry `before` when a
/// player asks at time `now` to start a session.
pub open spec fn started_at_time(
    before: AppStateView,
    after: AppStateView,
    outcome: Result<Broadcast, GameError>,
    game_id: Seq<char>,
    player_id: Seq<char>,
    now: i64,
) -> bool {
    &&& after == before.after_start(game_id, player_id, now)
    &&& match outcome {
        Ok(fanout) => {
            &&& before.start_error(game_id, player_id).is_none()
            &&& fanout@ == start_notice(before, game_id, now)
        },
        Err(e) => before.start_error(game_id, player_id) == Some(e),
    }
}

/// `after` and `fanouts` are what comes of the registry `before` when a
/// player of a session reports at time `finished_at` the end of their run.
pub open spec fn finished_at_time(
    before: AppStateView,
    after: AppStateView,
    fanouts: Seq<Broadcast>,
    game_id: Seq<char>,
    player_id: Seq<char>,
    wpm: u32,
    accuracy: Accuracy,
    finished_at: i64,
) -> bool {
    &&& after == before.after_finish(game_id, player_id, wpm, accuracy, finished_at)
    &&& broadcasts_view(fanouts) == before.finish_broadcasts(
        game_id,
        player_id,
        wpm,
        accuracy,
        finished_at,
    )
}

/// Lets a player join a session. Refused with `GameNotFound` where the
/// session is unknown and with `AtCapacity` where its roster is full; a
/// refusal changes nothing and tells nobody. Otherwise the player is
/// appended to the roster, gets the session as it is now, and the others of
/// the session are told who joined.
pub fn handle_player_join(state: &mut AppState, game_id: &str, player: Player) -> (outcome: Result<
    Joined,
    GameError,
>)
    ensures
        final(state)@ == old(state)@.after_join(game_id@, player@),
        match outcome {
            Ok(joined) => {
                &&& old(state)@.join_error(game_id@).is_none()
                &&& joined.reply@ == (ServerMessageView::GameState {
                    game: old(state)@.games[game_id@].joined(player@),
                })
                &&& joined.announcement@ == (BroadcastView {
                    recipients: old(state)@.recipients(game_id@, Some(player@.id)),
                    message: ServerMessageView::PlayerJoined { player: player@ },
                })
            },
            Err(e) => old(state)@.join_error(game_id@) == Some(e),
        },
{
    let before = match state.get_game(game_id) {
        Some(game) => game,
        None => {
            return Err(GameError::GameNotFound);
        },
    };
    if before.players.len() >= before.max_players as usize {
        return Err(GameError::AtCapacity);
    }
    let player_id = player.id.clone();
    let joining = player.clone();
    let join = |game: GameState| -> (after: GameState)
        ensures
            after@ == game@.joined(joining@),
        {
            let mut game = game;
            game.add_player(joining);
            game
        };
    match state.update_game(game_id, join) {
        Some(game) => {
            let announcement = state.broadcast_to_game(
                game_id,
                ServerMessage::PlayerJoined { player },
                Some(player_id.as_str()),
            );
            Ok(Joined { reply: ServerMessage::GameState { game }, announcement })
        },
        None => Err(GameError::GameNotFound),
    }
}

/// Takes a player out of the roster of a session and tells everyone still
/// connected to it. The status of the session stays as it is. The message
/// goes out whether or not the session is known.
pub fn handle_player_leave(state: &mut AppState, game_id: &str, player_id: &str) -> (fanout: Broadcast)
    ensures
        final(state)@ == old(state)@.after_leave(game_id@, player_id@),
        fanout@ == (BroadcastView {
            recipients: old(state)@.recipients(game_id@, None),
            message: ServerMessageView::PlayerLeft { player_id: player_id@ },
        }),
{
    let leave = |game: GameState| -> (after: GameState)
        ensures
            after@ == game@.left(player_id@),
        {
            let mut game = game;
            game.remove_player(player_id);
            game
        };
    state.update_game(game_id, leave);
    state.broadcast_to_game(
        game_id,
        ServerMessage::PlayerLeft { player_id: player_id.to_owned() },
        None,
    )
}

/// Starts a session at time `now` on behalf of a player. Refused with
/// `GameNotFound` where the session is unknown, with `NotHost` for anyone
/// but its host, and with `AlreadyStarted` unless it is waiting; a refusal
/// changes nothing and tells nobody. Otherwise the race is being played
/// from `now` on, and everyone connected to the session is told.
pub fn start_game_at(state: &mut AppState, game_id: &str, player_id: &str, now: i64) -> (outcome:
    Result<Broadcast, GameError>)
    ensures
        started_at_time(old(state)@, final(state)@, outcome, game_id@, player_id@, now),
{
    let game = match state.get_game(game_id) {
        Some(game) => game,
        None => {
            return Err(GameError::GameNotFound);
        },
    };
    match game.check_start(player_id) {
        Ok(()) => {},
        Err(e) => {
            return Err(e);
        },
    }
    let start = |game: GameState| -> (after: GameState)
        ensures
            after@ == game@.started(player_id@, now),
        {
            let mut game = game;
            let _ = game.start_at(player_id, now);
            game
        };
    state.update_game(game_id, start);
    Ok(state.broadcast_to_game(game_id, ServerMessage::GameStarted { started_at: now }, None))
}

/// Starts a session now on behalf of a player: [`start_game_at`] with the
/// time of the call.
pub fn handle_start_game(state: &mut AppState, game_id: &str, player_id: &str) -> (outcome: Result<
    Broadcast,
    GameError,
>)
    ensures
        exists|now: i64|
            started_at_time(old(state)@, final(state)@, outcome, game_id@, player_id@, now),
{
    let now = unix_now();
    start_game_at(state, game_id, player_id, now)
}

/// Records that a player of a session finished at `finished_at` and tells
/// everyone connected to the session. If the race was being played and
/// everyone in it has now finished, the race ends, and everyone is told the
/// winner and the standings as well. The first message goes out whether or
/// not the session or the player is known.
pub fn finish_game_at(
    state: &mut AppState,
    game_id: &str,
    player_id: &str,
    wpm: u32,
    accuracy: Accuracy,
    finished_at: i64,
) -> (fanouts: Vec<Broadcast>)
    ensures
        finished_at_time(
            old(state)@,
            final(state)@,
            fanouts@,
            game_id@,
            player_id@,
            wpm,
            accuracy,
            finished_at,
        ),
{
    let record = |game: GameState| -> (after: GameState)
        ensures
            after@ == game@.finished_by(player_id@, wpm, accuracy, finished_at),
        {
            let mut game = game;
            game.finish_at(player_id, wpm, accuracy, finished_at);
            game
        };
    let snapshot = state.update_game(game_id, record);
    let mut fanouts: Vec<Broadcast> = Vec::new();
    let report = state.broadcast_to_game(
        game_id,
        ServerMessage::PlayerFinished { player_id: player_id.to_owned(), wpm, accuracy, finished_at },
        None,
    );
    fanouts.push(report);
    match snapshot {
        Some(game) => {
            if game.status == GameStatus::Playing && game.check_all_finished() {
                let close = |game: GameState| -> (after: GameState)
                    ensures
                        after@ == game@.finalized(),
                    {
                        let mut game = game;
                        let _ = game.finalize();
                        game
                    };
                state.update_game(game_id, close);
                let winner_id = game.get_winner();
                let final_standings = game.final_standings();
                let result = state.broadcast_to_game(
                    game_id,
                    ServerMessage::GameFinished { winner_id, final_standings },
                    None,
                );
                fanouts.push(result);
                proof {
                    assert(state@.games =~= old(state)@.games.insert(game_id@, game@.finalized()));
                }
            }
        },
        None => {},
    }
    proof {
        assert(broadcasts_view(fanouts@) =~= old(state)@.finish_broadcasts(
            game_id@,
            player_id@,
            wpm,
            accuracy,
            finished_at,
        ));
    }
    fanouts
}

/// Records that a player of a session finished now: [`finish_game_at`]
/// with the time of the call.
pub fn handle_finish_game(
    state: &mut AppState,
    game_id: &str,
    player_id: &str,
    wpm: u32,
    accuracy: Accuracy,
) -> (fanouts: Vec<Broadcast>)
    ensures
        exists|finished_at: i64|
            finished_at_time(
                old(state)@,
                final(state)@,
                fanouts@,
                game_id@,
                player_id@,
                wpm,
                accuracy,
                finished_at,
            ),
{
    let finished_at = unix_now();
    finish_game_at(state, game_id, player_id, wpm, accuracy, finished_at)
}

impl AppStateView {
    /// A join is refused exactly where the session is unknown or full, and
    /// a refused join leaves the registry as it is. An accepted join puts
    /// the player at the end of the roster and touches nothing else.
    pub proof fn lemma_join(self, game_id: Seq<char>, player: PlayerView)
        ensures
            self.join_error(game_id) == Some(GameError::GameNotFound) <==> !self.games.contains_key(
                game_id,
            ),
            self.join_error(game_id) == Some(GameError::AtCapacity) <==> (self.games.contains_key(
                game_id,
            ) && self.games[game_id].is_full()),
            self.join_error(game_id).is_some() ==> self.after_join(game_id, player) == self,
            self.join_error(game_id).is_none() ==> self.after_join(game_id, player).games[game_id].players
                == self.games[game_id].players.push(player),
            self.after_join(game_id, player).connections == self.connections,
            self.after_join(game_id, player).rosters == self.rosters,
    {
    }

    /// Only the host starts a waiting session; any other request is
    /// refused and leaves the registry as it is.
    pub proof fn lemma_start(self, game_id: Seq<char>, player_id: Seq<char>, now: i64)
        ensures
            self.start_error(game_id, player_id).is_none() <==> (self.games.contains_key(game_id)
                && self.games[game_id].status == GameStatus::Waiting && self.games[game_id].host_id
                == player_id),
            self.start_error(game_id, player_id).is_some() ==> self.after_start(
                game_id,
                player_id,
                now,
            ) == self,
            self.start_error(game_id, player_id).is_none() ==> self.after_start(
                game_id,
                player_id,
                now,
            ).games[game_id].status == GameStatus::Playing,
    {
    }

    /// The end of a race is announced by the report that ends it and by no
    /// other: the announcement goes out exactly where the race was being
    /// played and everyone has finished with this report, the race is
    /// finished afterwards, and a finished race is never announced again.
    pub proof fn lemma_finish(
        self,
        game_id: Seq<char>,
        player_id: Seq<char>,
        wpm: u32,
        accuracy: Accuracy,
        finished_at: i64,
    )
        ensures
            1 <= self.finish_broadcasts(game_id, player_id, wpm, accuracy, finished_at).len() <= 2,
            self.finish_broadcasts(game_id, player_id, wpm, accuracy, finished_at).len() == 2 <==> (
            self.games.contains_key(game_id) && self.games[game_id].finished_by(
                player_id,
                wpm,
                accuracy,
                finished_at,
            ).ready_to_finalize()),
            self.finish_broadcasts(game_id, player_id, wpm, accuracy, finished_at).len() == 2 ==> {
                &&& self.games[game_id].status == GameStatus::Playing
                &&& self.after_finish(
                    game_id,
                    player_id,
                    wpm,
                    accuracy,
                    finished_at,
                ).games[game_id].status == GameStatus::Finished
            },
            self.games.contains_key(game_id) && self.games[game_id].status == GameStatus::Finished
                ==> self.finish_broadcasts(game_id, player_id, wpm, accuracy, finished_at).len()
                == 1,
    {
    }
}

} // verus!
