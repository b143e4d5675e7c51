//! What clients send and what they are sent, as values. Turning them into
//! frames and back is the transport's business.

use vstd::prelude::*;
use crate::models::{Accuracy, GameError, GameState, GameStateView, Player, PlayerView, roster_view};

verus! {

/// A command of a client.
#[derive(Debug)]
pub enum ClientMessage {
    Auth {
        token: String,
        game_id: String,
        game_code: String,
        difficulty: String,
        text: String,
        host_id: String,
    },
    StartGame,
    UpdateProgress { progress: u32, wpm: u32, accuracy: Accuracy },
    FinishGame { wpm: u32, accuracy: Accuracy, time_taken: u32 },
    Ping,
}

/// The mathematical value of a [`ClientMessage`].
pub enum ClientMessageView {
    Auth {
        token: Seq<char>,
        game_id: Seq<char>,
        game_code: Seq<char>,
        difficulty: Seq<char>,
        text: Seq<char>,
        host_id: Seq<char>,
    },
    StartGame,
    UpdateProgress { progress: u32, wpm: u32, accuracy: Accuracy },
    FinishGame { wpm: u32, accuracy: Accuracy, time_taken: u32 },
    Ping,
}

impl View for ClientMessage {
    type V = ClientMessageView;

    open spec fn view(&self) -> ClientMessageView {
        match self {
            ClientMessage::Auth { token, game_id, game_code, difficulty, text, host_id } => {
                ClientMessageView::Auth {
                    token: token@,
                    game_id: game_id@,
                    game_code: game_code@,
                    difficulty: difficulty@,
                    text: text@,
                    host_id: host_id@,
                }
            },
            ClientMessage::StartGame => ClientMessageView::StartGame,
            ClientMessage::UpdateProgress { progress, wpm, accuracy } => {
                ClientMessageView::UpdateProgress {
                    progress: *progress,
                    wpm: *wpm,
                    accuracy: *accuracy,
                }
            },
            ClientMessage::FinishGame { wpm, accuracy, time_taken } => {
                ClientMessageView::FinishGame {
                    wpm: *wpm,
                    accuracy: *accuracy,
                    time_taken: *time_taken,
                }
            },
            ClientMessage::Ping => ClientMessageView::Ping,
        }
    }
}

/// An event or a reply for a client.
#[derive(Debug)]
pub enum ServerMessage {
    Connected { player_id: String },
    GameState { game: GameState },
    PlayerJoined { player: Player },
    PlayerLeft { player_id: String },
    GameStarted { started_at: i64 },
    PlayerProgress { player_id: String, progress: u32, wpm: u32, accuracy: Accuracy },
    PlayerFinished { player_id: String, wpm: u32, accuracy: Accuracy, finished_at: i64 },
    GameFinished { winner_id: Option<String>, final_standings: Vec<Player> },
    Error { message: String },
    Pong,
}

/// The mathematical value of a [`ServerMessage`].
pub enum ServerMessageView {
    Connected { player_id: Seq<char> },
    GameState { game: GameStateView },
    PlayerJoined { player: PlayerView },
    PlayerLeft { player_id: Seq<char> },
    GameStarted { started_at: i64 },
    PlayerProgress { player_id: Seq<char>, progress: u32, wpm: u32, accuracy: Accuracy },
    PlayerFinished { player_id: Seq<char>, wpm: u32, accuracy: Accuracy, finished_at: i64 },
    GameFinished { winner_id: Option<Seq<char>>, final_standings: Seq<PlayerView> },
    Error { message: Seq<char> },
    Pong,
}

/// The mathematical value of an id that may be missing.
pub open spec fn id_view(id: Option<String>) -> Option<Seq<char>> {
    match id {
        Some(s) => Some(s@),
        None => None,
    }
}

impl View for ServerMessage {
    type V = ServerMessageView;

    open spec fn view(&self) -> ServerMessageView {
        match self {
            ServerMessage::Connected { player_id } => ServerMessageView::Connected {
                player_id: player_id@,
            },
            ServerMessage::GameState { game } => ServerMessageView::GameState { game: game@ },
            ServerMessage::PlayerJoined { player } => ServerMessageView::PlayerJoined {
                player: player@,
            },
            ServerMessage::PlayerLeft { player_id } => ServerMessageView::PlayerLeft {
                player_id: player_id@,
            },
            ServerMessage::GameStarted { started_at } => ServerMessageView::GameStarted {
                started_at: *started_at,
            },
            ServerMessage::PlayerProgress { player_id, progress, wpm, accuracy } => {
                ServerMessageView::PlayerProgress {
                    player_id: player_id@,
                    progress: *progress,
                    wpm: *wpm,
                    accuracy: *accuracy,
                }
            },
            ServerMessage::PlayerFinished { player_id, wpm, accuracy, finished_at } => {
                ServerMessageView::PlayerFinished {
                    player_id: player_id@,
                    wpm: *wpm,
                    accuracy: *accuracy,
                    finished_at: *finished_at,
                }
            },
            ServerMessage::GameFinished { winner_id, final_standings } => {
                ServerMessageView::GameFinished {
                    winner_id: id_view(*winner_id),
                    final_standings: roster_view(final_standings@),
                }
            },
            ServerMessage::Error { message } => ServerMessageView::Error { message: message@ },
            ServerMessage::Pong => ServerMessageView::Pong,
        }
    }
}

impl ServerMessageView {
    /// The reply that tells a client of a refusal.
    pub open spec fn refusal(error: GameError) -> ServerMessageView {
        ServerMessageView::Error { message: error.text() }
    }
}

impl ServerMessage {
    /// The reply that tells a client of a refusal.
    pub fn refusal(error: GameError) -> (reply: ServerMessage)
        ensures
            reply@ == ServerMessageView::refusal(error),
    {
        ServerMessage::Error { message: error.message() }
    }
}

/// The mathematical values of a list of ids, in order.
pub open spec fn ids_view(ids: Seq<String>) -> Seq<Seq<char>> {
    ids.map_values(|id: String| id@)
}

/// One message and the players it is for, in the order of delivery.
#[derive(Debug)]
pub struct Broadcast {
    pub recipients: Vec<String>,
    pub message: ServerMessage,
}

/// The mathematical value of a [`Broadcast`].
pub struct BroadcastView {
    pub recipients: Seq<Seq<char>>,
    pub message: ServerMessageView,
}

impl View for Broadcast {
    type V = BroadcastView;

    open spec fn view(&self) -> BroadcastView {
        BroadcastView { recipients: ids_view(self.recipients@), message: self.message@ }
    }
}

} // verus!
