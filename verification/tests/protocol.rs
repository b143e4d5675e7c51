use game_server::auth::Claims;
use game_server::handlers::{
    authenticate, disconnect, handle_inbound, handle_message, ConnectionState, Inbound, Reaction,
};
use game_server::messages::{ClientMessage, ServerMessage};
use game_server::models::{Accuracy, GameStatus};
use game_server::state::AppState;

fn claims(user: &str) -> Claims {
    Claims {
        sub: format!("sub-{user}"),
        user_id: format!("uid-{user}"),
        username: user.to_string(),
        exp: 4_102_444_800,
    }
}

fn auth(game_id: &str, host_id: &str) -> ClientMessage {
    ClientMessage::Auth {
        token: "token".to_string(),
        game_id: game_id.to_string(),
        game_code: "CODE".to_string(),
        difficulty: "easy".to_string(),
        text: "some text".to_string(),
        host_id: host_id.to_string(),
    }
}

/// Lets a user into a session under a chosen player id.
fn enter(state: &mut AppState, game_id: &str, host_id: &str, player_id: &str) -> (ConnectionState, Reaction) {
    let mut connection = ConnectionState::Unauthenticated;
    let reaction = authenticate(
        state,
        &mut connection,
        game_id.to_string(),
        "CODE".to_string(),
        "easy".to_string(),
        "some text".to_string(),
        host_id.to_string(),
        claims(player_id),
        player_id.to_string(),
    );
    (connection, reaction)
}

fn error_text(reaction: &Reaction) -> &str {
    assert_eq!(reaction.replies.len(), 1);
    match &reaction.replies[0] {
        ServerMessage::Error { message } => message.as_str(),
        other => panic!("unexpected reply {other:?}"),
    }
}

fn identity(connection: &ConnectionState) -> Option<(String, String)> {
    connection.identity()
}

fn command(message: ClientMessage) -> Inbound {
    Inbound::Command { message, claims: None }
}

#[test]
fn commands_before_auth_are_refused() {
    let mut state = AppState::new();
    let mut connection = ConnectionState::Unauthenticated;
    let messages = vec![
        ClientMessage::StartGame,
        ClientMessage::UpdateProgress { progress: 1, wpm: 2, accuracy: Accuracy::from_bits(3) },
        ClientMessage::FinishGame { wpm: 2, accuracy: Accuracy::from_bits(3), time_taken: 9 },
        ClientMessage::Ping,
    ];
    for message in messages {
        let reaction = handle_inbound(&mut state, &mut connection, command(message));
        assert_eq!(error_text(&reaction), "Not authenticated");
        assert!(reaction.broadcasts.is_empty());
        assert!(!reaction.closed);
        assert!(identity(&connection).is_none());
    }
    assert_eq!(state.game_count(), 0);
    assert_eq!(state.connection_count(), 0);
}

#[test]
fn a_refused_credential_ends_the_connection() {
    let mut state = AppState::new();
    let mut connection = ConnectionState::Unauthenticated;
    let reaction = handle_inbound(&mut state, &mut connection, command(auth("g1", "h")));
    assert_eq!(error_text(&reaction), "Authentication failed");
    assert!(reaction.broadcasts.is_empty());
    assert!(reaction.closed);
    assert!(identity(&connection).is_none());
    assert_eq!(state.game_count(), 0);
    assert_eq!(state.connection_count(), 0);
}

#[test]
fn an_accepted_credential_creates_the_session_and_joins_it() {
    let mut state = AppState::new();
    let mut connection = ConnectionState::Unauthenticated;
    let event = Inbound::Command { message: auth("g1", "the-host"), claims: Some(claims("ann")) };
    let reaction = handle_inbound(&mut state, &mut connection, event);
    assert!(!reaction.closed);
    let (player_id, game_id) = identity(&connection).expect("authenticated");
    assert_eq!(game_id, "g1");
    assert_eq!(player_id.len(), 36);
    assert_eq!(reaction.replies.len(), 1);
    match &reaction.replies[0] {
        ServerMessage::GameState { game } => {
            assert_eq!(game.id, "g1");
            assert_eq!(game.code, "CODE");
            assert_eq!(game.difficulty, "easy");
            assert_eq!(game.text, "some text");
            assert_eq!(game.host_id, "the-host");
            assert_eq!(game.status, GameStatus::Waiting);
            assert_eq!(game.players.len(), 1);
            assert_eq!(game.players[0].id, player_id);
            assert_eq!(game.players[0].user_id, "uid-ann");
            assert_eq!(game.players[0].username, "ann");
        },
        other => panic!("unexpected reply {other:?}"),
    }
    assert_eq!(reaction.broadcasts.len(), 1);
    assert!(reaction.broadcasts[0].recipients.is_empty());
    assert_eq!(state.game_count(), 1);
    assert_eq!(state.connection_count(), 1);
    assert_eq!(state.send_to_player(&player_id, ServerMessage::Pong).recipients, vec![player_id]);
}

#[test]
fn every_connection_gets_an_id_of_its_own() {
    let mut state = AppState::new();
    let mut first = ConnectionState::Unauthenticated;
    let mut second = ConnectionState::Unauthenticated;
    let a = handle_message(&mut state, &mut first, auth("g1", "h"), Some(claims("ann")));
    let b = handle_message(&mut state, &mut second, auth("g1", "other"), Some(claims("ann")));
    assert!(!a.closed && !b.closed);
    let (id_a, _) = identity(&first).unwrap();
    let (id_b, _) = identity(&second).unwrap();
    assert_ne!(id_a, id_b);
    // The second credential names a session that exists: what it says of
    // the session is passed over, and the first player hears of the second.
    let game = state.get_game("g1").unwrap();
    assert_eq!(game.host_id, "h");
    assert_eq!(game.players.len(), 2);
    assert_eq!(b.broadcasts[0].recipients, vec![id_a]);
    match &b.broadcasts[0].message {
        ServerMessage::PlayerJoined { player } => assert_eq!(player.id, id_b),
        other => panic!("unexpected message {other:?}"),
    }
}

#[test]
fn a_full_session_turns_the_bearer_away() {
    let mut state = AppState::new();
    for i in 0..10 {
        let (connection, reaction) = enter(&mut state, "g1", "p0", &format!("p{i}"));
        assert!(identity(&connection).is_some());
        assert_eq!(reaction.broadcasts[0].recipients.len(), i);
    }
    let (late, reaction) = enter(&mut state, "g1", "p0", "late");
    assert_eq!(error_text(&reaction), "Game is full");
    assert!(reaction.broadcasts.is_empty());
    assert!(!reaction.closed);
    assert!(identity(&late).is_none());
    assert_eq!(state.get_game("g1").unwrap().players.len(), 10);
    assert_eq!(state.connection_count(), 10);
    assert!(state.send_to_player("late", ServerMessage::Pong).recipients.is_empty());
    assert_eq!(state.broadcast_to_game("g1", ServerMessage::Pong, None).recipients.len(), 10);

    // The connection stays open and unauthenticated.
    let mut late = late;
    let next = handle_inbound(&mut state, &mut late, command(ClientMessage::StartGame));
    assert_eq!(error_text(&next), "Not authenticated");
}

#[test]
fn ping_is_answered_with_pong() {
    let mut state = AppState::new();
    let (mut connection, _) = enter(&mut state, "g1", "a", "a");
    let reaction = handle_inbound(&mut state, &mut connection, command(ClientMessage::Ping));
    assert_eq!(reaction.replies.len(), 1);
    assert!(matches!(reaction.replies[0], ServerMessage::Pong));
    assert!(reaction.broadcasts.is_empty());
    assert!(!reaction.closed);
}

#[test]
fn only_the_host_may_start() {
    let mut state = AppState::new();
    let (mut host, _) = enter(&mut state, "g1", "a", "a");
    let (mut guest, _) = enter(&mut state, "g1", "ignored", "b");
    let (_third, _) = enter(&mut state, "g1", "ignored", "c");

    let refused = handle_inbound(&mut state, &mut guest, command(ClientMessage::StartGame));
    assert_eq!(error_text(&refused), "Only the host can start the game");
    assert!(refused.broadcasts.is_empty());
    assert_eq!(state.get_game("g1").unwrap().status, GameStatus::Waiting);

    let started = handle_inbound(&mut state, &mut host, command(ClientMessage::StartGame));
    assert!(started.replies.is_empty());
    assert_eq!(started.broadcasts.len(), 1);
    assert_eq!(started.broadcasts[0].recipients, vec!["a", "b", "c"]);
    assert!(matches!(started.broadcasts[0].message, ServerMessage::GameStarted { .. }));
    assert_eq!(state.get_game("g1").unwrap().status, GameStatus::Playing);

    let again = handle_inbound(&mut state, &mut host, command(ClientMessage::StartGame));
    assert_eq!(error_text(&again), "Game already started");
}

#[test]
fn progress_and_finish_act_for_the_connection() {
    let mut state = AppState::new();
    let (mut a, _) = enter(&mut state, "g1", "a", "a");
    let (mut b, _) = enter(&mut state, "g1", "a", "b");
    assert!(!handle_inbound(&mut state, &mut a, command(ClientMessage::StartGame)).closed);

    let progress = ClientMessage::UpdateProgress {
        progress: 50,
        wpm: 72,
        accuracy: Accuracy::from_bits(96.0f32.to_bits()),
    };
    let told = handle_inbound(&mut state, &mut b, command(progress));
    assert!(told.replies.is_empty());
    assert_eq!(told.broadcasts.len(), 1);
    assert_eq!(told.broadcasts[0].recipients, vec!["a"]);
    let game = state.get_game("g1").unwrap();
    assert_eq!(game.players[1].progress, 50);
    assert_eq!(game.players[0].progress, 0);

    let finish = |wpm| ClientMessage::FinishGame {
        wpm,
        accuracy: Accuracy::from_bits(96.0f32.to_bits()),
        time_taken: 31,
    };
    let first = handle_inbound(&mut state, &mut b, command(finish(75)));
    assert_eq!(first.broadcasts.len(), 1);
    assert_eq!(first.broadcasts[0].recipients, vec!["a", "b"]);
    let last = handle_inbound(&mut state, &mut a, command(finish(60)));
    assert_eq!(last.broadcasts.len(), 2);
    assert!(matches!(last.broadcasts[1].message, ServerMessage::GameFinished { .. }));
    let game = state.get_game("g1").unwrap();
    assert_eq!(game.status, GameStatus::Finished);
    assert_eq!(game.players[0].wpm, 60);
    assert_eq!(game.players[1].wpm, 75);
}

#[test]
fn frames_without_a_command_are_passed_over() {
    let mut state = AppState::new();
    let (mut connection, _) = enter(&mut state, "g1", "a", "a");
    for event in [Inbound::Malformed, Inbound::Ignored] {
        let reaction = handle_inbound(&mut state, &mut connection, event);
        assert!(reaction.replies.is_empty());
        assert!(reaction.broadcasts.is_empty());
        assert!(!reaction.closed);
    }
    assert_eq!(identity(&connection), Some(("a".to_string(), "g1".to_string())));
    assert_eq!(state.connection_count(), 1);
    let mut fresh = ConnectionState::Unauthenticated;
    let reaction = handle_inbound(&mut state, &mut fresh, Inbound::Malformed);
    assert!(reaction.replies.is_empty() && !reaction.closed);
}

#[test]
fn the_end_of_a_connection_is_cleaned_up_once() {
    let mut state = AppState::new();
    let (mut a, _) = enter(&mut state, "g1", "a", "a");
    let (_b, _) = enter(&mut state, "g1", "a", "b");
    let closed = handle_inbound(&mut state, &mut a, Inbound::Closed);
    assert!(closed.closed);
    assert!(closed.replies.is_empty());
    assert_eq!(closed.broadcasts.len(), 1);
    assert_eq!(closed.broadcasts[0].recipients, vec!["b"]);
    match &closed.broadcasts[0].message {
        ServerMessage::PlayerLeft { player_id } => assert_eq!(player_id, "a"),
        other => panic!("unexpected message {other:?}"),
    }
    assert!(identity(&a).is_none());
    assert_eq!(state.connection_count(), 1);
    let game = state.get_game("g1").unwrap();
    assert_eq!(game.players.len(), 1);
    assert_eq!(game.players[0].id, "b");

    let again = disconnect(&mut state, &mut a);
    assert!(again.closed);
    assert!(again.broadcasts.is_empty());
    assert_eq!(state.get_game("g1").unwrap().players.len(), 1);
    assert_eq!(state.connection_count(), 1);
}

#[test]
fn a_failed_transport_ends_the_connection() {
    let mut state = AppState::new();
    let (mut a, _) = enter(&mut state, "g1", "a", "a");
    let failed = handle_inbound(&mut state, &mut a, Inbound::Failed);
    assert!(failed.closed);
    assert_eq!(failed.broadcasts.len(), 1);
    assert!(failed.broadcasts[0].recipients.is_empty());
    assert!(state.get_game("g1").unwrap().players.is_empty());
    assert_eq!(state.connection_count(), 0);
}

#[test]
fn the_end_of_an_unauthenticated_connection_tells_nobody() {
    let mut state = AppState::new();
    let (_a, _) = enter(&mut state, "g1", "a", "a");
    let mut stranger = ConnectionState::Unauthenticated;
    let closed = handle_inbound(&mut state, &mut stranger, Inbound::Closed);
    assert!(closed.closed);
    assert!(closed.replies.is_empty());
    assert!(closed.broadcasts.is_empty());
    assert_eq!(state.get_game("g1").unwrap().players.len(), 1);
}

#[test]
fn a_refused_credential_cleans_up_an_authenticated_connection() {
    let mut state = AppState::new();
    let (mut a, _) = enter(&mut state, "g1", "a", "a");
    let (_b, _) = enter(&mut state, "g1", "a", "b");
    let reaction = handle_inbound(&mut state, &mut a, command(auth("g1", "a")));
    assert!(reaction.closed);
    assert_eq!(error_text(&reaction), "Authentication failed");
    assert_eq!(reaction.broadcasts.len(), 1);
    assert_eq!(reaction.broadcasts[0].recipients, vec!["b"]);
    assert!(matches!(reaction.broadcasts[0].message, ServerMessage::PlayerLeft { .. }));
    assert!(identity(&a).is_none());
    assert_eq!(state.get_game("g1").unwrap().players.len(), 1);
}

#[test]
fn a_player_who_leaves_mid_race_does_not_hold_it_up() {
    let mut state = AppState::new();
    let (mut a, _) = enter(&mut state, "g1", "a", "a");
    let (mut b, _) = enter(&mut state, "g1", "a", "b");
    let (mut c, _) = enter(&mut state, "g1", "a", "c");
    assert!(!handle_inbound(&mut state, &mut a, command(ClientMessage::StartGame)).closed);
    let finish = || ClientMessage::FinishGame {
        wpm: 70,
        accuracy: Accuracy::from_bits(0),
        time_taken: 30,
    };
    let is_end = |reaction: &Reaction| {
        reaction
            .broadcasts
            .iter()
            .filter(|f| matches!(f.message, ServerMessage::GameFinished { .. }))
            .count()
    };
    let mut endings = 0;
    endings += is_end(&handle_inbound(&mut state, &mut a, Inbound::Closed));
    assert_eq!(state.get_game("g1").unwrap().status, GameStatus::Playing);
    endings += is_end(&handle_inbound(&mut state, &mut b, command(finish())));
    assert_eq!(state.get_game("g1").unwrap().status, GameStatus::Playing);
    let last = handle_inbound(&mut state, &mut c, command(finish()));
    endings += is_end(&last);
    assert_eq!(state.get_game("g1").unwrap().status, GameStatus::Finished);
    match &last.broadcasts[1].message {
        ServerMessage::GameFinished { final_standings, .. } => {
            let mut ids: Vec<&str> = final_standings.iter().map(|p| p.id.as_str()).collect();
            ids.sort();
            assert_eq!(ids, vec!["b", "c"]);
        },
        other => panic!("unexpected message {other:?}"),
    }
    assert_eq!(last.broadcasts[1].recipients, vec!["b", "c"]);
    endings += is_end(&handle_inbound(&mut state, &mut b, command(finish())));
    endings += is_end(&handle_inbound(&mut state, &mut c, Inbound::Closed));
    assert_eq!(endings, 1);
}

#[test]
fn reactions_are_put_together() {
    let nothing = Reaction::nothing();
    assert!(nothing.replies.is_empty() && nothing.broadcasts.is_empty() && !nothing.closed);
    let reply = Reaction::reply(ServerMessage::Pong);
    assert_eq!(reply.replies.len(), 1);
    assert!(reply.broadcasts.is_empty() && !reply.closed);
    let state = AppState::new();
    let one = Reaction::tell_one(state.broadcast_to_game("g", ServerMessage::Pong, None));
    assert!(one.replies.is_empty() && !one.closed);
    assert_eq!(one.broadcasts.len(), 1);
    let two = Reaction::tell(vec![
        state.broadcast_to_game("g", ServerMessage::Pong, None),
        state.broadcast_to_game("h", ServerMessage::Pong, None),
    ]);
    assert_eq!(two.broadcasts.len(), 2);
    assert!(two.replies.is_empty() && !two.closed);
    assert!(ConnectionState::Unauthenticated.identity().is_none());
}
