use game_server::game::{
    finish_game_at, handle_finish_game, handle_player_join, handle_player_leave, handle_start_game,
    handle_update_progress, start_game_at,
};
use game_server::messages::{Broadcast, ServerMessage};
use game_server::models::{Accuracy, GameError, GameState, GameStatus, Player};
use game_server::state::{AppState, PlayerConnection};

fn session(id: &str, host: &str) -> GameState {
    GameState::new(
        id.to_string(),
        "CODE".to_string(),
        "hard".to_string(),
        "lorem ipsum".to_string(),
        host.to_string(),
    )
}

fn player(id: &str) -> Player {
    Player::new(id.to_string(), format!("user-{id}"), format!("name-{id}"))
}

fn connection(player_id: &str, game_id: &str) -> PlayerConnection {
    PlayerConnection {
        player_id: player_id.to_string(),
        user_id: format!("user-{player_id}"),
        game_id: game_id.to_string(),
    }
}

/// Registers a connection and joins the session, as a connection does.
fn enter(state: &mut AppState, game_id: &str, player_id: &str) {
    state.add_player_connection(player_id.to_string(), connection(player_id, game_id));
    assert!(handle_player_join(state, game_id, player(player_id)).is_ok());
}

fn roster(state: &AppState, game_id: &str) -> Vec<String> {
    state.get_game(game_id).unwrap().players.iter().map(|p| p.id.clone()).collect()
}

fn everyone(state: &AppState, game_id: &str) -> Vec<String> {
    state.broadcast_to_game(game_id, ServerMessage::Pong, None).recipients
}

fn is_game_finished(fanout: &Broadcast) -> bool {
    matches!(fanout.message, ServerMessage::GameFinished { .. })
}

#[test]
fn new_registry_holds_nothing() {
    let state = AppState::new();
    assert!(state.get_game("g1").is_none());
    assert_eq!(state.game_count(), 0);
    assert_eq!(state.connection_count(), 0);
    assert!(everyone(&state, "g1").is_empty());
}

#[test]
fn add_game_keeps_the_session_under_its_id() {
    let mut state = AppState::new();
    state.add_game(session("g1", "h1"));
    state.add_game(session("g2", "h2"));
    assert_eq!(state.game_count(), 2);
    let g1 = state.get_game("g1").unwrap();
    assert_eq!(g1.id, "g1");
    assert_eq!(g1.host_id, "h1");
    assert_eq!(g1.code, "CODE");
    assert_eq!(state.get_game("g2").unwrap().host_id, "h2");
    assert!(state.get_game("g3").is_none());
}

#[test]
fn add_game_does_not_replace_a_session() {
    let mut state = AppState::new();
    state.add_game(session("g1", "first"));
    assert!(handle_player_join(&mut state, "g1", player("p1")).is_ok());
    state.add_game(session("g1", "second"));
    let game = state.get_game("g1").unwrap();
    assert_eq!(game.host_id, "first");
    assert_eq!(game.players.len(), 1);
    assert_eq!(state.game_count(), 1);
}

#[test]
fn get_game_hands_out_a_copy() {
    let mut state = AppState::new();
    state.add_game(session("g1", "h"));
    let mut copy = state.get_game("g1").unwrap();
    assert!(copy.add_player(player("p1")));
    copy.status = GameStatus::Finished;
    let again = state.get_game("g1").unwrap();
    assert!(again.players.is_empty());
    assert_eq!(again.status, GameStatus::Waiting);
}

#[test]
fn update_game_applies_the_transition_and_returns_the_result() {
    let mut state = AppState::new();
    state.add_game(session("g1", "h"));
    state.add_game(session("g2", "h"));
    let snapshot = state
        .update_game("g1", |mut game| {
            game.add_player(player("p1"));
            game.status = GameStatus::Playing;
            game
        })
        .unwrap();
    assert_eq!(snapshot.players.len(), 1);
    assert_eq!(snapshot.status, GameStatus::Playing);
    let stored = state.get_game("g1").unwrap();
    assert_eq!(stored.players.len(), 1);
    assert_eq!(stored.players[0].id, "p1");
    assert_eq!(stored.status, GameStatus::Playing);
    let other = state.get_game("g2").unwrap();
    assert!(other.players.is_empty());
    assert_eq!(other.status, GameStatus::Waiting);
}

#[test]
fn update_game_of_an_unknown_session_does_nothing() {
    let mut state = AppState::new();
    state.add_game(session("g1", "h"));
    let mut called = false;
    let snapshot = state.update_game("nope", |game| {
        called = true;
        game
    });
    assert!(snapshot.is_none());
    assert!(!called);
    assert_eq!(state.game_count(), 1);
    assert!(state.get_game("nope").is_none());
}

#[test]
fn connections_are_listed_in_the_order_of_registration() {
    let mut state = AppState::new();
    state.add_game(session("g1", "h"));
    for id in ["c", "a", "b"] {
        state.add_player_connection(id.to_string(), connection(id, "g1"));
    }
    state.add_player_connection("x".to_string(), connection("x", "g2"));
    assert_eq!(state.connection_count(), 4);
    assert_eq!(everyone(&state, "g1"), vec!["c", "a", "b"]);
    assert_eq!(everyone(&state, "g2"), vec!["x"]);
}

#[test]
fn remove_connection_returns_the_session_and_clears_the_roster() {
    let mut state = AppState::new();
    for id in ["a", "b", "c"] {
        state.add_player_connection(id.to_string(), connection(id, "g1"));
    }
    assert_eq!(state.remove_player_connection("b"), Some("g1".to_string()));
    assert_eq!(state.connection_count(), 2);
    assert_eq!(everyone(&state, "g1"), vec!["a", "c"]);
    assert_eq!(state.remove_player_connection("b"), None);
    assert_eq!(everyone(&state, "g1"), vec!["a", "c"]);
}

#[test]
fn remove_connection_of_a_stranger_is_harmless() {
    let mut state = AppState::new();
    assert_eq!(state.remove_player_connection("ghost"), None);
    state.add_player_connection("a".to_string(), connection("a", "g1"));
    assert_eq!(state.remove_player_connection("ghost"), None);
    assert_eq!(state.connection_count(), 1);
    assert_eq!(everyone(&state, "g1"), vec!["a"]);
}

#[test]
fn broadcast_skips_the_sender() {
    let mut state = AppState::new();
    for id in ["a", "b", "c"] {
        state.add_player_connection(id.to_string(), connection(id, "g1"));
    }
    let fanout = state.broadcast_to_game(
        "g1",
        ServerMessage::PlayerLeft { player_id: "zed".to_string() },
        Some("b"),
    );
    assert_eq!(fanout.recipients, vec!["a", "c"]);
    match fanout.message {
        ServerMessage::PlayerLeft { player_id } => assert_eq!(player_id, "zed"),
        other => panic!("unexpected message {other:?}"),
    }
    let all = state.broadcast_to_game("g1", ServerMessage::Pong, Some("nobody"));
    assert_eq!(all.recipients, vec!["a", "b", "c"]);
}

#[test]
fn broadcast_skips_players_whose_connection_is_gone() {
    let mut state = AppState::new();
    for id in ["a", "b"] {
        state.add_player_connection(id.to_string(), connection(id, "g1"));
    }
    // The same player registers for a second session: the connection record
    // now points there, and leaving it takes the record away.
    state.add_player_connection("a".to_string(), connection("a", "g2"));
    assert_eq!(state.remove_player_connection("a"), Some("g2".to_string()));
    assert_eq!(everyone(&state, "g1"), vec!["b"]);
    assert!(everyone(&state, "g2").is_empty());
}

#[test]
fn broadcast_to_an_unknown_session_reaches_nobody() {
    let mut state = AppState::new();
    state.add_player_connection("a".to_string(), connection("a", "g1"));
    assert!(everyone(&state, "other").is_empty());
}

#[test]
fn send_to_player_needs_a_connection() {
    let mut state = AppState::new();
    state.add_player_connection("a".to_string(), connection("a", "g1"));
    let sent = state.send_to_player("a", ServerMessage::Pong);
    assert_eq!(sent.recipients, vec!["a"]);
    assert!(matches!(sent.message, ServerMessage::Pong));
    let lost = state.send_to_player("b", ServerMessage::Pong);
    assert!(lost.recipients.is_empty());
}

#[test]
fn join_replies_with_the_session_and_tells_the_others() {
    let mut state = AppState::new();
    state.add_game(session("g1", "a"));
    enter(&mut state, "g1", "a");
    enter(&mut state, "g1", "b");
    state.add_player_connection("c".to_string(), connection("c", "g1"));
    let joined = handle_player_join(&mut state, "g1", player("c")).unwrap();
    match joined.reply {
        ServerMessage::GameState { game } => {
            assert_eq!(game.id, "g1");
            let ids: Vec<&str> = game.players.iter().map(|p| p.id.as_str()).collect();
            assert_eq!(ids, vec!["a", "b", "c"]);
        },
        other => panic!("unexpected reply {other:?}"),
    }
    assert_eq!(joined.announcement.recipients, vec!["a", "b"]);
    match joined.announcement.message {
        ServerMessage::PlayerJoined { player } => {
            assert_eq!(player.id, "c");
            assert_eq!(player.username, "name-c");
        },
        other => panic!("unexpected message {other:?}"),
    }
    assert_eq!(roster(&state, "g1"), vec!["a", "b", "c"]);
}

#[test]
fn join_of_an_unknown_session_is_refused() {
    let mut state = AppState::new();
    let refused = handle_player_join(&mut state, "g1", player("a"));
    assert_eq!(refused.err(), Some(GameError::GameNotFound));
    assert_eq!(state.game_count(), 0);
}

#[test]
fn join_of_a_full_session_is_refused() {
    let mut state = AppState::new();
    state.add_game(session("g1", "p0"));
    for i in 0..10 {
        enter(&mut state, "g1", &format!("p{i}"));
    }
    let before = roster(&state, "g1");
    assert_eq!(before.len(), 10);
    let refused = handle_player_join(&mut state, "g1", player("late"));
    assert_eq!(refused.err(), Some(GameError::AtCapacity));
    assert_eq!(roster(&state, "g1"), before);
}

#[test]
fn only_the_host_starts_the_race() {
    let mut state = AppState::new();
    state.add_game(session("g1", "host"));
    enter(&mut state, "g1", "host");
    enter(&mut state, "g1", "p2");
    enter(&mut state, "g1", "p3");

    let refused = handle_start_game(&mut state, "g1", "p2");
    assert_eq!(refused.err(), Some(GameError::NotHost));
    let game = state.get_game("g1").unwrap();
    assert_eq!(game.status, GameStatus::Waiting);
    assert_eq!(game.started_at, None);

    let started = handle_start_game(&mut state, "g1", "host").unwrap();
    assert_eq!(started.recipients, vec!["host", "p2", "p3"]);
    let game = state.get_game("g1").unwrap();
    assert_eq!(game.status, GameStatus::Playing);
    match started.message {
        ServerMessage::GameStarted { started_at } => assert_eq!(game.started_at, Some(started_at)),
        other => panic!("unexpected message {other:?}"),
    }

    let again = handle_start_game(&mut state, "g1", "host");
    assert_eq!(again.err(), Some(GameError::AlreadyStarted));
    assert_eq!(state.get_game("g1").unwrap().status, GameStatus::Playing);
}

#[test]
fn start_of_an_unknown_session_is_refused() {
    let mut state = AppState::new();
    assert_eq!(start_game_at(&mut state, "g1", "host", 5).err(), Some(GameError::GameNotFound));
    assert_eq!(handle_start_game(&mut state, "g1", "host").err(), Some(GameError::GameNotFound));
}

#[test]
fn start_at_records_the_given_time() {
    let mut state = AppState::new();
    state.add_game(session("g1", "host"));
    enter(&mut state, "g1", "host");
    let started = start_game_at(&mut state, "g1", "host", 1234).unwrap();
    assert!(matches!(started.message, ServerMessage::GameStarted { started_at: 1234 }));
    assert_eq!(state.get_game("g1").unwrap().started_at, Some(1234));
}

#[test]
fn progress_is_stored_and_told_to_the_others() {
    let mut state = AppState::new();
    state.add_game(session("g1", "a"));
    for id in ["a", "b", "c"] {
        enter(&mut state, "g1", id);
    }
    let accuracy = Accuracy::from_bits(95.5f32.to_bits());
    let fanout = handle_update_progress(&mut state, "g1", "b", 42, 70, accuracy);
    assert_eq!(fanout.recipients, vec!["a", "c"]);
    match fanout.message {
        ServerMessage::PlayerProgress { player_id, progress, wpm, accuracy } => {
            assert_eq!(player_id, "b");
            assert_eq!(progress, 42);
            assert_eq!(wpm, 70);
            assert_eq!(f32::from_bits(accuracy.bits), 95.5);
        },
        other => panic!("unexpected message {other:?}"),
    }
    let game = state.get_game("g1").unwrap();
    assert_eq!(game.players[1].progress, 42);
    assert_eq!(game.players[1].wpm, 70);
    assert_eq!(game.players[0].progress, 0);
    assert_eq!(game.players[2].progress, 0);
}

#[test]
fn leave_removes_the_player_and_tells_the_rest() {
    let mut state = AppState::new();
    state.add_game(session("g1", "a"));
    for id in ["a", "b", "c"] {
        enter(&mut state, "g1", id);
    }
    assert_eq!(state.remove_player_connection("b"), Some("g1".to_string()));
    let fanout = handle_player_leave(&mut state, "g1", "b");
    assert_eq!(fanout.recipients, vec!["a", "c"]);
    match fanout.message {
        ServerMessage::PlayerLeft { player_id } => assert_eq!(player_id, "b"),
        other => panic!("unexpected message {other:?}"),
    }
    assert_eq!(roster(&state, "g1"), vec!["a", "c"]);
    assert_eq!(state.get_game("g1").unwrap().status, GameStatus::Waiting);
}

#[test]
fn race_ends_when_the_last_player_finishes() {
    let mut state = AppState::new();
    state.add_game(session("g1", "a"));
    for id in ["a", "b", "c"] {
        enter(&mut state, "g1", id);
    }
    assert!(start_game_at(&mut state, "g1", "a", 100).is_ok());
    let zero = Accuracy::from_bits(0);

    let first = finish_game_at(&mut state, "g1", "c", 60, zero, 130);
    assert_eq!(first.len(), 1);
    assert_eq!(first[0].recipients, vec!["a", "b", "c"]);
    match &first[0].message {
        ServerMessage::PlayerFinished { player_id, wpm, finished_at, .. } => {
            assert_eq!(player_id, "c");
            assert_eq!(*wpm, 60);
            assert_eq!(*finished_at, 130);
        },
        other => panic!("unexpected message {other:?}"),
    }
    assert_eq!(state.get_game("g1").unwrap().status, GameStatus::Playing);

    let second = finish_game_at(&mut state, "g1", "a", 70, zero, 110);
    assert_eq!(second.len(), 1);

    let last = finish_game_at(&mut state, "g1", "b", 80, zero, 120);
    assert_eq!(last.len(), 2);
    assert!(matches!(last[0].message, ServerMessage::PlayerFinished { .. }));
    assert_eq!(last[1].recipients, vec!["a", "b", "c"]);
    match &last[1].message {
        ServerMessage::GameFinished { winner_id, final_standings } => {
            assert_eq!(winner_id.as_deref(), Some("a"));
            let order: Vec<&str> = final_standings.iter().map(|p| p.id.as_str()).collect();
            assert_eq!(order, vec!["a", "b", "c"]);
        },
        other => panic!("unexpected message {other:?}"),
    }
    assert_eq!(state.get_game("g1").unwrap().status, GameStatus::Finished);
}

#[test]
fn race_ends_without_the_player_who_left() {
    let mut state = AppState::new();
    state.add_game(session("g1", "a"));
    for id in ["a", "b", "c"] {
        enter(&mut state, "g1", id);
    }
    assert!(start_game_at(&mut state, "g1", "a", 100).is_ok());
    let zero = Accuracy::from_bits(0);

    assert_eq!(state.remove_player_connection("a"), Some("g1".to_string()));
    let left = handle_player_leave(&mut state, "g1", "a");
    assert_eq!(left.recipients, vec!["b", "c"]);
    assert_eq!(state.get_game("g1").unwrap().status, GameStatus::Playing);

    let mut endings = 0;
    let first = finish_game_at(&mut state, "g1", "b", 50, zero, 140);
    endings += first.iter().filter(|f| is_game_finished(f)).count();
    assert_eq!(state.get_game("g1").unwrap().status, GameStatus::Playing);
    let second = finish_game_at(&mut state, "g1", "c", 55, zero, 150);
    endings += second.iter().filter(|f| is_game_finished(f)).count();
    assert_eq!(state.get_game("g1").unwrap().status, GameStatus::Finished);
    assert_eq!(second.len(), 2);
    assert_eq!(second[1].recipients, vec!["b", "c"]);
    match &second[1].message {
        ServerMessage::GameFinished { winner_id, final_standings } => {
            assert_eq!(winner_id.as_deref(), Some("b"));
            let order: Vec<&str> = final_standings.iter().map(|p| p.id.as_str()).collect();
            assert_eq!(order, vec!["b", "c"]);
        },
        other => panic!("unexpected message {other:?}"),
    }
    // A late report is recorded and told, and the race does not end again.
    let late = finish_game_at(&mut state, "g1", "c", 56, zero, 160);
    endings += late.iter().filter(|f| is_game_finished(f)).count();
    assert_eq!(late.len(), 1);
    assert_eq!(endings, 1);
    let game = state.get_game("g1").unwrap();
    assert_eq!(game.status, GameStatus::Finished);
    assert_eq!(game.players[1].finished_at, Some(160));
}

#[test]
fn a_race_that_has_not_started_does_not_end() {
    let mut state = AppState::new();
    state.add_game(session("g1", "a"));
    enter(&mut state, "g1", "a");
    let fanouts = finish_game_at(&mut state, "g1", "a", 50, Accuracy::from_bits(0), 140);
    assert_eq!(fanouts.len(), 1);
    let game = state.get_game("g1").unwrap();
    assert_eq!(game.status, GameStatus::Waiting);
    assert!(game.players[0].finished);
}

#[test]
fn finish_of_a_stranger_is_told_and_changes_nothing() {
    let mut state = AppState::new();
    state.add_game(session("g1", "a"));
    enter(&mut state, "g1", "a");
    assert!(start_game_at(&mut state, "g1", "a", 100).is_ok());
    let fanouts = finish_game_at(&mut state, "g1", "ghost", 50, Accuracy::from_bits(0), 140);
    assert_eq!(fanouts.len(), 1);
    assert_eq!(fanouts[0].recipients, vec!["a"]);
    let game = state.get_game("g1").unwrap();
    assert_eq!(game.status, GameStatus::Playing);
    assert!(!game.players[0].finished);
    let lost = finish_game_at(&mut state, "nowhere", "a", 50, Accuracy::from_bits(0), 140);
    assert_eq!(lost.len(), 1);
    assert!(lost[0].recipients.is_empty());
}

#[test]
fn finish_now_stamps_the_clock() {
    let mut state = AppState::new();
    state.add_game(session("g1", "a"));
    enter(&mut state, "g1", "a");
    assert!(handle_start_game(&mut state, "g1", "a").is_ok());
    let fanouts = handle_finish_game(&mut state, "g1", "a", 88, Accuracy::from_bits(0));
    assert_eq!(fanouts.len(), 2);
    let game = state.get_game("g1").unwrap();
    assert_eq!(game.status, GameStatus::Finished);
    match &fanouts[0].message {
        ServerMessage::PlayerFinished { finished_at, wpm, .. } => {
            assert_eq!(game.players[0].finished_at, Some(*finished_at));
            assert_eq!(*wpm, 88);
            assert!(*finished_at >= game.started_at.unwrap());
        },
        other => panic!("unexpected message {other:?}"),
    }
    match &fanouts[1].message {
        ServerMessage::GameFinished { winner_id, .. } => assert_eq!(winner_id.as_deref(), Some("a")),
        other => panic!("unexpected message {other:?}"),
    }
}

#[test]
fn sessions_do_not_touch_each_other() {
    let mut state = AppState::new();
    state.add_game(session("g1", "a"));
    state.add_game(session("g2", "x"));
    enter(&mut state, "g1", "a");
    enter(&mut state, "g2", "x");
    assert!(start_game_at(&mut state, "g1", "a", 1).is_ok());
    assert_eq!(state.get_game("g2").unwrap().status, GameStatus::Waiting);
    assert_eq!(roster(&state, "g2"), vec!["x"]);
    assert_eq!(everyone(&state, "g1"), vec!["a"]);
    assert_eq!(everyone(&state, "g2"), vec!["x"]);
}
