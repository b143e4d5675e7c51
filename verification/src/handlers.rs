//! The protocol of one connection: what each inbound event does to the
//! registry and to the connection, what the client is sent back, what the
//! others are told, and when the connection ends. The transport reads the
//! frames, has credentials verified, and delivers what is decided here.

use vstd::prelude::*;
use crate::auth::{Claims, ClaimsView};
use crate::game::{
    broadcasts_view, finished_at_time, handle_finish_game, handle_player_join, handle_player_leave,
    handle_start_game, handle_update_progress, start_notice, started_at_time,
};
use crate::messages::{
    Broadcast, BroadcastView, ClientMessage, ClientMessageView, ServerMessage, ServerMessageView,
};
use crate::models::{GameError, GameState, GameStateView, Player, PlayerView};
use crate::state::{AppState, AppStateView, PlayerConnection, PlayerConnectionView};

verus! {

/// Where a connection stands in the protocol.
#[derive(Debug)]
pub enum ConnectionState {
    /// No credential has been accepted yet.
    Unauthenticated,
    /// The connection acts as `player_id` in the session `game_id`.
    Authenticated { player_id: String, game_id: String },
}

/// The mathematical value of a [`ConnectionState`].
pub enum ConnectionStateView {
    Unauthenticated,
    Authenticated { player_id: Seq<char>, game_id: Seq<char> },
}

impl View for ConnectionState {
    type V = ConnectionStateView;

    open spec fn view(&self) -> ConnectionStateView {
        match self {
            ConnectionState::Unauthenticated => ConnectionStateView::Unauthenticated,
            ConnectionState::Authenticated { player_id, game_id } => {
                ConnectionStateView::Authenticated { player_id: player_id@, game_id: game_id@ }
            },
        }
    }
}

/// What the server does in answer to one inbound event.
#[derive(Debug)]
pub struct Reaction {
    /// For the client of this connection, in order.
    pub replies: Vec<ServerMessage>,
    /// For the players of the session, in order.
    pub broadcasts: Vec<Broadcast>,
    /// The connection ends with this event.
    pub closed: bool,
}

/// The mathematical value of a [`Reaction`].
pub struct ReactionView {
    pub replies: Seq<ServerMessageView>,
    pub broadcasts: Seq<BroadcastView>,
    pub closed: bool,
}

/// The mathematical values of a list of messages, in order.
pub open spec fn messages_view(messages: Seq<ServerMessage>) -> Seq<ServerMessageView> {
    messages.map_values(|message: ServerMessage| message@)
}

impl View for Reaction {
    type V = ReactionView;

    open spec fn view(&self) -> ReactionView {
        ReactionView {
            replies: messages_view(self.replies@),
            broadcasts: broadcasts_view(self.broadcasts@),
            closed: self.closed,
        }
    }
}

impl ReactionView {
    /// Nothing is sent, and the connection goes on.
    pub open spec fn nothing() -> ReactionView {
        ReactionView { replies: Seq::empty(), broadcasts: Seq::empty(), closed: false }
    }

    /// One reply for the client, and the connection goes on.
    pub open spec fn reply(message: ServerMessageView) -> ReactionView {
        ReactionView { replies: seq![message], broadcasts: Seq::empty(), closed: false }
    }

    /// The session is told, and the connection goes on.
    pub open spec fn tell(broadcasts: Seq<BroadcastView>) -> ReactionView {
        ReactionView { replies: Seq::empty(), broadcasts, closed: false }
    }
}

impl Reaction {
    /// Nothing is sent, and the connection goes on.
    pub fn nothing() -> (reaction: Reaction)
        ensures
            reaction@ == ReactionView::nothing(),
    {
        let reaction = Reaction { replies: Vec::new(), broadcasts: Vec::new(), closed: false };
        proof {
            assert(reaction@.replies =~= Seq::empty());
            assert(reaction@.broadcasts =~= Seq::empty());
        }
        reaction
    }

    /// One reply for the client, and the connection goes on.
    pub fn reply(message: ServerMessage) -> (reaction: Reaction)
        ensures
            reaction@ == ReactionView::reply(message@),
    {
        let mut replies: Vec<ServerMessage> = Vec::new();
        replies.push(message);
        let reaction = Reaction { replies, broadcasts: Vec::new(), closed: false };
        proof {
            assert(reaction@.replies =~= seq![message@]);
            assert(reaction@.broadcasts =~= Seq::empty());
        }
        reaction
    }

    /// The session is told one thing, and the connection goes on.
    pub fn tell_one(broadcast: Broadcast) -> (reaction: Reaction)
        ensures
            reaction@ == ReactionView::tell(seq![broadcast@]),
    {
        let mut broadcasts: Vec<Broadcast> = Vec::new();
        broadcasts.push(broadcast);
        let reaction = Reaction { replies: Vec::new(), broadcasts, closed: false };
        proof {
            assert(reaction@.replies =~= Seq::empty());
            assert(reaction@.broadcasts =~= seq![broadcast@]);
        }
        reaction
    }

    /// The session is told, and the connection goes on.
    pub fn tell(broadcasts: Vec<Broadcast>) -> (reaction: Reaction)
        ensures
            reaction@ == ReactionView::tell(broadcasts_view(broadcasts@)),
    {
        let reaction = Reaction { replies: Vec::new(), broadcasts, closed: false };
        proof {
            assert(reaction@.replies =~= Seq::empty());
        }
        reaction
    }
}

/// The registry, the connection and the reaction after one event.
pub struct StepView {
    pub state: AppStateView,
    pub connection: ConnectionStateView,
    pub reaction: ReactionView,
}

/// The mathematical value of a verdict on a credential.
pub open spec fn claims_view(claims: Option<Claims>) -> Option<ClaimsView> {
    match claims {
        Some(c) => Some(c@),
        None => None,
    }
}

/// What comes of an accepted credential: the session is created from the
/// given values unless it exists; the bearer joins it as a new player under
/// `player_id`, the connection is registered and stands authenticated, the
/// bearer gets the session and the others are told. Where the session is
/// full the bearer gets the refusal and nothing else changes.
pub open spec fn after_auth(
    state: AppStateView,
    connection: ConnectionStateView,
    game_id: Seq<char>,
    game_code: Seq<char>,
    difficulty: Seq<char>,
    text: Seq<char>,
    host_id: Seq<char>,
    claims: ClaimsView,
    player_id: Seq<char>,
) -> StepView {
    let created = state.with_new_game(
        GameStateView::fresh(game_id, game_code, difficulty, text, host_id),
    );
    let player = PlayerView::fresh(player_id, claims.user_id, claims.username);
    match created.join_error(game_id) {
        None => StepView {
            state: created.after_join(game_id, player).registered(
                player_id,
                PlayerConnectionView { player_id, user_id: claims.user_id, game_id },
            ),
            connection: ConnectionStateView::Authenticated { player_id, game_id },
            reaction: ReactionView {
                replies: seq![
                    ServerMessageView::GameState { game: created.games[game_id].joined(player) },
                ],
                broadcasts: seq![
                    BroadcastView {
                        recipients: created.recipients(game_id, Some(player_id)),
                        message: ServerMessageView::PlayerJoined { player },
                    },
                ],
                closed: false,
            },
        },
        Some(e) => StepView {
            state: created,
            connection,
            reaction: ReactionView::reply(ServerMessageView::refusal(e)),
        },
    }
}

/// What comes of a command, where `claims` is the verdict on the credential
/// of an `Auth` command, `player_id` the id for a new player and `now` the
/// time.
pub open spec fn after_message(
    state: AppStateView,
    connection: ConnectionStateView,
    message: ClientMessageView,
    claims: Option<ClaimsView>,
    player_id: Seq<char>,
    now: i64,
) -> StepView {
    match message {
        ClientMessageView::Auth { token, game_id, game_code, difficulty, text, host_id } => {
            match claims {
                Some(c) => after_auth(
                    state,
                    connection,
                    game_id,
                    game_code,
                    difficulty,
                    text,
                    host_id,
                    c,
                    player_id,
                ),
                None => StepView {
                    state,
                    connection,
                    reaction: ReactionView {
                        replies: seq![ServerMessageView::refusal(GameError::AuthFailed)],
                        broadcasts: Seq::empty(),
                        closed: true,
                    },
                },
            }
        },
        _ => match connection {
            ConnectionStateView::Unauthenticated => StepView {
                state,
                connection,
                reaction: ReactionView::reply(ServerMessageView::refusal(GameError::NotAuthenticated)),
            },
            ConnectionStateView::Authenticated { player_id: me, game_id } => match message {
                ClientMessageView::StartGame => match state.start_error(game_id, me) {
                    None => StepView {
                        state: state.after_start(game_id, me, now),
                        connection,
                        reaction: ReactionView::tell(seq![start_notice(state, game_id, now)]),
                    },
                    Some(e) => StepView {
                        state,
                        connection,
                        reaction: ReactionView::reply(ServerMessageView::refusal(e)),
                    },
                },
                ClientMessageView::UpdateProgress { progress, wpm, accuracy } => StepView {
                    state: state.after_progress(game_id, me, progress, wpm, accuracy),
                    connection,
                    reaction: ReactionView::tell(
                        seq![
                            BroadcastView {
                                recipients: state.recipients(game_id, Some(me)),
                                message: ServerMessageView::PlayerProgress {
                                    player_id: me,
                                    progress,
                                    wpm,
                                    accuracy,
                                },
                            },
                        ],
                    ),
                },
                ClientMessageView::FinishGame { wpm, accuracy, time_taken } => StepView {
                    state: state.after_finish(game_id, me, wpm, accuracy, now),
                    connection,
                    reaction: ReactionView::tell(
                        state.finish_broadcasts(game_id, me, wpm, accuracy, now),
                    ),
                },
                _ => StepView {
                    state,
                    connection,
                    reaction: ReactionView::reply(ServerMessageView::Pong),
                },
            },
        },
    }
}

/// What comes of the end of a connection: an authenticated connection is
/// taken out of the registry, its player leaves the session, and those
/// still connected to the session are told. The connection stands
/// unauthenticated afterwards, so that nothing is left for a second end.
pub open spec fn after_disconnect(state: AppStateView, connection: ConnectionStateView) -> StepView {
    match connection {
        ConnectionStateView::Authenticated { player_id, game_id } => {
            let unregistered = state.unregistered(player_id);
            StepView {
                state: unregistered.after_leave(game_id, player_id),
                connection: ConnectionStateView::Unauthenticated,
                reaction: ReactionView {
                    replies: Seq::empty(),
                    broadcasts: seq![
                        BroadcastView {
                            recipients: unregistered.recipients(game_id, None),
                            message: ServerMessageView::PlayerLeft { player_id },
                        },
                    ],
                    closed: true,
                },
            }
        },
        ConnectionStateView::Unauthenticated => StepView {
            state,
            connection,
            reaction: ReactionView { replies: Seq::empty(), broadcasts: Seq::empty(), closed: true },
        },
    }
}

/// A step that ends the connection, followed by the end of the connection.
pub open spec fn closing(step: StepView) -> StepView {
    if step.reaction.closed {
        let end = after_disconnect(step.state, step.connection);
        StepView {
            state: end.state,
            connection: end.connection,
            reaction: ReactionView {
                replies: step.reaction.replies,
                broadcasts: step.reaction.broadcasts + end.reaction.broadcasts,
                closed: true,
            },
        }
    } else {
        step
    }
}

/// `Uuid::new_v4` as text: an id for a new player. Nothing is claimed of
/// it: it is drawn at random. uuid stops the program where the system has
/// no random bytes to give.
#[verifier::external_body]
fn fresh_player_id() -> (id: String) {
    uuid::Uuid::new_v4().to_string()
}

/// Lets the bearer of an accepted credential into a session as a new
/// player under `player_id`. The session is created from the given values
/// unless it exists; what they say of a session that exists is passed
/// over. Where it has room, the player joins, the connection is registered
/// and stands authenticated, the bearer gets the session and the others are
/// told who joined. Where it is full, the bearer gets the refusal, and the
/// registry and the connection stay as they are.
///
/// A connection that stood authenticated already takes on the new
/// identity; the earlier one stays in the registry and in its session.
pub fn authenticate(
    state: &mut AppState,
    connection: &mut ConnectionState,
    game_id: String,
    game_code: String,
    difficulty: String,
    text: String,
    host_id: String,
    claims: Claims,
    player_id: String,
) -> (reaction: Reaction)
    ensures
        (StepView { state: final(state)@, connection: final(connection)@, reaction: reaction@ })
            == after_auth(
            old(state)@,
            old(connection)@,
            game_id@,
            game_code@,
            difficulty@,
            text@,
            host_id@,
            claims@,
            player_id@,
        ),
{
    state.add_game(GameState::new(game_id.clone(), game_code, difficulty, text, host_id));
    let player = Player::new(player_id.clone(), claims.user_id.clone(), claims.username);
    match handle_player_join(state, game_id.as_str(), player) {
        Ok(joined) => {
            let record = PlayerConnection {
                player_id: player_id.clone(),
                user_id: claims.user_id,
                game_id: game_id.clone(),
            };
            state.add_player_connection(player_id.clone(), record);
            *connection = ConnectionState::Authenticated { player_id, game_id };
            let mut replies: Vec<ServerMessage> = Vec::new();
            replies.push(joined.reply);
            let mut broadcasts: Vec<Broadcast> = Vec::new();
            broadcasts.push(joined.announcement);
            let reaction = Reaction { replies, broadcasts, closed: false };
            proof {
                assert(reaction@.replies =~= seq![joined.reply@]);
                assert(reaction@.broadcasts =~= seq![joined.announcement@]);
            }
            reaction
        },
        Err(e) => Reaction::reply(ServerMessage::refusal(e)),
    }
}

/// Ends a connection: an authenticated connection is taken out of the
/// registry, its player leaves the session, and those still connected to
/// the session are told. Afterwards the connection stands unauthenticated.
pub fn disconnect(state: &mut AppState, connection: &mut ConnectionState) -> (reaction: Reaction)
    ensures
        (StepView { state: final(state)@, connection: final(connection)@, reaction: reaction@ })
            == after_disconnect(old(state)@, old(connection)@),
{
    let mut ended = ConnectionState::Unauthenticated;
    core::mem::swap(connection, &mut ended);
    match ended {
        ConnectionState::Authenticated { player_id, game_id } => {
            let _ = state.remove_player_connection(player_id.as_str());
            let notice = handle_player_leave(state, game_id.as_str(), player_id.as_str());
            let mut broadcasts: Vec<Broadcast> = Vec::new();
            broadcasts.push(notice);
            let reaction = Reaction { replies: Vec::new(), broadcasts, closed: true };
            proof {
                assert(reaction@.replies =~= Seq::empty());
                assert(reaction@.broadcasts =~= seq![notice@]);
            }
            reaction
        },
        ConnectionState::Unauthenticated => {
            let reaction = Reaction { replies: Vec::new(), broadcasts: Vec::new(), closed: true };
            proof {
                assert(reaction@.replies =~= Seq::empty());
                assert(reaction@.broadcasts =~= Seq::empty());
            }
            reaction
        },
    }
}

impl ConnectionState {
    /// The player and the session that the connection acts for, if it is
    /// authenticated.
    pub fn identity(&self) -> (ids: Option<(String, String)>)
        ensures
            match ids {
                Some((player_id, game_id)) => self@ == (ConnectionStateView::Authenticated {
                    player_id: player_id@,
                    game_id: game_id@,
                }),
                None => self@ == ConnectionStateView::Unauthenticated,
            },
    {
        match self {
            ConnectionState::Authenticated { player_id, game_id } => Some(
                (player_id.clone(), game_id.clone()),
            ),
            ConnectionState::Unauthenticated => None,
        }
    }
}

/// Acts on one command of the client. `claims` is the verdict on the
/// credential of an `Auth` command: the identity it carries, or `None`
/// where it was not accepted.
///
/// An `Auth` command with an accepted credential lets the bearer in under
/// an id drawn for the occasion, see [`authenticate`]; with a credential that
/// was not accepted it is answered with the refusal and ends the
/// connection. Any other command on a connection that is not authenticated
/// is answered with the refusal and changes nothing. On an authenticated
/// connection the command is carried out for the connection's player in the
/// connection's session, at the time of the call.
pub fn handle_message(
    state: &mut AppState,
    connection: &mut ConnectionState,
    message: ClientMessage,
    claims: Option<Claims>,
) -> (reaction: Reaction)
    ensures
        exists|player_id: Seq<char>, now: i64|
            (StepView { state: final(state)@, connection: final(connection)@, reaction: reaction@ })
                == #[trigger] after_message(
                old(state)@,
                old(connection)@,
                message@,
                claims_view(claims),
                player_id,
                now,
            ),
{
    let ghost mut drawn: Seq<char> = Seq::empty();
    let ghost mut now: i64 = 0;
    let reaction = match message {
        ClientMessage::Auth { token, game_id, game_code, difficulty, text, host_id } => {
            match claims {
                Some(accepted) => {
                    let player_id = fresh_player_id();
                    proof {
                        drawn = player_id@;
                    }
                    authenticate(
                        state,
                        connection,
                        game_id,
                        game_code,
                        difficulty,
                        text,
                        host_id,
                        accepted,
                        player_id,
                    )
                },
                None => {
                    let mut refused = Reaction::reply(ServerMessage::refusal(GameError::AuthFailed));
                    refused.closed = true;
                    refused
                },
            }
        },
        command => match connection.identity() {
            None => Reaction::reply(ServerMessage::refusal(GameError::NotAuthenticated)),
            Some((player_id, game_id)) => match command {
                ClientMessage::StartGame => {
                    let outcome = handle_start_game(state, game_id.as_str(), player_id.as_str());
                    proof {
                        now = choose|now: i64|
                            started_at_time(
                                old(state)@,
                                state@,
                                outcome,
                                game_id@,
                                player_id@,
                                now,
                            );
                    }
                    match outcome {
                        Ok(notice) => Reaction::tell_one(notice),
                        Err(e) => Reaction::reply(ServerMessage::refusal(e)),
                    }
                },
                ClientMessage::UpdateProgress { progress, wpm, accuracy } => Reaction::tell_one(
                    handle_update_progress(
                        state,
                        game_id.as_str(),
                        player_id.as_str(),
                        progress,
                        wpm,
                        accuracy,
                    ),
                ),
                ClientMessage::FinishGame { wpm, accuracy, time_taken } => {
                    let notices = handle_finish_game(
                        state,
                        game_id.as_str(),
                        player_id.as_str(),
                        wpm,
                        accuracy,
                    );
                    proof {
                        now = choose|now: i64|
                            finished_at_time(
                                old(state)@,
                                state@,
                                notices@,
                                game_id@,
                                player_id@,
                                wpm,
                                accuracy,
                                now,
                            );
                    }
                    Reaction::tell(notices)
                },
                _ => Reaction::reply(ServerMessage::Pong),
            },
        },
    };
    proof {
        assert((StepView { state: state@, connection: connection@, reaction: reaction@ })
            == after_message(
            old(state)@,
            old(connection)@,
            message@,
            claims_view(claims),
            drawn,
            now,
        ));
    }
    reaction
}

/// One event on the inbound side of a connection.
#[derive(Debug)]
pub enum Inbound {
    /// A text frame that holds a command, with the verdict on the
    /// credential of an `Auth` command.
    Command { message: ClientMessage, claims: Option<Claims> },
    /// A text frame that holds no command.
    Malformed,
    /// A frame of a kind that carries no command.
    Ignored,
    /// The peer closed the connection, or the stream of frames ended.
    Closed,
    /// The transport failed.
    Failed,
}

/// The mathematical value of an [`Inbound`] event.
pub enum InboundView {
    Command { message: ClientMessageView, claims: Option<ClaimsView> },
    Malformed,
    Ignored,
    Closed,
    Failed,
}

impl View for Inbound {
    type V = InboundView;

    open spec fn view(&self) -> InboundView {
        match self {
            Inbound::Command { message, claims } => InboundView::Command {
                message: message@,
                claims: claims_view(*claims),
            },
            Inbound::Malformed => InboundView::Malformed,
            Inbound::Ignored => InboundView::Ignored,
            Inbound::Closed => InboundView::Closed,
            Inbound::Failed => InboundView::Failed,
        }
    }
}

/// What comes of one inbound event. A command is carried out, and where
/// it ends the connection the end of the connection follows at once. A
/// frame without a command is passed over. A closed or failed transport
/// ends the connection.
pub open spec fn after_inbound(
    state: AppStateView,
    connection: ConnectionStateView,
    event: InboundView,
    player_id: Seq<char>,
    now: i64,
) -> StepView {
    match event {
        InboundView::Command { message, claims } => closing(
            after_message(state, connection, message, claims, player_id, now),
        ),
        InboundView::Malformed | InboundView::Ignored => StepView {
            state,
            connection,
            reaction: ReactionView::nothing(),
        },
        InboundView::Closed | InboundView::Failed => after_disconnect(state, connection),
    }
}

/// Acts on one inbound event of a connection and says what is to be sent
/// and whether the connection has ended. Nothing is to be fed to an ended
/// connection; were it done all the same, the connection would be met
/// unauthenticated.
pub fn handle_inbound(state: &mut AppState, connection: &mut ConnectionState, event: Inbound) -> (reaction:
    Reaction)
    ensures
        exists|player_id: Seq<char>, now: i64|
            (StepView { state: final(state)@, connection: final(connection)@, reaction: reaction@ })
                == #[trigger] after_inbound(old(state)@, old(connection)@, event@, player_id, now),
{
    let ghost mut drawn: Seq<char> = Seq::empty();
    let ghost mut now: i64 = 0;
    let reaction = match event {
        Inbound::Command { message, claims } => {
            let reaction = handle_message(state, connection, message, claims);
            proof {
                let (player_id, time) = choose|player_id: Seq<char>, time: i64|
                    (StepView { state: state@, connection: connection@, reaction: reaction@ })
                        == #[trigger] after_message(
                        old(state)@,
                        old(connection)@,
                        message@,
                        claims_view(claims),
                        player_id,
                        time,
                    );
                drawn = player_id;
                now = time;
            }
            if reaction.closed {
                let Reaction { replies, broadcasts, closed } = reaction;
                let ghost told = broadcasts_view(broadcasts@);
                let end = disconnect(state, connection);
                let mut broadcasts = broadcasts;
                let mut farewell = end.broadcasts;
                broadcasts.append(&mut farewell);
                proof {
                    assert(broadcasts_view(broadcasts@) =~= told + end@.broadcasts);
                }
                Reaction { replies, broadcasts, closed }
            } else {
                reaction
            }
        },
        Inbound::Malformed | Inbound::Ignored => Reaction::nothing(),
        Inbound::Closed | Inbound::Failed => disconnect(state, connection),
    };
    proof {
        assert((StepView { state: state@, connection: connection@, reaction: reaction@ })
            == after_inbound(old(state)@, old(connection)@, event@, drawn, now));
    }
    reaction
}

/// The end of a connection is cleaned up once: after it the connection is
/// unauthenticated, and a second end changes nothing and tells nobody.
pub proof fn lemma_disconnect_once(state: AppStateView, connection: ConnectionStateView)
    ensures
        after_disconnect(state, connection).connection == ConnectionStateView::Unauthenticated,
        after_disconnect(state, connection).reaction.closed,
        after_disconnect(
            after_disconnect(state, connection).state,
            after_disconnect(state, connection).connection,
        ) == (StepView {
            state: after_disconnect(state, connection).state,
            connection: ConnectionStateView::Unauthenticated,
            reaction: ReactionView { replies: Seq::empty(), broadcasts: Seq::empty(), closed: true },
        }),
{
}

/// Before a credential is accepted, any command but `Auth` is answered
/// with the refusal and changes nothing.
pub proof fn lemma_auth_comes_first(
    state: AppStateView,
    message: ClientMessageView,
    claims: Option<ClaimsView>,
    player_id: Seq<char>,
    now: i64,
)
    requires
        !(message is Auth),
    ensures
        after_message(
            state,
            ConnectionStateView::Unauthenticated,
            message,
            claims,
            player_id,
            now,
        ) == (StepView {
            state,
            connection: ConnectionStateView::Unauthenticated,
            reaction: ReactionView::reply(ServerMessageView::refusal(GameError::NotAuthenticated)),
        }),
{
}

/// An event that ends the connection leaves it unauthenticated: whatever
/// ended it, the player is out of the registry and out of the session.
pub proof fn lemma_closed_is_cleaned_up(
    state: AppStateView,
    connection: ConnectionStateView,
    event: InboundView,
    player_id: Seq<char>,
    now: i64,
)
    ensures
        after_inbound(state, connection, event, player_id, now).reaction.closed ==> after_inbound(
            state,
            connection,
            event,
            player_id,
            now,
        ).connection == ConnectionStateView::Unauthenticated,
        (event is Closed || event is Failed) ==> after_inbound(
            state,
            connection,
            event,
            player_id,
            now,
        ).reaction.closed,
        (event is Malformed || event is Ignored) ==> after_inbound(
            state,
            connection,
            event,
            player_id,
            now,
        ) == (StepView { state, connection, reaction: ReactionView::nothing() }),
{
}

} // verus!
