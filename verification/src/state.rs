//! The registry: every session by its id, every connection by its player's
//! id, and for every session the ids of its connected players in the order
//! in which they registered.
//!
//! The three tables are concurrent maps. The registry owns them and changes
//! them through exclusive references only, so that what a table holds is a
//! value of which a contract can speak: between two calls nobody else has
//! touched it. Whoever shares a registry among tasks guards it as a whole.

use vstd::prelude::*;
use dashmap::DashMap;
use crate::messages::{Broadcast, ServerMessage, ids_view};
use crate::models::{GameState, GameStateView};
use crate::text::str_eq;

verus! {

/// `dashmap::DashMap`, of which the verifier sees nothing: what a map
/// holds is named for each of the three tables below. A map may lock up
/// where it is called while a reference into it is held; no function here
/// keeps such a reference beyond its own call.
#[verifier::external_type_specification]
#[verifier::external_body]
#[verifier::reject_recursive_types(K)]
#[verifier::reject_recursive_types(V)]
#[verifier::reject_recursive_types(S)]
pub struct ExDashMap<K, V, S>(DashMap<K, V, S>);

/// What ties one connection to a player and a session.
#[derive(Debug)]
pub struct PlayerConnection {
    pub player_id: String,
    pub user_id: String,
    pub game_id: String,
}

/// The mathematical value of a [`PlayerConnection`].
pub struct PlayerConnectionView {
    pub player_id: Seq<char>,
    pub user_id: Seq<char>,
    pub game_id: Seq<char>,
}

impl View for PlayerConnection {
    type V = PlayerConnectionView;

    open spec fn view(&self) -> PlayerConnectionView {
        PlayerConnectionView {
            player_id: self.player_id@,
            user_id: self.user_id@,
            game_id: self.game_id@,
        }
    }
}

impl Clone for PlayerConnection {
    fn clone(&self) -> (copy: PlayerConnection)
        ensures
            copy@ == self@,
    {
        PlayerConnection {
            player_id: self.player_id.clone(),
            user_id: self.user_id.clone(),
            game_id: self.game_id.clone(),
        }
    }
}

/// The sessions that a map of sessions holds, by key.
pub uninterp spec fn game_entries(map: DashMap<String, GameState>) -> Map<Seq<char>, GameStateView>;

/// `DashMap::new`: a map that holds nothing.
#[verifier::external_body]
fn games_new() -> (games: DashMap<String, GameState>)
    ensures
        (game_entries(games) == Map::<Seq<char>, GameStateView>::empty()),
{
    DashMap::new()
}

/// `DashMap::get`, with a copy of what was found: the session under `key`,
/// if the map holds one.
#[verifier::external_body]
fn games_get(map: &DashMap<String, GameState>, key: &str) -> (found: Option<GameState>)
    ensures
        match found {
            Some(game) => game_entries(*map).contains_key(key@) && game@ == game_entries(*map)[key@],
            None => !game_entries(*map).contains_key(key@),
        },
{
    map.get(key).map(|game| game.clone())
}

/// `DashMap::insert`: afterwards the map holds `game` under `key`, in
/// place of what it held there, and everything else as before.
#[verifier::external_body]
fn games_insert(map: &mut DashMap<String, GameState>, key: String, game: GameState)
    ensures
        game_entries(*final(map)) == game_entries(*old(map)).insert(key@, game@),
{
    map.insert(key, game);
}

/// `DashMap::entry` followed by `Entry::or_insert`: a key that the map
/// holds keeps its session; a key that it lacks gets `game`.
#[verifier::external_body]
fn games_insert_absent(map: &mut DashMap<String, GameState>, key: String, game: GameState)
    ensures
        game_entries(*final(map)) == if game_entries(*old(map)).contains_key(key@) {
            game_entries(*old(map))
        } else {
            game_entries(*old(map)).insert(key@, game@)
        },
{
    map.entry(key).or_insert(game);
}

/// `DashMap::len`: how many sessions the map holds.
#[verifier::external_body]
fn games_len(map: &DashMap<String, GameState>) -> (count: usize)
    ensures
        count == game_entries(*map).dom().len(),
{
    map.len()
}

/// The connections that a map of connections holds, by key.
pub uninterp spec fn connection_entries(map: DashMap<String, PlayerConnection>) -> Map<
    Seq<char>,
    PlayerConnectionView,
>;

/// `DashMap::new`: a map that holds nothing.
#[verifier::external_body]
fn connections_new() -> (connections: DashMap<String, PlayerConnection>)
    ensures
        (connection_entries(connections) == Map::<Seq<char>, PlayerConnectionView>::empty()),
{
    DashMap::new()
}

/// `DashMap::insert`: afterwards the map holds `connection` under `key`,
/// in place of what it held there, and everything else as before.
#[verifier::external_body]
fn connections_insert(
    map: &mut DashMap<String, PlayerConnection>,
    key: String,
    connection: PlayerConnection,
)
    ensures
        connection_entries(*final(map)) == connection_entries(*old(map)).insert(key@, connection@),
{
    map.insert(key, connection);
}

/// `DashMap::remove`: what the map held under `key` is taken out and
/// handed over; a key that it lacks changes nothing.
#[verifier::external_body]
fn connections_remove(map: &mut DashMap<String, PlayerConnection>, key: &str) -> (removed: Option<
    PlayerConnection,
>)
    ensures
        connection_entries(*final(map)) == connection_entries(*old(map)).remove(key@),
        match removed {
            Some(connection) => {
                &&& connection_entries(*old(map)).contains_key(key@)
                &&& connection@ == connection_entries(*old(map))[key@]
            },
            None => !connection_entries(*old(map)).contains_key(key@),
        },
{
    map.remove(key).map(|pair| pair.1)
}

/// `DashMap::contains_key`: whether the map holds anything under `key`.
#[verifier::external_body]
fn connections_contains(map: &DashMap<String, PlayerConnection>, key: &str) -> (held: bool)
    ensures
        held == connection_entries(*map).contains_key(key@),
{
    map.contains_key(key)
}

/// `DashMap::len`: how many connections the map holds.
#[verifier::external_body]
fn connections_len(map: &DashMap<String, PlayerConnection>) -> (count: usize)
    ensures
        count == connection_entries(*map).dom().len(),
{
    map.len()
}

/// The lists of player ids that a map of rosters holds, by key.
pub uninterp spec fn roster_entries(map: DashMap<String, Vec<String>>) -> Map<Seq<char>, Seq<Seq<char>>>;

/// `DashMap::new`: a map that holds nothing.
#[verifier::external_body]
fn rosters_new() -> (rosters: DashMap<String, Vec<String>>)
    ensures
        (roster_entries(rosters) == Map::<Seq<char>, Seq<Seq<char>>>::empty()),
{
    DashMap::new()
}

/// `DashMap::get`, with a copy of what was found: the list under `key`,
/// if the map holds one.
#[verifier::external_body]
fn rosters_get(map: &DashMap<String, Vec<String>>, key: &str) -> (found: Option<Vec<String>>)
    ensures
        match found {
            Some(ids) => roster_entries(*map).contains_key(key@) && ids_view(ids@) == roster_entries(
                *map,
            )[key@],
            None => !roster_entries(*map).contains_key(key@),
        },
{
    map.get(key).map(|ids| ids.clone())
}

/// `DashMap::insert`: afterwards the map holds `ids` under `key`, in place
/// of what it held there, and everything else as before.
#[verifier::external_body]
fn rosters_insert(map: &mut DashMap<String, Vec<String>>, key: String, ids: Vec<String>)
    ensures
        roster_entries(*final(map)) == roster_entries(*old(map)).insert(key@, ids_view(ids@)),
{
    map.insert(key, ids);
}

/// `keys` lists every key of the rosters exactly once.
pub open spec fn enumerates(rosters: Map<Seq<char>, Seq<Seq<char>>>, keys: Seq<Seq<char>>) -> bool {
    &&& keys.no_duplicates()
    &&& forall|k: Seq<char>| rosters.contains_key(k) <==> keys.contains(k)
}

/// `DashMap::iter`, with a copy of each key it comes by: the keys of the
/// map, each once, in the order in which the map happens to hand them out.
#[verifier::external_body]
fn rosters_keys(map: &DashMap<String, Vec<String>>) -> (keys: Vec<String>)
    ensures
        enumerates(roster_entries(*map), ids_view(keys@)),
{
    map.iter().map(|entry| entry.key().clone()).collect()
}

/// The registry of sessions and connections.
pub struct AppState {
    games: DashMap<String, GameState>,
    player_connections: DashMap<String, PlayerConnection>,
    game_players: DashMap<String, Vec<String>>,
}

/// The mathematical value of an [`AppState`].
pub struct AppStateView {
    /// Every session, by its id.
    pub games: Map<Seq<char>, GameStateView>,
    /// Every connection, by its player's id.
    pub connections: Map<Seq<char>, PlayerConnectionView>,
    /// For every session that ever had a connection, the ids of its
    /// connected players in the order in which they registered.
    pub rosters: Map<Seq<char>, Seq<Seq<char>>>,
}

impl View for AppState {
    type V = AppStateView;

    closed spec fn view(&self) -> AppStateView {
        AppStateView {
            games: game_entries(self.games),
            connections: connection_entries(self.player_connections),
            rosters: roster_entries(self.game_players),
        }
    }
}

impl AppStateView {
    /// The registry that holds nothing.
    pub open spec fn empty() -> AppStateView {
        AppStateView { games: Map::empty(), connections: Map::empty(), rosters: Map::empty() }
    }

    /// The registry after `game` was offered under its own id: a session
    /// that is already there stays.
    pub open spec fn with_new_game(self, game: GameStateView) -> AppStateView {
        if self.games.contains_key(game.id) {
            self
        } else {
            AppStateView { games: self.games.insert(game.id, game), ..self }
        }
    }

    /// The session with the given id, if there is one.
    pub open spec fn game(self, game_id: Seq<char>) -> Option<GameStateView> {
        if self.games.contains_key(game_id) {
            Some(self.games[game_id])
        } else {
            None
        }
    }

    /// The registry with `game` in place of the session with the given id.
    pub open spec fn with_game(self, game_id: Seq<char>, game: GameStateView) -> AppStateView {
        AppStateView { games: self.games.insert(game_id, game), ..self }
    }

    /// The ids of the players connected to a session, in the order in which
    /// they registered.
    pub open spec fn roster(self, game_id: Seq<char>) -> Seq<Seq<char>> {
        if self.rosters.contains_key(game_id) {
            self.rosters[game_id]
        } else {
            Seq::empty()
        }
    }

    /// The registry after a connection was registered under `player_id`:
    /// the connection is kept under that id, and the id goes to the end of
    /// the roster of the connection's session.
    pub open spec fn registered(self, player_id: Seq<char>, connection: PlayerConnectionView) -> AppStateView {
        AppStateView {
            connections: self.connections.insert(player_id, connection),
            rosters: self.rosters.insert(
                connection.game_id,
                self.roster(connection.game_id).push(player_id),
            ),
            ..self
        }
    }

    /// The registry after the connection under `player_id` was taken out:
    /// the id leaves the roster of the connection's session too. Without
    /// such a connection nothing changes.
    pub open spec fn unregistered(self, player_id: Seq<char>) -> AppStateView {
        if self.connections.contains_key(player_id) {
            let game_id = self.connections[player_id].game_id;
            AppStateView {
                connections: self.connections.remove(player_id),
                rosters: if self.rosters.contains_key(game_id) {
                    self.rosters.insert(
                        game_id,
                        self.rosters[game_id].filter(other_id(player_id)),
                    )
                } else {
                    self.rosters
                },
                ..self
            }
        } else {
            self
        }
    }

    /// The players that a message for a session goes to, in roster order.
    pub open spec fn recipients(self, game_id: Seq<char>, exclude: Option<Seq<char>>) -> Seq<Seq<char>> {
        self.roster(game_id).filter(reaches(self.connections, exclude))
    }
}

/// Whether an id is another than the given one.
pub open spec fn other_id(player_id: Seq<char>) -> spec_fn(Seq<char>) -> bool {
    |id: Seq<char>| id != player_id
}

/// Whom a message reaches: anyone but the excluded sender who still has a
/// connection.
pub open spec fn reaches(
    connections: Map<Seq<char>, PlayerConnectionView>,
    exclude: Option<Seq<char>>,
) -> spec_fn(Seq<char>) -> bool {
    |player_id: Seq<char>| exclude != Some(player_id) && connections.contains_key(player_id)
}

/// The mathematical value of a string slice that may be missing.
pub open spec fn str_view(s: Option<&str>) -> Option<Seq<char>> {
    match s {
        Some(t) => Some(t@),
        None => None,
    }
}

/// The ids of a list other than `player_id`, in order.
fn without_id(ids: &Vec<String>, player_id: &str) -> (kept: Vec<String>)
    ensures
        ids_view(kept@) == ids_view(ids@).filter(other_id(player_id@)),
{
    let ghost keep = other_id(player_id@);
    let mut kept: Vec<String> = Vec::new();
    let mut i: usize = 0;
    proof {
        assert(ids_view(ids@).take(0) =~= Seq::empty());
        assert(Seq::<Seq<char>>::empty().filter(keep) =~= Seq::empty()) by {
            reveal(Seq::filter);
        }
        assert(ids_view(kept@) =~= Seq::empty());
    }
    while i < ids.len()
        invariant
            i <= ids@.len(),
            keep == other_id(player_id@),
            ids_view(kept@) == ids_view(ids@).take(i as int).filter(keep),
        decreases ids@.len() - i,
    {
        let ghost before = ids_view(kept@);
        proof {
            assert(ids_view(ids@).take(i + 1) =~= ids_view(ids@).take(i as int).push(ids@[i as int]@));
            ids_view(ids@).take(i as int).lemma_filter_push(ids@[i as int]@, keep);
        }
        if !str_eq(ids[i].as_str(), player_id) {
            kept.push(ids[i].clone());
            proof {
                assert(ids_view(kept@) =~= before.push(ids@[i as int]@));
            }
        }
        i += 1;
    }
    proof {
        assert(ids_view(ids@).take(i as int) =~= ids_view(ids@));
    }
    kept
}

impl AppState {
    /// A registry that holds nothing.
    pub fn new() -> (state: AppState)
        ensures
            state@ == AppStateView::empty(),
    {
        AppState {
            games: games_new(),
            player_connections: connections_new(),
            game_players: rosters_new(),
        }
    }

    /// Offers a session to the registry under the session's own id. A
    /// session that is already there under that id stays, untouched.
    pub fn add_game(&mut self, game: GameState)
        ensures
            final(self)@ == old(self)@.with_new_game(game@),
    {
        let key = game.id.clone();
        games_insert_absent(&mut self.games, key, game);
    }

    /// A copy of the session with the given id, if there is one.
    pub fn get_game(&self, game_id: &str) -> (found: Option<GameState>)
        ensures
            match found {
                Some(game) => self@.game(game_id@) == Some(game@),
                None => self@.game(game_id@).is_none(),
            },
    {
        games_get(&self.games, game_id)
    }

    /// Applies a transition to the session with the given id, puts the
    /// result in its place and returns a copy of it. Without such a session
    /// nothing happens. The transition is given the session as it is and
    /// returns the session as it shall be.
    pub fn update_game<F: FnOnce(GameState) -> GameState>(&mut self, game_id: &str, f: F) -> (snapshot:
        Option<GameState>)
        requires
            forall|game: GameState| f.requires((game,)),
        ensures
            match snapshot {
                Some(after) => {
                    &&& old(self)@.games.contains_key(game_id@)
                    &&& final(self)@ == old(self)@.with_game(game_id@, after@)
                    &&& exists|before: GameState, result: GameState|
                        {
                            &&& before@ == old(self)@.games[game_id@]
                            &&& f.ensures((before,), result)
                            &&& result@ == after@
                        }
                },
                None => !old(self)@.games.contains_key(game_id@) && final(self)@ == old(self)@,
            },
    {
        match games_get(&self.games, game_id) {
            Some(before) => {
                let result = f(before);
                let snapshot = result.clone();
                games_insert(&mut self.games, game_id.to_owned(), result);
                Some(snapshot)
            },
            None => None,
        }
    }

    /// Registers a connection under `player_id` and puts the id at the end
    /// of the roster of the connection's session.
    pub fn add_player_connection(&mut self, player_id: String, connection: PlayerConnection)
        ensures
            final(self)@ == old(self)@.registered(player_id@, connection@),
    {
        let game_id = connection.game_id.clone();
        let mut ids = match rosters_get(&self.game_players, game_id.as_str()) {
            Some(ids) => ids,
            None => Vec::new(),
        };
        proof {
            assert(ids_view(ids@) =~= old(self)@.roster(game_id@));
        }
        let ghost before = ids@;
        ids.push(player_id.clone());
        proof {
            assert(ids_view(ids@) =~= ids_view(before).push(player_id@));
        }
        connections_insert(&mut self.player_connections, player_id, connection);
        rosters_insert(&mut self.game_players, game_id, ids);
    }

    /// Takes the connection under `player_id` out of the registry and the
    /// id out of the roster of its session, and returns that session's id.
    /// For a player who is not registered nothing happens.
    pub fn remove_player_connection(&mut self, player_id: &str) -> (game_id: Option<String>)
        ensures
            final(self)@ == old(self)@.unregistered(player_id@),
            match game_id {
                Some(id) => {
                    &&& old(self)@.connections.contains_key(player_id@)
                    &&& id@ == old(self)@.connections[player_id@].game_id
                },
                None => !old(self)@.connections.contains_key(player_id@),
            },
    {
        match connections_remove(&mut self.player_connections, player_id) {
            Some(connection) => {
                let game_id = connection.game_id;
                match rosters_get(&self.game_players, game_id.as_str()) {
                    Some(ids) => {
                        let kept = without_id(&ids, player_id);
                        rosters_insert(&mut self.game_players, game_id.clone(), kept);
                    },
                    None => {},
                }
                Some(game_id)
            },
            None => {
                proof {
                    assert(self@.connections =~= old(self)@.connections);
                }
                None
            },
        }
    }
}

impl AppState {
    /// Addresses a message to a session: to every player of its roster, in
    /// roster order, but for the excluded sender and for players whose
    /// connection is gone. A session without a roster reaches nobody.
    pub fn broadcast_to_game(
        &self,
        game_id: &str,
        message: ServerMessage,
        exclude_player: Option<&str>,
    ) -> (fanout: Broadcast)
        ensures
            ids_view(fanout.recipients@) == self@.recipients(game_id@, str_view(exclude_player)),
            fanout.message@ == message@,
    {
        let ghost wanted = reaches(self@.connections, str_view(exclude_player));
        let mut recipients: Vec<String> = Vec::new();
        let ids = match rosters_get(&self.game_players, game_id) {
            Some(ids) => ids,
            None => Vec::new(),
        };
        let mut i: usize = 0;
        proof {
            assert(ids_view(ids@) =~= self@.roster(game_id@));
            assert(ids_view(ids@).take(0) =~= Seq::empty());
            assert(Seq::<Seq<char>>::empty().filter(wanted) =~= Seq::empty()) by {
                reveal(Seq::filter);
            }
            assert(ids_view(recipients@) =~= Seq::empty());
        }
        while i < ids.len()
            invariant
                i <= ids@.len(),
                wanted == reaches(self@.connections, str_view(exclude_player)),
                ids_view(recipients@) == ids_view(ids@).take(i as int).filter(wanted),
            decreases ids@.len() - i,
        {
            let ghost before = ids_view(recipients@);
            proof {
                assert(ids_view(ids@).take(i + 1) =~= ids_view(ids@).take(i as int).push(ids@[i as int]@));
                ids_view(ids@).take(i as int).lemma_filter_push(ids@[i as int]@, wanted);
            }
            let excluded = match exclude_player {
                Some(sender) => str_eq(ids[i].as_str(), sender),
                None => false,
            };
            if !excluded && connections_contains(&self.player_connections, ids[i].as_str()) {
                recipients.push(ids[i].clone());
                proof {
                    assert(ids_view(recipients@) =~= before.push(ids@[i as int]@));
                }
            }
            i += 1;
        }
        proof {
            assert(ids_view(ids@).take(i as int) =~= ids_view(ids@));
        }
        Broadcast { recipients, message }
    }

    /// Addresses a message to one player: to that player if their
    /// connection is registered, and to nobody otherwise.
    pub fn send_to_player(&self, player_id: &str, message: ServerMessage) -> (fanout: Broadcast)
        ensures
            ids_view(fanout.recipients@) == if self@.connections.contains_key(player_id@) {
                seq![player_id@]
            } else {
                Seq::empty()
            },
            fanout.message@ == message@,
    {
        let mut recipients: Vec<String> = Vec::new();
        if connections_contains(&self.player_connections, player_id) {
            recipients.push(player_id.to_owned());
            proof {
                assert(ids_view(recipients@) =~= seq![player_id@]);
            }
        } else {
            proof {
                assert(ids_view(recipients@) =~= Seq::empty());
            }
        }
        Broadcast { recipients, message }
    }

    /// The ids of the sessions that have a roster, each once, in no
    /// particular order.
    pub fn roster_keys(&self) -> (keys: Vec<String>)
        ensures
            enumerates(self@.rosters, ids_view(keys@)),
    {
        rosters_keys(&self.game_players)
    }

    /// How many players are on the roster of a session.
    pub fn roster_len(&self, game_id: &str) -> (count: usize)
        ensures
            count == self@.roster(game_id@).len(),
    {
        match rosters_get(&self.game_players, game_id) {
            Some(ids) => {
                proof {
                    assert(ids_view(ids@).len() == ids@.len());
                }
                ids.len()
            },
            None => 0,
        }
    }

    /// How many sessions the registry holds.
    pub fn game_count(&self) -> (count: usize)
        ensures
            count == self@.games.dom().len(),
    {
        games_len(&self.games)
    }

    /// How many connections the registry holds.
    pub fn connection_count(&self) -> (count: usize)
        ensures
            count == self@.connections.dom().len(),
    {
        connections_len(&self.player_connections)
    }
}

} // verus!
