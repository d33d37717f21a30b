//! The data that registration reads and writes: servers and their lifecycle
//! state, players, and nations of the static catalog and of a live roster.

use vstd::prelude::*;

verus! {

/// The era of a game, which decides the nations that a lobby offers.
#[derive(PartialEq, Eq, Structural, Clone, Copy, Debug)]
pub enum Era {
    Early,
    Middle,
    Late,
}

/// A server that waits for its players before the game starts.
#[derive(PartialEq, Eq, Structural, Clone, Copy, Debug)]
pub struct LobbyState {
    /// The chat user id of the lobby's owner.
    pub owner: u64,
    /// How many players the lobby takes.
    pub player_count: i32,
    /// The era whose nations the lobby offers.
    pub era: Era,
}

/// A server whose game process runs.
#[derive(Debug)]
pub struct StartedState {
    /// Network endpoint of the live game server.
    pub address: String,
    /// The last turn seen on the server.
    pub last_seen_turn: i32,
}

/// The lifecycle state of a server: exactly one of the two.
#[derive(Debug)]
pub enum GameServerState {
    Lobby(LobbyState),
    StartedState(StartedState),
}

/// A game server, known by its alias.
#[derive(Debug)]
pub struct GameServer {
    pub alias: String,
    pub state: GameServerState,
}

/// A registered player, known by their chat user id.
#[derive(PartialEq, Eq, Structural, Clone, Copy, Debug)]
pub struct Player {
    pub discord_user_id: u64,
    pub turn_notifications: bool,
}

/// An entry of the static nation catalog.
#[derive(Debug)]
pub struct CatalogNation {
    pub id: u32,
    pub name: String,
    pub era: Era,
}

/// A nation of the live roster of a started server.
#[derive(Debug)]
pub struct Nation {
    pub id: u32,
    pub name: String,
}

/// What a started game server reports about itself.
#[derive(Debug)]
pub struct GameData {
    pub nations: Vec<Nation>,
    /// The current turn; `-1` while the game has not begun.
    pub turn: i32,
}

/// A copy of a server state.
pub fn copy_state(s: &GameServerState) -> (r: GameServerState)
    ensures
        r == *s,
{
    match s {
        GameServerState::Lobby(l) => GameServerState::Lobby(*l),
        GameServerState::StartedState(st) => GameServerState::StartedState(
            StartedState { address: st.address.clone(), last_seen_turn: st.last_seen_turn },
        ),
    }
}

/// A copy of a server.
pub fn copy_server(s: &GameServer) -> (r: GameServer)
    ensures
        r == *s,
{
    GameServer { alias: s.alias.clone(), state: copy_state(&s.state) }
}

} // verus!
