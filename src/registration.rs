//! The registration service: claims a nation of a server for a player.
//!
//! A lobby offers the catalog nations of its era and takes at most its player
//! count of claims; a started server offers the nations of its live roster,
//! which a [`ServerConnection`] fetches. Every check is made before the first
//! write, so a refused registration leaves the store as it was.

use vstd::prelude::*;
use crate::db::{
    DbConnection, DbError, DbView, assignment_count, claimed, has_server, nation_taken,
    player_exists, wf_db,
};
use crate::model::{CatalogNation, Era, GameData, GameServer, GameServerState, LobbyState, Nation, Player};
use crate::resolver::{Resolution, folded_names, lower_of, resolution, resolve, views};

verus! {

/// Why a registration was refused.
#[derive(PartialEq, Eq, Structural, Clone, Copy, Debug)]
pub enum RegistrationError {
    /// No server has the alias.
    ServerNotFound,
    /// The lobby holds as many claims as it takes players.
    LobbyFull,
    /// More than one candidate nation starts with the query.
    AmbiguousNation,
    /// No candidate nation starts with the query; `pretender_hint` is set when
    /// the started game has not begun, so that no pretender was uploaded yet.
    NationNotFound { pretender_hint: bool },
    /// The nation is already claimed in the server.
    NationAlreadyTaken,
    /// The user id is already registered.
    PlayerAlreadyRegistered,
    /// The live game server could not be queried.
    GameServerUnreachable,
    /// The store refused a write for another reason.
    StorageError,
}

/// Why the live game server could not be queried.
#[derive(PartialEq, Eq, Structural, Clone, Copy, Debug)]
pub enum QueryError {
    TimedOut,
    Transport,
    Protocol,
}

/// A successful registration.
#[derive(Debug)]
pub struct Registered {
    pub nation_name: String,
    /// The era of the nation; known in the lobby phase only.
    pub nation_era: Option<Era>,
}

/// The client that queries a started game server for its roster and turn.
pub trait ServerConnection {
    fn get_game_data(address: &str) -> Result<GameData, QueryError>;
}

/// The positions in the catalog of the nations of an era, in catalog order.
pub open spec fn era_indices(cat: Seq<CatalogNation>, era: Era) -> Seq<int>
    decreases cat.len(),
{
    if cat.len() == 0 {
        Seq::empty()
    } else {
        let rest = era_indices(cat.drop_last(), era);
        if cat.last().era == era {
            rest.push(cat.len() - 1)
        } else {
            rest
        }
    }
}

/// The names of the catalog nations that a lobby of this era offers.
pub open spec fn lobby_candidates(cat: Seq<CatalogNation>, era: Era) -> Seq<Seq<char>> {
    era_indices(cat, era).map_values(|i: int| cat[i].name@)
}

/// The names of the nations of a live roster.
pub open spec fn roster_names(nations: Seq<Nation>) -> Seq<Seq<char>> {
    nations.map_values(|n: Nation| n.name@)
}

/// What a registration in a lobby decides: the catalog position of the
/// claimed nation, or the refusal.
pub open spec fn lobby_outcome(
    v: DbView,
    cat: Seq<CatalogNation>,
    lobby: LobbyState,
    alias: Seq<char>,
    user: u64,
    q: Seq<char>,
) -> Result<int, RegistrationError> {
    if assignment_count(v, alias) >= lobby.player_count {
        Err(RegistrationError::LobbyFull)
    } else {
        match resolution(folded_names(lobby_candidates(cat, lobby.era)), lower_of(q)) {
            Resolution::Ambiguous => Err(RegistrationError::AmbiguousNation),
            Resolution::NotFound => Err(RegistrationError::NationNotFound { pretender_hint: false }),
            Resolution::Unique(k) => {
                let c = era_indices(cat, lobby.era)[k as int];
                if nation_taken(v, alias, cat[c].id) {
                    Err(RegistrationError::NationAlreadyTaken)
                } else if player_exists(v, user) {
                    Err(RegistrationError::PlayerAlreadyRegistered)
                } else {
                    Ok(c)
                }
            },
        }
    }
}

/// What a registration in a started server decides from what the query
/// returned: the roster position of the claimed nation, or the refusal.
pub open spec fn started_outcome(
    v: DbView,
    alias: Seq<char>,
    user: u64,
    q: Seq<char>,
    fetched: Result<GameData, QueryError>,
) -> Result<int, RegistrationError> {
    match fetched {
        Err(_) => Err(RegistrationError::GameServerUnreachable),
        Ok(data) => match resolution(folded_names(roster_names(data.nations@)), lower_of(q)) {
            Resolution::Ambiguous => Err(RegistrationError::AmbiguousNation),
            Resolution::NotFound => Err(
                RegistrationError::NationNotFound { pretender_hint: data.turn == -1 },
            ),
            Resolution::Unique(k) => {
                if player_exists(v, user) {
                    Err(RegistrationError::PlayerAlreadyRegistered)
                } else if nation_taken(v, alias, data.nations@[k as int].id) {
                    Err(RegistrationError::NationAlreadyTaken)
                } else {
                    Ok(k as int)
                }
            },
        },
    }
}

/// The result `r` and the store `new` are those of a lobby registration on `old`.
pub open spec fn lobby_post(
    old: DbView,
    new: DbView,
    cat: Seq<CatalogNation>,
    lobby: LobbyState,
    alias: Seq<char>,
    user: u64,
    q: Seq<char>,
    r: Result<Registered, RegistrationError>,
) -> bool {
    match lobby_outcome(old, cat, lobby, alias, user, q) {
        Ok(c) => r matches Ok(reg) && reg.nation_name@ == cat[c].name@ && reg.nation_era == Some(
            lobby.era,
        ) && new == claimed(old, alias, user, cat[c].id),
        Err(e) => r == Err::<Registered, RegistrationError>(e) && new == old,
    }
}

/// The result `r` and the store `new` are those of a started-server
/// registration on `old`, given what the query returned.
pub open spec fn started_post(
    old: DbView,
    new: DbView,
    alias: Seq<char>,
    user: u64,
    q: Seq<char>,
    fetched: Result<GameData, QueryError>,
    r: Result<Registered, RegistrationError>,
) -> bool {
    match started_outcome(old, alias, user, q, fetched) {
        Ok(k) => fetched matches Ok(data) && r matches Ok(reg) && reg.nation_name@
            == data.nations@[k].name@ && reg.nation_era is None && new == claimed(
            old,
            alias,
            user,
            data.nations@[k].id,
        ),
        Err(e) => r == Err::<Registered, RegistrationError>(e) && new == old,
    }
}

/// The server with this alias.
pub open spec fn server_state(v: DbView, alias: Seq<char>) -> GameServerState {
    v.servers[choose|i: int| 0 <= i < v.servers.len() && v.servers[i].alias@ == alias].state
}

proof fn lemma_era_indices_bounded(cat: Seq<CatalogNation>, era: Era)
    ensures
        forall|k: int|
            0 <= k < era_indices(cat, era).len() ==> 0 <= #[trigger] era_indices(cat, era)[k]
                < cat.len(),
    decreases cat.len(),
{
    if cat.len() > 0 {
        let rest = era_indices(cat.drop_last(), era);
        lemma_era_indices_bounded(cat.drop_last(), era);
        assert(forall|k: int| 0 <= k < rest.len() ==> 0 <= #[trigger] rest[k] < cat.len() - 1);
        if cat.last().era == era {
            assert(era_indices(cat, era) == rest.push(cat.len() - 1));
            assert(forall|k: int|
                0 <= k < rest.len() ==> #[trigger] rest.push(cat.len() - 1)[k] == rest[k]);
        } else {
            assert(era_indices(cat, era) == rest);
        }
    }
}

/// Registers `user_id` in the lobby `alias` under the catalog nation of the
/// lobby's era whose name starts with `nation_query`.
pub fn register_lobby(
    db: &mut DbConnection,
    catalog: &Vec<CatalogNation>,
    lobby: LobbyState,
    alias: &str,
    user_id: u64,
    nation_query: &str,
) -> (r: Result<Registered, RegistrationError>)
    requires
        old(db).wf(),
        has_server(old(db)@, alias@),
    ensures
        final(db).wf(),
        lobby_post(old(db)@, final(db)@, catalog@, lobby, alias@, user_id, nation_query@, r),
{
    let pairs = db.players_with_nations_for_game_alias(alias);
    if lobby.player_count <= 0 || pairs.len() >= lobby.player_count as usize {
        return Err(RegistrationError::LobbyFull);
    }
    let ghost cat = catalog@;
    let ghost era = lobby.era;
    let mut idx: Vec<usize> = Vec::new();
    let mut names: Vec<String> = Vec::new();
    let mut i: usize = 0;
    while i < catalog.len()
        invariant
            cat == catalog@,
            era == lobby.era,
            0 <= i <= catalog.len(),
            idx@.len() == era_indices(cat.subrange(0, i as int), era).len(),
            names@.len() == idx@.len(),
            forall|k: int|
                0 <= k < idx@.len() ==> #[trigger] idx@[k] == era_indices(
                    cat.subrange(0, i as int),
                    era,
                )[k] && idx@[k] < i && names@[k]@ == cat[idx@[k] as int].name@,
        decreases catalog.len() - i,
    {
        proof {
            let s1 = cat.subrange(0, i + 1);
            assert(s1.drop_last() =~= cat.subrange(0, i as int));
            assert(s1.last() == cat[i as int]);
        }
        if catalog[i].era == lobby.era {
            idx.push(i);
            names.push(catalog[i].name.clone());
        }
        i = i + 1;
    }
    proof {
        assert(cat.subrange(0, i as int) =~= cat);
        let cands = lobby_candidates(cat, era);
        assert forall|k: int| 0 <= k < names@.len() implies #[trigger] views(names@)[k] == cands[k] by {
            assert(idx@[k] == era_indices(cat, era)[k]);
        }
        assert(views(names@) =~= cands);
        lemma_era_indices_bounded(cat, era);
    }
    match resolve(&names, nation_query) {
        Resolution::Ambiguous => Err(RegistrationError::AmbiguousNation),
        Resolution::NotFound => Err(RegistrationError::NationNotFound { pretender_hint: false }),
        Resolution::Unique(k) => {
            let c = idx[k];
            let nation = &catalog[c];
            if db.is_nation_taken(alias, nation.id) {
                return Err(RegistrationError::NationAlreadyTaken);
            }
            let player = Player { discord_user_id: user_id, turn_notifications: true };
            if db.insert_player(&player).is_err() {
                return Err(RegistrationError::PlayerAlreadyRegistered);
            }
            assert(has_server(db@, alias@));
            assert(!nation_taken(db@, alias@, nation.id));
            match db.insert_server_player(alias, user_id, nation.id) {
                Ok(()) => Ok(Registered { nation_name: nation.name.clone(), nation_era: Some(lobby.era) }),
                Err(e) => {
                    assert(e == DbError::NotFound || e == DbError::AlreadyExists);
                    Err(RegistrationError::StorageError)
                },
            }
        },
    }
}

/// Registers `user_id` in the started server `alias` under the nation of the
/// roster in `fetched` whose name starts with `nation_query`.
pub fn register_started(
    db: &mut DbConnection,
    alias: &str,
    user_id: u64,
    nation_query: &str,
    fetched: Result<GameData, QueryError>,
) -> (r: Result<Registered, RegistrationError>)
    requires
        old(db).wf(),
        has_server(old(db)@, alias@),
    ensures
        final(db).wf(),
        started_post(old(db)@, final(db)@, alias@, user_id, nation_query@, fetched, r),
{
    let data = match fetched {
        Err(_) => {
            return Err(RegistrationError::GameServerUnreachable);
        },
        Ok(data) => data,
    };
    let mut names: Vec<String> = Vec::new();
    let mut i: usize = 0;
    while i < data.nations.len()
        invariant
            0 <= i <= data.nations.len(),
            views(names@) =~= roster_names(data.nations@).subrange(0, i as int),
        decreases data.nations.len() - i,
    {
        let ghost before = names@;
        names.push(data.nations[i].name.clone());
        assert(views(names@) =~= views(before).push(data.nations@[i as int].name@));
        assert(views(names@) =~= roster_names(data.nations@).subrange(0, i + 1));
        i = i + 1;
    }
    assert(views(names@) =~= roster_names(data.nations@));
    match resolve(&names, nation_query) {
        Resolution::Ambiguous => Err(RegistrationError::AmbiguousNation),
        Resolution::NotFound => Err(RegistrationError::NationNotFound { pretender_hint: data.turn == -1 }),
        Resolution::Unique(k) => {
            let nation = &data.nations[k];
            if db.has_player(user_id) {
                return Err(RegistrationError::PlayerAlreadyRegistered);
            }
            if db.is_nation_taken(alias, nation.id) {
                return Err(RegistrationError::NationAlreadyTaken);
            }
            let player = Player { discord_user_id: user_id, turn_notifications: true };
            if db.insert_player(&player).is_err() {
                return Err(RegistrationError::PlayerAlreadyRegistered);
            }
            assert(has_server(db@, alias@));
            assert(!nation_taken(db@, alias@, nation.id));
            match db.insert_server_player(alias, user_id, nation.id) {
                Ok(()) => Ok(Registered { nation_name: nation.name.clone(), nation_era: None }),
                Err(e) => {
                    assert(e == DbError::NotFound || e == DbError::AlreadyExists);
                    Err(RegistrationError::StorageError)
                },
            }
        },
    }
}

proof fn lemma_found_server_state(v: DbView, alias: Seq<char>, s: GameServer)
    requires
        wf_db(v),
        v.servers.contains(s),
        s.alias@ == alias,
    ensures
        has_server(v, alias),
        s.state == server_state(v, alias),
{
    let j = choose|j: int| 0 <= j < v.servers.len() && v.servers[j] == s;
    assert(v.servers[j].alias@ == alias);
    let i = choose|i: int| 0 <= i < v.servers.len() && v.servers[i].alias@ == alias;
    if i < j {
        assert(v.servers[i].alias@ != v.servers[j].alias@);
    } else if j < i {
        assert(v.servers[j].alias@ != v.servers[i].alias@);
    }
}

/// Registers `user_id` in the server `alias` under the nation whose name
/// starts with `nation_query`: a catalog nation of the era of a lobby, or a
/// nation of the live roster of a started server, which `C` is asked for.
pub fn register_player_helper<C: ServerConnection>(
    user_id: u64,
    nation_query: &str,
    alias: &str,
    db_conn: &mut DbConnection,
    catalog: &Vec<CatalogNation>,
) -> (r: Result<Registered, RegistrationError>)
    requires
        old(db_conn).wf(),
    ensures
        final(db_conn).wf(),
        !has_server(old(db_conn)@, alias@) ==> r == Err::<Registered, RegistrationError>(
            RegistrationError::ServerNotFound,
        ) && final(db_conn)@ == old(db_conn)@,
        has_server(old(db_conn)@, alias@) ==> match server_state(old(db_conn)@, alias@) {
            GameServerState::Lobby(lobby) => lobby_post(
                old(db_conn)@,
                final(db_conn)@,
                catalog@,
                lobby,
                alias@,
                user_id,
                nation_query@,
                r,
            ),
            GameServerState::StartedState(_) => exists|fetched: Result<GameData, QueryError>|
                started_post(
                    old(db_conn)@,
                    final(db_conn)@,
                    alias@,
                    user_id,
                    nation_query@,
                    fetched,
                    r,
                ),
        },
{
    let server = match db_conn.game_for_alias(alias) {
        Err(_) => {
            return Err(RegistrationError::ServerNotFound);
        },
        Ok(server) => server,
    };
    proof {
        lemma_found_server_state(db_conn@, alias@, server);
    }
    match server.state {
        GameServerState::Lobby(lobby) => register_lobby(
            db_conn,
            catalog,
            lobby,
            alias,
            user_id,
            nation_query,
        ),
        GameServerState::StartedState(started) => {
            let fetched = C::get_game_data(started.address.as_str());
            let ghost snapshot = fetched;
            let r = register_started(db_conn, alias, user_id, nation_query, fetched);
            assert(started_post(old(db_conn)@, db_conn@, alias@, user_id, nation_query@, snapshot, r));
            r
        },
    }
}

} // verus!
