//! The persistent store of servers, players and server-player-nation
//! assignments, with the store's uniqueness rules as its invariant.

use vstd::prelude::*;
use crate::model::{GameServer, GameServerState, Player, copy_server};

verus! {

/// Why a store operation was refused.
#[derive(PartialEq, Eq, Structural, Clone, Copy, Debug)]
pub enum DbError {
    /// No server has the alias.
    NotFound,
    /// The row would break a uniqueness rule.
    AlreadyExists,
}

/// One recorded claim: a player holds a nation in a server.
pub struct Assignment {
    pub alias: Seq<char>,
    pub user: u64,
    pub nation: u32,
}

/// The contents of the store.
pub struct DbView {
    pub servers: Seq<GameServer>,
    pub players: Seq<Player>,
    pub assignments: Seq<Assignment>,
}

/// A store with no rows.
pub open spec fn empty_db() -> DbView {
    DbView { servers: Seq::empty(), players: Seq::empty(), assignments: Seq::empty() }
}

/// Some server has this alias.
pub open spec fn has_server(v: DbView, alias: Seq<char>) -> bool {
    exists|i: int| 0 <= i < v.servers.len() && (#[trigger] v.servers[i]).alias@ == alias
}

/// Some player has this user id.
pub open spec fn player_exists(v: DbView, user: u64) -> bool {
    exists|i: int| 0 <= i < v.players.len() && (#[trigger] v.players[i]).discord_user_id == user
}

/// The nation is claimed in the server.
pub open spec fn nation_taken(v: DbView, alias: Seq<char>, nation: u32) -> bool {
    exists|i: int|
        0 <= i < v.assignments.len() && (#[trigger] v.assignments[i]).alias == alias
            && v.assignments[i].nation == nation
}

/// The store's uniqueness rules: one server per alias, one player per user id,
/// one claim per nation and server.
pub open spec fn wf_db(v: DbView) -> bool {
    &&& forall|i: int, j: int|
        0 <= i < j < v.servers.len() ==> (#[trigger] v.servers[i]).alias@ != (
        #[trigger] v.servers[j]).alias@
    &&& forall|i: int, j: int|
        0 <= i < j < v.players.len() ==> (#[trigger] v.players[i]).discord_user_id != (
        #[trigger] v.players[j]).discord_user_id
    &&& forall|i: int, j: int|
        0 <= i < j < v.assignments.len() ==> !((#[trigger] v.assignments[i]).alias == (
        #[trigger] v.assignments[j]).alias && v.assignments[i].nation == v.assignments[j].nation)
}

/// The (player, nation) pairs claimed in the server, in the order of claiming.
pub open spec fn pairs_for(a: Seq<Assignment>, alias: Seq<char>) -> Seq<(u64, u32)>
    decreases a.len(),
{
    if a.len() == 0 {
        Seq::empty()
    } else {
        let rest = pairs_for(a.drop_last(), alias);
        if a.last().alias == alias {
            rest.push((a.last().user, a.last().nation))
        } else {
            rest
        }
    }
}

/// How many claims the server holds.
pub open spec fn assignment_count(v: DbView, alias: Seq<char>) -> nat {
    pairs_for(v.assignments, alias).len()
}

/// How many rows record this nation in this server.
pub open spec fn rows_for(a: Seq<Assignment>, alias: Seq<char>, nation: u32) -> nat
    decreases a.len(),
{
    if a.len() == 0 {
        0
    } else {
        rows_for(a.drop_last(), alias, nation) + if a.last().alias == alias && a.last().nation
            == nation {
            1nat
        } else {
            0nat
        }
    }
}

/// How many servers are in the lobby state.
pub open spec fn lobby_count(s: Seq<GameServer>) -> nat
    decreases s.len(),
{
    if s.len() == 0 {
        0
    } else {
        lobby_count(s.drop_last()) + if s.last().state is Lobby {
            1nat
        } else {
            0nat
        }
    }
}

/// How many servers are in the started state.
pub open spec fn started_count(s: Seq<GameServer>) -> nat
    decreases s.len(),
{
    if s.len() == 0 {
        0
    } else {
        started_count(s.drop_last()) + if s.last().state is StartedState {
            1nat
        } else {
            0nat
        }
    }
}

/// The store after `user` was added as a player and given `nation` in the
/// server `alias`.
pub open spec fn claimed(v: DbView, alias: Seq<char>, user: u64, nation: u32) -> DbView {
    DbView {
        servers: v.servers,
        players: v.players.push(Player { discord_user_id: user, turn_notifications: true }),
        assignments: v.assignments.push(Assignment { alias, user, nation }),
    }
}

/// A row of the assignment table.
struct ServerPlayer {
    server_alias: String,
    discord_user_id: u64,
    nation_id: u32,
}

/// An in-memory store.
pub struct DbConnection {
    servers: Vec<GameServer>,
    players: Vec<Player>,
    server_players: Vec<ServerPlayer>,
}

spec fn assignment_of(sp: ServerPlayer) -> Assignment {
    Assignment { alias: sp.server_alias@, user: sp.discord_user_id, nation: sp.nation_id }
}

impl View for DbConnection {
    type V = DbView;

    closed spec fn view(&self) -> DbView {
        DbView {
            servers: self.servers@,
            players: self.players@,
            assignments: self.server_players@.map_values(|sp: ServerPlayer| assignment_of(sp)),
        }
    }
}

proof fn lemma_count_bound(s: Seq<GameServer>)
    ensures
        lobby_count(s) <= s.len(),
        started_count(s) <= s.len(),
    decreases s.len(),
{
    if s.len() > 0 {
        lemma_count_bound(s.drop_last());
    }
}

impl DbConnection {
    /// Whether the store keeps its uniqueness rules.
    pub open spec fn wf(&self) -> bool {
        wf_db(self@)
    }

    /// An empty store.
    pub fn noop() -> (r: Self)
        ensures
            r@ == empty_db(),
            r.wf(),
    {
        let r = DbConnection { servers: Vec::new(), players: Vec::new(), server_players: Vec::new() };
        assert(r@.assignments =~= Seq::<Assignment>::empty());
        r
    }

    /// An empty store, ready for a test to fill.
    pub fn test() -> (r: Self)
        ensures
            r@ == empty_db(),
            r.wf(),
    {
        Self::noop()
    }

    /// The number of servers.
    pub fn count_servers(&self) -> (r: i32)
        requires
            self@.servers.len() <= i32::MAX,
        ensures
            r == self@.servers.len(),
    {
        self.servers.len() as i32
    }

    /// The number of servers in the started state.
    pub fn count_started_server_state(&self) -> (r: i32)
        requires
            self@.servers.len() <= i32::MAX,
        ensures
            r == started_count(self@.servers),
    {
        let mut n: i32 = 0;
        let mut i: usize = 0;
        while i < self.servers.len()
            invariant
                self@.servers.len() <= i32::MAX,
                0 <= i <= self.servers.len(),
                n == started_count(self.servers@.subrange(0, i as int)),
            decreases self.servers.len() - i,
        {
            proof {
                assert(self.servers@.subrange(0, i + 1).drop_last() =~= self.servers@.subrange(0, i as int));
                lemma_count_bound(self.servers@.subrange(0, i as int));
            }
            if let GameServerState::StartedState(_) = &self.servers[i].state {
                n = n + 1;
            }
            i = i + 1;
        }
        assert(self.servers@.subrange(0, i as int) =~= self.servers@);
        n
    }

    /// The number of servers in the lobby state.
    pub fn count_lobby_state(&self) -> (r: i32)
        requires
            self@.servers.len() <= i32::MAX,
        ensures
            r == lobby_count(self@.servers),
    {
        let mut n: i32 = 0;
        let mut i: usize = 0;
        while i < self.servers.len()
            invariant
                self@.servers.len() <= i32::MAX,
                0 <= i <= self.servers.len(),
                n == lobby_count(self.servers@.subrange(0, i as int)),
            decreases self.servers.len() - i,
        {
            proof {
                assert(self.servers@.subrange(0, i + 1).drop_last() =~= self.servers@.subrange(0, i as int));
                lemma_count_bound(self.servers@.subrange(0, i as int));
            }
            if let GameServerState::Lobby(_) = &self.servers[i].state {
                n = n + 1;
            }
            i = i + 1;
        }
        assert(self.servers@.subrange(0, i as int) =~= self.servers@);
        n
    }

    /// The position of the server with this alias, if there is one.
    fn server_position(&self, alias: &String) -> (r: Option<usize>)
        ensures
            match r {
                None => !has_server(self@, alias@),
                Some(i) => i < self@.servers.len() && self@.servers[i as int].alias@ == alias@,
            },
    {
        let mut i: usize = 0;
        while i < self.servers.len()
            invariant
                0 <= i <= self.servers.len(),
                forall|k: int| 0 <= k < i ==> (#[trigger] self.servers@[k]).alias@ != alias@,
            decreases self.servers.len() - i,
        {
            if self.servers[i].alias == *alias {
                return Some(i);
            }
            i = i + 1;
        }
        None
    }

    /// Adds a server; refused when its alias is already in use.
    pub fn insert_game_server(&mut self, server: GameServer) -> (r: Result<(), DbError>)
        requires
            old(self).wf(),
        ensures
            final(self).wf(),
            r is Err <==> has_server(old(self)@, server.alias@),
            r is Err ==> r == Err::<(), DbError>(DbError::AlreadyExists) && final(self)@ == old(self)@,
            r is Ok ==> final(self)@ == (DbView { servers: old(self)@.servers.push(server), ..old(self)@ }),
    {
        match self.server_position(&server.alias) {
            Some(_) => Err(DbError::AlreadyExists),
            None => {
                self.servers.push(server);
                Ok(())
            },
        }
    }

    /// The server with this alias.
    pub fn game_for_alias(&self, alias: &str) -> (r: Result<GameServer, DbError>)
        ensures
            r is Err <==> !has_server(self@, alias@),
            r is Err ==> r == Err::<GameServer, DbError>(DbError::NotFound),
            r matches Ok(s) ==> s.alias@ == alias@ && self@.servers.contains(s),
    {
        let key = alias.to_owned();
        match self.server_position(&key) {
            None => Err(DbError::NotFound),
            Some(i) => Ok(copy_server(&self.servers[i])),
        }
    }

    /// The (player, nation) pairs claimed in the server with this alias.
    pub fn players_with_nations_for_game_alias(&self, alias: &str) -> (r: Vec<(u64, u32)>)
        ensures
            r@ == pairs_for(self@.assignments, alias@),
    {
        let key = alias.to_owned();
        let ghost a = self@.assignments;
        let mut out: Vec<(u64, u32)> = Vec::new();
        let mut i: usize = 0;
        while i < self.server_players.len()
            invariant
                a == self@.assignments,
                key@ == alias@,
                0 <= i <= self.server_players.len(),
                out@ == pairs_for(a.subrange(0, i as int), alias@),
            decreases self.server_players.len() - i,
        {
            assert(a.subrange(0, i + 1).drop_last() =~= a.subrange(0, i as int));
            assert(a[i as int] == assignment_of(self.server_players@[i as int]));
            let sp = &self.server_players[i];
            if sp.server_alias == key {
                out.push((sp.discord_user_id, sp.nation_id));
            }
            i = i + 1;
        }
        assert(a.subrange(0, i as int) =~= a);
        out
    }

    /// Whether a player with this user id exists.
    pub fn has_player(&self, user: u64) -> (r: bool)
        ensures
            r == player_exists(self@, user),
    {
        let mut i: usize = 0;
        while i < self.players.len()
            invariant
                0 <= i <= self.players.len(),
                forall|k: int| 0 <= k < i ==> (#[trigger] self.players@[k]).discord_user_id != user,
            decreases self.players.len() - i,
        {
            if self.players[i].discord_user_id == user {
                assert(self@.players[i as int].discord_user_id == user);
                return true;
            }
            i = i + 1;
        }
        false
    }

    /// Whether the nation is claimed in the server with this alias.
    pub fn is_nation_taken(&self, alias: &str, nation: u32) -> (r: bool)
        ensures
            r == nation_taken(self@, alias@, nation),
    {
        let key = alias.to_owned();
        let ghost a = self@.assignments;
        let mut i: usize = 0;
        while i < self.server_players.len()
            invariant
                a == self@.assignments,
                key@ == alias@,
                0 <= i <= self.server_players.len(),
                forall|k: int| 0 <= k < i ==> !((#[trigger] a[k]).alias == alias@ && a[k].nation == nation),
            decreases self.server_players.len() - i,
        {
            assert(a[i as int] == assignment_of(self.server_players@[i as int]));
            if self.server_players[i].server_alias == key && self.server_players[i].nation_id == nation {
                return true;
            }
            i = i + 1;
        }
        false
    }

    /// Adds a player; refused when the user id is already registered.
    pub fn insert_player(&mut self, player: &Player) -> (r: Result<(), DbError>)
        requires
            old(self).wf(),
        ensures
            final(self).wf(),
            r is Err <==> player_exists(old(self)@, player.discord_user_id),
            r is Err ==> r == Err::<(), DbError>(DbError::AlreadyExists) && final(self)@ == old(self)@,
            r is Ok ==> final(self)@ == (DbView { players: old(self)@.players.push(*player), ..old(self)@ }),
    {
        if self.has_player(player.discord_user_id) {
            return Err(DbError::AlreadyExists);
        }
        self.players.push(*player);
        Ok(())
    }

    /// Records that `user` holds `nation` in the server `alias`; refused when no
    /// server has the alias, or the nation is already claimed there.
    pub fn insert_server_player(&mut self, alias: &str, user: u64, nation: u32) -> (r: Result<(), DbError>)
        requires
            old(self).wf(),
        ensures
            final(self).wf(),
            r == Err::<(), DbError>(DbError::NotFound) <==> !has_server(old(self)@, alias@),
            r == Err::<(), DbError>(DbError::AlreadyExists) <==> has_server(old(self)@, alias@)
                && nation_taken(old(self)@, alias@, nation),
            r is Err ==> final(self)@ == old(self)@,
            r is Ok ==> final(self)@ == (DbView {
                assignments: old(self)@.assignments.push(Assignment { alias: alias@, user, nation }),
                ..old(self)@
            }),
    {
        let key = alias.to_owned();
        if self.server_position(&key).is_none() {
            return Err(DbError::NotFound);
        }
        if self.is_nation_taken(alias, nation) {
            return Err(DbError::AlreadyExists);
        }
        self.server_players.push(ServerPlayer { server_alias: key, discord_user_id: user, nation_id: nation });
        assert(self@.assignments =~= old(self)@.assignments.push(Assignment { alias: alias@, user, nation }));
        Ok(())
    }
}

} // verus!
