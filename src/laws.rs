//! Properties of registration that hold of every store, catalog and query,
//! stated over the outcomes that the registration functions meet.

use vstd::prelude::*;
use crate::db::{
    Assignment, DbView, assignment_count, claimed, nation_taken, pairs_for, player_exists,
    rows_for, wf_db,
};
use crate::model::{CatalogNation, GameData, LobbyState};
use crate::registration::{
    QueryError, Registered, RegistrationError, era_indices, lobby_candidates, lobby_outcome,
    lobby_post, roster_names, started_outcome, started_post,
};
use crate::resolver::{Resolution, folded_names, is_prefix, lower_of, resolution};

verus! {

proof fn lemma_pairs_push(a: Seq<Assignment>, x: Assignment)
    ensures
        pairs_for(a.push(x), x.alias) == pairs_for(a, x.alias).push((x.user, x.nation)),
{
    assert(a.push(x).drop_last() =~= a);
}

proof fn lemma_rows_push(a: Seq<Assignment>, x: Assignment)
    ensures
        rows_for(a.push(x), x.alias, x.nation) == rows_for(a, x.alias, x.nation) + 1,
{
    assert(a.push(x).drop_last() =~= a);
}

proof fn lemma_no_rows(a: Seq<Assignment>, alias: Seq<char>, nation: u32)
    requires
        forall|i: int| 0 <= i < a.len() ==> !((#[trigger] a[i]).alias == alias && a[i].nation == nation),
    ensures
        rows_for(a, alias, nation) == 0,
    decreases a.len(),
{
    if a.len() > 0 {
        let rest = a.drop_last();
        assert forall|i: int| 0 <= i < rest.len() implies !((#[trigger] rest[i]).alias == alias
            && rest[i].nation == nation) by {
            assert(rest[i] == a[i]);
        }
        lemma_no_rows(rest, alias, nation);
        assert(a.last() == a[a.len() - 1]);
    }
}

/// The claimed nation's row is the only one for its server and nation after
/// a claim of a nation that was free.
proof fn lemma_single_row(v: DbView, alias: Seq<char>, user: u64, nation: u32)
    requires
        !nation_taken(v, alias, nation),
    ensures
        rows_for(claimed(v, alias, user, nation).assignments, alias, nation) == 1,
        nation_taken(claimed(v, alias, user, nation), alias, nation),
{
    lemma_no_rows(v.assignments, alias, nation);
    lemma_rows_push(v.assignments, Assignment { alias, user, nation });
    let w = claimed(v, alias, user, nation);
    assert(w.assignments[v.assignments.len() as int] == Assignment { alias, user, nation });
}

/// A lobby registration adds exactly one claim to the server when it
/// succeeds, and none when it fails.
pub proof fn lobby_registration_adds_one_claim(
    v: DbView,
    new: DbView,
    cat: Seq<CatalogNation>,
    lobby: LobbyState,
    alias: Seq<char>,
    user: u64,
    q: Seq<char>,
    r: Result<Registered, RegistrationError>,
)
    requires
        lobby_post(v, new, cat, lobby, alias, user, q, r),
    ensures
        r is Ok ==> assignment_count(new, alias) == assignment_count(v, alias) + 1,
        r is Err ==> assignment_count(new, alias) == assignment_count(v, alias),
{
    if let Ok(c) = lobby_outcome(v, cat, lobby, alias, user, q) {
        lemma_pairs_push(v.assignments, Assignment { alias, user, nation: cat[c].id });
    }
}

/// A lobby that holds as many claims as it takes players refuses every
/// registration with `LobbyFull`, whatever the query, and writes nothing.
pub proof fn full_lobby_refuses(
    v: DbView,
    new: DbView,
    cat: Seq<CatalogNation>,
    lobby: LobbyState,
    alias: Seq<char>,
    user: u64,
    q: Seq<char>,
    r: Result<Registered, RegistrationError>,
)
    requires
        assignment_count(v, alias) >= lobby.player_count,
        lobby_post(v, new, cat, lobby, alias, user, q, r),
    ensures
        r == Err::<Registered, RegistrationError>(RegistrationError::LobbyFull),
        new == v,
{
}

/// Two candidates that both start with the query make the resolution
/// ambiguous.
pub proof fn shared_prefix_is_ambiguous(names: Seq<Seq<char>>, q: Seq<char>, i: int, j: int)
    requires
        0 <= i < names.len(),
        0 <= j < names.len(),
        i != j,
        is_prefix(q, names[i]),
        is_prefix(q, names[j]),
    ensures
        resolution(names, q) == Resolution::Ambiguous,
{
    if i < j {
        assert(is_prefix(q, names[i]) && is_prefix(q, names[j]));
    } else {
        assert(is_prefix(q, names[j]) && is_prefix(q, names[i]));
    }
}

/// A query that two candidate nations share refuses the registration with
/// `AmbiguousNation` and writes nothing, in a lobby with room left and in a
/// started server alike.
pub proof fn ambiguous_query_writes_nothing(
    v: DbView,
    new_lobby: DbView,
    new_started: DbView,
    cat: Seq<CatalogNation>,
    lobby: LobbyState,
    data: GameData,
    alias: Seq<char>,
    user: u64,
    q: Seq<char>,
    r_lobby: Result<Registered, RegistrationError>,
    r_started: Result<Registered, RegistrationError>,
)
    requires
        lobby_post(v, new_lobby, cat, lobby, alias, user, q, r_lobby),
        started_post(v, new_started, alias, user, q, Ok(data), r_started),
    ensures
        assignment_count(v, alias) < lobby.player_count && (exists|i: int, j: int|
            0 <= i < j < lobby_candidates(cat, lobby.era).len() && is_prefix(
                lower_of(q),
                lower_of(#[trigger] lobby_candidates(cat, lobby.era)[i]),
            ) && is_prefix(lower_of(q), lower_of(#[trigger] lobby_candidates(cat, lobby.era)[j])))
            ==> r_lobby == Err::<Registered, RegistrationError>(RegistrationError::AmbiguousNation)
            && new_lobby == v,
        (exists|i: int, j: int|
            0 <= i < j < data.nations@.len() && is_prefix(
                lower_of(q),
                lower_of(#[trigger] data.nations@[i].name@),
            ) && is_prefix(lower_of(q), lower_of(#[trigger] data.nations@[j].name@)))
            ==> r_started == Err::<Registered, RegistrationError>(RegistrationError::AmbiguousNation)
            && new_started == v,
{
    let lc = folded_names(lobby_candidates(cat, lobby.era));
    if exists|i: int, j: int|
        0 <= i < j < lobby_candidates(cat, lobby.era).len() && is_prefix(
            lower_of(q),
            lower_of(#[trigger] lobby_candidates(cat, lobby.era)[i]),
        ) && is_prefix(lower_of(q), lower_of(#[trigger] lobby_candidates(cat, lobby.era)[j])) {
        let (i, j) = choose|i: int, j: int|
            0 <= i < j < lobby_candidates(cat, lobby.era).len() && is_prefix(
                lower_of(q),
                lower_of(#[trigger] lobby_candidates(cat, lobby.era)[i]),
            ) && is_prefix(lower_of(q), lower_of(#[trigger] lobby_candidates(cat, lobby.era)[j]));
        assert(lc[i] == lower_of(lobby_candidates(cat, lobby.era)[i]));
        assert(lc[j] == lower_of(lobby_candidates(cat, lobby.era)[j]));
        shared_prefix_is_ambiguous(lc, lower_of(q), i, j);
    }
    let sc = folded_names(roster_names(data.nations@));
    if exists|i: int, j: int|
        0 <= i < j < data.nations@.len() && is_prefix(
            lower_of(q),
            lower_of(#[trigger] data.nations@[i].name@),
        ) && is_prefix(lower_of(q), lower_of(#[trigger] data.nations@[j].name@)) {
        let (i, j) = choose|i: int, j: int|
            0 <= i < j < data.nations@.len() && is_prefix(
                lower_of(q),
                lower_of(#[trigger] data.nations@[i].name@),
            ) && is_prefix(lower_of(q), lower_of(#[trigger] data.nations@[j].name@));
        assert(sc[i] == lower_of(data.nations@[i].name@));
        assert(sc[j] == lower_of(data.nations@[j].name@));
        shared_prefix_is_ambiguous(sc, lower_of(q), i, j);
    }
}

/// After a lobby registration claims a nation, a second lobby registration in
/// the same server whose query resolves to a nation of the same id is refused
/// with `NationAlreadyTaken` while the lobby has room; it writes nothing, and
/// the server keeps exactly one row for that nation.
pub proof fn lobby_nation_claimed_once(
    v: DbView,
    cat: Seq<CatalogNation>,
    lobby: LobbyState,
    alias: Seq<char>,
    user1: u64,
    q1: Seq<char>,
    r1: Result<Registered, RegistrationError>,
    v1: DbView,
    user2: u64,
    q2: Seq<char>,
    r2: Result<Registered, RegistrationError>,
    v2: DbView,
    c1: int,
    k2: usize,
)
    requires
        wf_db(v),
        lobby_post(v, v1, cat, lobby, alias, user1, q1, r1),
        lobby_post(v1, v2, cat, lobby, alias, user2, q2, r2),
        lobby_outcome(v, cat, lobby, alias, user1, q1) == Ok::<int, RegistrationError>(c1),
        resolution(folded_names(lobby_candidates(cat, lobby.era)), lower_of(q2))
            == Resolution::Unique(k2),
        cat[era_indices(cat, lobby.era)[k2 as int]].id == cat[c1].id,
        assignment_count(v1, alias) < lobby.player_count,
    ensures
        r2 == Err::<Registered, RegistrationError>(RegistrationError::NationAlreadyTaken),
        v2 == v1,
        rows_for(v2.assignments, alias, cat[c1].id) == 1,
{
    lemma_single_row(v, alias, user1, cat[c1].id);
}

/// After a started-server registration claims a nation, a second one in the
/// same server whose query resolves to a nation of the same id is refused and
/// writes nothing: with `NationAlreadyTaken`, or with `PlayerAlreadyRegistered`
/// when its user is registered already. The server keeps exactly one row for
/// that nation.
pub proof fn started_nation_claimed_once(
    v: DbView,
    alias: Seq<char>,
    user1: u64,
    q1: Seq<char>,
    d1: GameData,
    r1: Result<Registered, RegistrationError>,
    v1: DbView,
    user2: u64,
    q2: Seq<char>,
    d2: GameData,
    r2: Result<Registered, RegistrationError>,
    v2: DbView,
    k1: int,
    k2: usize,
)
    requires
        wf_db(v),
        started_post(v, v1, alias, user1, q1, Ok::<GameData, QueryError>(d1), r1),
        started_post(v1, v2, alias, user2, q2, Ok::<GameData, QueryError>(d2), r2),
        started_outcome(v, alias, user1, q1, Ok::<GameData, QueryError>(d1)) == Ok::<
            int,
            RegistrationError,
        >(k1),
        resolution(folded_names(roster_names(d2.nations@)), lower_of(q2)) == Resolution::Unique(
            k2,
        ),
        d2.nations@[k2 as int].id == d1.nations@[k1].id,
    ensures
        player_exists(v1, user2) ==> r2 == Err::<Registered, RegistrationError>(
            RegistrationError::PlayerAlreadyRegistered,
        ),
        !player_exists(v1, user2) ==> r2 == Err::<Registered, RegistrationError>(
            RegistrationError::NationAlreadyTaken,
        ),
        v2 == v1,
        rows_for(v2.assignments, alias, d1.nations@[k1].id) == 1,
{
    lemma_single_row(v, alias, user1, d1.nations@[k1].id);
}

/// A user id that has completed a registration, in any server, is refused
/// with `PlayerAlreadyRegistered` by a later registration in any server: in a
/// lobby once its capacity, nation and availability checks pass, in a started
/// server once its query resolves.
pub proof fn registered_player_refused_everywhere(
    v: DbView,
    alias1: Seq<char>,
    user: u64,
    nation: u32,
    alias2: Seq<char>,
    cat: Seq<CatalogNation>,
    lobby: LobbyState,
    data: GameData,
    q: Seq<char>,
)
    ensures
        player_exists(claimed(v, alias1, user, nation), user),
        (assignment_count(claimed(v, alias1, user, nation), alias2) < lobby.player_count && (
        resolution(folded_names(lobby_candidates(cat, lobby.era)), lower_of(q)) matches Resolution::Unique(k)
            && !nation_taken(
            claimed(v, alias1, user, nation),
            alias2,
            cat[era_indices(cat, lobby.era)[k as int]].id,
        ))) ==> lobby_outcome(claimed(v, alias1, user, nation), cat, lobby, alias2, user, q)
            == Err::<int, RegistrationError>(RegistrationError::PlayerAlreadyRegistered),
        resolution(folded_names(roster_names(data.nations@)), lower_of(q)) is Unique
            ==> started_outcome(
            claimed(v, alias1, user, nation),
            alias2,
            user,
            q,
            Ok::<GameData, QueryError>(data),
        ) == Err::<int, RegistrationError>(RegistrationError::PlayerAlreadyRegistered),
{
    let w = claimed(v, alias1, user, nation);
    assert(w.players[v.players.len() as int].discord_user_id == user);
}

} // verus!
