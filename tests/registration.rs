use nation_registration::db::{DbConnection, DbError};
use nation_registration::model::{
    CatalogNation, Era, GameData, GameServer, GameServerState, LobbyState, Nation, StartedState,
};
use nation_registration::registration::{
    register_player_helper, QueryError, RegistrationError, ServerConnection,
};
use nation_registration::resolver::{name_matches, name_matches_folded, resolve, Resolution};

struct NotStarted;
impl ServerConnection for NotStarted {
    fn get_game_data(_: &str) -> Result<GameData, QueryError> {
        Ok(GameData {
            nations: vec![Nation { id: 5, name: "Pangaea".to_string() }],
            turn: -1,
        })
    }
}

struct TurnThree;
impl ServerConnection for TurnThree {
    fn get_game_data(_: &str) -> Result<GameData, QueryError> {
        Ok(GameData {
            nations: vec![Nation { id: 5, name: "Pangaea".to_string() }],
            turn: 3,
        })
    }
}

struct TwoNations;
impl ServerConnection for TwoNations {
    fn get_game_data(_: &str) -> Result<GameData, QueryError> {
        Ok(GameData {
            nations: vec![
                Nation { id: 10, name: "Ermor".to_string() },
                Nation { id: 11, name: "Early Ermor".to_string() },
                Nation { id: 12, name: "Ulm".to_string() },
            ],
            turn: 4,
        })
    }
}

struct Unreachable;
impl ServerConnection for Unreachable {
    fn get_game_data(_: &str) -> Result<GameData, QueryError> {
        Err(QueryError::TimedOut)
    }
}

fn early_catalog() -> Vec<CatalogNation> {
    vec![
        CatalogNation { id: 1, name: "Ermor".to_string(), era: Era::Early },
        CatalogNation { id: 2, name: "Arcoscephale".to_string(), era: Era::Early },
        CatalogNation { id: 3, name: "Agartha".to_string(), era: Era::Middle },
        CatalogNation { id: 4, name: "Marignon".to_string(), era: Era::Middle },
    ]
}

fn lobby_server(alias: &str, player_count: i32, era: Era) -> GameServer {
    GameServer {
        alias: alias.to_string(),
        state: GameServerState::Lobby(LobbyState { owner: 1, player_count, era }),
    }
}

fn started_server(alias: &str) -> GameServer {
    GameServer {
        alias: alias.to_string(),
        state: GameServerState::StartedState(StartedState {
            address: "localhost:1234".to_string(),
            last_seen_turn: 0,
        }),
    }
}

#[test]
fn prefix_match_is_case_insensitive_and_prefix_only() {
    assert!(name_matches("Marignon", "ma"));
    assert!(name_matches("Marignon", "MA"));
    assert!(name_matches("MARIGNON", "ma"));
    assert!(!name_matches("Agartha", "ma"));
    assert!(!name_matches("Ma", "marignon"));
    assert!(name_matches("Agartha", ""));
}

#[test]
fn folded_match_compares_characters_exactly() {
    assert!(name_matches_folded("marignon", "mar"));
    assert!(!name_matches_folded("marignon", "Mar"));
    assert!(!name_matches_folded("ma", "mar"));
}

#[test]
fn resolve_reports_unique_ambiguous_and_not_found() {
    let names = vec!["Ermor".to_string(), "Early Ermor".to_string(), "Ulm".to_string()];
    assert_eq!(resolve(&names, "e"), Resolution::Ambiguous);
    assert_eq!(resolve(&names, "ER"), Resolution::Unique(0));
    assert_eq!(resolve(&names, "early"), Resolution::Unique(1));
    assert_eq!(resolve(&names, "u"), Resolution::Unique(2));
    assert_eq!(resolve(&names, "x"), Resolution::NotFound);
    assert_eq!(resolve(&Vec::new(), "x"), Resolution::NotFound);
}

#[test]
fn lobby_scenario_fills_up() {
    let mut db = DbConnection::test();
    let catalog = early_catalog();
    db.insert_game_server(lobby_server("era=Early", 2, Era::Early)).unwrap();

    let r = register_player_helper::<Unreachable>(100, "arco", "era=Early", &mut db, &catalog).unwrap();
    assert_eq!(r.nation_name, "Arcoscephale");
    assert_eq!(r.nation_era, Some(Era::Early));
    assert_eq!(db.players_with_nations_for_game_alias("era=Early"), vec![(100, 2)]);

    let r = register_player_helper::<Unreachable>(200, "er", "era=Early", &mut db, &catalog).unwrap();
    assert_eq!(r.nation_name, "Ermor");
    assert_eq!(db.players_with_nations_for_game_alias("era=Early"), vec![(100, 2), (200, 1)]);

    let r = register_player_helper::<Unreachable>(300, "er", "era=Early", &mut db, &catalog);
    assert_eq!(r.unwrap_err(), RegistrationError::LobbyFull);
    assert_eq!(db.players_with_nations_for_game_alias("era=Early").len(), 2);
    assert!(!db.has_player(300));
}

#[test]
fn full_lobby_refuses_any_query() {
    let mut db = DbConnection::test();
    let catalog = early_catalog();
    db.insert_game_server(lobby_server("one", 1, Era::Early)).unwrap();
    register_player_helper::<Unreachable>(1, "ermor", "one", &mut db, &catalog).unwrap();
    for q in ["arco", "zzz", "", "e"] {
        let r = register_player_helper::<Unreachable>(2, q, "one", &mut db, &catalog);
        assert_eq!(r.unwrap_err(), RegistrationError::LobbyFull);
    }
    assert_eq!(db.players_with_nations_for_game_alias("one").len(), 1);
}

#[test]
fn lobby_with_no_capacity_is_full() {
    let mut db = DbConnection::test();
    let catalog = early_catalog();
    db.insert_game_server(lobby_server("none", 0, Era::Early)).unwrap();
    let r = register_player_helper::<Unreachable>(1, "arco", "none", &mut db, &catalog);
    assert_eq!(r.unwrap_err(), RegistrationError::LobbyFull);
}

#[test]
fn lobby_offers_only_nations_of_its_era() {
    let mut db = DbConnection::test();
    let catalog = early_catalog();
    db.insert_game_server(lobby_server("early", 4, Era::Early)).unwrap();
    let r = register_player_helper::<Unreachable>(1, "ma", "early", &mut db, &catalog);
    assert_eq!(r.unwrap_err(), RegistrationError::NationNotFound { pretender_hint: false });
    db.insert_game_server(lobby_server("middle", 4, Era::Middle)).unwrap();
    let r = register_player_helper::<Unreachable>(1, "ma", "middle", &mut db, &catalog).unwrap();
    assert_eq!(r.nation_name, "Marignon");
    assert_eq!(r.nation_era, Some(Era::Middle));
    assert_eq!(db.players_with_nations_for_game_alias("middle"), vec![(1, 4)]);
}

#[test]
fn lobby_ambiguous_query_writes_nothing() {
    let mut db = DbConnection::test();
    let catalog = vec![
        CatalogNation { id: 1, name: "Ermor".to_string(), era: Era::Early },
        CatalogNation { id: 7, name: "Early Ermor".to_string(), era: Era::Early },
    ];
    db.insert_game_server(lobby_server("amb", 4, Era::Early)).unwrap();
    let r = register_player_helper::<Unreachable>(1, "e", "amb", &mut db, &catalog);
    assert_eq!(r.unwrap_err(), RegistrationError::AmbiguousNation);
    assert!(db.players_with_nations_for_game_alias("amb").is_empty());
    assert!(!db.has_player(1));
}

#[test]
fn lobby_nation_cannot_be_claimed_twice() {
    let mut db = DbConnection::test();
    let catalog = early_catalog();
    db.insert_game_server(lobby_server("dup", 4, Era::Early)).unwrap();
    register_player_helper::<Unreachable>(1, "arco", "dup", &mut db, &catalog).unwrap();
    let r = register_player_helper::<Unreachable>(2, "ARC", "dup", &mut db, &catalog);
    assert_eq!(r.unwrap_err(), RegistrationError::NationAlreadyTaken);
    assert_eq!(db.players_with_nations_for_game_alias("dup"), vec![(1, 2)]);
    assert!(!db.has_player(2));
    assert!(db.is_nation_taken("dup", 2));
    assert!(!db.is_nation_taken("dup", 1));
}

#[test]
fn started_scenario_pretender_hint() {
    let mut db = DbConnection::test();
    let catalog = early_catalog();
    db.insert_game_server(started_server("game")).unwrap();

    let r = register_player_helper::<NotStarted>(1, "x", "game", &mut db, &catalog);
    assert_eq!(r.unwrap_err(), RegistrationError::NationNotFound { pretender_hint: true });
    let r = register_player_helper::<TurnThree>(1, "x", "game", &mut db, &catalog);
    assert_eq!(r.unwrap_err(), RegistrationError::NationNotFound { pretender_hint: false });
    assert!(!db.has_player(1));

    let r = register_player_helper::<NotStarted>(1, "p", "game", &mut db, &catalog).unwrap();
    assert_eq!(r.nation_name, "Pangaea");
    assert_eq!(r.nation_era, None);
    assert_eq!(db.players_with_nations_for_game_alias("game"), vec![(1, 5)]);
}

#[test]
fn started_offers_whole_roster_and_rejects_ambiguity() {
    let mut db = DbConnection::test();
    let catalog = early_catalog();
    db.insert_game_server(started_server("game")).unwrap();
    let r = register_player_helper::<TwoNations>(1, "E", "game", &mut db, &catalog);
    assert_eq!(r.unwrap_err(), RegistrationError::AmbiguousNation);
    assert!(db.players_with_nations_for_game_alias("game").is_empty());
    let r = register_player_helper::<TwoNations>(1, "ul", "game", &mut db, &catalog).unwrap();
    assert_eq!(r.nation_name, "Ulm");
    assert_eq!(db.players_with_nations_for_game_alias("game"), vec![(1, 12)]);
}

#[test]
fn started_duplicate_claim_is_rejected() {
    let mut db = DbConnection::test();
    let catalog = early_catalog();
    db.insert_game_server(started_server("game")).unwrap();
    register_player_helper::<NotStarted>(1, "pan", "game", &mut db, &catalog).unwrap();
    let r = register_player_helper::<NotStarted>(2, "p", "game", &mut db, &catalog);
    assert_eq!(r.unwrap_err(), RegistrationError::NationAlreadyTaken);
    assert_eq!(db.players_with_nations_for_game_alias("game"), vec![(1, 5)]);
    assert!(!db.has_player(2));
}

#[test]
fn unreachable_game_server_writes_nothing() {
    let mut db = DbConnection::test();
    let catalog = early_catalog();
    db.insert_game_server(started_server("game")).unwrap();
    let r = register_player_helper::<Unreachable>(1, "p", "game", &mut db, &catalog);
    assert_eq!(r.unwrap_err(), RegistrationError::GameServerUnreachable);
    assert!(!db.has_player(1));
    assert!(db.players_with_nations_for_game_alias("game").is_empty());
}

#[test]
fn registered_player_is_refused_in_another_server() {
    let mut db = DbConnection::test();
    let catalog = early_catalog();
    db.insert_game_server(lobby_server("first", 4, Era::Early)).unwrap();
    db.insert_game_server(lobby_server("second", 4, Era::Early)).unwrap();
    db.insert_game_server(started_server("third")).unwrap();
    register_player_helper::<Unreachable>(9, "ermor", "first", &mut db, &catalog).unwrap();
    let r = register_player_helper::<Unreachable>(9, "arco", "second", &mut db, &catalog);
    assert_eq!(r.unwrap_err(), RegistrationError::PlayerAlreadyRegistered);
    let r = register_player_helper::<NotStarted>(9, "p", "third", &mut db, &catalog);
    assert_eq!(r.unwrap_err(), RegistrationError::PlayerAlreadyRegistered);
    assert!(db.players_with_nations_for_game_alias("second").is_empty());
    assert!(db.players_with_nations_for_game_alias("third").is_empty());
}

#[test]
fn unknown_alias_is_server_not_found() {
    let mut db = DbConnection::test();
    let catalog = early_catalog();
    db.insert_game_server(lobby_server("Known", 4, Era::Early)).unwrap();
    let r = register_player_helper::<Unreachable>(1, "arco", "known", &mut db, &catalog);
    assert_eq!(r.unwrap_err(), RegistrationError::ServerNotFound);
    assert!(!db.has_player(1));
}

#[test]
fn store_rejects_duplicates() {
    let mut db = DbConnection::noop();
    assert_eq!(db.insert_game_server(lobby_server("a", 2, Era::Late)), Ok(()));
    assert_eq!(db.insert_game_server(started_server("a")), Err(DbError::AlreadyExists));
    assert!(db.game_for_alias("b").is_err());
    assert_eq!(db.game_for_alias("a").unwrap().alias, "a");
    assert_eq!(db.insert_server_player("b", 1, 1), Err(DbError::NotFound));
    assert_eq!(db.insert_server_player("a", 1, 1), Ok(()));
    assert_eq!(db.insert_server_player("a", 2, 1), Err(DbError::AlreadyExists));
    let p = nation_registration::model::Player { discord_user_id: 1, turn_notifications: true };
    assert_eq!(db.insert_player(&p), Ok(()));
    assert_eq!(db.insert_player(&p), Err(DbError::AlreadyExists));
}

#[test]
fn store_counts_servers_by_state() {
    let mut db = DbConnection::test();
    assert_eq!(db.count_servers(), 0);
    assert_eq!(db.count_lobby_state(), 0);
    assert_eq!(db.count_started_server_state(), 0);
    db.insert_game_server(lobby_server("a", 2, Era::Early)).unwrap();
    db.insert_game_server(started_server("b")).unwrap();
    db.insert_game_server(lobby_server("c", 3, Era::Late)).unwrap();
    assert_eq!(db.count_servers(), 3);
    assert_eq!(db.count_lobby_state(), 2);
    assert_eq!(db.count_started_server_state(), 1);
}
