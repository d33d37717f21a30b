//! Registration of players into multiplayer strategy-game servers: resolving a
//! partial nation name against the eligible nations of a server, enforcing
//! lobby capacity and the store's uniqueness rules, and recording the claim.

pub mod resolver;
pub mod model;
pub mod db;
pub mod registration;
pub mod laws;
