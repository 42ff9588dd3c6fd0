//! Authoritative simulation core of a multiplayer game server.
//!
//! The crate holds the world state and every rule that changes it: the
//! connection lifecycle of players, the resolution of hitscan attacks and of
//! projectiles in flight, the allocation of entity ids, and the protocol of
//! the controller's tick loop. Each rule is stated as mathematics and each
//! function is proved to follow its rule.
//!
//! Transport, encoding, threads and all arithmetic on world coordinates
//! belong to the embedding program. It hands the core plain values (which
//! enemies a ray meets, where a projectile stands after it has moved) and
//! carries out what the core decides.
//!
//! - `api_types`: the data of the world and of the messages
//! - `world`: what the world is after each kind of change, and the laws
//! - `combat`: which enemies an attack strikes and what is left of them
//! - `game_control`: the controller that owns the world
//! - `lifecycle`: the controller's loop as a state machine
//! - `server`: what a connection handler decides
//! - `entity`, `utils`: entity ids and their generators, the clock, the
//!   cancellation flag
//! - `config`, `decimal`: the settings and the reading of numbers
//! - `observer`: the set of components that changed

pub mod api_types;
pub mod combat;
pub mod config;
pub mod decimal;
pub mod entity;
pub mod game_control;
pub mod geography;
pub mod intercomm;
pub mod lifecycle;
pub mod observer;
pub mod server;
pub mod utils;
pub mod world;
