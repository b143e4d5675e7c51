//! Authoritative state of a real-time, multiplayer typing race: the race
//! session, the registry of sessions and connections, the fan-out of events
//! and the per-connection protocol, each with a machine-checked contract.

pub mod auth;
pub mod clock;
pub mod text;
pub mod theorems;
pub mod game;
pub mod handlers;
pub mod http_server;
pub mod messages;
pub mod metrics;
pub mod models;
pub mod standings;
pub mod state;
