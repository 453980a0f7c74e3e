//! Services that combine validation, stored state and host operations.
pub mod admin;
pub mod paths;
pub mod redaction;
pub mod store;
pub mod game_config;
pub mod node_setup;
pub mod servers;
pub mod sync;
