//! Liar's dice for players who meet on one server.
//!
//! The crate holds the rules of the game, the texts and panels that a player
//! sees, the keys that a player presses and the bookkeeping of who is
//! connected. It does no input or output of its own.

pub mod connection;
pub mod dice;
pub mod game;
pub mod keys;
pub mod laws;
pub mod player;
pub mod rules;
pub mod screen;
pub mod server;
pub mod sink;
pub mod text;
