//! The ways to play the game.

pub mod http;
