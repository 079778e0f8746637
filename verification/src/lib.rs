//! A number guessing game: a judge that owns a secret number between 1 and
//! 100 and classifies each guess, the text handling around it, and what a
//! web front end says to the player.

pub mod commands;
pub mod game;
pub mod text;
