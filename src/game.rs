//! Reading the player's keys, and the outcome of a game.

pub mod choice;
pub mod game;
