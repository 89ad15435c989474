//! Rules engine of Scoundrel, a single-player dungeon crawl played with a
//! deck of cards: the cards, the deck, the hand, combat, the room state
//! machine and the final score.

pub mod app;
pub mod text;
pub mod cards;
pub mod game;
