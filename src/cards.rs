//! Cards, the draw pile and the hand.

pub mod deck;

pub mod hand;
