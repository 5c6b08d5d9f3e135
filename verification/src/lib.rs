//! Core of a four-player trick-taking card game: a shuffled deck,
//! per-player hands, a table that records each player's current play and
//! resolves the strongest card, and a fixed five-byte wire codec for a
//! single played card.

pub mod deck;
pub mod error;
pub mod packet;
pub mod player;
pub mod table;
