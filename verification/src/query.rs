//! The questions that a game answers.
pub mod query_game;
