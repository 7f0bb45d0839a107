//! The commands that change the state of a game.
pub mod buy_cells;
pub mod choose_winner;
pub mod claim_refund;
pub mod register_player;
pub mod start_game;
