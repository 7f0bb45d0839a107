//! Transactional core of a "squares" betting pool.
//!
//! Players buy cells of a 10x10 grid, the administrator names one winning cell
//! per quarter, and the accumulated pool is paid out to the wallets in the
//! winning cells. Every command is a function from a [`state::State`] to a new
//! state and a list of transfer instructions; a command that is turned down
//! leaves the state as it was.
//!
//! - [`models`] and [`msg`] hold the data, each type with the mathematical
//!   value that it stands for.
//! - [`state`] holds the state of a game, what has to hold of it, and how a
//!   game is set up.
//! - [`execute`] holds the commands, [`query`] the questions, and [`contract`]
//!   hands a command or a question to the function that deals with it.
//! - [`util`] holds the arithmetic on amounts, the transfer instructions and
//!   the messages that carry them out.
//! - [`laws`] states what holds of a game whatever commands it is given.
pub mod contract;
pub mod error;
pub mod execute;
pub mod laws;
pub mod models;
pub mod msg;
pub mod query;
pub mod state;
pub mod util;
