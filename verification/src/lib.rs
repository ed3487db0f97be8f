//! A tic-tac-toe engine for two players who move at random: the board, the
//! order of turns, the detection of wins and draws, and a tally of results.
//! Beside it stands a small search for the first value that is present in a
//! list of optional values.

pub mod board;
mod chance;
pub mod exceptions;
pub mod first_value;
pub mod game;
pub mod occupancy;
pub mod player;
pub mod position;
pub mod rules;
pub mod stats;
pub mod turns;

pub use board::Board;
pub use exceptions::TicTacToeError;
pub use game::Game;
pub use player::Player;
pub use position::{Position, Tile};
pub use rules::GameResult;
pub use stats::Stats;
