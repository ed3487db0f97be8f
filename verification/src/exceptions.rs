//! What can go wrong when a mark is placed.

use vstd::prelude::*;
use crate::board::Board;
use crate::position::{describe_tile, tile_text, Tile};

verus! {

/// The ways in which placing a mark fails.
#[derive(Debug, PartialEq)]
pub enum TicTacToeError {
    /// A turn was asked for when no tile was free; the board is carried along.
    FullBoardError(Board),
    /// The tile already holds a mark.
    ExisitingTileError(Tile),
}

impl TicTacToeError {
    /// What the error says.
    pub open spec fn text(self) -> Seq<char> {
        match self {
            TicTacToeError::FullBoardError(_) => "The board is full"@,
            TicTacToeError::ExisitingTileError(tile) => "There is an existing piece at "@
                + tile_text(tile),
        }
    }

    /// Returns what the error says.
    pub fn to_string(&self) -> (s: String)
        ensures
            s@ == self.text(),
    {
        match self {
            TicTacToeError::FullBoardError(_) => String::from_str("The board is full"),
            TicTacToeError::ExisitingTileError(tile) => {
                let mut s = String::from_str("There is an existing piece at ");
                s.append(describe_tile(*tile).as_str());
                s
            },
        }
    }
}

impl Clone for TicTacToeError {
    fn clone(&self) -> (res: Self)
        ensures
            res == *self,
    {
        match self {
            TicTacToeError::FullBoardError(board) => TicTacToeError::FullBoardError(board.clone()),
            TicTacToeError::ExisitingTileError(tile) => TicTacToeError::ExisitingTileError(*tile),
        }
    }
}

} // verus!
