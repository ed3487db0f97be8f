//! When a position is won, when it is drawn, and when play goes on.

use vstd::prelude::*;
use crate::occupancy::is_full;
use crate::player::Player;
use crate::position::{Position, Tile};

verus! {

/// How a finished game ended.
#[derive(Debug, Clone, PartialEq, Eq, Copy, Structural)]
pub enum GameResult {
    Win(Player),
    Draw,
}

/// The eight lines of three tiles: rows, columns and diagonals, in the order
/// in which they are scanned for a win.
pub const WINNING_LINES: [[Tile; 3]; 8] = [
    [(Position::X, Position::X), (Position::X, Position::Y), (Position::X, Position::Z)],
    [(Position::X, Position::X), (Position::Y, Position::X), (Position::Z, Position::X)],
    [(Position::X, Position::X), (Position::Y, Position::Y), (Position::Z, Position::Z)],
    [(Position::X, Position::Y), (Position::Y, Position::Y), (Position::Z, Position::Y)],
    [(Position::X, Position::Z), (Position::Y, Position::Z), (Position::Z, Position::Z)],
    [(Position::Y, Position::X), (Position::Y, Position::Y), (Position::Y, Position::Z)],
    [(Position::Z, Position::X), (Position::Y, Position::Y), (Position::X, Position::Z)],
    [(Position::Z, Position::X), (Position::Z, Position::Y), (Position::Z, Position::Z)],
];

/// Whether all three tiles of `line` hold `player`'s mark.
pub open spec fn line_won_by(marks: Map<Tile, Player>, line: [Tile; 3], player: Player) -> bool {
    forall|k: int| 0 <= k < 3 ==> marks.get(#[trigger] line[k]) == Some(player)
}

/// The player whose marks fill `line`, if one player's do.
pub open spec fn line_owner(marks: Map<Tile, Player>, line: [Tile; 3]) -> Option<Player> {
    if line_won_by(marks, line, Player::Ex) {
        Some(Player::Ex)
    } else if line_won_by(marks, line, Player::Oh) {
        Some(Player::Oh)
    } else {
        None
    }
}

/// The owner of the first line that has one, scanning from line `from` on.
pub open spec fn winner_from(marks: Map<Tile, Player>, from: int) -> Option<Player>
    decreases 8 - from,
{
    if from < 0 || from >= 8 {
        None
    } else if line_owner(marks, WINNING_LINES[from]) is Some {
        line_owner(marks, WINNING_LINES[from])
    } else {
        winner_from(marks, from + 1)
    }
}

/// The winner of a position: the owner of the first line, in scanning order,
/// that one player fills.
pub open spec fn winner(marks: Map<Tile, Player>) -> Option<Player> {
    winner_from(marks, 0)
}

/// How a position stands: won by the winner if there is one, else drawn if
/// every tile is occupied, else still open.
pub open spec fn outcome(marks: Map<Tile, Player>) -> Option<GameResult> {
    match winner(marks) {
        Some(player) => Some(GameResult::Win(player)),
        None => if is_full(marks) {
            Some(GameResult::Draw)
        } else {
            None
        },
    }
}

/// The winner is the owner of a line before which no line has an owner, and
/// there is none exactly when no line has an owner.
pub proof fn lemma_winner(marks: Map<Tile, Player>)
    ensures
        winner(marks) is None <==> forall|i: int|
            0 <= i < 8 ==> line_owner(marks, #[trigger] WINNING_LINES[i]) is None,
        winner(marks) is Some ==> exists|i: int|
            0 <= i < 8 && line_owner(marks, #[trigger] WINNING_LINES[i]) == winner(marks)
                && forall|j: int|
                0 <= j < i ==> line_owner(marks, #[trigger] WINNING_LINES[j]) is None,
{
    lemma_winner_from(marks, 0);
}

/// What `lemma_winner` says of all lines, said of the lines from `from` on.
proof fn lemma_winner_from(marks: Map<Tile, Player>, from: int)
    requires
        0 <= from <= 8,
    ensures
        winner_from(marks, from) is None <==> forall|i: int|
            from <= i < 8 ==> line_owner(marks, #[trigger] WINNING_LINES[i]) is None,
        winner_from(marks, from) is Some ==> exists|i: int|
            from <= i < 8 && line_owner(marks, #[trigger] WINNING_LINES[i]) == winner_from(
                marks,
                from,
            ) && forall|j: int|
                from <= j < i ==> line_owner(marks, #[trigger] WINNING_LINES[j]) is None,
    decreases 8 - from,
{
    if from < 8 {
        lemma_winner_from(marks, from + 1);
        if line_owner(marks, WINNING_LINES[from]) is None && winner_from(marks, from) is Some {
            let i = choose|i: int|
                from + 1 <= i < 8 && line_owner(marks, #[trigger] WINNING_LINES[i]) == winner_from(
                    marks,
                    from + 1,
                ) && forall|j: int|
                    from + 1 <= j < i ==> line_owner(marks, #[trigger] WINNING_LINES[j]) is None;
            assert(from <= i < 8 && line_owner(marks, WINNING_LINES[i]) == winner_from(marks, from)
                && forall|j: int|
                from <= j < i ==> line_owner(marks, #[trigger] WINNING_LINES[j]) is None);
        }
    }
}

/// A position in which one player fills a line is won, whether or not every
/// tile is occupied: it is never a draw, and never open.
pub proof fn lemma_win_before_draw(marks: Map<Tile, Player>, i: int, player: Player)
    requires
        0 <= i < 8,
        line_won_by(marks, WINNING_LINES[i], player),
    ensures
        outcome(marks) matches Some(GameResult::Win(_)),
{
    lemma_winner(marks);
    assert(line_owner(marks, WINNING_LINES[i]) is Some);
}

} // verus!
