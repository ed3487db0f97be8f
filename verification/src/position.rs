//! Rows, columns and tiles of the three-by-three grid.

use vstd::prelude::*;

verus! {

/// One of the three rows, or one of the three columns, of the grid.
#[derive(Debug, Clone, Copy, PartialEq, Eq, Hash, Structural)]
pub enum Position {
    X,
    Y,
    Z,
}

/// A cell of the grid: its row, then its column.
pub type Tile = (Position, Position);

/// The nine tiles, row by row.
pub const ALL_TILES: [Tile; 9] = [
    (Position::X, Position::X),
    (Position::X, Position::Y),
    (Position::X, Position::Z),
    (Position::Y, Position::X),
    (Position::Y, Position::Y),
    (Position::Y, Position::Z),
    (Position::Z, Position::X),
    (Position::Z, Position::Y),
    (Position::Z, Position::Z),
];

impl Position {
    /// The place of this position among the three, counted from zero.
    pub open spec fn ordinal(self) -> int {
        match self {
            Position::X => 0,
            Position::Y => 1,
            Position::Z => 2,
        }
    }

    /// The letter by which this position is written.
    pub open spec fn name(self) -> Seq<char> {
        match self {
            Position::X => "X"@,
            Position::Y => "Y"@,
            Position::Z => "Z"@,
        }
    }

    /// Returns the letter by which this position is written.
    pub fn letter(self) -> (s: &'static str)
        ensures
            s@ == self.name(),
    {
        match self {
            Position::X => "X",
            Position::Y => "Y",
            Position::Z => "Z",
        }
    }

    /// Returns the place of this position among the three, counted from zero.
    pub fn rank(self) -> (r: usize)
        ensures
            r == self.ordinal(),
    {
        match self {
            Position::X => 0,
            Position::Y => 1,
            Position::Z => 2,
        }
    }
}

/// The place of a tile in row-major order, counted from zero.
pub open spec fn tile_index(tile: Tile) -> int {
    3 * tile.0.ordinal() + tile.1.ordinal()
}

/// Returns the place of a tile in row-major order, counted from zero.
pub fn index_of(tile: Tile) -> (i: usize)
    ensures
        i == tile_index(tile),
        i < 9,
{
    3 * tile.0.rank() + tile.1.rank()
}

/// A tile as it is written: row and column in round brackets, with a comma
/// and a space between them.
pub open spec fn tile_text(tile: Tile) -> Seq<char> {
    "("@ + tile.0.name() + ", "@ + tile.1.name() + ")"@
}

/// Returns a tile as it is written.
pub fn describe_tile(tile: Tile) -> (s: String)
    ensures
        s@ == tile_text(tile),
{
    let mut s = String::from_str("(");
    s.append(tile.0.letter());
    s.append(", ");
    s.append(tile.1.letter());
    s.append(")");
    s
}

/// The tile that stands at a place in row-major order.
pub open spec fn tile_at(i: int) -> Tile {
    ALL_TILES[i]
}

/// Each tile stands at its own place among the nine, and nowhere else.
pub proof fn lemma_tile_places()
    ensures
        forall|t: Tile| 0 <= #[trigger] tile_index(t) < 9 && tile_at(tile_index(t)) == t,
        forall|i: int| 0 <= i < 9 ==> tile_index(#[trigger] tile_at(i)) == i,
{
}

} // verus!
