//! The board: which tile holds whose mark.

use vstd::prelude::*;
use crate::exceptions::TicTacToeError;
use crate::occupancy::{is_free, is_taken, lemma_filter_push, lemma_occupancy, taken, vacant};
use crate::player::Player;
use crate::position::{index_of, lemma_tile_places, tile_index, Tile, ALL_TILES};
use crate::rules::line_owner;

verus! {

/// The marks on the grid. A tile holds at most one mark, and a mark, once
/// placed, stays.
#[derive(Debug, PartialEq)]
pub struct Board {
    cells: [Option<Player>; 9],
}

impl View for Board {
    type V = Map<Tile, Player>;

    /// The board as a map from the occupied tiles to their occupants.
    closed spec fn view(&self) -> Map<Tile, Player> {
        Map::new(
            |t: Tile| self.cells[tile_index(t)] is Some,
            |t: Tile| self.cells[tile_index(t)]->Some_0,
        )
    }
}

impl Clone for Board {
    fn clone(&self) -> (res: Self)
        ensures
            res == *self,
    {
        Board { cells: self.cells }
    }
}

impl Board {
    /// Returns the board on which no tile is occupied.
    pub fn new() -> (board: Board)
        ensures
            board@ == Map::<Tile, Player>::empty(),
    {
        let board = Board { cells: [None; 9] };
        assert(board@ =~= Map::<Tile, Player>::empty()) by {
            lemma_tile_places();
        }
        board
    }

    /// Places `player`'s mark on `tile`, unless the tile is occupied: then the
    /// board stays as it is and the tile comes back in the error.
    pub fn insert(&mut self, tile: Tile, player: Player) -> (res: Result<(), TicTacToeError>)
        ensures
            old(self)@.contains_key(tile) ==> res == Err::<(), TicTacToeError>(
                TicTacToeError::ExisitingTileError(tile),
            ) && *final(self) == *old(self),
            !old(self)@.contains_key(tile) ==> res is Ok && final(self)@ == old(self)@.insert(
                tile,
                player,
            ),
    {
        let i: usize = index_of(tile);
        if self.cells[i].is_some() {
            Err(TicTacToeError::ExisitingTileError(tile))
        } else {
            self.cells[i] = Some(player);
            proof {
                lemma_tile_places();
                assert(self@ =~= old(self)@.insert(tile, player));
            }
            Ok(())
        }
    }

    /// Returns the occupant of `tile`, if it has one.
    pub fn get(&self, tile: Tile) -> (occupant: Option<Player>)
        ensures
            occupant == self@.get(tile),
    {
        self.cells[index_of(tile)]
    }

    /// Returns the player whose marks fill `line`, if one player's do.
    pub fn line_owner(&self, line: &[Tile; 3]) -> (owner: Option<Player>)
        ensures
            owner == line_owner(self@, *line),
    {
        let first = self.get(line[0]);
        let second = self.get(line[1]);
        let third = self.get(line[2]);
        match (first, second, third) {
            (Some(a), Some(b), Some(c)) => {
                if a == b && b == c {
                    Some(a)
                } else {
                    None
                }
            },
            _ => None,
        }
    }

    /// Returns the free tiles, row by row: each tile without a mark, once.
    pub fn empty_tiles(&self) -> (tiles: Vec<Tile>)
        ensures
            tiles@ == vacant(self@),
            tiles@.len() == 9 - self@.dom().len(),
            forall|t: Tile| tiles@.contains(t) <==> !self@.contains_key(t),
    {
        proof {
            lemma_occupancy(self@);
        }
        let mut tiles: Vec<Tile> = Vec::new();
        let mut i: usize = 0;
        while i < 9
            invariant
                i <= 9,
                tiles@ == ALL_TILES@.take(i as int).filter(is_free(self@)),
            decreases 9 - i,
        {
            proof {
                lemma_tile_places();
                lemma_filter_push(ALL_TILES@.take(i as int), ALL_TILES[i as int], is_free(self@));
                assert(ALL_TILES@.take(i + 1) =~= ALL_TILES@.take(i as int).push(
                    ALL_TILES[i as int],
                ));
            }
            if self.cells[i].is_none() {
                tiles.push(ALL_TILES[i]);
            }
            i += 1;
        }
        assert(ALL_TILES@.take(9) =~= ALL_TILES@);
        tiles
    }

    /// Returns the occupied tiles, row by row: each tile with a mark, once.
    pub fn used_tiles(&self) -> (tiles: Vec<Tile>)
        ensures
            tiles@ == taken(self@),
            tiles@.len() == self@.dom().len(),
            forall|t: Tile| tiles@.contains(t) <==> self@.contains_key(t),
    {
        proof {
            lemma_occupancy(self@);
        }
        let mut tiles: Vec<Tile> = Vec::new();
        let mut i: usize = 0;
        while i < 9
            invariant
                i <= 9,
                tiles@ == ALL_TILES@.take(i as int).filter(is_taken(self@)),
            decreases 9 - i,
        {
            proof {
                lemma_tile_places();
                lemma_filter_push(ALL_TILES@.take(i as int), ALL_TILES[i as int], is_taken(self@));
                assert(ALL_TILES@.take(i + 1) =~= ALL_TILES@.take(i as int).push(
                    ALL_TILES[i as int],
                ));
            }
            if self.cells[i].is_some() {
                tiles.push(ALL_TILES[i]);
            }
            i += 1;
        }
        assert(ALL_TILES@.take(9) =~= ALL_TILES@);
        tiles
    }

    /// Returns the number of occupied tiles.
    pub fn occupied_count(&self) -> (count: usize)
        ensures
            count == self@.dom().len(),
            count <= 9,
    {
        proof {
            lemma_occupancy(self@);
        }
        self.used_tiles().len()
    }
}

} // verus!
