//! A game: a board and the player who opened it.

use vstd::prelude::*;
use crate::board::Board;
use crate::chance::{choose_tile, random_i32};
use crate::exceptions::TicTacToeError;
use crate::occupancy::{is_full, lemma_occupancy};
use crate::player::Player;
use crate::position::Tile;
use crate::rules::{outcome, winner, winner_from, GameResult, WINNING_LINES};
use crate::turns::{
    after_turn, legal, lemma_finished_game_length, lemma_legal_follows, plays_out, replay,
    turn_player,
};

verus! {

/// A game in progress or finished. Whose turn it is follows from the board
/// and the first player; it is not stored.
#[derive(Debug)]
pub struct Game {
    pub board: Board,
    pub first_player: Player,
}

impl Clone for Game {
    fn clone(&self) -> (res: Self)
        ensures
            res == *self,
    {
        Game { board: self.board.clone(), first_player: self.first_player }
    }
}

impl Game {
    /// The player to move.
    pub open spec fn to_move(self) -> Player {
        turn_player(self.first_player, self.board@.dom().len())
    }

    /// Returns a game on an empty board whose first player is drawn at
    /// random.
    pub fn new() -> (game: Game)
        ensures
            game.board@ == Map::<Tile, Player>::empty(),
    {
        Game::starting_with(Player::from_draw(random_i32()))
    }

    /// Returns a game on an empty board that `first_player` opens.
    pub fn starting_with(first_player: Player) -> (game: Game)
        ensures
            game.board@ == Map::<Tile, Player>::empty(),
            game.first_player == first_player,
    {
        Game { board: Board::new(), first_player }
    }

    /// Returns the player to move: the first player when an even number of
    /// tiles is occupied, the other player when an odd number is.
    pub fn current_player(&self) -> (player: Player)
        ensures
            player == self.to_move(),
    {
        proof {
            lemma_occupancy(self.board@);
        }
        if self.board.used_tiles().len() % 2 == 0 {
            self.first_player
        } else {
            self.first_player.toggle()
        }
    }

    /// Marks the chosen tile for the player to move. With no tile chosen the
    /// turn fails and carries the board; with an occupied tile it fails and
    /// names the tile. A failed turn leaves the game as it was.
    pub fn place(&mut self, choice: Option<Tile>) -> (res: Result<(), TicTacToeError>)
        ensures
            final(self).first_player == old(self).first_player,
            choice is None ==> res == Err::<(), TicTacToeError>(
                TicTacToeError::FullBoardError(old(self).board),
            ) && final(self).board == old(self).board,
            choice is Some && old(self).board@.contains_key(choice->Some_0) ==> res == Err::<
                (),
                TicTacToeError,
            >(TicTacToeError::ExisitingTileError(choice->Some_0)) && final(self).board == old(
                self,
            ).board,
            choice is Some && !old(self).board@.contains_key(choice->Some_0) ==> res is Ok
                && final(self).board@ == after_turn(
                old(self).first_player,
                old(self).board@,
                choice->Some_0,
            ) && final(self).board@.dom().len() == old(self).board@.dom().len() + 1,
    {
        proof {
            lemma_occupancy(self.board@);
        }
        match choice {
            None => Err(TicTacToeError::FullBoardError(self.board.clone())),
            Some(tile) => {
                let player = self.current_player();
                self.board.insert(tile, player)
            },
        }
    }

    /// Takes one turn: the player to move marks a free tile picked at random,
    /// so that one more tile is occupied. On a full board the turn fails,
    /// carries the board, and changes nothing.
    pub fn take_turn(&mut self) -> (res: Result<(), TicTacToeError>)
        ensures
            final(self).first_player == old(self).first_player,
            is_full(old(self).board@) ==> res == Err::<(), TicTacToeError>(
                TicTacToeError::FullBoardError(old(self).board),
            ) && final(self).board == old(self).board,
            !is_full(old(self).board@) ==> res is Ok && final(self).board@.dom().len() == old(
                self,
            ).board@.dom().len() + 1 && exists|tile: Tile|
                !old(self).board@.contains_key(tile) && final(self).board@ == #[trigger] after_turn(
                    old(self).first_player,
                    old(self).board@,
                    tile,
                ),
    {
        let empties = self.board.empty_tiles();
        let mut rng = rand::thread_rng();
        let choice = choose_tile(&empties, &mut rng);
        proof {
            lemma_occupancy(self.board@);
        }
        self.place(choice)
    }

    /// Returns how the game stands: won, if one player fills a line (the
    /// first such line in scanning order decides); else drawn, if no tile is
    /// free; else nothing, for a game that is still open.
    pub fn check(&self) -> (res: Option<GameResult>)
        ensures
            res == outcome(self.board@),
    {
        let mut i: usize = 0;
        while i < 8
            invariant
                i <= 8,
                winner(self.board@) == winner_from(self.board@, i as int),
            decreases 8 - i,
        {
            let line = WINNING_LINES[i];
            match self.board.line_owner(&line) {
                Some(player) => {
                    return Some(GameResult::Win(player));
                },
                None => {},
            }
            i += 1;
        }
        proof {
            lemma_occupancy(self.board@);
        }
        if self.board.empty_tiles().is_empty() {
            Some(GameResult::Draw)
        } else {
            None
        }
    }

    /// Plays the game to its end and returns the result. The game is checked
    /// before each turn, so a position that is already decided is returned as
    /// it stands, and a move that fills the last tile and a line at once counts
    /// as a win. Every game ends: no turn fails. A game that starts on an empty
    /// board ends with five to nine marks on the board.
    pub fn play(self) -> (res: Result<GameResult, TicTacToeError>)
        ensures
            res matches Ok(result) && exists|moves: Seq<Tile>|
                {
                    &&& #[trigger] plays_out(self.first_player, self.board@, moves, result)
                    &&& self.board@ == Map::<Tile, Player>::empty() ==> 5 <= replay(
                        self.first_player,
                        self.board@,
                        moves,
                    ).dom().len() <= 9
                },
            outcome(self.board@) matches Some(result) ==> res == Ok::<GameResult, TicTacToeError>(
                result,
            ),
    {
        let mut game = self;
        let ghost mut moves: Seq<Tile> = Seq::empty();
        loop
            invariant
                game.first_player == self.first_player,
                legal(self.first_player, self.board@, moves),
                game.board@ == replay(self.first_player, self.board@, moves),
                outcome(self.board@) is Some ==> moves.len() == 0,
            decreases 9 - game.board@.dom().len(),
        {
            proof {
                lemma_occupancy(game.board@);
            }
            match game.check() {
                Some(result) => {
                    proof {
                        assert(plays_out(self.first_player, self.board@, moves, result));
                        if self.board@ == Map::<Tile, Player>::empty() {
                            lemma_legal_follows(self.first_player, self.board@, moves);
                            lemma_finished_game_length(self.first_player, moves, result);
                        }
                    }
                    return Ok(result);
                },
                None => {
                    let ghost before = game.board@;
                    let ghost played = moves;
                    game.take_turn()?;
                    proof {
                        let tile = choose|tile: Tile|
                            !before.contains_key(tile) && game.board@ == #[trigger] after_turn(
                                self.first_player,
                                before,
                                tile,
                            );
                        moves = played.push(tile);
                        assert(moves.drop_last() =~= played);
                        lemma_occupancy(game.board@);
                    }
                },
            }
        }
    }
}

/// What `current_player` and `check` return is decided by the marks on the
/// board and by the first player alone. Asked twice of a game that no turn has
/// changed in between, each gives the same answer twice.
pub proof fn lemma_reads_repeat(earlier: Game, later: Game)
    requires
        earlier.board@ == later.board@,
        earlier.first_player == later.first_player,
    ensures
        earlier.to_move() == later.to_move(),
        outcome(earlier.board@) == outcome(later.board@),
{
}

} // verus!
