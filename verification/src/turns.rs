//! Whose turn it is, and what a sequence of turns makes of a position.

use vstd::prelude::*;
use vstd::set_lib::lemma_len_subset;
use crate::occupancy::lemma_occupancy;
use crate::player::Player;
use crate::position::Tile;
use crate::rules::{
    lemma_winner, line_owner, line_won_by, outcome, winner, GameResult, WINNING_LINES,
};

verus! {

/// The player to move when `occupied` tiles hold a mark: the first player
/// when that number is even, the other player when it is odd.
pub open spec fn turn_player(first: Player, occupied: nat) -> Player {
    if occupied % 2 == 0 {
        first
    } else {
        first.other()
    }
}

/// The position after the player to move has marked `tile`.
pub open spec fn after_turn(first: Player, marks: Map<Tile, Player>, tile: Tile) -> Map<
    Tile,
    Player,
> {
    marks.insert(tile, turn_player(first, marks.dom().len()))
}

/// The position after the tiles of `moves` have been marked in turn, from
/// `start` on.
pub open spec fn replay(first: Player, start: Map<Tile, Player>, moves: Seq<Tile>) -> Map<
    Tile,
    Player,
>
    decreases moves.len(),
{
    if moves.len() == 0 {
        start
    } else {
        after_turn(first, replay(first, start, moves.drop_last()), moves.last())
    }
}

/// Whether `moves` is a sequence of turns from `start`: each move marks a
/// tile that was free.
pub open spec fn follows(first: Player, start: Map<Tile, Player>, moves: Seq<Tile>) -> bool
    decreases moves.len(),
{
    moves.len() == 0 || {
        &&& follows(first, start, moves.drop_last())
        &&& !replay(first, start, moves.drop_last()).contains_key(moves.last())
    }
}

/// Whether `moves` is a course of play from `start`: each move marks a tile
/// that was free, in a position that was still open.
pub open spec fn legal(first: Player, start: Map<Tile, Player>, moves: Seq<Tile>) -> bool
    decreases moves.len(),
{
    moves.len() == 0 || {
        let before = replay(first, start, moves.drop_last());
        &&& legal(first, start, moves.drop_last())
        &&& outcome(before) is None
        &&& !before.contains_key(moves.last())
    }
}

/// A course of play is a sequence of turns.
pub proof fn lemma_legal_follows(first: Player, start: Map<Tile, Player>, moves: Seq<Tile>)
    requires
        legal(first, start, moves),
    ensures
        follows(first, start, moves),
    decreases moves.len(),
{
    if moves.len() > 0 {
        lemma_legal_follows(first, start, moves.drop_last());
    }
}

/// Whether `moves` plays the game out from `start` and ends it with `result`.
pub open spec fn plays_out(
    first: Player,
    start: Map<Tile, Player>,
    moves: Seq<Tile>,
    result: GameResult,
) -> bool {
    legal(first, start, moves) && outcome(replay(first, start, moves)) == Some(result)
}

/// The tiles that hold `player`'s mark.
pub open spec fn tiles_of(marks: Map<Tile, Player>, player: Player) -> Set<Tile> {
    Set::new(|t: Tile| marks.get(t) == Some(player))
}

/// A sequence of turns adds one mark with each move, so it has at most as
/// many moves as the start left tiles free.
pub proof fn lemma_replay_count(first: Player, start: Map<Tile, Player>, moves: Seq<Tile>)
    requires
        follows(first, start, moves),
    ensures
        replay(first, start, moves).dom().len() == start.dom().len() + moves.len(),
        start.dom().len() + moves.len() <= 9,
    decreases moves.len(),
{
    lemma_occupancy(replay(first, start, moves));
    if moves.len() > 0 {
        lemma_replay_count(first, start, moves.drop_last());
        lemma_occupancy(replay(first, start, moves.drop_last()));
    }
}

/// A mark, once placed, stays: a sequence of turns leaves every mark of its
/// start where it was.
pub proof fn lemma_marks_stay(
    first: Player,
    start: Map<Tile, Player>,
    moves: Seq<Tile>,
    tile: Tile,
)
    requires
        follows(first, start, moves),
        start.contains_key(tile),
    ensures
        replay(first, start, moves).get(tile) == start.get(tile),
    decreases moves.len(),
{
    if moves.len() > 0 {
        lemma_marks_stay(first, start, moves.drop_last(), tile);
    }
}

/// Turns alternate: in a sequence of turns, the move with index `n` from
/// zero is made by the player whose turn it is when `n` more tiles are
/// occupied than at the start, and the mark stays. From an empty board, then,
/// the first, third, fifth, ... tile to be occupied holds the first player's
/// mark and the others hold the other player's.
pub proof fn lemma_turns_alternate(
    first: Player,
    start: Map<Tile, Player>,
    moves: Seq<Tile>,
    n: int,
)
    requires
        follows(first, start, moves),
        0 <= n < moves.len(),
    ensures
        replay(first, start, moves).get(moves[n]) == Some(
            turn_player(first, start.dom().len() + n as nat),
        ),
        start.dom().len() == 0 ==> replay(first, start, moves).get(moves[n]) == Some(
            if (n + 1) % 2 == 1 {
                first
            } else {
                first.other()
            },
        ),
    decreases moves.len(),
{
    let earlier = moves.drop_last();
    if n == moves.len() - 1 {
        lemma_replay_count(first, start, earlier);
    } else {
        lemma_turns_alternate(first, start, earlier, n);
    }
}

/// From an empty board the first player holds every other mark, starting
/// with the first one, and the other player holds the rest.
proof fn lemma_shares(first: Player, moves: Seq<Tile>)
    requires
        follows(first, Map::empty(), moves),
    ensures
        tiles_of(replay(first, Map::empty(), moves), first).finite(),
        tiles_of(replay(first, Map::empty(), moves), first.other()).finite(),
        tiles_of(replay(first, Map::empty(), moves), first).len() == (moves.len() + 1) / 2,
        tiles_of(replay(first, Map::empty(), moves), first.other()).len() == moves.len() / 2,
    decreases moves.len(),
{
    let start = Map::<Tile, Player>::empty();
    let now = replay(first, start, moves);
    if moves.len() == 0 {
        assert(tiles_of(now, first) =~= Set::<Tile>::empty());
        assert(tiles_of(now, first.other()) =~= Set::<Tile>::empty());
    } else {
        let earlier = moves.drop_last();
        let before = replay(first, start, earlier);
        lemma_shares(first, earlier);
        lemma_replay_count(first, start, earlier);
        let mover = turn_player(first, before.dom().len());
        assert(tiles_of(now, mover) =~= tiles_of(before, mover).insert(moves.last()));
        assert(tiles_of(now, mover.other()) =~= tiles_of(before, mover.other()));
    }
}

/// A player who fills a line holds at least three tiles.
proof fn lemma_line_takes_three(marks: Map<Tile, Player>, i: int, player: Player)
    requires
        0 <= i < 8,
        line_won_by(marks, WINNING_LINES[i], player),
        tiles_of(marks, player).finite(),
    ensures
        tiles_of(marks, player).len() >= 3,
{
    let line = WINNING_LINES[i];
    let three = set![line[0], line[1], line[2]];
    assert(three.len() == 3) by {
        assert(line[0] != line[1] && line[1] != line[2] && line[0] != line[2]);
        assert(three =~= Set::<Tile>::empty().insert(line[0]).insert(line[1]).insert(line[2]));
    }
    assert(three.subset_of(tiles_of(marks, player)));
    lemma_len_subset(three, tiles_of(marks, player));
}

/// Once turns taken from an empty board have decided a game, it stands at a
/// win of one player or at a draw, with between five and nine marks on the
/// board, one for each move; a drawn game has all nine. This holds of every
/// game played out from an empty board.
pub proof fn lemma_finished_game_length(first: Player, moves: Seq<Tile>, result: GameResult)
    requires
        follows(first, Map::empty(), moves),
        outcome(replay(first, Map::empty(), moves)) == Some(result),
    ensures
        result == GameResult::Win(Player::Ex) || result == GameResult::Win(Player::Oh) || result
            == GameResult::Draw,
        5 <= moves.len() <= 9,
        replay(first, Map::empty(), moves).dom().len() == moves.len(),
        result == GameResult::Draw ==> moves.len() == 9,
{
    let now = replay(first, Map::empty(), moves);
    lemma_replay_count(first, Map::empty(), moves);
    lemma_occupancy(now);
    lemma_shares(first, moves);
    lemma_winner(now);
    match winner(now) {
        Some(player) => {
            let i = choose|i: int|
                0 <= i < 8 && line_owner(now, #[trigger] WINNING_LINES[i]) == winner(now);
            lemma_line_takes_three(now, i, player);
        },
        None => {},
    }
}

} // verus!
