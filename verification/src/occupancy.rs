//! Counting the occupied and the free tiles of a position.
//!
//! A position is a map from the occupied tiles to their occupants. The free
//! and the occupied tiles are listed row by row; the lemmas here tie those
//! lists to the map's domain and to its size.

use vstd::prelude::*;
use crate::player::Player;
use crate::position::{lemma_tile_places, tile_at, tile_index, Tile, ALL_TILES};

verus! {

/// The test that picks the tiles on which `marks` has no mark.
pub open spec fn is_free(marks: Map<Tile, Player>) -> spec_fn(Tile) -> bool {
    |t: Tile| !marks.contains_key(t)
}

/// The test that picks the tiles on which `marks` has a mark.
pub open spec fn is_taken(marks: Map<Tile, Player>) -> spec_fn(Tile) -> bool {
    |t: Tile| marks.contains_key(t)
}

/// The free tiles of a position, row by row.
pub open spec fn vacant(marks: Map<Tile, Player>) -> Seq<Tile> {
    ALL_TILES@.filter(is_free(marks))
}

/// The occupied tiles of a position, row by row.
pub open spec fn taken(marks: Map<Tile, Player>) -> Seq<Tile> {
    ALL_TILES@.filter(is_taken(marks))
}

/// Whether every tile is occupied.
pub open spec fn is_full(marks: Map<Tile, Player>) -> bool {
    forall|t: Tile| marks.contains_key(t)
}

/// Filtering a sequence that ends in `x` filters what stands before `x`, and
/// keeps `x` if the test accepts it.
pub proof fn lemma_filter_push<A>(s: Seq<A>, x: A, pred: spec_fn(A) -> bool)
    ensures
        s.push(x).filter(pred) == if pred(x) {
            s.filter(pred).push(x)
        } else {
            s.filter(pred)
        },
{
    reveal(Seq::filter);
    assert(s.push(x).drop_last() =~= s);
}

/// The occupied tiles among the first `k` in row-major order.
spec fn taken_below(marks: Map<Tile, Player>, k: int) -> Set<Tile> {
    Set::new(|t: Tile| tile_index(t) < k && marks.contains_key(t))
}

/// What `lemma_occupancy` says of all nine tiles, said of the first `k`.
proof fn lemma_prefix(marks: Map<Tile, Player>, k: int)
    requires
        0 <= k <= 9,
    ensures
        taken_below(marks, k).finite(),
        ALL_TILES@.take(k).filter(is_taken(marks)).len() == taken_below(marks, k).len(),
        ALL_TILES@.take(k).filter(is_free(marks)).len() == k - taken_below(marks, k).len(),
        forall|t: Tile|
            ALL_TILES@.take(k).filter(is_taken(marks)).contains(t) <==> tile_index(t) < k
                && marks.contains_key(t),
        forall|t: Tile|
            ALL_TILES@.take(k).filter(is_free(marks)).contains(t) <==> tile_index(t) < k
                && !marks.contains_key(t),
    decreases k,
{
    lemma_tile_places();
    let all = ALL_TILES@;
    if k == 0 {
        reveal(Seq::filter);
        assert(all.take(0) =~= Seq::<Tile>::empty());
        assert(taken_below(marks, 0) =~= Set::<Tile>::empty());
    } else {
        lemma_prefix(marks, k - 1);
        let x = tile_at(k - 1);
        let before = all.take(k - 1);
        assert(all.take(k) =~= before.push(x));
        lemma_filter_push(before, x, is_taken(marks));
        lemma_filter_push(before, x, is_free(marks));
        if marks.contains_key(x) {
            assert(taken_below(marks, k) =~= taken_below(marks, k - 1).insert(x));
        } else {
            assert(taken_below(marks, k) =~= taken_below(marks, k - 1));
        }
        let taken_now = all.take(k).filter(is_taken(marks));
        let free_now = all.take(k).filter(is_free(marks));
        let taken_before = before.filter(is_taken(marks));
        let free_before = before.filter(is_free(marks));
        assert forall|t: Tile|
            taken_now.contains(t) <==> tile_index(t) < k && marks.contains_key(t) by {
            if marks.contains_key(x) {
                assert(taken_now[taken_now.len() - 1] == x);
                assert(forall|j: int| 0 <= j < taken_before.len() ==> taken_now[j] == taken_before[j]);
                if taken_before.contains(t) {
                    let j = choose|j: int| 0 <= j < taken_before.len() && taken_before[j] == t;
                    assert(taken_now[j] == t);
                }
            }
        }
        assert forall|t: Tile|
            free_now.contains(t) <==> tile_index(t) < k && !marks.contains_key(t) by {
            if !marks.contains_key(x) {
                assert(free_now[free_now.len() - 1] == x);
                assert(forall|j: int| 0 <= j < free_before.len() ==> free_now[j] == free_before[j]);
                if free_before.contains(t) {
                    let j = choose|j: int| 0 <= j < free_before.len() && free_before[j] == t;
                    assert(free_now[j] == t);
                }
            }
        }
    }
}

/// How the lists of free and of occupied tiles relate to a position: the
/// occupied tiles are as many as the position has marks, the free ones are the
/// rest of the nine, and each list holds exactly the tiles of its kind.
pub proof fn lemma_occupancy(marks: Map<Tile, Player>)
    ensures
        marks.dom().finite(),
        marks.dom().len() <= 9,
        taken(marks).len() == marks.dom().len(),
        vacant(marks).len() == 9 - marks.dom().len(),
        forall|t: Tile| taken(marks).contains(t) <==> marks.contains_key(t),
        forall|t: Tile| vacant(marks).contains(t) <==> !marks.contains_key(t),
        is_full(marks) <==> marks.dom().len() == 9,
{
    lemma_tile_places();
    lemma_prefix(marks, 9);
    assert(ALL_TILES@.take(9) =~= ALL_TILES@);
    assert(taken_below(marks, 9) =~= marks.dom());
    ALL_TILES@.lemma_filter_len(is_free(marks));
    if vacant(marks).len() > 0 {
        assert(vacant(marks).contains(vacant(marks)[0]));
    }
}

} // verus!
