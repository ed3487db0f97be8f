//! The random draws of a game, made by the `rand` crate. What is stated of
//! them here is taken on trust from that crate; nothing in this module is
//! proved.

use vstd::prelude::*;
use rand::rngs::ThreadRng;
use rand::seq::SliceRandom;
use crate::position::Tile;

verus! {

/// The handle to the thread's random generator, `rand::rngs::ThreadRng`. Its
/// state is not modelled.
#[verifier::external_type_specification]
#[verifier::external_body]
pub struct ExThreadRng(rand::rngs::ThreadRng);

/// `rand::thread_rng` hands out the handle to the thread's generator, which
/// the system seeds on first use. Nothing is claimed of the handle. Where the
/// system cannot seed the generator, `rand` gives up with a panic; nothing
/// that a caller passes in decides that.
pub assume_specification[ rand::thread_rng ]() -> ThreadRng;

/// Draws an integer with `rand::random`, which asks the thread's generator for
/// a value spread evenly over all of `i32`. Nothing is claimed of the value.
#[verifier::external_body]
pub(crate) fn random_i32() -> i32 {
    rand::random()
}

/// Picks one of `tiles` with `SliceRandom::choose`, drawing from `rng`. It is
/// claimed that an empty list gives nothing and that any other list gives one
/// of its own elements; which one is left open, and so is what becomes of the
/// generator.
#[verifier::external_body]
pub(crate) fn choose_tile(tiles: &Vec<Tile>, rng: &mut ThreadRng) -> (choice: Option<Tile>)
    ensures
        tiles@.len() == 0 ==> choice is None,
        tiles@.len() > 0 ==> choice is Some && tiles@.contains(choice->Some_0),
{
    tiles.choose(rng).copied()
}

} // verus!
