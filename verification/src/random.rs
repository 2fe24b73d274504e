//! The call into rand. Nothing here is proved.

use crate::grid::Position;
use rand::seq::IndexedRandom;
use vstd::prelude::*;

verus! {

/// Calls `IndexedRandom::choose` with the thread's generator. It gives
/// nothing for an empty list and otherwise one of the list's cells. Which
/// one is left open: that every cell is as likely as any other is rand's
/// promise, and no contract can state it.
#[verifier::external_body]
pub(crate) fn pick(cells: &Vec<Position>) -> (picked: Option<Position>)
    ensures
        picked is None <==> cells@.len() == 0,
        picked matches Some(cell) ==> cells@.contains(cell),
{
    cells.choose(&mut rand::rng()).copied()
}

} // verus!
