//! Players: what a move is, and who can make one.

use vstd::prelude::*;
use crate::game::{CellState, PlayerId};
use crate::game::grid::{Board, Grid};

pub mod ki;

verus! {

/// Whether `after` is what one turn of `player` makes of `before`: one cell that was free
/// now belongs to `player` and nothing else has changed, or, where no cell was free, nothing
/// has changed at all.
pub open spec fn is_turn(before: Board, after: Board, player: PlayerId) -> bool {
    if before.has_cell_with_state(CellState::Unset) {
        exists|row: int, column: int|
            before.in_bounds(row, column) && (#[trigger] before.cells[row][column]) is Unset
                && after == before.with_cell(row, column, CellState::Occupied(player))
    } else {
        after == before
    }
}

/// Somebody who takes part in a game under an id of their own.
pub trait Player {
    /// The id under which this player's moves are made.
    spec fn player_id(&self) -> PlayerId;

    /// Makes one move: takes one free cell of `grid` for this player. A grid without a free
    /// cell stays as it is.
    fn make_turn(&self, grid: &mut Grid)
        requires
            old(grid).wf(),
        ensures
            final(grid).wf(),
            is_turn(old(grid)@, final(grid)@, self.player_id()),
    ;
}

/// A turn takes no cell away from anybody.
pub proof fn lemma_turn_extends(before: Board, after: Board, player: PlayerId)
    requires
        before.wf(),
        is_turn(before, after, player),
    ensures
        after.wf(),
        after.extends(before),
{
}

} // verus!
