//! What the one who runs a game decides between two moves: whether the game is over, and
//! whose turn is next.

use vstd::prelude::*;
use crate::game::{CellState, GameState};
use crate::game::grid::{Board, Grid};
use crate::game::grid_observer::{check_winner, winner};

verus! {

/// Where the game on a board stands: won by the holder of a streak, drawn when nobody has
/// won and no cell is free, and in play otherwise.
pub open spec fn state_of(board: Board) -> GameState {
    match winner(board) {
        Some(player) => GameState::Win(player),
        None => if board.has_cell_with_state(CellState::Unset) {
            GameState::Mid
        } else {
            GameState::Draw
        },
    }
}

/// Where the game on `grid` stands.
pub fn game_state(grid: &Grid) -> (state: GameState)
    requires
        grid.wf(),
    ensures
        state == state_of(grid@),
{
    match check_winner(grid) {
        Some(player) => GameState::Win(player),
        None => {
            if grid.has_any_cell_with_state(CellState::Unset) {
                GameState::Mid
            } else {
                GameState::Draw
            }
        },
    }
}

/// The seat that moves after `current`, among `player_count` seats that take turns in a
/// circle.
pub fn next_player(current: usize, player_count: usize) -> (next: usize)
    requires
        player_count > 0,
    ensures
        next == if current + 1 >= player_count {
            0
        } else {
            current + 1
        },
{
    if current >= player_count - 1 {
        0
    } else {
        current + 1
    }
}

} // verus!
