//! A player that takes the first free cell it finds.

use vstd::prelude::*;
use crate::game::{CellState, PlayerId};
use crate::game::grid::{Board, Grid};
use crate::game::grid_observer::{check_winner, winner};
use crate::player::Player;

verus! {

/// A player that moves by itself.
pub struct KiPlayer {
    id: u32,
}

/// How a game looks to one of its players.
#[derive(Debug, Copy, Clone, PartialEq, Eq, Structural)]
pub enum GameEvaluation {
    /// The player has won.
    Win,
    /// Another player has won.
    Lose,
    /// Nobody has won and no cell is free.
    Draw,
    /// Nobody has won and the game can go on.
    Undetermined,
}

/// How the board looks to `player`.
pub open spec fn evaluation(board: Board, player: PlayerId) -> GameEvaluation {
    match winner(board) {
        Some(holder) => if holder == player {
            GameEvaluation::Win
        } else {
            GameEvaluation::Lose
        },
        None => if board.has_cell_with_state(CellState::Unset) {
            GameEvaluation::Undetermined
        } else {
            GameEvaluation::Draw
        },
    }
}

/// Whether `(row, column)` is the first free cell of the board, reading row by row from the
/// top and each row from the left.
pub open spec fn is_first_free(board: Board, row: int, column: int) -> bool {
    &&& board.in_bounds(row, column)
    &&& board.cells[row][column] is Unset
    &&& forall|r: int, c: int|
        board.in_bounds(r, c) && (r < row || (r == row && c < column))
            ==> (#[trigger] board.cells[r][c]) is Occupied
}

impl KiPlayer {
    /// A player that moves under the given id.
    pub fn new(id: u32) -> (player: KiPlayer)
        ensures
            player.player_id() == PlayerId(id),
    {
        KiPlayer { id }
    }

    /// How the game on `grid` looks to this player.
    pub fn evaluate_game(&self, grid: &Grid) -> (verdict: GameEvaluation)
        requires
            grid.wf(),
        ensures
            verdict == evaluation(grid@, self.player_id()),
    {
        match check_winner(grid) {
            None => {
                if grid.has_any_cell_with_state(CellState::Unset) {
                    GameEvaluation::Undetermined
                } else {
                    GameEvaluation::Draw
                }
            },
            Some(PlayerId(id)) => {
                if id == self.id {
                    GameEvaluation::Win
                } else {
                    GameEvaluation::Lose
                }
            },
        }
    }
}

impl Player for KiPlayer {
    closed spec fn player_id(&self) -> PlayerId {
        PlayerId(self.id)
    }

    /// Takes the first free cell of `grid`, reading row by row from the top and each row from
    /// the left.
    fn make_turn(&self, grid: &mut Grid)
        ensures
            old(grid)@.has_cell_with_state(CellState::Unset) ==> exists|row: int, column: int|
                #[trigger] is_first_free(old(grid)@, row, column) && final(grid)@ == old(
                    grid,
                )@.with_cell(row, column, CellState::Occupied(self.player_id())),
    {
        let row_count = grid.row_count();
        let column_count = grid.column_count();
        for row_nr in 0..row_count
            invariant
                grid.wf(),
                grid@ == old(grid)@,
                row_count == grid@.row_count,
                column_count == grid@.column_count,
                forall|r: int, c: int|
                    0 <= r < row_nr && 0 <= c < column_count ==> (#[trigger] grid@.cells[r][c])
                        is Occupied,
        {
            for col_nr in 0..column_count
                invariant
                    grid.wf(),
                    grid@ == old(grid)@,
                    row_nr < row_count,
                    row_count == grid@.row_count,
                    column_count == grid@.column_count,
                    forall|r: int, c: int|
                        0 <= r < row_nr && 0 <= c < column_count ==> (
                        #[trigger] grid@.cells[r][c]) is Occupied,
                    forall|c: int|
                        0 <= c < col_nr ==> (#[trigger] grid@.cells[row_nr as int][c]) is Occupied,
            {
                match grid.get_cell(row_nr, col_nr) {
                    CellState::Unset => {
                        assert(is_first_free(old(grid)@, row_nr as int, col_nr as int));
                        grid.set_cell(row_nr, col_nr, PlayerId(self.id));
                        return;
                    },
                    CellState::Occupied(_) => {},
                }
            }
        }
    }
}

} // verus!
