//! The board: a dense rectangle of cells, and the operations that read and fill it.

use vstd::prelude::*;
use crate::game::{CellState, GameRules, PlayerId};
use crate::game::grid_observer;
use crate::game::streak_laws::lemma_empty_board_has_no_winner;

verus! {

/// What a grid holds, as mathematics: its dimensions, the rules it was made with, and the
/// cells by row and column.
pub struct Board {
    /// The number of rows.
    pub row_count: nat,
    /// The number of columns.
    pub column_count: nat,
    /// How many cells in a line a player needs to win.
    pub streak_to_win: nat,
    /// Whether streaks along ascending diagonals win too.
    pub count_both_diagonals: bool,
    /// `cells[row][column]`, rows from the top and columns from the left.
    pub cells: Seq<Seq<CellState>>,
}

impl Board {
    /// The dimensions and the streak length are positive, and `cells` is a full rectangle.
    pub open spec fn wf(self) -> bool {
        &&& self.row_count > 0
        &&& self.column_count > 0
        &&& self.streak_to_win > 0
        &&& self.cells.len() == self.row_count
        &&& forall|row: int|
            0 <= row < self.row_count ==> (#[trigger] self.cells[row]).len() == self.column_count
    }

    /// Whether `(row, column)` names a cell of the board.
    pub open spec fn in_bounds(self, row: int, column: int) -> bool {
        0 <= row < self.row_count && 0 <= column < self.column_count
    }

    /// The board of the given shape and rules on which no cell is taken.
    pub open spec fn empty(row_count: nat, column_count: nat, rules: GameRules) -> Board {
        Board {
            row_count,
            column_count,
            streak_to_win: rules.streak_to_win as nat,
            count_both_diagonals: rules.count_both_diagonals,
            cells: Seq::new(
                row_count,
                |row: int| Seq::new(column_count, |column: int| CellState::Unset),
            ),
        }
    }

    /// Whether some cell of the board is in the given state.
    pub open spec fn has_cell_with_state(self, state: CellState) -> bool {
        exists|row: int, column: int|
            self.in_bounds(row, column) && #[trigger] self.cells[row][column] == state
    }

    /// Whether this board has grown out of `earlier` by moves alone: the shape and the
    /// winning length are the same, and every cell that was taken is still held by the same
    /// player.
    pub open spec fn extends(self, earlier: Board) -> bool {
        &&& self.row_count == earlier.row_count
        &&& self.column_count == earlier.column_count
        &&& self.streak_to_win == earlier.streak_to_win
        &&& self.count_both_diagonals == earlier.count_both_diagonals
        &&& forall|row: int, column: int|
            earlier.in_bounds(row, column) && (#[trigger] earlier.cells[row][column]) is Occupied
                ==> self.cells[row][column] == earlier.cells[row][column]
    }

    /// This board with the cell at `(row, column)` replaced by `state`.
    pub open spec fn with_cell(self, row: int, column: int, state: CellState) -> Board {
        Board { cells: self.cells.update(row, self.cells[row].update(column, state)), ..self }
    }
}

/// Replacing a cell leaves the board well formed, puts the new state at that cell and keeps
/// every other cell.
pub proof fn lemma_with_cell(board: Board, row: int, column: int, state: CellState)
    requires
        board.wf(),
        board.in_bounds(row, column),
    ensures
        board.with_cell(row, column, state).wf(),
        board.with_cell(row, column, state).cells[row][column] == state,
        forall|r: int, c: int|
            board.in_bounds(r, c) && (r != row || c != column) ==> #[trigger] board.with_cell(
                row,
                column,
                state,
            ).cells[r][c] == board.cells[r][c],
{
}

/// A board in memory. The cells lie row by row in one vector.
pub struct Grid {
    inner: Vec<CellState>,
    column_count: usize,
    row_count: usize,
    to_win: u32,
    both_diagonals: bool,
}

impl View for Grid {
    type V = Board;

    closed spec fn view(&self) -> Board {
        Board {
            row_count: self.row_count as nat,
            column_count: self.column_count as nat,
            streak_to_win: self.to_win as nat,
            count_both_diagonals: self.both_diagonals,
            cells: Seq::new(
                self.row_count as nat,
                |row: int|
                    Seq::new(
                        self.column_count as nat,
                        |column: int| self.stored(row, column),
                    ),
            ),
        }
    }
}

/// A cell's place in a row-major vector lies inside the vector.
proof fn lemma_index_in_range(rows: int, columns: int, row: int, column: int)
    requires
        0 <= row < rows,
        0 <= column < columns,
    ensures
        0 <= row * columns + column < rows * columns,
{
    assert(row * columns + columns <= rows * columns) by (nonlinear_arith)
        requires
            0 <= row < rows,
            0 < columns,
    ;
    assert(0 <= row * columns) by (nonlinear_arith)
        requires
            0 <= row,
            0 < columns,
    ;
}

/// No two cells share a place in a row-major vector.
proof fn lemma_index_injective(columns: int, row1: int, column1: int, row2: int, column2: int)
    requires
        0 <= column1 < columns,
        0 <= column2 < columns,
        row1 * columns + column1 == row2 * columns + column2,
    ensures
        row1 == row2,
        column1 == column2,
{
    assert(row1 == row2) by (nonlinear_arith)
        requires
            0 <= column1 < columns,
            0 <= column2 < columns,
            row1 * columns + column1 == row2 * columns + column2,
    ;
}

impl Grid {
    /// The cell that memory holds for `(row, column)`.
    spec fn stored(&self, row: int, column: int) -> CellState {
        self.inner@[row * self.column_count + column]
    }

    /// The cells in memory are as many as the dimensions say.
    pub closed spec fn inv(&self) -> bool {
        self.inner@.len() == self.row_count * self.column_count
    }

    /// The grid is usable: its memory is consistent and its content is a well-formed board.
    pub open spec fn wf(&self) -> bool {
        self.inv() && self@.wf()
    }

    /// A grid of the given shape with every cell unset, on which a streak of `streak_to_win`
    /// cells along a row, a column or a descending diagonal wins. Ascending diagonals do not
    /// count.
    pub fn new(row_count: usize, column_count: usize, streak_to_win: u32) -> (grid: Grid)
        requires
            row_count > 0,
            column_count > 0,
            streak_to_win > 0,
            row_count * column_count <= usize::MAX,
        ensures
            grid.wf(),
            grid@ == Board::empty(
                row_count as nat,
                column_count as nat,
                (GameRules { streak_to_win, count_both_diagonals: false }),
            ),
            grid_observer::winner(grid@) is None,
    {
        Grid::with_rules(
            row_count,
            column_count,
            GameRules { streak_to_win, count_both_diagonals: false },
        )
    }

    /// A grid of the given shape with every cell unset, on which wins are decided by `rules`.
    pub fn with_rules(row_count: usize, column_count: usize, rules: GameRules) -> (grid: Grid)
        requires
            row_count > 0,
            column_count > 0,
            rules.streak_to_win > 0,
            row_count * column_count <= usize::MAX,
        ensures
            grid.wf(),
            grid@ == Board::empty(row_count as nat, column_count as nat, rules),
            grid_observer::winner(grid@) is None,
    {
        let grid = Grid {
            inner: vec![CellState::Unset; column_count * row_count],
            column_count,
            row_count,
            to_win: rules.streak_to_win,
            both_diagonals: rules.count_both_diagonals,
        };
        proof {
            assert(column_count * row_count == row_count * column_count) by (nonlinear_arith);
            assert forall|row: int, column: int|
                0 <= row < row_count && 0 <= column < column_count implies #[trigger] grid.stored(
                row,
                column,
            ) == CellState::Unset by {
                lemma_index_in_range(row_count as int, column_count as int, row, column);
            }
            let empty = Board::empty(row_count as nat, column_count as nat, rules);
            assert(grid@.cells =~~= empty.cells);
            lemma_empty_board_has_no_winner(row_count as nat, column_count as nat, rules);
        }
        grid
    }

    /// The number of rows.
    pub fn row_count(&self) -> (count: usize)
        ensures
            count == self@.row_count,
    {
        self.row_count
    }

    /// The number of columns.
    pub fn column_count(&self) -> (count: usize)
        ensures
            count == self@.column_count,
    {
        self.column_count
    }

    /// How many cells in a line a player needs to win.
    pub fn streak_to_win(&self) -> (length: u32)
        ensures
            length == self@.streak_to_win,
    {
        self.to_win
    }

    /// Whether streaks along ascending diagonals win too.
    pub fn count_both_diagonals(&self) -> (counted: bool)
        ensures
            counted == self@.count_both_diagonals,
    {
        self.both_diagonals
    }

    /// Whether `(row, column)` names a cell of the grid.
    pub fn in_bounds(&self, row: usize, column: usize) -> (inside: bool)
        ensures
            inside == self@.in_bounds(row as int, column as int),
    {
        row < self.row_count && column < self.column_count
    }

    /// Where the cell at `(row, column)` lies in memory.
    fn calc_index(&self, row: usize, column: usize) -> (index: usize)
        requires
            self.wf(),
            self@.in_bounds(row as int, column as int),
        ensures
            index == row * self.column_count + column,
            index < self.inner@.len(),
    {
        proof {
            lemma_index_in_range(
                self.row_count as int,
                self.column_count as int,
                row as int,
                column as int,
            );
            assert(self.inner@.len() == self.inner.len());
        }
        column + row * self.column_count
    }

    /// The state of the cell at `(row, column)`.
    pub fn get_cell(&self, row: usize, column: usize) -> (cell: &CellState)
        requires
            self.wf(),
            self@.in_bounds(row as int, column as int),
        ensures
            *cell == self@.cells[row as int][column as int],
    {
        &self.inner[self.calc_index(row, column)]
    }

    /// Overwriting one place in memory replaces exactly the cell that lies there.
    proof fn lemma_overwrite(before: Grid, after: Grid, row: int, column: int)
        requires
            before.wf(),
            before@.in_bounds(row, column),
            after.row_count == before.row_count,
            after.column_count == before.column_count,
            after.to_win == before.to_win,
            after.both_diagonals == before.both_diagonals,
            after.inner@ == before.inner@.update(
                row * before.column_count + column,
                after.stored(row, column),
            ),
        ensures
            after.wf(),
            after@ == before@.with_cell(row, column, after.stored(row, column)),
    {
        let expected = before@.with_cell(row, column, after.stored(row, column));
        lemma_index_in_range(before.row_count as int, before.column_count as int, row, column);
        assert forall|r: int| 0 <= r < before.row_count implies #[trigger] after@.cells[r]
            =~= expected.cells[r] by {
            assert forall|c: int| 0 <= c < before.column_count implies after@.cells[r][c]
                == expected.cells[r][c] by {
                lemma_index_in_range(before.row_count as int, before.column_count as int, r, c);
                if r * before.column_count + c == row * before.column_count + column {
                    lemma_index_injective(before.column_count as int, r, c, row, column);
                }
            }
        }
        assert(after@.cells =~= expected.cells);
    }

    /// The cell at `(row, column)`, to be overwritten in place.
    fn get_mut_cell(&mut self, row: usize, column: usize) -> (cell: &mut CellState)
        requires
            old(self).wf(),
            old(self)@.in_bounds(row as int, column as int),
        ensures
            *cell == old(self)@.cells[row as int][column as int],
            final(self).wf(),
            final(self)@ == old(self)@.with_cell(row as int, column as int, *final(cell)),
    {
        let index = self.calc_index(row, column);
        proof {
            assert forall|after: Grid|
                after.row_count == self.row_count && after.column_count == self.column_count
                    && after.to_win == self.to_win && after.both_diagonals
                    == self.both_diagonals && after.inner@ == self.inner@.update(
                    index as int,
                    after.inner@[index as int],
                ) implies after.wf() && #[trigger] after@ == self@.with_cell(
                row as int,
                column as int,
                after.inner@[index as int],
            ) by {
                Self::lemma_overwrite(*self, after, row as int, column as int);
            }
        }
        &mut self.inner[index]
    }

    /// Gives the cell at `(row, column)` to `player` if nobody holds it, and says whether it
    /// did. A cell that is taken stays as it is.
    pub fn set_cell(&mut self, row: usize, column: usize, player: PlayerId) -> (placed: bool)
        requires
            old(self).wf(),
            old(self)@.in_bounds(row as int, column as int),
        ensures
            final(self).wf(),
            placed == (old(self)@.cells[row as int][column as int] is Unset),
            final(self)@.cells[row as int][column as int] == if placed {
                CellState::Occupied(player)
            } else {
                old(self)@.cells[row as int][column as int]
            },
            placed ==> final(self)@ == old(self)@.with_cell(
                row as int,
                column as int,
                CellState::Occupied(player),
            ),
            !placed ==> final(self)@ == old(self)@,
            final(self)@.extends(old(self)@),
    {
        let cell = self.get_mut_cell(row, column);
        match cell {
            CellState::Unset => {
                *cell = CellState::Occupied(player);
                true
            },
            CellState::Occupied(_) => {
                proof {
                    let board = old(self)@;
                    let same = board.with_cell(
                        row as int,
                        column as int,
                        board.cells[row as int][column as int],
                    );
                    assert(same.cells[row as int] =~= board.cells[row as int]);
                    assert(same.cells =~= board.cells);
                }
                false
            },
        }
    }

    /// Whether some cell of the grid is in the given state.
    pub fn has_any_cell_with_state(&self, state: CellState) -> (found: bool)
        requires
            self.wf(),
        ensures
            found == self@.has_cell_with_state(state),
    {
        let row_count = self.row_count;
        let column_count = self.column_count;
        for row_nr in 0..row_count
            invariant
                self.wf(),
                row_count == self@.row_count,
                column_count == self@.column_count,
                forall|row: int, column: int|
                    0 <= row < row_nr && 0 <= column < column_count
                        ==> #[trigger] self@.cells[row][column] != state,
        {
            for cell_nr in 0..column_count
                invariant
                    self.wf(),
                    row_nr < row_count,
                    row_count == self@.row_count,
                    column_count == self@.column_count,
                    forall|row: int, column: int|
                        0 <= row < row_nr && 0 <= column < column_count
                            ==> #[trigger] self@.cells[row][column] != state,
                    forall|column: int|
                        0 <= column < cell_nr ==> #[trigger] self@.cells[row_nr as int][column]
                            != state,
            {
                if *self.get_cell(row_nr, cell_nr) == state {
                    return true;
                }
            }
        }
        false
    }

    /// The player who holds a winning streak on this grid, if there is one.
    pub fn check_winner(&self) -> (winner: Option<PlayerId>)
        requires
            self.wf(),
        ensures
            winner == grid_observer::winner(self@),
    {
        grid_observer::check_winner(self)
    }
}

} // verus!
