//! Win detection: who, if anyone, holds a streak along a row, a column or a diagonal of a
//! grid. Diagonals that descend to the right always count; those that ascend to the right
//! count only on a grid whose rules say so. A streak lies within one line: it does not go
//! on from the end of a row, a column or a diagonal into the next.

use vstd::prelude::*;
use crate::game::{CellState, PlayerId};
use crate::game::grid::{Board, Grid};
use crate::game::line::{
    first_some, lemma_first_some_at, lemma_first_some_none, line_winner, streak_ending_at,
};

verus! {

/// The cells of one row, from the left.
pub open spec fn row_cells(board: Board, row: int) -> Seq<CellState> {
    board.cells[row]
}

/// The cells of one column, from the top.
pub open spec fn column_cells(board: Board, column: int) -> Seq<CellState> {
    Seq::new(board.row_count, |row: int| board.cells[row][column])
}

/// How many cells the descending diagonal from `(start_row, start_column)` has on the board.
pub open spec fn diagonal_length(board: Board, start_row: int, start_column: int) -> nat {
    if board.in_bounds(start_row, start_column) {
        if board.row_count - start_row <= board.column_count - start_column {
            (board.row_count - start_row) as nat
        } else {
            (board.column_count - start_column) as nat
        }
    } else {
        0
    }
}

/// The cells of the diagonal that descends to the right from `(start_row, start_column)`.
pub open spec fn diagonal_cells(board: Board, start_row: int, start_column: int) -> Seq<CellState> {
    Seq::new(
        diagonal_length(board, start_row, start_column),
        |step: int| board.cells[start_row + step][start_column + step],
    )
}

/// How many cells the ascending diagonal from `(start_row, start_column)` has on the board.
pub open spec fn ascending_diagonal_length(board: Board, start_row: int, start_column: int) -> nat {
    if board.in_bounds(start_row, start_column) {
        if start_row + 1 <= board.column_count - start_column {
            (start_row + 1) as nat
        } else {
            (board.column_count - start_column) as nat
        }
    } else {
        0
    }
}

/// The cells of the diagonal that ascends to the right from `(start_row, start_column)`.
pub open spec fn ascending_diagonal_cells(board: Board, start_row: int, start_column: int) -> Seq<
    CellState,
> {
    Seq::new(
        ascending_diagonal_length(board, start_row, start_column),
        |step: int| board.cells[start_row - step][start_column + step],
    )
}

/// The winner of each row, from the top.
pub open spec fn row_winners(board: Board) -> Seq<Option<PlayerId>> {
    Seq::new(board.row_count, |r: int| line_winner(row_cells(board, r), board.streak_to_win))
}

/// The winner of each column, from the left.
pub open spec fn column_winners(board: Board) -> Seq<Option<PlayerId>> {
    Seq::new(
        board.column_count,
        |c: int| line_winner(column_cells(board, c), board.streak_to_win),
    )
}

/// The winner of each descending diagonal that starts on the left edge, from the top.
pub open spec fn diagonal_winners_from_left(board: Board) -> Seq<Option<PlayerId>> {
    Seq::new(
        board.row_count,
        |r: int| line_winner(diagonal_cells(board, r, 0), board.streak_to_win),
    )
}

/// The winner of each descending diagonal that starts on the top edge, from the left.
pub open spec fn diagonal_winners_from_top(board: Board) -> Seq<Option<PlayerId>> {
    Seq::new(
        board.column_count,
        |c: int| line_winner(diagonal_cells(board, 0, c), board.streak_to_win),
    )
}

/// The winner of each ascending diagonal that starts on the left edge, from the top.
pub open spec fn ascending_winners_from_left(board: Board) -> Seq<Option<PlayerId>> {
    Seq::new(
        board.row_count,
        |r: int| line_winner(ascending_diagonal_cells(board, r, 0), board.streak_to_win),
    )
}

/// The winner of each ascending diagonal that starts on the bottom edge, from the left.
pub open spec fn ascending_winners_from_bottom(board: Board) -> Seq<Option<PlayerId>> {
    Seq::new(
        board.column_count,
        |c: int|
            line_winner(
                ascending_diagonal_cells(board, board.row_count - 1, c),
                board.streak_to_win,
            ),
    )
}

/// The first choice if it names a player, else the second.
pub open spec fn or_else(first: Option<PlayerId>, second: Option<PlayerId>) -> Option<PlayerId> {
    match first {
        Some(player) => Some(player),
        None => second,
    }
}

/// The winner of the topmost row that has one.
pub open spec fn horizontal_winner(board: Board) -> Option<PlayerId> {
    first_some(row_winners(board))
}

/// The winner of the leftmost column that has one.
pub open spec fn vertical_winner(board: Board) -> Option<PlayerId> {
    first_some(column_winners(board))
}

/// The winner of the first descending diagonal that has one: those that start on the left
/// edge come first, from the top, then those that start on the top edge, from the left.
pub open spec fn diagonal_winner(board: Board) -> Option<PlayerId> {
    or_else(
        first_some(diagonal_winners_from_left(board)),
        first_some(diagonal_winners_from_top(board)),
    )
}

/// The winner of the first ascending diagonal that has one: those that start on the left
/// edge come first, from the top, then those that start on the bottom edge, from the left.
pub open spec fn ascending_diagonal_winner(board: Board) -> Option<PlayerId> {
    or_else(
        first_some(ascending_winners_from_left(board)),
        first_some(ascending_winners_from_bottom(board)),
    )
}

/// The winner of a board: rows are looked at first, then columns, then descending
/// diagonals, and last, where the rules count them, ascending diagonals.
pub open spec fn winner(board: Board) -> Option<PlayerId> {
    or_else(
        horizontal_winner(board),
        or_else(
            vertical_winner(board),
            or_else(
                diagonal_winner(board),
                if board.count_both_diagonals {
                    ascending_diagonal_winner(board)
                } else {
                    None
                },
            ),
        ),
    )
}

/// The running streak, as its holder and its length, after one more cell: an unset cell
/// breaks it, a cell of the same player lengthens it, a cell of another player starts a new
/// one.
pub open spec fn streak_after(cell: CellState, player: u32, length: u32) -> (u32, int) {
    match cell {
        CellState::Unset => (player, 0),
        CellState::Occupied(PlayerId(id)) => if id == player {
            (player, length + 1)
        } else {
            (id, 1)
        },
    }
}

/// What a scan from the start of `line` knows after `scanned` cells: the last `length`
/// cells belong to `player`, the run is no longer than that, and no streak has ended yet.
spec fn tracks(
    line: Seq<CellState>,
    streak_to_win: nat,
    scanned: int,
    player: u32,
    length: u32,
) -> bool {
    &&& 0 <= scanned <= line.len()
    &&& length <= scanned
    &&& length < streak_to_win
    &&& forall|i: int|
        scanned - length <= i < scanned ==> line[i] == CellState::Occupied(PlayerId(player))
    &&& length < scanned ==> line[scanned - length - 1] != CellState::Occupied(PlayerId(player))
    &&& length == 0 && scanned > 0 ==> line[scanned - 1] is Unset
    &&& forall|end: int| 0 <= end < scanned ==> streak_ending_at(line, streak_to_win, end) is None
}

/// One step of a scan: the cell at `scanned` either completes a streak for the player that
/// the scan then tracks, or completes none and the scan goes on.
proof fn lemma_scan_step(
    line: Seq<CellState>,
    streak_to_win: nat,
    scanned: int,
    player: u32,
    length: u32,
)
    requires
        tracks(line, streak_to_win, scanned, player, length),
        scanned < line.len(),
        streak_to_win <= u32::MAX,
    ensures
        ({
            let (next_player, next_length) = streak_after(line[scanned], player, length);
            if next_length >= streak_to_win {
                streak_ending_at(line, streak_to_win, scanned) == Some(PlayerId(next_player))
            } else {
                tracks(line, streak_to_win, scanned + 1, next_player, next_length as u32)
            }
        }),
{
}

/// A streak that ends where a scan stands, with none before it, decides the line.
proof fn lemma_scan_wins(
    line: Seq<CellState>,
    streak_to_win: nat,
    scanned: int,
    player: u32,
    length: u32,
)
    requires
        tracks(line, streak_to_win, scanned, player, length),
        scanned < line.len(),
        streak_ending_at(line, streak_to_win, scanned) is Some,
    ensures
        line_winner(line, streak_to_win) == streak_ending_at(line, streak_to_win, scanned),
{
    lemma_first_some_at(
        Seq::new(line.len(), |end: int| streak_ending_at(line, streak_to_win, end)),
        scanned,
    );
}

/// A scan that reaches the end of its line has shown that the line has no winner.
proof fn lemma_scan_ends(line: Seq<CellState>, streak_to_win: nat, player: u32, length: u32)
    requires
        tracks(line, streak_to_win, line.len() as int, player, length),
    ensures
        line_winner(line, streak_to_win) is None,
{
    lemma_first_some_none(
        Seq::new(line.len(), |end: int| streak_ending_at(line, streak_to_win, end)),
    );
}

/// Takes one more cell into the running streak: an unset cell breaks it, a cell of the same
/// player lengthens it, a cell of another player starts a new one.
pub fn check_cell(cell: &CellState, streak_player: &mut u32, streak_length: &mut u32)
    requires
        *cell == CellState::Occupied(PlayerId(*old(streak_player))) ==> *old(streak_length)
            < u32::MAX,
    ensures
        *final(streak_player) == streak_after(*cell, *old(streak_player), *old(streak_length)).0,
        *final(streak_length) == streak_after(*cell, *old(streak_player), *old(streak_length)).1,
{
    match cell {
        CellState::Unset => {
            *streak_length = 0;
        },
        CellState::Occupied(PlayerId(id)) => {
            if *id == *streak_player {
                *streak_length += 1;
            } else {
                *streak_length = 1;
                *streak_player = *id;
            }
        },
    }
}

/// Looks for a streak along the rows, from the top row down and in each row from the left.
pub fn check_horizontal(grid: &Grid) -> (winner: Option<PlayerId>)
    requires
        grid.wf(),
    ensures
        winner == horizontal_winner(grid@),
{
    let row_count = grid.row_count();
    let column_count = grid.column_count();
    let to_win = grid.streak_to_win();
    for row_nr in 0..row_count
        invariant
            grid.wf(),
            row_count == grid@.row_count,
            column_count == grid@.column_count,
            to_win == grid@.streak_to_win,
            forall|r: int| 0 <= r < row_nr ==> row_winners(grid@)[r] is None,
    {
        let ghost line = row_cells(grid@, row_nr as int);
        let mut streak_player: u32 = 0;
        let mut streak_length: u32 = 0;
        for cell_nr in 0..column_count
            invariant
                grid.wf(),
                row_nr < grid@.row_count,
                column_count == grid@.column_count,
                to_win == grid@.streak_to_win,
                forall|r: int| 0 <= r < row_nr ==> row_winners(grid@)[r] is None,
                line == row_cells(grid@, row_nr as int),
                tracks(line, grid@.streak_to_win, cell_nr as int, streak_player, streak_length),
        {
            let cell = grid.get_cell(row_nr, cell_nr);
            let ghost before = (streak_player, streak_length);
            proof {
                lemma_scan_step(line, to_win as nat, cell_nr as int, before.0, before.1);
            }
            check_cell(cell, &mut streak_player, &mut streak_length);
            if streak_length >= to_win {
                proof {
                    lemma_scan_wins(line, to_win as nat, cell_nr as int, before.0, before.1);
                    lemma_first_some_at(row_winners(grid@), row_nr as int);
                }
                return Some(PlayerId(streak_player));
            }
        }
        proof {
            lemma_scan_ends(line, to_win as nat, streak_player, streak_length);
        }
    }
    proof {
        lemma_first_some_none(row_winners(grid@));
    }
    None
}

/// Looks for a streak along the columns, from the left column on and in each column from
/// the top.
pub fn check_vertical(grid: &Grid) -> (winner: Option<PlayerId>)
    requires
        grid.wf(),
    ensures
        winner == vertical_winner(grid@),
{
    let row_count = grid.row_count();
    let column_count = grid.column_count();
    let to_win = grid.streak_to_win();
    for col_nr in 0..column_count
        invariant
            grid.wf(),
            row_count == grid@.row_count,
            column_count == grid@.column_count,
            to_win == grid@.streak_to_win,
            forall|c: int| 0 <= c < col_nr ==> column_winners(grid@)[c] is None,
    {
        let ghost line = column_cells(grid@, col_nr as int);
        let mut streak_player: u32 = 0;
        let mut streak_length: u32 = 0;
        for row_nr in 0..row_count
            invariant
                grid.wf(),
                col_nr < grid@.column_count,
                row_count == grid@.row_count,
                to_win == grid@.streak_to_win,
                forall|c: int| 0 <= c < col_nr ==> column_winners(grid@)[c] is None,
                line == column_cells(grid@, col_nr as int),
                tracks(line, grid@.streak_to_win, row_nr as int, streak_player, streak_length),
        {
            let cell = grid.get_cell(row_nr, col_nr);
            let ghost before = (streak_player, streak_length);
            proof {
                lemma_scan_step(line, to_win as nat, row_nr as int, before.0, before.1);
            }
            check_cell(cell, &mut streak_player, &mut streak_length);
            if streak_length >= to_win {
                proof {
                    lemma_scan_wins(line, to_win as nat, row_nr as int, before.0, before.1);
                    lemma_first_some_at(column_winners(grid@), col_nr as int);
                }
                return Some(PlayerId(streak_player));
            }
        }
        proof {
            lemma_scan_ends(line, to_win as nat, streak_player, streak_length);
        }
    }
    proof {
        lemma_first_some_none(column_winners(grid@));
    }
    None
}

/// Looks for a streak along the diagonal that descends to the right from
/// `(startrow, startcolumn)`, as far as it stays on the grid.
pub fn check_diagonal_starting_at(
    grid: &Grid,
    startrow: usize,
    startcolumn: usize,
) -> (winner: Option<PlayerId>)
    requires
        grid.wf(),
    ensures
        winner == line_winner(
            diagonal_cells(grid@, startrow as int, startcolumn as int),
            grid@.streak_to_win,
        ),
{
    let row_count = grid.row_count();
    let column_count = grid.column_count();
    let to_win = grid.streak_to_win();
    let ghost line = diagonal_cells(grid@, startrow as int, startcolumn as int);
    let mut streak_player: u32 = 0;
    let mut streak_length: u32 = 0;

    let mut rownr = startrow;
    let mut colnr = startcolumn;
    while rownr < row_count && colnr < column_count
        invariant
            grid.wf(),
            row_count == grid@.row_count,
            column_count == grid@.column_count,
            to_win == grid@.streak_to_win,
            line == diagonal_cells(grid@, startrow as int, startcolumn as int),
            startrow <= rownr,
            rownr - startrow == colnr - startcolumn,
            tracks(line, grid@.streak_to_win, rownr - startrow, streak_player, streak_length),
        decreases row_count - rownr,
    {
        let cell = grid.get_cell(rownr, colnr);
        let ghost before = (streak_player, streak_length);
        proof {
            lemma_scan_step(line, to_win as nat, rownr - startrow, before.0, before.1);
        }
        check_cell(cell, &mut streak_player, &mut streak_length);
        if streak_length >= to_win {
            proof {
                lemma_scan_wins(line, to_win as nat, rownr - startrow, before.0, before.1);
            }
            return Some(PlayerId(streak_player));
        }
        colnr += 1;
        rownr += 1;
    }
    proof {
        lemma_scan_ends(line, to_win as nat, streak_player, streak_length);
    }
    None
}

/// Looks for a streak along the descending diagonals: first those that start on the left
/// edge, from the top, then those that start on the top edge, from the left. The diagonal
/// from the top left corner is looked at both times.
pub fn check_diagonal(grid: &Grid) -> (winner: Option<PlayerId>)
    requires
        grid.wf(),
    ensures
        winner == diagonal_winner(grid@),
{
    let row_count = grid.row_count();
    let column_count = grid.column_count();
    for rownr in 0..row_count
        invariant
            grid.wf(),
            row_count == grid@.row_count,
            forall|r: int| 0 <= r < rownr ==> diagonal_winners_from_left(grid@)[r] is None,
    {
        match check_diagonal_starting_at(grid, rownr, 0) {
            None => {},
            Some(player) => {
                proof {
                    lemma_first_some_at(diagonal_winners_from_left(grid@), rownr as int);
                }
                return Some(player);
            },
        }
    }
    proof {
        lemma_first_some_none(diagonal_winners_from_left(grid@));
    }
    for colnr in 0..column_count
        invariant
            grid.wf(),
            column_count == grid@.column_count,
            first_some(diagonal_winners_from_left(grid@)) is None,
            forall|c: int| 0 <= c < colnr ==> diagonal_winners_from_top(grid@)[c] is None,
    {
        match check_diagonal_starting_at(grid, 0, colnr) {
            None => {},
            Some(player) => {
                proof {
                    lemma_first_some_at(diagonal_winners_from_top(grid@), colnr as int);
                }
                return Some(player);
            },
        }
    }
    proof {
        lemma_first_some_none(diagonal_winners_from_top(grid@));
    }
    None
}

/// Looks for a streak along the diagonal that ascends to the right from
/// `(startrow, startcolumn)`, as far as it stays on the grid.
pub fn check_ascending_diagonal_starting_at(
    grid: &Grid,
    startrow: usize,
    startcolumn: usize,
) -> (winner: Option<PlayerId>)
    requires
        grid.wf(),
    ensures
        winner == line_winner(
            ascending_diagonal_cells(grid@, startrow as int, startcolumn as int),
            grid@.streak_to_win,
        ),
{
    let column_count = grid.column_count();
    let to_win = grid.streak_to_win();
    let ghost line = ascending_diagonal_cells(grid@, startrow as int, startcolumn as int);
    let mut streak_player: u32 = 0;
    let mut streak_length: u32 = 0;

    let length = if !grid.in_bounds(startrow, startcolumn) {
        0
    } else if startrow < column_count - startcolumn {
        startrow + 1
    } else {
        column_count - startcolumn
    };
    for step in 0..length
        invariant
            grid.wf(),
            column_count == grid@.column_count,
            to_win == grid@.streak_to_win,
            line == ascending_diagonal_cells(grid@, startrow as int, startcolumn as int),
            length == line.len(),
            tracks(line, grid@.streak_to_win, step as int, streak_player, streak_length),
    {
        let cell = grid.get_cell(startrow - step, startcolumn + step);
        let ghost before = (streak_player, streak_length);
        proof {
            lemma_scan_step(line, to_win as nat, step as int, before.0, before.1);
        }
        check_cell(cell, &mut streak_player, &mut streak_length);
        if streak_length >= to_win {
            proof {
                lemma_scan_wins(line, to_win as nat, step as int, before.0, before.1);
            }
            return Some(PlayerId(streak_player));
        }
    }
    proof {
        lemma_scan_ends(line, to_win as nat, streak_player, streak_length);
    }
    None
}

/// Looks for a streak along the ascending diagonals: first those that start on the left
/// edge, from the top, then those that start on the bottom edge, from the left. The
/// diagonal from the bottom left corner is looked at both times.
pub fn check_ascending_diagonal(grid: &Grid) -> (winner: Option<PlayerId>)
    requires
        grid.wf(),
    ensures
        winner == ascending_diagonal_winner(grid@),
{
    let row_count = grid.row_count();
    let column_count = grid.column_count();
    for rownr in 0..row_count
        invariant
            grid.wf(),
            row_count == grid@.row_count,
            forall|r: int| 0 <= r < rownr ==> ascending_winners_from_left(grid@)[r] is None,
    {
        match check_ascending_diagonal_starting_at(grid, rownr, 0) {
            None => {},
            Some(player) => {
                proof {
                    lemma_first_some_at(ascending_winners_from_left(grid@), rownr as int);
                }
                return Some(player);
            },
        }
    }
    proof {
        lemma_first_some_none(ascending_winners_from_left(grid@));
    }
    for colnr in 0..column_count
        invariant
            grid.wf(),
            row_count == grid@.row_count,
            column_count == grid@.column_count,
            first_some(ascending_winners_from_left(grid@)) is None,
            forall|c: int| 0 <= c < colnr ==> ascending_winners_from_bottom(grid@)[c] is None,
    {
        match check_ascending_diagonal_starting_at(grid, row_count - 1, colnr) {
            None => {},
            Some(player) => {
                proof {
                    lemma_first_some_at(ascending_winners_from_bottom(grid@), colnr as int);
                }
                return Some(player);
            },
        }
    }
    proof {
        lemma_first_some_none(ascending_winners_from_bottom(grid@));
    }
    None
}

/// The player who holds a streak of the grid's winning length along a row, a column or a
/// diagonal that counts, if there is one. Rows are looked at first, then columns, then
/// descending diagonals, and last, where the grid's rules count them, ascending diagonals.
pub fn check_winner(grid: &Grid) -> (winner: Option<PlayerId>)
    requires
        grid.wf(),
    ensures
        winner == self::winner(grid@),
{
    match check_horizontal(grid) {
        Some(player) => Some(player),
        None => match check_vertical(grid) {
            Some(player) => Some(player),
            None => match check_diagonal(grid) {
                Some(player) => Some(player),
                None => if grid.count_both_diagonals() {
                    check_ascending_diagonal(grid)
                } else {
                    None
                },
            },
        },
    }
}

} // verus!
