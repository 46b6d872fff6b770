//! What win detection means: a player wins exactly when they hold an unbroken streak of the
//! winning length along a row, a column or a diagonal that counts.

use vstd::prelude::*;
use crate::game::{CellState, GameRules, PlayerId};
use crate::game::grid::Board;
use crate::game::grid_observer::{
    ascending_diagonal_cells, ascending_diagonal_winner, ascending_winners_from_bottom,
    ascending_winners_from_left, column_cells, column_winners, diagonal_cells, diagonal_winner,
    diagonal_winners_from_left, diagonal_winners_from_top, horizontal_winner, row_cells,
    row_winners, vertical_winner, winner,
};
use crate::game::line::{
    first_some, is_streak, lemma_first_some_witness, lemma_line_winner_holds_streak,
    lemma_some_gives_first_some, lemma_streak_gives_line_winner,
};

verus! {

/// Whether `player` holds the cells of row `row` from column `column` on, as many as win.
pub open spec fn is_row_streak(board: Board, row: int, column: int, player: PlayerId) -> bool {
    &&& board.in_bounds(row, column)
    &&& column + board.streak_to_win <= board.column_count
    &&& forall|i: int|
        0 <= i < board.streak_to_win ==> #[trigger] board.cells[row][column + i]
            == CellState::Occupied(player)
}

/// Whether `player` holds the cells of column `column` from row `row` down, as many as win.
pub open spec fn is_column_streak(board: Board, row: int, column: int, player: PlayerId) -> bool {
    &&& board.in_bounds(row, column)
    &&& row + board.streak_to_win <= board.row_count
    &&& forall|i: int|
        0 <= i < board.streak_to_win ==> #[trigger] board.cells[row + i][column]
            == CellState::Occupied(player)
}

/// Whether `player` holds the cells from `(row, column)` down and to the right, as many as win.
pub open spec fn is_diagonal_streak(board: Board, row: int, column: int, player: PlayerId) -> bool {
    &&& board.in_bounds(row, column)
    &&& row + board.streak_to_win <= board.row_count
    &&& column + board.streak_to_win <= board.column_count
    &&& forall|i: int|
        0 <= i < board.streak_to_win ==> #[trigger] board.cells[row + i][column + i]
            == CellState::Occupied(player)
}

/// Whether `player` holds the cells from `(row, column)` up and to the right, as many as win.
pub open spec fn is_ascending_streak(
    board: Board,
    row: int,
    column: int,
    player: PlayerId,
) -> bool {
    &&& board.in_bounds(row, column)
    &&& row + 1 >= board.streak_to_win
    &&& column + board.streak_to_win <= board.column_count
    &&& forall|i: int|
        0 <= i < board.streak_to_win ==> #[trigger] board.cells[row - i][column + i]
            == CellState::Occupied(player)
}

/// Whether `player` holds a winning streak that starts at `(row, column)`: along the row,
/// down the column, along the descending diagonal or, where the rules count it, along the
/// ascending diagonal.
pub open spec fn is_streak_from(board: Board, row: int, column: int, player: PlayerId) -> bool {
    ||| is_row_streak(board, row, column, player)
    ||| is_column_streak(board, row, column, player)
    ||| is_diagonal_streak(board, row, column, player)
    ||| board.count_both_diagonals && is_ascending_streak(board, row, column, player)
}

/// Whether `player` holds a winning streak somewhere on the board.
pub open spec fn holds_streak(board: Board, player: PlayerId) -> bool {
    exists|row: int, column: int| is_streak_from(board, row, column, player)
}

/// Whether no cell of the board belongs to anyone but `player`.
pub open spec fn only_player(board: Board, player: PlayerId) -> bool {
    forall|row: int, column: int|
        board.in_bounds(row, column) ==> #[trigger] board.cells[row][column] is Unset
            || board.cells[row][column] == CellState::Occupied(player)
}

/// The winner along the rows holds a streak in a row.
proof fn lemma_horizontal_winner_holds_streak(board: Board) -> (place: (int, int))
    requires
        board.wf(),
        horizontal_winner(board) is Some,
    ensures
        is_row_streak(board, place.0, place.1, horizontal_winner(board)->0),
{
    let length = board.streak_to_win;
    let player = horizontal_winner(board)->0;
    let r = lemma_first_some_witness(row_winners(board));
    lemma_line_winner_holds_streak(row_cells(board, r), length);
    let start = choose|start: int| is_streak(row_cells(board, r), start, length, player);
    (r, start)
}

/// The winner along the columns holds a streak in a column.
proof fn lemma_vertical_winner_holds_streak(board: Board) -> (place: (int, int))
    requires
        board.wf(),
        vertical_winner(board) is Some,
    ensures
        is_column_streak(board, place.0, place.1, vertical_winner(board)->0),
{
    let length = board.streak_to_win;
    let player = vertical_winner(board)->0;
    let c = lemma_first_some_witness(column_winners(board));
    let line = column_cells(board, c);
    lemma_line_winner_holds_streak(line, length);
    let start = choose|start: int| is_streak(line, start, length, player);
    assert forall|i: int| 0 <= i < length implies #[trigger] board.cells[start + i][c]
        == CellState::Occupied(player) by {
        assert(line[start + i] == CellState::Occupied(player));
    }
    (start, c)
}

/// A streak on the diagonal from `(start_row, start_column)` is a diagonal streak of the
/// board.
proof fn lemma_diagonal_line_streak(
    board: Board,
    start_row: int,
    start_column: int,
    start: int,
    player: PlayerId,
)
    requires
        board.wf(),
        is_streak(
            diagonal_cells(board, start_row, start_column),
            start,
            board.streak_to_win,
            player,
        ),
    ensures
        is_diagonal_streak(board, start_row + start, start_column + start, player),
{
    let line = diagonal_cells(board, start_row, start_column);
    assert forall|i: int| 0 <= i < board.streak_to_win implies #[trigger] board.cells[start_row
        + start + i][start_column + start + i] == CellState::Occupied(player) by {
        assert(line[start + i] == CellState::Occupied(player));
    }
}

/// The winner along the diagonals holds a streak on a descending diagonal.
proof fn lemma_diagonal_winner_holds_streak(board: Board) -> (place: (int, int))
    requires
        board.wf(),
        diagonal_winner(board) is Some,
    ensures
        is_diagonal_streak(board, place.0, place.1, diagonal_winner(board)->0),
{
    let length = board.streak_to_win;
    let player = diagonal_winner(board)->0;
    let from_left = diagonal_winners_from_left(board);
    let from_top = diagonal_winners_from_top(board);
    if first_some(from_left) is Some {
        let r = lemma_first_some_witness(from_left);
        let line = diagonal_cells(board, r, 0);
        lemma_line_winner_holds_streak(line, length);
        let start = choose|start: int| is_streak(line, start, length, player);
        lemma_diagonal_line_streak(board, r, 0, start, player);
        (r + start, start)
    } else {
        let c = lemma_first_some_witness(from_top);
        let line = diagonal_cells(board, 0, c);
        lemma_line_winner_holds_streak(line, length);
        let start = choose|start: int| is_streak(line, start, length, player);
        lemma_diagonal_line_streak(board, 0, c, start, player);
        (start, c + start)
    }
}

/// A streak in a row gives the rows a winner.
proof fn lemma_row_streak_gives_winner(board: Board, row: int, column: int, player: PlayerId)
    requires
        board.wf(),
        is_row_streak(board, row, column, player),
    ensures
        horizontal_winner(board) is Some,
{
    let length = board.streak_to_win;
    let line = row_cells(board, row);
    assert forall|i: int| column <= i < column + length implies line[i] == CellState::Occupied(
        player,
    ) by {
        assert(board.cells[row][column + (i - column)] == CellState::Occupied(player));
    }
    lemma_streak_gives_line_winner(line, column, length, player);
    lemma_some_gives_first_some(row_winners(board), row);
}

/// A streak in a column gives the columns a winner.
proof fn lemma_column_streak_gives_winner(board: Board, row: int, column: int, player: PlayerId)
    requires
        board.wf(),
        is_column_streak(board, row, column, player),
    ensures
        vertical_winner(board) is Some,
{
    let length = board.streak_to_win;
    let line = column_cells(board, column);
    assert forall|i: int| row <= i < row + length implies line[i] == CellState::Occupied(
        player,
    ) by {
        assert(board.cells[row + (i - row)][column] == CellState::Occupied(player));
    }
    lemma_streak_gives_line_winner(line, row, length, player);
    lemma_some_gives_first_some(column_winners(board), column);
}

/// A streak on a descending diagonal gives the diagonals a winner.
proof fn lemma_diagonal_streak_gives_winner(board: Board, row: int, column: int, player: PlayerId)
    requires
        board.wf(),
        is_diagonal_streak(board, row, column, player),
    ensures
        diagonal_winner(board) is Some,
{
    let length = board.streak_to_win;
    let from_left = diagonal_winners_from_left(board);
    let from_top = diagonal_winners_from_top(board);
    if row >= column {
        let line = diagonal_cells(board, row - column, 0);
        assert forall|i: int| column <= i < column + length implies line[i]
            == CellState::Occupied(player) by {
            assert(board.cells[row + (i - column)][column + (i - column)] == CellState::Occupied(
                player,
            ));
        }
        lemma_streak_gives_line_winner(line, column, length, player);
        lemma_some_gives_first_some(from_left, row - column);
    } else {
        let line = diagonal_cells(board, 0, column - row);
        assert forall|i: int| row <= i < row + length implies line[i] == CellState::Occupied(
            player,
        ) by {
            assert(board.cells[row + (i - row)][column + (i - row)] == CellState::Occupied(
                player,
            ));
        }
        lemma_streak_gives_line_winner(line, row, length, player);
        lemma_some_gives_first_some(from_top, column - row);
    }
}

/// A streak on the diagonal that ascends from `(start_row, start_column)` is an ascending
/// streak of the board.
proof fn lemma_ascending_line_streak(
    board: Board,
    start_row: int,
    start_column: int,
    start: int,
    player: PlayerId,
)
    requires
        board.wf(),
        is_streak(
            ascending_diagonal_cells(board, start_row, start_column),
            start,
            board.streak_to_win,
            player,
        ),
    ensures
        is_ascending_streak(board, start_row - start, start_column + start, player),
{
    let line = ascending_diagonal_cells(board, start_row, start_column);
    assert forall|i: int| 0 <= i < board.streak_to_win implies #[trigger] board.cells[start_row
        - start - i][start_column + start + i] == CellState::Occupied(player) by {
        assert(line[start + i] == CellState::Occupied(player));
    }
}

/// The winner along the ascending diagonals holds a streak on an ascending diagonal.
proof fn lemma_ascending_winner_holds_streak(board: Board) -> (place: (int, int))
    requires
        board.wf(),
        ascending_diagonal_winner(board) is Some,
    ensures
        is_ascending_streak(board, place.0, place.1, ascending_diagonal_winner(board)->0),
{
    let length = board.streak_to_win;
    let player = ascending_diagonal_winner(board)->0;
    let from_left = ascending_winners_from_left(board);
    let from_bottom = ascending_winners_from_bottom(board);
    if first_some(from_left) is Some {
        let r = lemma_first_some_witness(from_left);
        let line = ascending_diagonal_cells(board, r, 0);
        lemma_line_winner_holds_streak(line, length);
        let start = choose|start: int| is_streak(line, start, length, player);
        lemma_ascending_line_streak(board, r, 0, start, player);
        (r - start, start)
    } else {
        let c = lemma_first_some_witness(from_bottom);
        let line = ascending_diagonal_cells(board, board.row_count - 1, c);
        lemma_line_winner_holds_streak(line, length);
        let start = choose|start: int| is_streak(line, start, length, player);
        lemma_ascending_line_streak(board, board.row_count - 1, c, start, player);
        (board.row_count - 1 - start, c + start)
    }
}

/// A streak on an ascending diagonal gives the ascending diagonals a winner.
proof fn lemma_ascending_streak_gives_winner(board: Board, row: int, column: int, player: PlayerId)
    requires
        board.wf(),
        is_ascending_streak(board, row, column, player),
    ensures
        ascending_diagonal_winner(board) is Some,
{
    let length = board.streak_to_win;
    let from_left = ascending_winners_from_left(board);
    let from_bottom = ascending_winners_from_bottom(board);
    if row + column < board.row_count {
        let line = ascending_diagonal_cells(board, row + column, 0);
        assert forall|i: int| column <= i < column + length implies line[i]
            == CellState::Occupied(player) by {
            assert(board.cells[row - (i - column)][column + (i - column)] == CellState::Occupied(
                player,
            ));
        }
        lemma_streak_gives_line_winner(line, column, length, player);
        lemma_some_gives_first_some(from_left, row + column);
    } else {
        let bottom = board.row_count - 1;
        let first = bottom - row;
        let line = ascending_diagonal_cells(board, bottom, column - first);
        assert forall|i: int| first <= i < first + length implies line[i] == CellState::Occupied(
            player,
        ) by {
            assert(board.cells[row - (i - first)][column + (i - first)] == CellState::Occupied(
                player,
            ));
        }
        lemma_streak_gives_line_winner(line, first, length, player);
        lemma_some_gives_first_some(from_bottom, column - first);
    }
}

/// Whoever is reported as the winner holds a winning streak.
pub proof fn lemma_winner_holds_streak(board: Board)
    requires
        board.wf(),
    ensures
        winner(board) matches Some(player) ==> holds_streak(board, player),
{
    if horizontal_winner(board) is Some {
        let place = lemma_horizontal_winner_holds_streak(board);
        assert(is_streak_from(board, place.0, place.1, winner(board)->0));
    } else if vertical_winner(board) is Some {
        let place = lemma_vertical_winner_holds_streak(board);
        assert(is_streak_from(board, place.0, place.1, winner(board)->0));
    } else if diagonal_winner(board) is Some {
        let place = lemma_diagonal_winner_holds_streak(board);
        assert(is_streak_from(board, place.0, place.1, winner(board)->0));
    } else if winner(board) is Some {
        let place = lemma_ascending_winner_holds_streak(board);
        assert(is_streak_from(board, place.0, place.1, winner(board)->0));
    }
}

/// Whenever somebody holds a winning streak, a winner is reported.
pub proof fn lemma_streak_has_winner(board: Board, player: PlayerId)
    requires
        board.wf(),
        holds_streak(board, player),
    ensures
        winner(board) is Some,
{
    let (row, column) = choose|row: int, column: int| is_streak_from(board, row, column, player);
    if is_row_streak(board, row, column, player) {
        lemma_row_streak_gives_winner(board, row, column, player);
    } else if is_column_streak(board, row, column, player) {
        lemma_column_streak_gives_winner(board, row, column, player);
    } else if is_diagonal_streak(board, row, column, player) {
        lemma_diagonal_streak_gives_winner(board, row, column, player);
    } else {
        lemma_ascending_streak_gives_winner(board, row, column, player);
    }
}

/// If nobody holds a winning streak, no winner is reported, however many cells are taken.
pub proof fn lemma_no_streak_no_winner(board: Board)
    requires
        board.wf(),
        forall|player: PlayerId| !holds_streak(board, player),
    ensures
        winner(board) is None,
{
    lemma_winner_holds_streak(board);
}

/// If one player alone holds a winning streak, that player is the winner.
pub proof fn lemma_sole_streak_holder_wins(board: Board, player: PlayerId)
    requires
        board.wf(),
        holds_streak(board, player),
        forall|other: PlayerId| holds_streak(board, other) ==> other == player,
    ensures
        winner(board) == Some(player),
{
    lemma_streak_has_winner(board, player);
    lemma_winner_holds_streak(board);
}

/// A player who holds a streak holds a cell.
proof fn lemma_streak_starts_on_own_cell(board: Board, player: PlayerId)
    requires
        board.wf(),
        holds_streak(board, player),
    ensures
        exists|row: int, column: int|
            board.in_bounds(row, column) && #[trigger] board.cells[row][column]
                == CellState::Occupied(player),
{
    let (row, column) = choose|row: int, column: int| is_streak_from(board, row, column, player);
    if is_diagonal_streak(board, row, column, player) {
        assert(board.cells[row + 0][column + 0] == CellState::Occupied(player));
    } else if is_ascending_streak(board, row, column, player) {
        assert(board.cells[row - 0][column + 0] == CellState::Occupied(player));
    }
}

/// On a board where only one player has cells, a streak of that player wins.
proof fn lemma_streak_of_only_player_wins(board: Board, row: int, column: int, player: PlayerId)
    requires
        board.wf(),
        only_player(board, player),
        is_streak_from(board, row, column, player),
    ensures
        winner(board) == Some(player),
{
    assert forall|other: PlayerId| holds_streak(board, other) implies other == player by {
        lemma_streak_starts_on_own_cell(board, other);
    }
    lemma_sole_streak_holder_wins(board, player);
}

/// A board on which no cell is taken has no winner, whatever its shape and rules.
pub proof fn lemma_empty_board_has_no_winner(row_count: nat, column_count: nat, rules: GameRules)
    requires
        row_count > 0,
        column_count > 0,
        rules.streak_to_win > 0,
    ensures
        Board::empty(row_count, column_count, rules).wf(),
        winner(Board::empty(row_count, column_count, rules)) is None,
{
    let board = Board::empty(row_count, column_count, rules);
    lemma_winner_holds_streak(board);
    if winner(board) is Some {
        lemma_streak_starts_on_own_cell(board, winner(board)->0);
    }
}

/// A player who holds as many cells side by side in one row as win, on a board where nobody
/// else has a cell, is the winner: in the first row, in the last, and in any between.
pub proof fn lemma_row_streak_wins(board: Board, row: int, column: int, player: PlayerId)
    requires
        board.wf(),
        is_row_streak(board, row, column, player),
        only_player(board, player),
    ensures
        winner(board) == Some(player),
{
    lemma_streak_of_only_player_wins(board, row, column, player);
}

/// A player who holds as many cells one below the other in one column as win, on a board
/// where nobody else has a cell, is the winner: in the first column, in the last, and in
/// any between.
pub proof fn lemma_column_streak_wins(board: Board, row: int, column: int, player: PlayerId)
    requires
        board.wf(),
        is_column_streak(board, row, column, player),
        only_player(board, player),
    ensures
        winner(board) == Some(player),
{
    lemma_streak_of_only_player_wins(board, row, column, player);
}

/// A player who holds as many cells as win along a descending diagonal, on a board where
/// nobody else has a cell, is the winner, wherever on the board the streak starts: on the
/// top edge, on the left edge, or inside.
pub proof fn lemma_diagonal_streak_wins(board: Board, row: int, column: int, player: PlayerId)
    requires
        board.wf(),
        is_diagonal_streak(board, row, column, player),
        only_player(board, player),
    ensures
        winner(board) == Some(player),
{
    lemma_streak_of_only_player_wins(board, row, column, player);
}

/// On a board whose rules count both diagonals, a player who holds as many cells as win
/// along an ascending diagonal, while nobody else has a cell, is the winner.
pub proof fn lemma_ascending_streak_wins(board: Board, row: int, column: int, player: PlayerId)
    requires
        board.wf(),
        board.count_both_diagonals,
        is_ascending_streak(board, row, column, player),
        only_player(board, player),
    ensures
        winner(board) == Some(player),
{
    lemma_streak_of_only_player_wins(board, row, column, player);
}

/// A streak, once held, stays: on a board that has grown out of another by moves alone,
/// whoever held a winning streak before still holds it, and a winner is still reported.
pub proof fn lemma_streak_survives_moves(before: Board, after: Board, player: PlayerId)
    requires
        before.wf(),
        after.wf(),
        after.extends(before),
        holds_streak(before, player),
    ensures
        holds_streak(after, player),
        winner(after) is Some,
{
    let (row, column) = choose|row: int, column: int| is_streak_from(before, row, column, player);
    if is_row_streak(before, row, column, player) {
        assert forall|i: int| 0 <= i < after.streak_to_win implies #[trigger] after.cells[row][column
            + i] == CellState::Occupied(player) by {
            assert(before.cells[row][column + i] is Occupied);
        }
    } else if is_column_streak(before, row, column, player) {
        assert forall|i: int| 0 <= i < after.streak_to_win implies #[trigger] after.cells[row
            + i][column] == CellState::Occupied(player) by {
            assert(before.cells[row + i][column] is Occupied);
        }
    } else if is_diagonal_streak(before, row, column, player) {
        assert forall|i: int| 0 <= i < after.streak_to_win implies #[trigger] after.cells[row
            + i][column + i] == CellState::Occupied(player) by {
            assert(before.cells[row + i][column + i] is Occupied);
        }
    } else {
        assert forall|i: int| 0 <= i < after.streak_to_win implies #[trigger] after.cells[row
            - i][column + i] == CellState::Occupied(player) by {
            assert(before.cells[row - i][column + i] is Occupied);
        }
    }
    assert(is_streak_from(after, row, column, player));
    lemma_streak_has_winner(after, player);
}

} // verus!
