//! The grid as text, for display: one line per row, a bar before each cell and at the end
//! of the row, `_` for a cell that nobody holds and the player's number for one that is taken.

use vstd::prelude::*;
use crate::game::{CellState, PlayerId};
use crate::game::grid::{Board, Grid};

verus! {

/// The character for a decimal digit.
pub open spec fn digit(value: nat) -> char {
    if value == 0 {
        '0'
    } else if value == 1 {
        '1'
    } else if value == 2 {
        '2'
    } else if value == 3 {
        '3'
    } else if value == 4 {
        '4'
    } else if value == 5 {
        '5'
    } else if value == 6 {
        '6'
    } else if value == 7 {
        '7'
    } else if value == 8 {
        '8'
    } else {
        '9'
    }
}

/// A number in decimal, without leading zeros.
pub open spec fn decimal(value: nat) -> Seq<char>
    decreases value,
{
    if value < 10 {
        seq![digit(value)]
    } else {
        decimal(value / 10).push(digit(value % 10))
    }
}

/// The text of one cell.
pub open spec fn cell_text(cell: CellState) -> Seq<char> {
    match cell {
        CellState::Unset => seq!['_'],
        CellState::Occupied(PlayerId(id)) => decimal(id as nat),
    }
}

/// The text of some cells side by side, each with a bar before it.
pub open spec fn cells_text(cells: Seq<CellState>) -> Seq<char>
    decreases cells.len(),
{
    if cells.len() == 0 {
        Seq::empty()
    } else {
        cells_text(cells.drop_last()) + seq!['|'] + cell_text(cells.last())
    }
}

/// The text of some rows, each closed by a bar and a line break.
pub open spec fn rows_text(rows: Seq<Seq<CellState>>) -> Seq<char>
    decreases rows.len(),
{
    if rows.len() == 0 {
        Seq::empty()
    } else {
        rows_text(rows.drop_last()) + cells_text(rows.last()) + seq!['|', '\n']
    }
}

/// The text of a board.
pub open spec fn board_text(board: Board) -> Seq<char> {
    rows_text(board.cells)
}

/// The text of one decimal digit.
fn digit_str(value: u32) -> (text: &'static str)
    requires
        value < 10,
    ensures
        text@ == seq![digit(value as nat)],
{
    proof {
        reveal_strlit("0");
        reveal_strlit("1");
        reveal_strlit("2");
        reveal_strlit("3");
        reveal_strlit("4");
        reveal_strlit("5");
        reveal_strlit("6");
        reveal_strlit("7");
        reveal_strlit("8");
        reveal_strlit("9");
    }
    let text = match value {
        0 => "0",
        1 => "1",
        2 => "2",
        3 => "3",
        4 => "4",
        5 => "5",
        6 => "6",
        7 => "7",
        8 => "8",
        _ => "9",
    };
    text
}

/// Appends a number in decimal to `out`.
fn push_decimal(out: &mut String, value: u32)
    ensures
        final(out)@ == old(out)@ + decimal(value as nat),
    decreases value,
{
    if value >= 10 {
        push_decimal(out, value / 10);
    }
    out.append(digit_str(value % 10));
}

/// Appends the text of one cell to `out`.
fn push_cell(out: &mut String, cell: &CellState)
    ensures
        final(out)@ == old(out)@ + cell_text(*cell),
{
    match cell {
        CellState::Unset => {
            proof {
                reveal_strlit("_");
            }
            out.append("_");
        },
        CellState::Occupied(PlayerId(id)) => {
            push_decimal(out, *id);
        },
    }
}

impl Grid {
    /// The grid as text.
    pub fn render(&self) -> (text: String)
        requires
            self.wf(),
        ensures
            text@ == board_text(self@),
    {
        let row_count = self.row_count();
        let column_count = self.column_count();
        let mut text = String::new();
        proof {
            reveal_strlit("|");
            reveal_strlit("|\n");
        }
        for row_nr in 0..row_count
            invariant
                self.wf(),
                row_count == self@.row_count,
                column_count == self@.column_count,
                "|"@ == seq!['|'],
                "|\n"@ == seq!['|', '\n'],
                text@ == rows_text(self@.cells.take(row_nr as int)),
        {
            let ghost above = text@;
            let ghost row = self@.cells[row_nr as int];
            for cell_nr in 0..column_count
                invariant
                    self.wf(),
                    row_nr < row_count,
                    row_count == self@.row_count,
                    column_count == self@.column_count,
                    row == self@.cells[row_nr as int],
                    "|"@ == seq!['|'],
                    text@ == above + cells_text(row.take(cell_nr as int)),
            {
                text.append("|");
                push_cell(&mut text, self.get_cell(row_nr, cell_nr));
                proof {
                    let before = row.take(cell_nr as int);
                    let now = row.take(cell_nr + 1);
                    assert(now.drop_last() =~= before);
                }
            }
            text.append("|\n");
            proof {
                let before = self@.cells.take(row_nr as int);
                let now = self@.cells.take(row_nr + 1);
                assert(now.drop_last() =~= before);
                assert(row.take(column_count as int) =~= row);
            }
        }
        proof {
            assert(self@.cells.take(row_count as int) =~= self@.cells);
        }
        text
    }
}

} // verus!
