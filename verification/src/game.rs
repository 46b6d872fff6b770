//! The values a game is made of: players, cells, and the state of play.

use vstd::prelude::*;

pub mod grid;
pub mod grid_observer;
pub mod line;
pub mod rendering;
pub mod streak_laws;
pub mod turn;

verus! {

/// Identifies a participant. Two ids are the same player exactly when their numbers are equal.
#[derive(Debug, Copy, Clone, PartialEq, Eq, Structural)]
pub struct PlayerId(pub u32);

/// The occupancy of one cell.
#[derive(Debug, Copy, Clone)]
pub enum CellState {
    /// The cell belongs to a player.
    Occupied(PlayerId),
    /// Nobody has taken the cell yet.
    Unset,
}

/// The rules by which a win is decided.
#[derive(Debug, Copy, Clone, PartialEq, Eq, Structural)]
pub struct GameRules {
    /// How many cells in a line a player needs to win.
    pub streak_to_win: u32,
    /// Whether a streak along a diagonal that ascends to the right wins as one along a
    /// diagonal that descends to the right does.
    pub count_both_diagonals: bool,
}

/// Where a game stands.
#[derive(Debug, Copy, Clone, PartialEq, Eq, Structural)]
pub enum GameState {
    /// A player holds a winning streak.
    Win(PlayerId),
    /// Every cell is taken and nobody has won.
    Draw,
    /// Nobody has won and at least one cell is free.
    Mid,
}

impl PartialEq for CellState {
    fn eq(&self, other: &CellState) -> (equal: bool) {
        match *self {
            CellState::Unset => match *other {
                CellState::Unset => true,
                CellState::Occupied(_) => false,
            },
            CellState::Occupied(PlayerId(own_id)) => match *other {
                CellState::Unset => false,
                CellState::Occupied(PlayerId(other_id)) => other_id == own_id,
            },
        }
    }
}

impl vstd::std_specs::cmp::PartialEqSpecImpl for CellState {
    open spec fn obeys_eq_spec() -> bool {
        true
    }

    open spec fn eq_spec(&self, other: &CellState) -> bool {
        *self == *other
    }
}

} // verus!
