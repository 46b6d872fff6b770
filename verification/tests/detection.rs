use connect_n::game::grid::Grid;
use connect_n::game::grid_observer::{
    check_ascending_diagonal, check_ascending_diagonal_starting_at, check_cell, check_diagonal,
    check_diagonal_starting_at, check_horizontal, check_vertical, check_winner,
};
use connect_n::game::{GameRules, PlayerId};

fn grid_with(rows: usize, columns: usize, streak: u32, moves: &[(usize, usize, u32)]) -> Grid {
    let mut grid = Grid::new(rows, columns, streak);
    for &(row, column, player) in moves {
        assert!(grid.set_cell(row, column, PlayerId(player)));
    }
    grid
}

fn grid_counting_both(
    rows: usize,
    columns: usize,
    streak: u32,
    moves: &[(usize, usize, u32)],
) -> Grid {
    let rules = GameRules { streak_to_win: streak, count_both_diagonals: true };
    let mut grid = Grid::with_rules(rows, columns, rules);
    for &(row, column, player) in moves {
        assert!(grid.set_cell(row, column, PlayerId(player)));
    }
    grid
}

#[test]
fn check_cell_breaks_the_streak_on_an_unset_cell() {
    let mut player = 3;
    let mut length = 2;
    check_cell(&connect_n::game::CellState::Unset, &mut player, &mut length);
    assert_eq!((player, length), (3, 0));
}

#[test]
fn check_cell_lengthens_the_streak_of_the_same_player() {
    let mut player = 3;
    let mut length = 2;
    check_cell(&connect_n::game::CellState::Occupied(PlayerId(3)), &mut player, &mut length);
    assert_eq!((player, length), (3, 3));
}

#[test]
fn check_cell_starts_anew_for_another_player() {
    let mut player = 3;
    let mut length = 2;
    check_cell(&connect_n::game::CellState::Occupied(PlayerId(4)), &mut player, &mut length);
    assert_eq!((player, length), (4, 1));
}

#[test]
fn check_cell_counts_the_first_cell_of_player_zero() {
    let mut player = 0;
    let mut length = 0;
    check_cell(&connect_n::game::CellState::Occupied(PlayerId(0)), &mut player, &mut length);
    assert_eq!((player, length), (0, 1));
}

#[test]
fn row_streak_names_its_holder_in_any_row() {
    for row in [0, 4, 8] {
        for start in [0, 3, 5] {
            let moves: Vec<(usize, usize, u32)> = (0..4).map(|i| (row, start + i, 2)).collect();
            let grid = grid_with(9, 9, 4, &moves);
            assert_eq!(check_winner(&grid), Some(PlayerId(2)));
            assert_eq!(check_horizontal(&grid), Some(PlayerId(2)));
            assert_eq!(check_vertical(&grid), None);
            assert_eq!(check_diagonal(&grid), None);
            assert_eq!(grid.check_winner(), Some(PlayerId(2)));
        }
    }
}

#[test]
fn column_streak_names_its_holder_in_any_column() {
    for column in [0, 3, 6] {
        for start in [0, 1, 2] {
            let moves: Vec<(usize, usize, u32)> = (0..4).map(|i| (start + i, column, 5)).collect();
            let grid = grid_with(6, 7, 4, &moves);
            assert_eq!(check_winner(&grid), Some(PlayerId(5)));
            assert_eq!(check_vertical(&grid), Some(PlayerId(5)));
            assert_eq!(check_horizontal(&grid), None);
            assert_eq!(check_diagonal(&grid), None);
        }
    }
}

#[test]
fn descending_streak_names_its_holder_wherever_it_starts() {
    let starts: Vec<(usize, usize)> = vec![(0, 0), (0, 2), (0, 3), (2, 0), (1, 2), (2, 3)];
    for (row, column) in starts {
        let moves: Vec<(usize, usize, u32)> = (0..4).map(|i| (row + i, column + i, 9)).collect();
        let grid = grid_with(6, 7, 4, &moves);
        assert_eq!(check_winner(&grid), Some(PlayerId(9)));
        assert_eq!(check_diagonal(&grid), Some(PlayerId(9)));
        assert_eq!(check_horizontal(&grid), None);
        assert_eq!(check_vertical(&grid), None);
    }
}

#[test]
fn diagonal_scan_follows_one_diagonal_only() {
    let grid = grid_with(5, 5, 3, &[(1, 0, 1), (2, 1, 1), (3, 2, 1)]);
    assert_eq!(check_diagonal_starting_at(&grid, 1, 0), Some(PlayerId(1)));
    assert_eq!(check_diagonal_starting_at(&grid, 2, 1), None);
    assert_eq!(check_diagonal_starting_at(&grid, 0, 0), None);
    assert_eq!(check_diagonal_starting_at(&grid, 2, 0), None);
    assert_eq!(check_diagonal_starting_at(&grid, 5, 0), None);
    assert_eq!(check_diagonal_starting_at(&grid, 0, 5), None);
}

#[test]
fn scattered_cells_of_two_players_give_no_winner() {
    let grid = grid_with(
        6,
        7,
        4,
        &[
            (0, 0, 1), (0, 1, 2), (0, 2, 1), (0, 3, 1), (0, 4, 1), (0, 5, 2), (0, 6, 1),
            (1, 0, 1), (1, 1, 1), (1, 2, 2), (1, 4, 2), (2, 0, 1), (2, 2, 1), (3, 0, 2),
            (3, 3, 2), (4, 0, 1), (4, 4, 1), (5, 5, 1), (5, 6, 2), (5, 0, 1),
        ],
    );
    assert_eq!(check_winner(&grid), None);
    assert_eq!(check_horizontal(&grid), None);
    assert_eq!(check_vertical(&grid), None);
    assert_eq!(check_diagonal(&grid), None);
}

#[test]
fn streak_parted_by_another_player_does_not_count() {
    let grid = grid_with(
        1,
        9,
        4,
        &[(0, 0, 1), (0, 1, 1), (0, 2, 1), (0, 3, 2), (0, 4, 1), (0, 5, 1), (0, 6, 1), (0, 7, 2)],
    );
    assert_eq!(check_winner(&grid), None);
}

#[test]
fn streak_parted_by_a_free_cell_does_not_count() {
    let grid = grid_with(1, 9, 4, &[(0, 0, 1), (0, 1, 1), (0, 3, 1), (0, 4, 1), (0, 5, 1)]);
    assert_eq!(check_winner(&grid), None);
    let down = grid_with(9, 1, 4, &[(0, 0, 1), (1, 0, 1), (2, 0, 1), (4, 0, 1), (5, 0, 1)]);
    assert_eq!(check_winner(&down), None);
    let across =
        grid_with(6, 6, 4, &[(0, 0, 1), (1, 1, 1), (3, 3, 1), (4, 4, 1), (5, 5, 1)]);
    assert_eq!(check_winner(&across), None);
}

#[test]
fn streak_does_not_run_over_the_edge_into_the_next_line() {
    let rows = grid_with(9, 9, 4, &[(0, 7, 1), (0, 8, 1), (1, 0, 1), (1, 1, 1)]);
    assert_eq!(check_winner(&rows), None);
    let columns = grid_with(9, 9, 4, &[(7, 0, 1), (8, 0, 1), (0, 1, 1), (1, 1, 1)]);
    assert_eq!(check_winner(&columns), None);
    let diagonals = grid_with(4, 4, 4, &[(2, 0, 1), (3, 1, 1), (0, 1, 1), (1, 2, 1)]);
    assert_eq!(check_winner(&diagonals), None);
}

#[test]
fn longer_streak_than_needed_wins() {
    let grid = grid_with(3, 7, 4, &[(1, 1, 3), (1, 2, 3), (1, 3, 3), (1, 4, 3), (1, 5, 3)]);
    assert_eq!(check_winner(&grid), Some(PlayerId(3)));
}

#[test]
fn streak_at_the_far_corner_wins() {
    let row = grid_with(6, 7, 4, &[(5, 3, 1), (5, 4, 1), (5, 5, 1), (5, 6, 1)]);
    assert_eq!(check_winner(&row), Some(PlayerId(1)));
    let column = grid_with(6, 7, 4, &[(2, 6, 1), (3, 6, 1), (4, 6, 1), (5, 6, 1)]);
    assert_eq!(check_winner(&column), Some(PlayerId(1)));
    let diagonal = grid_with(6, 7, 4, &[(2, 3, 1), (3, 4, 1), (4, 5, 1), (5, 6, 1)]);
    assert_eq!(check_winner(&diagonal), Some(PlayerId(1)));
}

#[test]
fn streak_of_one_is_won_by_the_first_move() {
    let mut grid = Grid::new(1, 1, 1);
    assert_eq!(check_winner(&grid), None);
    assert!(grid.set_cell(0, 0, PlayerId(0)));
    assert_eq!(check_winner(&grid), Some(PlayerId(0)));
}

#[test]
fn streak_longer_than_the_grid_is_never_won() {
    let mut grid = Grid::new(2, 2, 3);
    for (row, column) in [(0, 0), (0, 1), (1, 0), (1, 1)] {
        assert!(grid.set_cell(row, column, PlayerId(1)));
    }
    assert_eq!(check_winner(&grid), None);
}

#[test]
fn some_winner_is_named_when_two_players_hold_streaks() {
    let grid = grid_with(
        4,
        4,
        3,
        &[(0, 0, 1), (1, 0, 1), (2, 0, 1), (3, 1, 2), (3, 2, 2), (3, 3, 2)],
    );
    let winner = check_winner(&grid);
    assert!(winner == Some(PlayerId(1)) || winner == Some(PlayerId(2)));
}

#[test]
fn earlier_streak_in_a_line_is_the_one_named() {
    let grid = grid_with(
        1,
        8,
        3,
        &[(0, 0, 1), (0, 1, 2), (0, 2, 2), (0, 3, 2), (0, 5, 1), (0, 6, 1), (0, 7, 1)],
    );
    assert_eq!(check_horizontal(&grid), Some(PlayerId(2)));
}

#[test]
fn ascending_streak_does_not_count_unless_the_rules_say_so() {
    let moves = [(3, 0, 1), (2, 1, 1), (1, 2, 1), (0, 3, 1)];
    let plain = grid_with(6, 7, 4, &moves);
    assert_eq!(check_winner(&plain), None);
    assert_eq!(check_ascending_diagonal(&plain), Some(PlayerId(1)));
    let both = grid_counting_both(6, 7, 4, &moves);
    assert_eq!(check_winner(&both), Some(PlayerId(1)));
    assert_eq!(both.check_winner(), Some(PlayerId(1)));
    assert_eq!(check_horizontal(&both), None);
    assert_eq!(check_vertical(&both), None);
    assert_eq!(check_diagonal(&both), None);
}

#[test]
fn ascending_streak_names_its_holder_wherever_it_starts() {
    let starts: Vec<(usize, usize)> = vec![(3, 0), (5, 0), (5, 2), (5, 3), (4, 1), (3, 3)];
    for (row, column) in starts {
        let moves: Vec<(usize, usize, u32)> = (0..4).map(|i| (row - i, column + i, 8)).collect();
        let grid = grid_counting_both(6, 7, 4, &moves);
        assert_eq!(check_winner(&grid), Some(PlayerId(8)));
        assert_eq!(check_ascending_diagonal(&grid), Some(PlayerId(8)));
    }
}

#[test]
fn ascending_scan_follows_one_diagonal_only() {
    let grid = grid_counting_both(5, 5, 3, &[(3, 1, 1), (2, 2, 1), (1, 3, 1)]);
    assert_eq!(check_ascending_diagonal_starting_at(&grid, 4, 0), Some(PlayerId(1)));
    assert_eq!(check_ascending_diagonal_starting_at(&grid, 3, 1), Some(PlayerId(1)));
    assert_eq!(check_ascending_diagonal_starting_at(&grid, 2, 2), None);
    assert_eq!(check_ascending_diagonal_starting_at(&grid, 3, 0), None);
    assert_eq!(check_ascending_diagonal_starting_at(&grid, 4, 1), None);
    assert_eq!(check_ascending_diagonal_starting_at(&grid, 5, 0), None);
    assert_eq!(check_ascending_diagonal_starting_at(&grid, 0, 5), None);
}

#[test]
fn descending_streak_still_counts_when_both_diagonals_do() {
    let grid = grid_counting_both(5, 5, 3, &[(2, 2, 4), (3, 3, 4), (4, 4, 4)]);
    assert_eq!(check_winner(&grid), Some(PlayerId(4)));
    assert_eq!(check_ascending_diagonal(&grid), None);
}

#[test]
fn broken_ascending_streak_does_not_count() {
    let grid =
        grid_counting_both(5, 5, 4, &[(4, 0, 1), (3, 1, 1), (2, 2, 2), (1, 3, 1), (0, 4, 1)]);
    assert_eq!(check_winner(&grid), None);
}

#[test]
fn detection_can_be_asked_after_every_move() {
    let mut grid = Grid::new(3, 3, 3);
    let moves = [(0, 0, 1), (1, 1, 2), (0, 1, 1), (2, 2, 2)];
    for (row, column, player) in moves {
        assert!(grid.set_cell(row, column, PlayerId(player)));
        assert_eq!(check_winner(&grid), None);
        assert_eq!(check_winner(&grid), None);
    }
    assert!(grid.set_cell(0, 2, PlayerId(1)));
    assert_eq!(check_winner(&grid), Some(PlayerId(1)));
    assert_eq!(check_winner(&grid), Some(PlayerId(1)));
}

#[test]
fn winner_stays_reported_while_the_grid_fills_up() {
    let mut grid = Grid::new(3, 4, 3);
    for (row, column) in [(1, 0), (1, 1), (1, 2)] {
        assert!(grid.set_cell(row, column, PlayerId(1)));
    }
    assert_eq!(check_winner(&grid), Some(PlayerId(1)));
    for row in 0..3 {
        for column in 0..4 {
            grid.set_cell(row, column, PlayerId(2));
            assert!(check_winner(&grid).is_some());
        }
    }
    assert_eq!(*grid.get_cell(1, 1), connect_n::game::CellState::Occupied(PlayerId(1)));
}
