use connect_n::game::grid::Grid;
use connect_n::game::turn::{game_state, next_player};
use connect_n::game::{CellState, GameRules, GameState, PlayerId};
use connect_n::player::ki::{GameEvaluation, KiPlayer};
use connect_n::player::Player;

#[test]
fn ki_takes_the_first_free_cell_row_by_row() {
    let mut grid = Grid::new(2, 3, 3);
    let ki = KiPlayer::new(4);
    assert!(grid.set_cell(0, 0, PlayerId(1)));
    assert!(grid.set_cell(0, 2, PlayerId(1)));
    ki.make_turn(&mut grid);
    assert_eq!(*grid.get_cell(0, 1), CellState::Occupied(PlayerId(4)));
    assert_eq!(*grid.get_cell(1, 0), CellState::Unset);
    ki.make_turn(&mut grid);
    assert_eq!(*grid.get_cell(1, 0), CellState::Occupied(PlayerId(4)));
    assert_eq!(*grid.get_cell(1, 1), CellState::Unset);
    assert_eq!(*grid.get_cell(0, 0), CellState::Occupied(PlayerId(1)));
    assert_eq!(*grid.get_cell(0, 2), CellState::Occupied(PlayerId(1)));
}

#[test]
fn ki_leaves_a_full_grid_as_it_is() {
    let mut grid = Grid::new(1, 2, 2);
    assert!(grid.set_cell(0, 0, PlayerId(1)));
    assert!(grid.set_cell(0, 1, PlayerId(2)));
    let ki = KiPlayer::new(3);
    ki.make_turn(&mut grid);
    assert_eq!(*grid.get_cell(0, 0), CellState::Occupied(PlayerId(1)));
    assert_eq!(*grid.get_cell(0, 1), CellState::Occupied(PlayerId(2)));
}

#[test]
fn ki_sees_a_draw_on_a_full_grid_without_a_winner() {
    let mut grid = Grid::new(2, 2, 2);
    assert!(grid.set_cell(0, 0, PlayerId(1)));
    assert!(grid.set_cell(1, 1, PlayerId(2)));
    let ki = KiPlayer::new(1);
    assert_eq!(ki.evaluate_game(&grid), GameEvaluation::Undetermined);
    let mut full = Grid::new(1, 3, 2);
    assert!(full.set_cell(0, 0, PlayerId(1)));
    assert!(full.set_cell(0, 1, PlayerId(2)));
    assert!(full.set_cell(0, 2, PlayerId(1)));
    assert_eq!(ki.evaluate_game(&full), GameEvaluation::Draw);
}

#[test]
fn ki_sees_a_win_even_when_the_grid_is_full() {
    let mut grid = Grid::new(1, 2, 2);
    assert!(grid.set_cell(0, 0, PlayerId(6)));
    assert!(grid.set_cell(0, 1, PlayerId(6)));
    assert_eq!(KiPlayer::new(6).evaluate_game(&grid), GameEvaluation::Win);
    assert_eq!(KiPlayer::new(7).evaluate_game(&grid), GameEvaluation::Lose);
}

#[test]
fn game_state_tells_win_draw_and_play_apart() {
    let mut grid = Grid::new(1, 3, 2);
    assert_eq!(game_state(&grid), GameState::Mid);
    assert!(grid.set_cell(0, 0, PlayerId(1)));
    assert!(grid.set_cell(0, 1, PlayerId(2)));
    assert_eq!(game_state(&grid), GameState::Mid);
    assert!(grid.set_cell(0, 2, PlayerId(1)));
    assert_eq!(game_state(&grid), GameState::Draw);
    let mut won = Grid::new(1, 3, 2);
    assert!(won.set_cell(0, 1, PlayerId(2)));
    assert!(won.set_cell(0, 2, PlayerId(2)));
    assert_eq!(game_state(&won), GameState::Win(PlayerId(2)));
}

#[test]
fn next_player_goes_round_in_a_circle() {
    assert_eq!(next_player(0, 2), 1);
    assert_eq!(next_player(1, 2), 0);
    assert_eq!(next_player(0, 1), 0);
    assert_eq!(next_player(3, 5), 4);
    assert_eq!(next_player(4, 5), 0);
    assert_eq!(next_player(9, 5), 0);
    assert_eq!(next_player(usize::MAX, 5), 0);
}

#[test]
fn two_kis_end_sooner_when_both_diagonals_count() {
    let rules = GameRules { streak_to_win: 3, count_both_diagonals: true };
    let mut grid = Grid::with_rules(3, 3, rules);
    let players = [KiPlayer::new(1), KiPlayer::new(2)];
    let mut current = 0;
    let mut moves = 0;
    while game_state(&grid) == GameState::Mid {
        players[current].make_turn(&mut grid);
        current = next_player(current, 2);
        moves += 1;
        assert!(moves <= 9);
    }
    assert_eq!(moves, 7);
    assert_eq!(game_state(&grid), GameState::Win(PlayerId(1)));
    assert_eq!(grid.render(), "|1|2|1|\n|2|1|2|\n|1|_|_|\n");
}

#[test]
fn two_kis_play_a_game_to_its_end() {
    let mut grid = Grid::new(3, 3, 3);
    let players = [KiPlayer::new(1), KiPlayer::new(2)];
    let mut current = 0;
    let mut moves = 0;
    while game_state(&grid) == GameState::Mid {
        players[current].make_turn(&mut grid);
        current = next_player(current, 2);
        moves += 1;
        assert!(moves <= 9);
    }
    assert_eq!(moves, 9);
    assert_eq!(game_state(&grid), GameState::Win(PlayerId(1)));
    assert_eq!(grid.render(), "|1|2|1|\n|2|1|2|\n|1|2|1|\n");
}
