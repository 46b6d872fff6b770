use connect_n::game::grid::Grid;
use connect_n::game::{CellState, PlayerId};
use connect_n::player::ki::{GameEvaluation, KiPlayer};
use connect_n::player::Player;

#[test]
fn ki_makes_any_turn() {
    const KI_ID: u32 = 1;
    let mut grid = Grid::new(1, 1, 1);
    let ki = KiPlayer::new(KI_ID);
    ki.make_turn(&mut grid);
    match grid.get_cell(0, 0) {
        &CellState::Unset => panic!("The ki didn't do anything."),
        &CellState::Occupied(PlayerId(KI_ID)) => return,
        &CellState::Occupied(PlayerId(id)) => {
            panic!("The ki with the {} made a turn for player {}.", KI_ID, id)
        }
    }
}

#[test]
fn test_game_evaluation_undetermined() {
    const KI_ID: u32 = 1;
    let mut grid = Grid::new(3, 3, 3);
    let ki = KiPlayer::new(KI_ID);
    assert_eq!(GameEvaluation::Undetermined, ki.evaluate_game(&grid));
    grid.set_cell(0, 0, PlayerId(KI_ID));
    assert_eq!(GameEvaluation::Undetermined, ki.evaluate_game(&grid));
}

#[test]
fn test_game_evaluation_win() {
    const KI_ID: u32 = 1;
    let mut grid = Grid::new(3, 3, 3);
    let ki = KiPlayer::new(KI_ID);
    grid.set_cell(0, 0, PlayerId(KI_ID));
    grid.set_cell(0, 1, PlayerId(KI_ID));
    grid.set_cell(0, 2, PlayerId(KI_ID));
    assert_eq!(GameEvaluation::Win, ki.evaluate_game(&grid));
}

#[test]
fn test_game_evaluation_lose() {
    const KI_ID: u32 = 1;
    const OPPONENT_ID: u32 = 2;
    let mut grid = Grid::new(3, 3, 3);
    let ki = KiPlayer::new(KI_ID);
    grid.set_cell(0, 0, PlayerId(OPPONENT_ID));
    grid.set_cell(0, 1, PlayerId(OPPONENT_ID));
    grid.set_cell(0, 2, PlayerId(OPPONENT_ID));
    assert_eq!(GameEvaluation::Lose, ki.evaluate_game(&grid));
}
