use life_game::brain::{brain_color, BrainBoard, BrainCellState};
use life_game::chance::Probability;
use life_game::error::InvalidParameter;
use life_game::grid::Cell;
use life_game::CellularAutomata;

const F: BrainCellState = BrainCellState::Firing;
const R: BrainCellState = BrainCellState::Refactory;
const D: BrainCellState = BrainCellState::Dead;

fn brain_cells_of(board: &BrainBoard) -> Vec<BrainCellState> {
    let mut cells = Vec::new();
    for j in 0..board.get_height() as i32 {
        for i in 0..board.get_width() as i32 {
            cells.push(board.get_cell(i, j));
        }
    }
    cells
}

#[test]
fn brain_rule_table() {
    let mut count: u8 = 0;
    while count <= 8 {
        if count == 2 {
            assert_eq!(F, F.next_state(count));
            assert_eq!(F, R.next_state(count));
            assert_eq!(F, D.next_state(count));
        } else {
            assert_eq!(R, F.next_state(count), "firing, {} neighbours", count);
            assert_eq!(D, R.next_state(count), "resting, {} neighbours", count);
            assert_eq!(D, D.next_state(count), "dead, {} neighbours", count);
        }
        count += 1;
    }
}

#[test]
fn brain_states_of_the_rule_set() {
    assert_eq!(F, <BrainCellState as Cell>::active());
    assert_eq!(D, <BrainCellState as Cell>::dead());
    assert!(F.is_active());
    assert!(!R.is_active());
    assert!(!D.is_active());
}

#[test]
fn brain_counts_firing_neighbours_only() {
    let board = BrainBoard::from_array(&[F, R, F, R, D, R, F, R, D], 3).unwrap();
    assert_eq!(3, board.count_neighbours(1, 1));
    assert_eq!(0, board.count_neighbours(0, 0));
    assert_eq!(2, board.count_neighbours(1, 0));
    assert_eq!(0, board.count_neighbours(2, 2));
    assert_eq!(1, board.count_neighbours(1, 2));
    assert_eq!(1, board.count_neighbours(-1, -1));
    assert_eq!(0, board.count_neighbours(3, 3));
}

#[test]
fn brain_full_board_counts() {
    let board = BrainBoard::from_array(&[F; 9], 3).unwrap();
    assert_eq!(3, board.count_neighbours(0, 0));
    assert_eq!(5, board.count_neighbours(1, 0));
    assert_eq!(5, board.count_neighbours(0, 1));
    assert_eq!(8, board.count_neighbours(1, 1));
}

#[test]
fn brain_get_cell_is_dead_off_the_board() {
    let board = BrainBoard::from_array(&[F, R, F, R], 2).unwrap();
    assert_eq!(D, board.get_cell(-1, 0));
    assert_eq!(D, board.get_cell(0, -1));
    assert_eq!(D, board.get_cell(2, 0));
    assert_eq!(D, board.get_cell(0, 2));
    assert_eq!(D, board.get_cell(i32::MIN, i32::MAX));
    assert_eq!(F, board.get_cell(0, 0));
    assert_eq!(R, board.get_cell(1, 0));
    assert_eq!(F, board.get_cell(0, 1));
    assert_eq!(R, board.get_cell(1, 1));
}

#[test]
fn brain_firing_cell_with_two_firing_neighbours_keeps_firing() {
    let mut board = BrainBoard::from_array(&[F, F, F, D], 2).unwrap();
    board.step();
    assert_eq!(vec![F, F, F, D], brain_cells_of(&board));
}

#[test]
fn brain_firing_cell_comes_to_rest_and_then_dies() {
    let mut board = BrainBoard::from_array(&[D, D, D, D, F, D, D, D, D], 3).unwrap();
    board.step();
    assert_eq!(vec![D, D, D, D, R, D, D, D, D], brain_cells_of(&board));
    board.step();
    assert_eq!(vec![D; 9], brain_cells_of(&board));
}

#[test]
fn brain_three_generations() {
    let mut board = BrainBoard::from_array(
        &[
            D, D, D, D, //
            D, F, F, D, //
            D, R, D, D, //
            D, D, D, F, //
        ],
        4,
    )
    .unwrap();
    board.step();
    assert_eq!(
        vec![
            D, F, F, D, //
            D, R, R, D, //
            D, F, D, F, //
            D, D, D, R, //
        ],
        brain_cells_of(&board)
    );
    board.step();
    assert_eq!(
        vec![
            D, R, R, D, //
            F, D, D, F, //
            D, R, F, R, //
            D, D, F, D, //
        ],
        brain_cells_of(&board)
    );
    board.step();
    assert_eq!(
        vec![
            D, D, D, D, //
            R, F, F, R, //
            D, D, F, D, //
            D, F, R, F, //
        ],
        brain_cells_of(&board)
    );
}

#[test]
fn brain_step_keeps_the_shape() {
    let mut board = BrainBoard::from_array(&[F, D, R, F, D, F, D, D, R, F], 5).unwrap();
    for _ in 0..8 {
        board.step();
        assert_eq!(5, board.get_width());
        assert_eq!(2, board.get_height());
        assert_eq!(10, brain_cells_of(&board).len());
    }
}

#[test]
fn brain_step_is_deterministic() {
    let source = [F, D, R, F, D, F, D, D, R, F, F, D];
    let mut first = BrainBoard::from_array(&source, 4).unwrap();
    let mut second = BrainBoard::from_array(&source, 4).unwrap();
    for _ in 0..5 {
        first.step();
        second.step();
        assert_eq!(brain_cells_of(&first), brain_cells_of(&second));
    }
}

#[test]
fn brain_from_array_checks_its_arguments() {
    assert_eq!(Some(InvalidParameter::ZeroWidth), BrainBoard::from_array(&[F; 9], 0).err());
    assert_eq!(Some(InvalidParameter::Length), BrainBoard::from_array(&[F; 7], 3).err());
    let board = BrainBoard::from_array(&[F; 9], 3).unwrap();
    assert_eq!(3, board.get_width());
    assert_eq!(3, board.get_height());
}

#[test]
fn brain_from_array_keeps_its_own_copy() {
    let mut source = vec![F, R, D, F];
    let board = BrainBoard::from_array(&source, 2).unwrap();
    source[0] = D;
    source[3] = R;
    assert_eq!(vec![F, R, D, F], brain_cells_of(&board));
}

#[test]
fn brain_new_random_checks_the_probability() {
    assert_eq!(
        Some(InvalidParameter::Probability),
        BrainBoard::new_random(3, 3, Probability::new(-1, 10)).err()
    );
    assert_eq!(
        Some(InvalidParameter::Probability),
        BrainBoard::new_random(3, 3, Probability::new(11, 10)).err()
    );
    assert!(BrainBoard::new_random(3, 3, Probability::new(0, 10)).is_ok());
    assert!(BrainBoard::new_random(3, 3, Probability::new(10, 10)).is_ok());
}

#[test]
fn brain_new_random_never_makes_a_resting_cell() {
    let board = BrainBoard::new_random(50, 40, Probability::new(1, 3)).unwrap();
    assert_eq!(50, board.get_width());
    assert_eq!(40, board.get_height());
    let cells = brain_cells_of(&board);
    assert_eq!(2000, cells.len());
    assert!(cells.iter().all(|c| *c == F || *c == D));
    assert!(cells.iter().any(|c| *c == F));
    assert!(cells.iter().any(|c| *c == D));
}

#[test]
fn brain_new_random_at_the_ends_of_the_range() {
    let none = BrainBoard::new_random(5, 5, Probability::new(0, 7)).unwrap();
    assert!(brain_cells_of(&none).iter().all(|c| *c == D));
    let all = BrainBoard::new_random(5, 5, Probability::new(7, 7)).unwrap();
    assert!(brain_cells_of(&all).iter().all(|c| *c == F));
}

#[test]
fn brain_from_draws_compares_each_draw_with_the_probability() {
    let board = BrainBoard::from_draws(&[4, 0, 1, 2], 2, 2, Probability::new(2, 5)).unwrap();
    assert_eq!(vec![D, F, F, D], brain_cells_of(&board));
    assert_eq!(
        Some(InvalidParameter::Length),
        BrainBoard::from_draws(&[4, 0, 1], 2, 2, Probability::new(2, 5)).err()
    );
    assert_eq!(
        Some(InvalidParameter::Probability),
        BrainBoard::from_draws(&[4, 0, 1, 2], 2, 2, Probability::new(6, 5)).err()
    );
}

#[test]
fn brain_colours() {
    assert_eq!((255, 255, 255), brain_color(F));
    assert_eq!((0, 0, 255), brain_color(R));
    assert_eq!((0, 0, 0), brain_color(D));
}
