use four_in_a_row::Board;
use four_in_a_row::Cell;
use four_in_a_row::Direction;
use four_in_a_row::GRID_H;
use four_in_a_row::GRID_W;
use four_in_a_row::scan::flip_direction;
use four_in_a_row::scan::sum_coordinates;
use four_in_a_row::step::Key;
use four_in_a_row::step::StepResult;

fn fresh() -> Board {
    Board::new((GRID_W, GRID_H))
}

#[test]
fn new_board_is_empty_centered_x_to_move() {
    let board = fresh();
    for y in 0..GRID_H {
        for x in 0..GRID_W {
            assert_eq!(board.get(x, y), Some(&Cell::Empty));
        }
    }
    assert_eq!(board.player, Cell::X);
    assert_eq!(board.cursor, (GRID_W / 2, GRID_H / 2));
    assert!(board.title.is_none());
}

#[test]
fn cursor_stays_in_bounds_from_everywhere() {
    let directions = [Direction::L, Direction::R, Direction::U, Direction::D];
    for y in 0..GRID_H {
        for x in 0..GRID_W {
            for d in directions {
                let mut board = fresh();
                board.cursor = (x, y);
                board.move_cursor(d);
                assert!(board.cursor.0 < GRID_W);
                assert!(board.cursor.1 < GRID_H);
            }
        }
    }
}

#[test]
fn cursor_clamps_at_edges() {
    let mut board = fresh();
    board.cursor = (0, 0);
    board.move_cursor(Direction::L);
    assert_eq!(board.cursor, (0, 0));
    board.move_cursor(Direction::U);
    assert_eq!(board.cursor, (0, 0));
    board.cursor = (GRID_W - 1, GRID_H - 1);
    board.move_cursor(Direction::R);
    assert_eq!(board.cursor, (GRID_W - 1, GRID_H - 1));
    board.move_cursor(Direction::D);
    assert_eq!(board.cursor, (GRID_W - 1, GRID_H - 1));
}

#[test]
fn cursor_moves_one_step_inside() {
    let mut board = fresh();
    board.move_cursor(Direction::L);
    assert_eq!(board.cursor, (1, 2));
    board.move_cursor(Direction::D);
    assert_eq!(board.cursor, (1, 3));
    board.move_cursor(Direction::R);
    assert_eq!(board.cursor, (2, 3));
    board.move_cursor(Direction::U);
    assert_eq!(board.cursor, (2, 2));
}

#[test]
fn set_on_occupied_cell_reports_occupant_and_keeps_grid() {
    let mut board = fresh();
    assert_eq!(board.set(1, 1, Cell::X), Ok(()));
    assert_eq!(board.set(1, 1, Cell::O), Err(Cell::X));
    assert_eq!(board.get(1, 1), Some(&Cell::X));
    assert_eq!(board.set(1, 1, Cell::X), Err(Cell::X));
    assert_eq!(board.get(1, 1), Some(&Cell::X));
    for y in 0..GRID_H {
        for x in 0..GRID_W {
            if (x, y) != (1, 1) {
                assert_eq!(board.get(x, y), Some(&Cell::Empty));
            }
        }
    }
}

#[test]
fn set_out_of_bounds_fails_with_empty() {
    let mut board = fresh();
    assert_eq!(board.set(GRID_W, 0, Cell::X), Err(Cell::Empty));
    assert_eq!(board.set(0, GRID_H, Cell::O), Err(Cell::Empty));
    for y in 0..GRID_H {
        for x in 0..GRID_W {
            assert_eq!(board.get(x, y), Some(&Cell::Empty));
        }
    }
}

#[test]
fn get_out_of_bounds_is_none() {
    let board = fresh();
    assert_eq!(board.get(GRID_W, 0), None);
    assert_eq!(board.get(0, GRID_H), None);
    assert_eq!(board.get(GRID_W, GRID_H), None);
}

#[test]
fn get_mut_writes_through() {
    let mut board = fresh();
    match board.get_mut(3, 2) {
        Some(cell) => *cell = Cell::O,
        None => panic!("(3, 2) lies on the board"),
    }
    assert_eq!(board.get(3, 2), Some(&Cell::O));
    assert!(board.get_mut(GRID_W, 0).is_none());
}

#[test]
fn toggle_player_flips() {
    let mut board = fresh();
    board.toggle_player();
    assert_eq!(board.player, Cell::O);
    board.toggle_player();
    assert_eq!(board.player, Cell::X);
}

#[test]
fn players_alternate_over_placements() {
    let mut board = fresh();
    let spots = [(2, 2), (0, 0), (1, 2), (0, 1)];
    let expected = [Cell::O, Cell::X, Cell::O, Cell::X];
    for (spot, want) in spots.iter().zip(expected.iter()) {
        board.cursor = *spot;
        assert_eq!(board.step(Key::Place), StepResult::Placed);
        assert_eq!(board.player, *want);
    }
}

#[test]
fn horizontal_win_arrives_on_fourth_placement() {
    let mut board = fresh();
    assert_eq!(board.set(1, 0, Cell::X), Ok(()));
    assert!(!board.check_win((1, 0)));
    assert_eq!(board.set(2, 0, Cell::X), Ok(()));
    assert!(!board.check_win((2, 0)));
    assert_eq!(board.set(3, 0, Cell::X), Ok(()));
    assert!(!board.check_win((3, 0)));
    assert_eq!(board.set(4, 0, Cell::X), Ok(()));
    assert!(board.check_win((4, 0)));
}

#[test]
fn diagonal_win_is_found() {
    let mut board = fresh();
    for i in 0..4 {
        assert_eq!(board.set(i, i, Cell::X), Ok(()));
    }
    assert!(board.check_win((3, 3)));
    assert!(board.check_win((0, 0)));
}

#[test]
fn anti_diagonal_win_is_found() {
    let mut board = fresh();
    assert_eq!(board.set(0, 3, Cell::O), Ok(()));
    assert_eq!(board.set(1, 2, Cell::O), Ok(()));
    assert_eq!(board.set(2, 1, Cell::O), Ok(()));
    assert_eq!(board.set(3, 0, Cell::O), Ok(()));
    assert!(board.check_win((2, 1)));
}

#[test]
fn vertical_win_is_found() {
    let mut board = fresh();
    for y in 1..5 {
        assert_eq!(board.set(2, y, Cell::O), Ok(()));
    }
    assert!(board.check_win((2, 4)));
}

#[test]
fn run_of_five_still_wins() {
    let mut board = fresh();
    for x in 0..5 {
        assert_eq!(board.set(x, 2, Cell::X), Ok(()));
    }
    assert!(board.check_win((2, 2)));
}

#[test]
fn mixed_kinds_on_one_axis_never_win() {
    let mut board = fresh();
    assert_eq!(board.set(0, 0, Cell::X), Ok(()));
    assert_eq!(board.set(1, 0, Cell::X), Ok(()));
    assert_eq!(board.set(2, 0, Cell::X), Ok(()));
    assert_eq!(board.set(3, 0, Cell::O), Ok(()));
    assert!(!board.check_win((0, 0)));
    assert!(!board.check_win((1, 0)));
    assert!(!board.check_win((2, 0)));
    assert!(!board.check_win((3, 0)));
}

#[test]
fn check_win_is_repeatable_on_same_state() {
    let mut board = fresh();
    for i in 0..4 {
        assert_eq!(board.set(i, i, Cell::X), Ok(()));
    }
    assert_eq!(board.check_win((3, 3)), board.check_win((3, 3)));
    assert!(board.check_win((2, 2)));
    assert!(board.check_win((2, 2)));
    let mut quiet = fresh();
    assert_eq!(quiet.set(0, 0, Cell::O), Ok(()));
    assert_eq!(quiet.check_win((0, 0)), quiet.check_win((0, 0)));
    assert!(!quiet.check_win((0, 0)));
    for y in 0..GRID_H {
        for x in 0..GRID_W {
            let want = if (x, y) == (0, 0) { Cell::O } else { Cell::Empty };
            assert_eq!(quiet.get(x, y), Some(&want));
        }
    }
}

#[test]
fn sum_coordinates_steps_and_refuses_edges() {
    assert_eq!(sum_coordinates((2, 2), (1, -1)), Some((3, 1)));
    assert_eq!(sum_coordinates((2, 2), (0, 0)), Some((2, 2)));
    assert_eq!(sum_coordinates((0, 0), (-1, 0)), None);
    assert_eq!(sum_coordinates((0, 0), (0, -1)), None);
    assert_eq!(sum_coordinates((GRID_W - 1, 0), (1, 0)), None);
    assert_eq!(sum_coordinates((0, GRID_H - 1), (0, 1)), None);
    assert_eq!(sum_coordinates((GRID_W - 1, GRID_H - 1), (-1, -1)), Some((3, 3)));
}

#[test]
fn flip_direction_negates_both_parts() {
    assert_eq!(flip_direction((0, -1)), (0, 1));
    assert_eq!(flip_direction((-1, 1)), (1, -1));
    assert_eq!(flip_direction((1, 0)), (-1, 0));
    assert_eq!(flip_direction((0, 0)), (0, 0));
}

#[test]
fn step_quit_and_other_leave_state_alone() {
    let mut board = fresh();
    assert_eq!(board.step(Key::Quit), StepResult::Quit);
    assert_eq!(board.step(Key::Other), StepResult::Ignored);
    assert_eq!(board.player, Cell::X);
    assert_eq!(board.cursor, (2, 2));
    for y in 0..GRID_H {
        for x in 0..GRID_W {
            assert_eq!(board.get(x, y), Some(&Cell::Empty));
        }
    }
}

#[test]
fn step_movement_keys_move_cursor() {
    let mut board = fresh();
    assert_eq!(board.step(Key::MoveLeft), StepResult::Moved);
    assert_eq!(board.cursor, (1, 2));
    assert_eq!(board.step(Key::MoveUp), StepResult::Moved);
    assert_eq!(board.cursor, (1, 1));
    assert_eq!(board.step(Key::MoveRight), StepResult::Moved);
    assert_eq!(board.cursor, (2, 1));
    assert_eq!(board.step(Key::MoveDown), StepResult::Moved);
    assert_eq!(board.cursor, (2, 2));
}

#[test]
fn step_place_on_taken_cell_reports_occupant() {
    let mut board = fresh();
    assert_eq!(board.step(Key::Place), StepResult::Placed);
    assert_eq!(board.get(2, 2), Some(&Cell::X));
    assert_eq!(board.player, Cell::O);
    assert_eq!(board.step(Key::Place), StepResult::Occupied);
    assert_eq!(board.player, Cell::O);
    assert_eq!(board.get(2, 2), Some(&Cell::X));
    assert_eq!(board.title.as_deref(), Some("Occupied by ❌"));
    board.clear_title();
    assert!(board.title.is_none());
}

#[test]
fn step_place_reports_win_and_stops_toggling() {
    let mut board = fresh();
    assert_eq!(board.set(0, 4, Cell::X), Ok(()));
    assert_eq!(board.set(1, 4, Cell::X), Ok(()));
    assert_eq!(board.set(2, 4, Cell::X), Ok(()));
    board.cursor = (3, 4);
    assert_eq!(board.step(Key::Place), StepResult::Won(Cell::X));
    assert_eq!(board.player, Cell::X);
    assert_eq!(board.get(3, 4), Some(&Cell::X));
}
