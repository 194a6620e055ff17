use nonogram::Board;
use nonogram::BoardDisplay;
use nonogram::Cell;
use nonogram::Grid;
use nonogram::Key;
use nonogram::Line;
use nonogram::NonogramErrors;
use nonogram::SessionOutcome;
use nonogram::Status;
use nonogram::StepEffect;
use nonogram::StepResult;
use nonogram::get_cell_corner_bottom_left;
use nonogram::get_cell_corner_bottom_right;
use nonogram::get_cell_corner_top_left;
use nonogram::get_cell_corner_top_right;
use nonogram::get_indications_max_char_space_needed_lines;
use nonogram::step;

fn line_with(indications: Vec<i32>, space_equivalent: u16) -> Line {
    Line { cells: Vec::new(), indications, space_equivalent }
}

#[test]
fn cell_empty_active_marks_once() {
    let mut c = Cell { x: 2, y: 5, status: Status::EMPTY, active: true };
    assert_eq!(c.mark(), Ok(()));
    assert!(matches!(c.status, Status::MARKED));
    // re-invoking the same action is a no-op success
    assert_eq!(c.mark(), Ok(()));
    assert!(matches!(c.status, Status::MARKED));
    // the other action after the transition is a no-op success too
    assert_eq!(c.none(), Ok(()));
    assert!(matches!(c.status, Status::MARKED));
    assert!(c.active);
    assert_eq!((c.x, c.y), (2, 5));
}

#[test]
fn cell_empty_inactive_mark_fails_and_changes_nothing() {
    let mut c = Cell { x: 1, y: 0, status: Status::EMPTY, active: false };
    assert_eq!(c.mark(), Err(NonogramErrors::PutMarkInWrongSpot { x: 1, y: 0 }));
    assert!(matches!(c.status, Status::EMPTY));
    assert_eq!(c.none(), Ok(()));
    assert!(matches!(c.status, Status::NONE));
    assert_eq!(c.mark(), Ok(()));
    assert!(matches!(c.status, Status::NONE));
}

#[test]
fn cell_empty_active_clear_fails() {
    let mut c = Cell { x: 0, y: 3, status: Status::EMPTY, active: true };
    assert_eq!(c.none(), Err(NonogramErrors::PutNoneInWrongSpot { x: 0, y: 3 }));
    assert!(matches!(c.status, Status::EMPTY));
}

#[test]
fn grid_new_draws_empty_cells() {
    let g = Grid::new(3, 2);
    assert_eq!(g.width, 3);
    assert_eq!(g.height, 2);
    for y in 0..2 {
        for x in 0..3 {
            let c = g.get_cell(x, y);
            assert_eq!((c.x, c.y), (x, y));
            assert!(matches!(c.status, Status::EMPTY));
        }
    }
    assert!(g.get_row(0).is_some());
    assert!(g.get_row(2).is_none());
    assert!(g.get_column(2).is_some());
    assert!(g.get_column(3).is_none());
}

#[test]
fn rows_and_columns_share_the_cell() {
    // mutate through the grid, observe the change through both lines' indices
    let pattern = vec![true, false, true, true];
    let mut g = Grid::from_pattern(2, 2, &pattern);
    let c = g.get_cell_mut(0, 0);
    assert_eq!(c.mark(), Ok(()));
    let row = g.get_row(0).unwrap();
    let column = g.get_column(0).unwrap();
    assert_eq!(row.cells[0], column.cells[0]);
    let shared = row.cells[0];
    assert!(matches!(g.cells[shared].status, Status::MARKED));
}

#[test]
fn indications_of_rows_and_columns() {
    // 4x2, row-major:  row 0: X X . X   row 1: . X . X
    let pattern = vec![true, true, false, true, false, true, false, true];
    let g = Grid::from_pattern(4, 2, &pattern);
    // runs are listed last-encountered first
    assert_eq!(g.get_row(0).unwrap().indications, vec![1, 2]);
    assert_eq!(g.get_row(1).unwrap().indications, vec![1, 1]);
    assert_eq!(g.get_column(0).unwrap().indications, vec![1]);
    assert_eq!(g.get_column(1).unwrap().indications, vec![2]);
    assert_eq!(g.get_column(2).unwrap().indications, Vec::<i32>::new());
    assert_eq!(g.get_column(3).unwrap().indications, vec![2]);
}

#[test]
fn single_isolated_active_cell_gives_one() {
    let pattern = vec![false, true, false];
    let g = Grid::from_pattern(3, 1, &pattern);
    assert_eq!(g.get_row(0).unwrap().indications, vec![1]);
    assert_eq!(g.get_column(1).unwrap().indications, vec![1]);
    assert_eq!(g.get_column(0).unwrap().indications, Vec::<i32>::new());
}

#[test]
fn indications_survive_marks_and_clears() {
    let pattern = vec![true, false, false, true];
    let mut b = Board::with_grid(Grid::from_pattern(2, 2, &pattern));
    let before_row0 = b.grid.get_row(0).unwrap().indications.clone();
    let before_col1 = b.grid.get_column(1).unwrap().indications.clone();
    assert_eq!(b.mark(0, 0), Ok(()));
    assert_eq!(b.none(1, 0), Ok(()));
    assert_eq!(b.mark(1, 0), Ok(())); // absorbed wrong move
    assert_eq!(b.grid.get_row(0).unwrap().indications, before_row0);
    assert_eq!(b.grid.get_column(1).unwrap().indications, before_col1);
}

#[test]
fn render_text_empty_run_list_is_padding_only() {
    let row = line_with(Vec::new(), 2);
    assert_eq!(row.get_indications_as_string(), "  ");
    let column = line_with(Vec::new(), 1);
    assert_eq!(column.get_indications_as_string(), " ");
}

#[test]
fn render_text_reverses_digits() {
    let line = line_with(vec![2, 13, 4], 1);
    assert_eq!(line.get_indications_as_string(), " 2 31 4 ");
    let row = line_with(vec![12], 2);
    assert_eq!(row.get_indications_as_string(), "  21  ");
}

#[test]
fn max_char_space_over_lines() {
    // " 2 13 4 " needs 8 characters
    let lines = vec![line_with(vec![2, 13, 4], 1), line_with(vec![1], 1)];
    assert_eq!(get_indications_max_char_space_needed_lines(&lines), 8);
    let rows = vec![line_with(vec![7], 2), line_with(Vec::new(), 2)];
    assert_eq!(get_indications_max_char_space_needed_lines(&rows), 5);
    assert_eq!(get_indications_max_char_space_needed_lines(&Vec::new()), 0);
}

#[test]
fn grid_space_accessors_agree_with_free_function() {
    let pattern = vec![true, true, false, true, false, true, false, true];
    let g = Grid::from_pattern(4, 2, &pattern);
    assert_eq!(g.get_indications_max_char_space_needed_rows(), 8);
    assert_eq!(g.get_indications_max_char_space_needed_columns(), 3);
}

#[test]
fn cursor_moves_saturate() {
    let pattern = vec![false; 6];
    let mut b = Board::with_grid(Grid::from_pattern(3, 2, &pattern));
    assert_eq!((b.cursor.x, b.cursor.y), (0, 0));
    b.cursor.left();
    assert_eq!((b.cursor.x, b.cursor.y), (0, 0));
    b.cursor.left();
    assert_eq!((b.cursor.x, b.cursor.y), (0, 0));
    b.cursor.up();
    assert_eq!((b.cursor.x, b.cursor.y), (0, 0));
    b.cursor.right();
    b.cursor.right();
    assert_eq!(b.cursor.x, 2);
    b.cursor.right();
    assert_eq!(b.cursor.x, 2);
    b.cursor.down();
    assert_eq!(b.cursor.y, 1);
    b.cursor.down();
    assert_eq!(b.cursor.y, 1);
}

#[test]
fn one_by_one_active_grid() {
    let pattern = vec![true];
    let mut b = Board::with_grid(Grid::from_pattern(1, 1, &pattern));
    assert_eq!(b.grid.get_row(0).unwrap().indications, vec![1]);
    assert_eq!(b.grid.get_column(0).unwrap().indications, vec![1]);
    assert_eq!(b.mark(0, 0), Ok(()));
    assert_eq!(b.lives, 3);
}

#[test]
fn two_by_one_inactive_row() {
    let pattern = vec![false, false];
    let mut b = Board::with_grid(Grid::from_pattern(2, 1, &pattern));
    assert_eq!(b.grid.get_row(0).unwrap().indications, Vec::<i32>::new());
    assert_eq!(b.none(0, 0), Ok(()));
    assert_eq!(b.none(1, 0), Ok(()));
    assert_eq!(b.lives, 3);
    // the cells are now set, so a mark is a no-op success; a fresh board
    // shows the wrong-mark cost instead
    let mut b2 = Board::with_grid(Grid::from_pattern(2, 1, &pattern));
    assert_eq!(b2.mark(1, 0), Ok(())); // absorbed: lives drop from 3 to 2
    assert_eq!(b2.lives, 2);
}

#[test]
fn lives_budget_tolerates_exactly_two_wrong_moves() {
    let pattern = vec![false, false, false];
    let mut b = Board::with_grid(Grid::from_pattern(3, 1, &pattern));
    assert_eq!(b.lives, 3);
    assert_eq!(b.mark(0, 0), Ok(()));
    assert_eq!(b.lives, 2);
    assert_eq!(b.mark(1, 0), Ok(()));
    assert_eq!(b.lives, 1);
    assert_eq!(b.mark(2, 0), Err(NonogramErrors::PutMarkInWrongSpot { x: 2, y: 0 }));
    assert_eq!(b.lives, 0);
}

#[test]
fn wrong_clear_counts_against_the_same_budget() {
    let pattern = vec![true, true, true];
    let mut b = Board::with_grid(Grid::from_pattern(3, 1, &pattern));
    assert_eq!(b.none(0, 0), Ok(()));
    assert_eq!(b.none(0, 0), Ok(()));
    assert_eq!(b.lives, 1);
    assert_eq!(b.none(1, 0), Err(NonogramErrors::PutNoneInWrongSpot { x: 1, y: 0 }));
    assert_eq!(b.lives, 0);
}

#[test]
fn right_moves_never_cost_lives() {
    let pattern = vec![true, false, true, false];
    let mut b = Board::with_grid(Grid::from_pattern(4, 1, &pattern));
    assert_eq!(b.mark(0, 0), Ok(()));
    assert_eq!(b.none(1, 0), Ok(()));
    assert_eq!(b.mark(2, 0), Ok(()));
    assert_eq!(b.none(3, 0), Ok(()));
    assert_eq!(b.lives, 3);
    assert!(matches!(b.grid.get_cell(0, 0).status, Status::MARKED));
    assert!(matches!(b.grid.get_cell(1, 0).status, Status::NONE));
}

#[test]
fn board_display_layout() {
    let pattern = vec![false];
    let g = Grid::from_pattern(1, 1, &pattern);
    let d = BoardDisplay::new(&g);
    // both clue blocks sit at their printable floor here
    assert_eq!(d.indications_max_char_space_needed_rows, 40);
    assert_eq!(d.indications_max_char_space_needed_columns, 20);
    assert_eq!(d.grid_margin_left, 44);
    assert_eq!(d.grid_margin_top, 22);
    assert_eq!(d.grid_margin_right, 4);
    assert_eq!(d.grid_margin_bottom, 8);
    assert_eq!(d.goto_cell(0, 0, 0, 0), (44, 22));
    assert_eq!(d.goto_cell(0, 0, 3, 2), (47, 24));
}

#[test]
fn goto_cell_steps_by_shared_borders() {
    let pattern = vec![false; 9];
    let g = Grid::from_pattern(3, 3, &pattern);
    let d = BoardDisplay::new(&g);
    let (x0, y0) = d.goto_cell(0, 0, 0, 0);
    let (x1, y1) = d.goto_cell(1, 2, 0, 0);
    assert_eq!(x1 - x0, 3);
    assert_eq!(y1 - y0, 4);
}

#[test]
fn corner_glyphs_follow_grid_edges() {
    let pattern = vec![false; 4];
    let g = Grid::from_pattern(2, 2, &pattern);
    let d = BoardDisplay::new(&g);
    assert_eq!(get_cell_corner_top_left(&d, 0, 0), "┌");
    assert_eq!(get_cell_corner_top_left(&d, 0, 1), "├");
    assert_eq!(get_cell_corner_top_left(&d, 1, 0), "┬");
    assert_eq!(get_cell_corner_top_left(&d, 1, 1), "┼");
    assert_eq!(get_cell_corner_top_right(&d, 1, 0), "┐");
    assert_eq!(get_cell_corner_top_right(&d, 1, 1), "┤");
    assert_eq!(get_cell_corner_top_right(&d, 0, 0), "┬");
    assert_eq!(get_cell_corner_top_right(&d, 0, 1), "┼");
    assert_eq!(get_cell_corner_bottom_left(&d, 0, 1), "└");
    assert_eq!(get_cell_corner_bottom_left(&d, 1, 1), "┴");
    assert_eq!(get_cell_corner_bottom_left(&d, 0, 0), "├");
    assert_eq!(get_cell_corner_bottom_left(&d, 1, 0), "┼");
    assert_eq!(get_cell_corner_bottom_right(&d, 1, 1), "┘");
    assert_eq!(get_cell_corner_bottom_right(&d, 0, 1), "┴");
    assert_eq!(get_cell_corner_bottom_right(&d, 1, 0), "┤");
    assert_eq!(get_cell_corner_bottom_right(&d, 0, 0), "┼");
}

#[test]
fn step_quit_and_restart_end_the_session() {
    let pattern = vec![false; 4];
    let mut b = Board::with_grid(Grid::from_pattern(2, 2, &pattern));
    assert_eq!(step(&mut b, Key::Quit), StepResult::Finished(SessionOutcome::Exit));
    assert_eq!(step(&mut b, Key::Restart), StepResult::Finished(SessionOutcome::Restart));
    assert_eq!(b.lives, 3);
    assert_eq!((b.cursor.x, b.cursor.y), (0, 0));
}

#[test]
fn step_moves_report_the_previous_position() {
    let pattern = vec![false; 4];
    let mut b = Board::with_grid(Grid::from_pattern(2, 2, &pattern));
    assert_eq!(
        step(&mut b, Key::Right),
        StepResult::Continue(StepEffect::CursorMoved { prev_x: 0, prev_y: 0 })
    );
    assert_eq!((b.cursor.x, b.cursor.y), (1, 0));
    assert_eq!(
        step(&mut b, Key::Down),
        StepResult::Continue(StepEffect::CursorMoved { prev_x: 1, prev_y: 0 })
    );
    assert_eq!((b.cursor.x, b.cursor.y), (1, 1));
    assert_eq!(
        step(&mut b, Key::Right),
        StepResult::Continue(StepEffect::CursorMoved { prev_x: 1, prev_y: 1 })
    );
    assert_eq!((b.cursor.x, b.cursor.y), (1, 1));
    assert_eq!(step(&mut b, Key::Other), StepResult::Continue(StepEffect::Refresh));
}

#[test]
fn step_marks_at_the_cursor_and_ends_on_the_fatal_move() {
    let pattern = vec![true, false];
    let mut b = Board::with_grid(Grid::from_pattern(2, 1, &pattern));
    assert_eq!(step(&mut b, Key::Mark), StepResult::Continue(StepEffect::CellChanged));
    assert!(matches!(b.grid.get_cell(0, 0).status, Status::MARKED));
    assert_eq!(step(&mut b, Key::Right), StepResult::Continue(StepEffect::CursorMoved {
        prev_x: 0,
        prev_y: 0
    }));
    // three wrong marks on the inactive cell: two absorbed, the third fatal
    assert_eq!(step(&mut b, Key::Mark), StepResult::Continue(StepEffect::CellChanged));
    assert_eq!(b.lives, 2);
    assert_eq!(step(&mut b, Key::Mark), StepResult::Continue(StepEffect::CellChanged));
    assert_eq!(b.lives, 1);
    assert_eq!(step(&mut b, Key::Mark), StepResult::Finished(SessionOutcome::Exit));
    assert_eq!(b.lives, 0);
}

#[test]
fn step_clear_uses_the_none_action() {
    let pattern = vec![false, true];
    let mut b = Board::with_grid(Grid::from_pattern(2, 1, &pattern));
    assert_eq!(step(&mut b, Key::Clear), StepResult::Continue(StepEffect::CellChanged));
    assert!(matches!(b.grid.get_cell(0, 0).status, Status::NONE));
    assert_eq!(b.lives, 3);
}

#[test]
fn board_new_starts_fresh() {
    let b = Board::new(5, 4);
    assert_eq!(b.lives, 3);
    assert_eq!((b.cursor.x, b.cursor.y), (0, 0));
    assert_eq!(b.grid.width, 5);
    assert_eq!(b.grid.height, 4);
    // the hidden pattern is random, but the visible state starts empty and
    // every cached indication is consistent with some pattern of width 5
    for y in 0..4 {
        let row = b.grid.get_row(y).unwrap();
        let total: i32 = row.indications.iter().sum();
        let count = row.indications.len() as i32;
        assert!(total + (count - 1).max(0) <= 5);
        for x in 0..5 {
            assert!(matches!(b.grid.get_cell(x, y).status, Status::EMPTY));
        }
    }
}
