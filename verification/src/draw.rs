use vstd::prelude::*;

verus! {

use crate::board::Board;
use crate::board::{Move, apply_move};
use crate::grid::Grid;
use crate::line::{max_clue_space, lemma_max_clue_space_bound};

pub const MARGIN_VERTICAL: u16 = 2;

pub const MARGIN_HORIZONTAL: u16 = 4;

pub const CELL_WIDTH: u16 = 4;

pub const CELL_HEIGHT: u16 = 3;

pub const BOTTOM_BLOCK_HEIGHT: u16 = 6;

/// The margin a clue block occupies is never smaller than this, so the
/// layout has a printable minimum width even for near-empty clue lists.
pub const MIN_ROW_CLUE_SPACE: usize = 40;

pub const MIN_COLUMN_CLUE_SPACE: usize = 20;

/// The row-clue block width the layout reserves: the widest row-clue string,
/// floor-bounded to the minimum printable width.
pub open spec fn row_clue_space(g: Grid) -> int {
    if max_clue_space(g.rows@) > 40 {
        max_clue_space(g.rows@)
    } else {
        40
    }
}

/// The column-clue block width the layout reserves.
pub open spec fn column_clue_space(g: Grid) -> int {
    if max_clue_space(g.columns@) > 20 {
        max_clue_space(g.columns@)
    } else {
        20
    }
}

/// The fixed screen geometry of one session: the grid dimensions and the
/// margins sized from the widest clue strings.
#[derive(Debug)]
pub struct BoardDisplay {
    pub grid_width: usize,
    pub grid_height: usize,
    pub grid_margin_left: u16,
    pub grid_margin_right: u16,
    pub grid_margin_top: u16,
    pub grid_margin_bottom: u16,
    pub indications_max_char_space_needed_rows: usize,
    pub indications_max_char_space_needed_columns: usize,
}

impl BoardDisplay {
    /// The geometry facts every drawing routine needs: margins derived from
    /// clue blocks that fit comfortably inside a terminal's u16 coordinates.
    pub open spec fn wf(self) -> bool {
        &&& 1 <= self.grid_width <= 5000
        &&& 1 <= self.grid_height <= 5000
        &&& 40 <= self.indications_max_char_space_needed_rows <= 37002
        &&& 20 <= self.indications_max_char_space_needed_columns <= 37002
        &&& self.grid_margin_left == MARGIN_HORIZONTAL
            + self.indications_max_char_space_needed_rows
        &&& self.grid_margin_right == MARGIN_HORIZONTAL
        &&& self.grid_margin_top == MARGIN_VERTICAL
            + self.indications_max_char_space_needed_columns
        &&& self.grid_margin_bottom == MARGIN_VERTICAL + BOTTOM_BLOCK_HEIGHT
    }

    /// Compute the session's layout from the grid: each clue block is the
    /// widest clue string of its family, floor-bounded to the printable
    /// minimum, and each margin adds the fixed base margin.
    pub fn new(grid: &Grid) -> (d: BoardDisplay)
        requires
            grid.wf(),
            grid.width <= 5000,
            grid.height <= 5000,
        ensures
            d.wf(),
            d.grid_width == grid.width,
            d.grid_height == grid.height,
            d.indications_max_char_space_needed_rows == row_clue_space(*grid),
            d.indications_max_char_space_needed_columns == column_clue_space(*grid),
    {
        proof {
            lemma_max_clue_space_bound(grid.rows@, grid.width as int);
            lemma_max_clue_space_bound(grid.columns@, grid.height as int);
        }
        let mut rows_space = grid.get_indications_max_char_space_needed_rows();
        if rows_space < MIN_ROW_CLUE_SPACE {
            rows_space = MIN_ROW_CLUE_SPACE;
        }
        let mut columns_space = grid.get_indications_max_char_space_needed_columns();
        if columns_space < MIN_COLUMN_CLUE_SPACE {
            columns_space = MIN_COLUMN_CLUE_SPACE;
        }
        BoardDisplay {
            grid_width: grid.width,
            grid_height: grid.height,
            grid_margin_left: MARGIN_HORIZONTAL + rows_space as u16,
            grid_margin_right: MARGIN_HORIZONTAL,
            grid_margin_top: MARGIN_VERTICAL + columns_space as u16,
            grid_margin_bottom: MARGIN_VERTICAL + BOTTOM_BLOCK_HEIGHT,
            indications_max_char_space_needed_rows: rows_space,
            indications_max_char_space_needed_columns: columns_space,
        }
    }

    /// The terminal coordinates (column, row) of the character cell
    /// `(move_x, move_y)` inside the drawn cell at grid position `(x, y)`.
    /// Adjacent cells share their border, so a cell advances the pen by one
    /// less than its drawn width and height.
    pub fn goto_cell(&self, x: usize, y: usize, move_x: usize, move_y: usize) -> (r: (u16, u16))
        requires
            self.wf(),
            x < self.grid_width,
            y < self.grid_height,
            move_x < CELL_WIDTH,
            move_y < CELL_HEIGHT,
        ensures
            r.0 == self.grid_margin_left + x * ((CELL_WIDTH - 1) as usize) + move_x,
            r.1 == self.grid_margin_top + y * ((CELL_HEIGHT - 1) as usize) + move_y,
    {
        proof {
            assert(x < 5000 && y < 5000);
            assert(self.grid_margin_left <= 37006);
            assert(self.grid_margin_top <= 37004);
            assert((x as u16) * (CELL_WIDTH - 1) <= 14997) by (nonlinear_arith)
                requires
                    x < 5000,
                    CELL_WIDTH == 4,
            ;
            assert((y as u16) * (CELL_HEIGHT - 1) <= 9998) by (nonlinear_arith)
                requires
                    y < 5000,
                    CELL_HEIGHT == 3,
            ;
        }
        (
            self.grid_margin_left + (x as u16) * (CELL_WIDTH - 1) + (move_x as u16),
            self.grid_margin_top + (y as u16) * (CELL_HEIGHT - 1) + (move_y as u16),
        )
    }
}

/// The box-drawing glyph of a cell's top-left corner: a grid corner, a left
/// edge tee, a top edge tee, or an interior junction.
pub open spec fn corner_top_left(x: int, y: int) -> Seq<char> {
    if x == 0 && y == 0 {
        "┌"@
    } else if x == 0 {
        "├"@
    } else if y == 0 {
        "┬"@
    } else {
        "┼"@
    }
}

pub open spec fn corner_top_right(width: int, x: int, y: int) -> Seq<char> {
    if x == width - 1 && y == 0 {
        "┐"@
    } else if x == width - 1 {
        "┤"@
    } else if y == 0 {
        "┬"@
    } else {
        "┼"@
    }
}

pub open spec fn corner_bottom_left(height: int, x: int, y: int) -> Seq<char> {
    if x == 0 && y == height - 1 {
        "└"@
    } else if y == height - 1 {
        "┴"@
    } else if x == 0 {
        "├"@
    } else {
        "┼"@
    }
}

pub open spec fn corner_bottom_right(width: int, height: int, x: int, y: int) -> Seq<char> {
    if x == width - 1 && y == height - 1 {
        "┘"@
    } else if y == height - 1 {
        "┴"@
    } else if x == width - 1 {
        "┤"@
    } else {
        "┼"@
    }
}

pub fn get_cell_corner_top_left(_board_display: &BoardDisplay, x: usize, y: usize) -> (r:
    &'static str)
    ensures
        r@ == corner_top_left(x as int, y as int),
{
    match (x, y) {
        (0, 0) => "┌",
        (0, _) => "├",
        (_, 0) => "┬",
        _ => "┼",
    }
}

pub fn get_cell_corner_top_right(board_display: &BoardDisplay, x: usize, y: usize) -> (r:
    &'static str)
    requires
        board_display.grid_width >= 1,
    ensures
        r@ == corner_top_right(board_display.grid_width as int, x as int, y as int),
{
    if x == board_display.grid_width - 1 && y == 0 {
        "┐"
    } else if x == board_display.grid_width - 1 {
        "┤"
    } else if y == 0 {
        "┬"
    } else {
        "┼"
    }
}

pub fn get_cell_corner_bottom_left(board_display: &BoardDisplay, x: usize, y: usize) -> (r:
    &'static str)
    requires
        board_display.grid_height >= 1,
    ensures
        r@ == corner_bottom_left(board_display.grid_height as int, x as int, y as int),
{
    if x == 0 && y == board_display.grid_height - 1 {
        "└"
    } else if y == board_display.grid_height - 1 {
        "┴"
    } else if x == 0 {
        "├"
    } else {
        "┼"
    }
}

pub fn get_cell_corner_bottom_right(board_display: &BoardDisplay, x: usize, y: usize) -> (r:
    &'static str)
    requires
        board_display.grid_width >= 1,
        board_display.grid_height >= 1,
    ensures
        r@ == corner_bottom_right(
            board_display.grid_width as int,
            board_display.grid_height as int,
            x as int,
            y as int,
        ),
{
    if x == board_display.grid_width - 1 && y == board_display.grid_height - 1 {
        "┘"
    } else if y == board_display.grid_height - 1 {
        "┴"
    } else if x == board_display.grid_width - 1 {
        "┤"
    } else {
        "┼"
    }
}

/// One decoded key event, as the interaction loop understands it.
#[derive(Debug, Copy, Clone, PartialEq, Eq, Structural)]
pub enum Key {
    Quit,
    Restart,
    Mark,
    Clear,
    Left,
    Right,
    Up,
    Down,
    Other,
}

/// How an ended session hands control back: the caller should exit, or
/// rebuild a fresh board and run again. A fatal game-over is reported as
/// `Exit`, the same signal as an explicit quit.
#[derive(Debug, Copy, Clone, PartialEq, Eq, Structural)]
pub enum SessionOutcome {
    Exit,
    Restart,
}

/// The incremental redraw one accepted key asks for: repaint the cell under
/// the cursor and the lives counter, move the cursor overlay (erasing it at
/// its previous position and refreshing both clue highlights), or refresh
/// the overlay alone.
#[derive(Debug, Copy, Clone, PartialEq, Eq, Structural)]
pub enum StepEffect {
    CellChanged,
    CursorMoved { prev_x: usize, prev_y: usize },
    Refresh,
}

/// What one loop iteration decides: keep running, with the redraw to
/// perform, or end the session with an outcome for the caller.
#[derive(Debug, Copy, Clone, PartialEq, Eq, Structural)]
pub enum StepResult {
    Continue(StepEffect),
    Finished(SessionOutcome),
}

/// One iteration of the read-eval-redraw cycle, minus the I/O: apply a
/// decoded key to the board and say what to redraw or how to end. The quit
/// and restart keys end the session with the board untouched; a mark or
/// clear applies the board's own move semantics and ends the session exactly
/// when the move is fatal; an arrow key moves the cursor, saturating at the
/// boundary; any other key asks for a cosmetic refresh.
pub fn step(board: &mut Board, key: Key) -> (r: StepResult)
    requires
        old(board).wf(),
        old(board).lives >= 1,
    ensures
        final(board).wf(),
        final(board).grid.width == old(board).grid.width,
        final(board).grid.height == old(board).grid.height,
        final(board).grid.rows == old(board).grid.rows,
        final(board).grid.columns == old(board).grid.columns,
        match key {
            Key::Quit => *final(board) == *old(board) && r == StepResult::Finished(
                SessionOutcome::Exit,
            ),
            Key::Restart => *final(board) == *old(board) && r == StepResult::Finished(
                SessionOutcome::Restart,
            ),
            Key::Mark => ({
                let s = apply_move(
                    old(board).grid.cells@,
                    old(board).lives as int,
                    old(board).grid.width as int,
                    Move {
                        mark: true,
                        x: old(board).cursor.x as int,
                        y: old(board).cursor.y as int,
                    },
                );
                &&& final(board).grid.cells@ == s.0
                &&& final(board).lives as int == s.1
                &&& final(board).cursor == old(board).cursor
                &&& r == if s.2 {
                    StepResult::Continue(StepEffect::CellChanged)
                } else {
                    StepResult::Finished(SessionOutcome::Exit)
                }
            }),
            Key::Clear => ({
                let s = apply_move(
                    old(board).grid.cells@,
                    old(board).lives as int,
                    old(board).grid.width as int,
                    Move {
                        mark: false,
                        x: old(board).cursor.x as int,
                        y: old(board).cursor.y as int,
                    },
                );
                &&& final(board).grid.cells@ == s.0
                &&& final(board).lives as int == s.1
                &&& final(board).cursor == old(board).cursor
                &&& r == if s.2 {
                    StepResult::Continue(StepEffect::CellChanged)
                } else {
                    StepResult::Finished(SessionOutcome::Exit)
                }
            }),
            Key::Left => ({
                &&& final(board).grid == old(board).grid
                &&& final(board).lives == old(board).lives
                &&& final(board).cursor.y == old(board).cursor.y
                &&& final(board).cursor.x == if old(board).cursor.x > 0 {
                    old(board).cursor.x - 1
                } else {
                    0
                }
                &&& r == StepResult::Continue(
                    StepEffect::CursorMoved {
                        prev_x: old(board).cursor.x,
                        prev_y: old(board).cursor.y,
                    },
                )
            }),
            Key::Right => ({
                &&& final(board).grid == old(board).grid
                &&& final(board).lives == old(board).lives
                &&& final(board).cursor.y == old(board).cursor.y
                &&& final(board).cursor.x == if old(board).cursor.x < old(board).cursor.max_x {
                    old(board).cursor.x + 1
                } else {
                    old(board).cursor.x as int
                }
                &&& r == StepResult::Continue(
                    StepEffect::CursorMoved {
                        prev_x: old(board).cursor.x,
                        prev_y: old(board).cursor.y,
                    },
                )
            }),
            Key::Up => ({
                &&& final(board).grid == old(board).grid
                &&& final(board).lives == old(board).lives
                &&& final(board).cursor.x == old(board).cursor.x
                &&& final(board).cursor.y == if old(board).cursor.y > 0 {
                    old(board).cursor.y - 1
                } else {
                    0
                }
                &&& r == StepResult::Continue(
                    StepEffect::CursorMoved {
                        prev_x: old(board).cursor.x,
                        prev_y: old(board).cursor.y,
                    },
                )
            }),
            Key::Down => ({
                &&& final(board).grid == old(board).grid
                &&& final(board).lives == old(board).lives
                &&& final(board).cursor.x == old(board).cursor.x
                &&& final(board).cursor.y == if old(board).cursor.y < old(board).cursor.max_y {
                    old(board).cursor.y + 1
                } else {
                    old(board).cursor.y as int
                }
                &&& r == StepResult::Continue(
                    StepEffect::CursorMoved {
                        prev_x: old(board).cursor.x,
                        prev_y: old(board).cursor.y,
                    },
                )
            }),
            Key::Other => *final(board) == *old(board) && r == StepResult::Continue(
                StepEffect::Refresh,
            ),
        },
    {
    match key {
        Key::Quit => StepResult::Finished(SessionOutcome::Exit),
        Key::Restart => StepResult::Finished(SessionOutcome::Restart),
        Key::Mark => {
            let x = board.cursor.x;
            let y = board.cursor.y;
            match board.mark(x, y) {
                Ok(()) => StepResult::Continue(StepEffect::CellChanged),
                Err(_) => StepResult::Finished(SessionOutcome::Exit),
            }
        },
        Key::Clear => {
            let x = board.cursor.x;
            let y = board.cursor.y;
            match board.none(x, y) {
                Ok(()) => StepResult::Continue(StepEffect::CellChanged),
                Err(_) => StepResult::Finished(SessionOutcome::Exit),
            }
        },
        Key::Left => {
            let prev_x = board.cursor.x;
            let prev_y = board.cursor.y;
            board.cursor.left();
            StepResult::Continue(StepEffect::CursorMoved { prev_x, prev_y })
        },
        Key::Right => {
            let prev_x = board.cursor.x;
            let prev_y = board.cursor.y;
            board.cursor.right();
            StepResult::Continue(StepEffect::CursorMoved { prev_x, prev_y })
        },
        Key::Up => {
            let prev_x = board.cursor.x;
            let prev_y = board.cursor.y;
            board.cursor.up();
            StepResult::Continue(StepEffect::CursorMoved { prev_x, prev_y })
        },
        Key::Down => {
            let prev_x = board.cursor.x;
            let prev_y = board.cursor.y;
            board.cursor.down();
            StepResult::Continue(StepEffect::CursorMoved { prev_x, prev_y })
        },
        Key::Other => StepResult::Continue(StepEffect::Refresh),
    }
}

} // verus!
