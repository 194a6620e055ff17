use vstd::prelude::*;

mod board;
mod cell;
mod draw;
mod grid;
mod line;

pub use board::Board;
pub use board::Cursor;
pub use cell::Cell;
pub use draw::BoardDisplay;
pub use draw::Key;
pub use draw::SessionOutcome;
pub use draw::StepEffect;
pub use draw::StepResult;
pub use draw::get_cell_corner_bottom_left;
pub use draw::get_cell_corner_bottom_right;
pub use draw::get_cell_corner_top_left;
pub use draw::get_cell_corner_top_right;
pub use draw::step;
pub use cell::NonogramErrors;
pub use cell::Status;
pub use grid::Grid;
pub use line::Line;
pub use line::get_indications_max_char_space_needed_lines;

verus! {

} // verus!
