use vstd::prelude::*;

verus! {

use crate::cell::{Cell, Status, NonogramErrors, cell_after_mark, cell_after_none};
use crate::grid::{Grid, cell_at_in, row_actives_of, col_actives_of};
use crate::line::indications_of;

/// The player's position, clamped to `[0, max_x] × [0, max_y]`. Directional
/// moves saturate at the boundary: they never wrap and never fail.
#[derive(Debug)]
pub struct Cursor {
    pub x: usize,
    pub y: usize,
    pub max_x: usize,
    pub max_y: usize,
}

impl Cursor {
    pub open spec fn wf(self) -> bool {
        self.x <= self.max_x && self.y <= self.max_y
    }

    pub fn left(&mut self)
        ensures
            final(self).x == if old(self).x > 0 {
                old(self).x - 1
            } else {
                0
            },
            final(self).y == old(self).y,
            final(self).max_x == old(self).max_x,
            final(self).max_y == old(self).max_y,
            old(self).wf() ==> final(self).wf(),
    {
        if self.x > 0 {
            self.x -= 1;
        }
    }

    pub fn right(&mut self)
        ensures
            final(self).x == if old(self).x < old(self).max_x {
                old(self).x + 1
            } else {
                old(self).x as int
            },
            final(self).y == old(self).y,
            final(self).max_x == old(self).max_x,
            final(self).max_y == old(self).max_y,
            old(self).wf() ==> final(self).wf(),
    {
        if self.x < self.max_x {
            self.x += 1;
        }
    }

    pub fn up(&mut self)
        ensures
            final(self).y == if old(self).y > 0 {
                old(self).y - 1
            } else {
                0
            },
            final(self).x == old(self).x,
            final(self).max_x == old(self).max_x,
            final(self).max_y == old(self).max_y,
            old(self).wf() ==> final(self).wf(),
    {
        if self.y > 0 {
            self.y -= 1;
        }
    }

    pub fn down(&mut self)
        ensures
            final(self).y == if old(self).y < old(self).max_y {
                old(self).y + 1
            } else {
                old(self).y as int
            },
            final(self).x == old(self).x,
            final(self).max_x == old(self).max_x,
            final(self).max_y == old(self).max_y,
            old(self).wf() ==> final(self).wf(),
    {
        if self.y < self.max_y {
            self.y += 1;
        }
    }
}

/// One player action, at specification level: a mark (`mark == true`) or a
/// clear (`mark == false`) at position `(x, y)`.
pub ghost struct Move {
    pub mark: bool,
    pub x: int,
    pub y: int,
}

/// Whether the move targets a cell on which it is wrong: an `EMPTY` cell
/// whose hidden bit contradicts the action.
pub open spec fn move_is_wrong(cells: Seq<Cell>, width: int, mv: Move) -> bool {
    let c = cell_at_in(cells, width, mv.x, mv.y);
    c.status == Status::EMPTY && (if mv.mark {
        !c.active
    } else {
        c.active
    })
}

/// The board-level outcome of one move on a flat cell store and a lives
/// count: the new store, the new lives count, and whether the move is
/// reported a success. A wrong move costs one life and is absorbed as a
/// success exactly while lives remain; a right move applies the cell's own
/// transition and never costs a life.
pub open spec fn apply_move(cells: Seq<Cell>, lives: int, width: int, mv: Move) -> (
    Seq<Cell>,
    int,
    bool,
) {
    let c = cell_at_in(cells, width, mv.x, mv.y);
    if move_is_wrong(cells, width, mv) {
        (cells, lives - 1, lives - 1 > 0)
    } else if mv.mark {
        (cells.update(mv.x + mv.y * width, cell_after_mark(c)), lives, true)
    } else {
        (cells.update(mv.x + mv.y * width, cell_after_none(c)), lives, true)
    }
}

/// The store and lives count after a whole sequence of moves.
pub open spec fn apply_moves(cells: Seq<Cell>, lives: int, width: int, mvs: Seq<Move>) -> (
    Seq<Cell>,
    int,
)
    decreases mvs.len(),
{
    if mvs.len() == 0 {
        (cells, lives)
    } else {
        let s = apply_move(cells, lives, width, mvs[0]);
        apply_moves(s.0, s.1, width, mvs.drop_first())
    }
}

/// Whether a move's coordinates lie on the grid; the interaction loop only
/// ever issues such moves.
pub open spec fn move_in_bounds(mv: Move, width: int, height: int) -> bool {
    0 <= mv.x < width && 0 <= mv.y < height
}

/// No sequence of in-bounds moves ever touches a cell's coordinates or its
/// hidden bit: moves change statuses and lives at most.
pub proof fn lemma_moves_preserve_pattern(
    cells: Seq<Cell>,
    lives: int,
    width: int,
    height: int,
    mvs: Seq<Move>,
)
    requires
        cells.len() == width * height,
        1 <= width,
        1 <= height,
        forall|i: int| 0 <= i < mvs.len() ==> move_in_bounds(#[trigger] mvs[i], width, height),
    ensures
        apply_moves(cells, lives, width, mvs).0.len() == cells.len(),
        forall|k: int|
            0 <= k < cells.len() ==> {
                let c2 = #[trigger] apply_moves(cells, lives, width, mvs).0[k];
                c2.x == cells[k].x && c2.y == cells[k].y && c2.active == cells[k].active
            },
    decreases mvs.len(),
{
    if mvs.len() > 0 {
        let s = apply_move(cells, lives, width, mvs[0]);
        assert(move_in_bounds(mvs[0], width, height));
        lemma_pos_in_range(mvs[0].x, mvs[0].y, width, height);
        assert(s.0.len() == cells.len());
        assert forall|i: int| 0 <= i < mvs.drop_first().len() implies move_in_bounds(
            #[trigger] mvs.drop_first()[i],
            width,
            height,
        ) by {
            assert(mvs.drop_first()[i] == mvs[i + 1]);
        }
        lemma_moves_preserve_pattern(s.0, s.1, width, height, mvs.drop_first());
        assert forall|k: int| 0 <= k < cells.len() implies {
            let c1 = #[trigger] s.0[k];
            c1.x == cells[k].x && c1.y == cells[k].y && c1.active == cells[k].active
        } by {
            let c = cell_at_in(cells, width, mvs[0].x, mvs[0].y);
            if !move_is_wrong(cells, width, mvs[0]) && k == mvs[0].x + mvs[0].y * width {
                assert(s.0[k] == if mvs[0].mark {
                    cell_after_mark(c)
                } else {
                    cell_after_none(c)
                });
            }
        }
        let rest = mvs.drop_first();
        assert forall|k: int| 0 <= k < cells.len() implies {
            let c2 = #[trigger] apply_moves(cells, lives, width, mvs).0[k];
            c2.x == cells[k].x && c2.y == cells[k].y && c2.active == cells[k].active
        } by {
            assert(apply_moves(cells, lives, width, mvs).0 == apply_moves(s.0, s.1, width, rest).0);
            assert(apply_moves(s.0, s.1, width, rest).0[k].x == s.0[k].x && apply_moves(
                s.0,
                s.1,
                width,
                rest,
            ).0[k].y == s.0[k].y && apply_moves(s.0, s.1, width, rest).0[k].active == s.0[k].active);
        }
    }
}

/// The indications of every row and every column are invariant under any
/// sequence of mark/clear moves: they are a pure function of the hidden
/// activity pattern fixed at grid construction, never of player state.
pub proof fn lemma_indications_invariant(
    cells: Seq<Cell>,
    lives: int,
    width: int,
    height: int,
    mvs: Seq<Move>,
    x: int,
    y: int,
)
    requires
        cells.len() == width * height,
        1 <= width,
        1 <= height,
        0 <= x < width,
        0 <= y < height,
        forall|i: int| 0 <= i < mvs.len() ==> move_in_bounds(#[trigger] mvs[i], width, height),
    ensures
        indications_of(row_actives_of(apply_moves(cells, lives, width, mvs).0, width, y))
            == indications_of(row_actives_of(cells, width, y)),
        indications_of(
            col_actives_of(apply_moves(cells, lives, width, mvs).0, width, height, x),
        ) == indications_of(col_actives_of(cells, width, height, x)),
{
    let after = apply_moves(cells, lives, width, mvs).0;
    lemma_moves_preserve_pattern(cells, lives, width, height, mvs);
    assert(row_actives_of(after, width, y) =~= row_actives_of(cells, width, y)) by {
        assert forall|xx: int| 0 <= xx < width implies #[trigger] cell_at_in(
            after,
            width,
            xx,
            y,
        ).active == cell_at_in(cells, width, xx, y).active by {
            lemma_pos_in_range(xx, y, width, height);
        }
    }
    assert(col_actives_of(after, width, height, x) =~= col_actives_of(cells, width, height, x))
        by {
        assert forall|yy: int| 0 <= yy < height implies #[trigger] cell_at_in(
            after,
            width,
            x,
            yy,
        ).active == cell_at_in(cells, width, x, yy).active by {
            lemma_pos_in_range(x, yy, width, height);
        }
    }
}

proof fn lemma_pos_in_range(x: int, y: int, width: int, height: int)
    requires
        0 <= x < width,
        0 <= y < height,
    ensures
        0 <= x + y * width < width * height,
{
    assert(0 <= x + y * width && x + y * width < width * height) by (nonlinear_arith)
        requires
            0 <= x < width,
            0 <= y < height,
    ;
}

/// The error budget: a run of wrong moves leaves the cells untouched, costs
/// one life each, and with an initial budget of `lives` the k-th wrong move
/// (1-based) is reported a success exactly when k < lives — so the budget
/// tolerates exactly `lives - 1` wrong moves and the `lives`-th is fatal,
/// whichever cells they target.
pub proof fn lemma_lives_budget(cells: Seq<Cell>, lives: int, width: int, mvs: Seq<Move>)
    requires
        mvs.len() <= lives,
        forall|i: int| 0 <= i < mvs.len() ==> move_is_wrong(cells, width, #[trigger] mvs[i]),
    ensures
        apply_moves(cells, lives, width, mvs).0 == cells,
        apply_moves(cells, lives, width, mvs).1 == lives - mvs.len(),
        forall|k: int|
            0 <= k < mvs.len() ==> (#[trigger] apply_move(cells, lives - k, width, mvs[k]).2 <==> k
                + 1 < lives),
    decreases mvs.len(),
{
    if mvs.len() > 0 {
        let rest = mvs.drop_first();
        assert(apply_move(cells, lives, width, mvs[0]).0 == cells);
        assert forall|i: int| 0 <= i < rest.len() implies move_is_wrong(
            cells,
            width,
            #[trigger] rest[i],
        ) by {
            assert(rest[i] == mvs[i + 1]);
        }
        lemma_lives_budget(cells, lives - 1, width, rest);
        assert forall|k: int| 0 <= k < mvs.len() implies (#[trigger] apply_move(
            cells,
            lives - k,
            width,
            mvs[k],
        ).2 <==> k + 1 < lives) by {
            if k > 0 {
                assert(rest[k - 1] == mvs[k]);
                assert(apply_move(cells, (lives - 1) - (k - 1), width, rest[k - 1]).2 <==> (k - 1)
                    + 1 < lives - 1);
            }
        }
    }
}

/// The per-session aggregate: the grid, the player's cursor, and the
/// remaining error budget.
#[derive(Debug)]
pub struct Board {
    pub grid: Grid,
    pub cursor: Cursor,
    pub lives: u16,
}

impl Board {
    pub open spec fn wf(self) -> bool {
        &&& self.grid.wf()
        &&& self.cursor.wf()
        &&& self.cursor.max_x == self.grid.width - 1
        &&& self.cursor.max_y == self.grid.height - 1
    }

    /// A fresh session: a newly drawn hidden pattern, the cursor at the
    /// origin, and a budget of 3 lives.
    pub fn new(width: usize, height: usize) -> (b: Board)
        requires
            1 <= width <= 0xFFFF,
            1 <= height <= 0xFFFF,
        ensures
            b.wf(),
            b.grid.width == width,
            b.grid.height == height,
            b.lives == 3,
            b.cursor.x == 0,
            b.cursor.y == 0,
            forall|x: int, y: int|
                0 <= x < width && 0 <= y < height ==> (#[trigger] b.grid.cell_at(x, y)).status
                    == Status::EMPTY,
    {
        Board {
            grid: Grid::new(width, height),
            cursor: Cursor { x: 0, y: 0, max_x: width - 1, max_y: height - 1 },
            lives: 3,
        }
    }

    /// A fresh session over an already-built grid; this is how a session
    /// with a chosen hidden pattern is set up.
    pub fn with_grid(grid: Grid) -> (b: Board)
        requires
            grid.wf(),
        ensures
            b.wf(),
            b.grid == grid,
            b.lives == 3,
            b.cursor.x == 0,
            b.cursor.y == 0,
    {
        let max_x = grid.width - 1;
        let max_y = grid.height - 1;
        Board { grid, cursor: Cursor { x: 0, y: 0, max_x, max_y }, lives: 3 }
    }

    /// Mark the cell at `(x, y)` as active. A right move applies the cell's
    /// transition and reports success; a wrong move costs one life, is
    /// absorbed as a success while lives remain, and is fatal — answered
    /// with the wrong-mark error — exactly when the budget hits zero. The
    /// clues, the cursor and the dimensions are untouched either way.
    pub fn mark(&mut self, x: usize, y: usize) -> (r: Result<(), NonogramErrors>)
        requires
            old(self).wf(),
            x < old(self).grid.width,
            y < old(self).grid.height,
            old(self).lives >= 1,
        ensures
            final(self).wf(),
            final(self).grid.width == old(self).grid.width,
            final(self).grid.height == old(self).grid.height,
            final(self).grid.rows == old(self).grid.rows,
            final(self).grid.columns == old(self).grid.columns,
            final(self).cursor == old(self).cursor,
            ({
                let s = apply_move(
                    old(self).grid.cells@,
                    old(self).lives as int,
                    old(self).grid.width as int,
                    Move { mark: true, x: x as int, y: y as int },
                );
                &&& final(self).grid.cells@ == s.0
                &&& final(self).lives as int == s.1
                &&& (r is Ok <==> s.2)
            }),
            r == Ok::<(), NonogramErrors>(()) || r == Err::<(), NonogramErrors>(
                NonogramErrors::PutMarkInWrongSpot { x, y },
            ),
            r is Err ==> final(self).lives == 0,
            !move_is_wrong(
                old(self).grid.cells@,
                old(self).grid.width as int,
                Move { mark: true, x: x as int, y: y as int },
            ) ==> final(self).lives == old(self).lives && r == Ok::<(), NonogramErrors>(()),
    {
        let ghost g0 = self.grid;
        let ghost mv = Move { mark: true, x: x as int, y: y as int };
        let cell = self.grid.get_cell_mut(x, y);
        let res = cell.mark();
        proof {
            Grid::lemma_wf_after_status_update(
                g0,
                self.grid,
                x as int,
                y as int,
                cell_after_mark(g0.cell_at(x as int, y as int)),
            );
            if move_is_wrong(g0.cells@, g0.width as int, mv) {
                lemma_pos_in_range(x as int, y as int, g0.width as int, g0.height as int);
                assert(self.grid.cells@ =~= g0.cells@);
            }
        }
        match res {
            Ok(()) => Ok(()),
            Err(e) => {
                self.lives -= 1;
                if self.lives > 0 {
                    Ok(())
                } else {
                    Err(e)
                }
            },
        }
    }

    /// Clear the cell at `(x, y)` as inactive (the "none" action); the exact
    /// mirror image of `mark`, answering the wrong-clear error when fatal.
    pub fn none(&mut self, x: usize, y: usize) -> (r: Result<(), NonogramErrors>)
        requires
            old(self).wf(),
            x < old(self).grid.width,
            y < old(self).grid.height,
            old(self).lives >= 1,
        ensures
            final(self).wf(),
            final(self).grid.width == old(self).grid.width,
            final(self).grid.height == old(self).grid.height,
            final(self).grid.rows == old(self).grid.rows,
            final(self).grid.columns == old(self).grid.columns,
            final(self).cursor == old(self).cursor,
            ({
                let s = apply_move(
                    old(self).grid.cells@,
                    old(self).lives as int,
                    old(self).grid.width as int,
                    Move { mark: false, x: x as int, y: y as int },
                );
                &&& final(self).grid.cells@ == s.0
                &&& final(self).lives as int == s.1
                &&& (r is Ok <==> s.2)
            }),
            r == Ok::<(), NonogramErrors>(()) || r == Err::<(), NonogramErrors>(
                NonogramErrors::PutNoneInWrongSpot { x, y },
            ),
            r is Err ==> final(self).lives == 0,
            !move_is_wrong(
                old(self).grid.cells@,
                old(self).grid.width as int,
                Move { mark: false, x: x as int, y: y as int },
            ) ==> final(self).lives == old(self).lives && r == Ok::<(), NonogramErrors>(()),
    {
        let ghost g0 = self.grid;
        let ghost mv = Move { mark: false, x: x as int, y: y as int };
        let cell = self.grid.get_cell_mut(x, y);
        let res = cell.none();
        proof {
            Grid::lemma_wf_after_status_update(
                g0,
                self.grid,
                x as int,
                y as int,
                cell_after_none(g0.cell_at(x as int, y as int)),
            );
            if move_is_wrong(g0.cells@, g0.width as int, mv) {
                lemma_pos_in_range(x as int, y as int, g0.width as int, g0.height as int);
                assert(self.grid.cells@ =~= g0.cells@);
            }
        }
        match res {
            Ok(()) => Ok(()),
            Err(e) => {
                self.lives -= 1;
                if self.lives > 0 {
                    Ok(())
                } else {
                    Err(e)
                }
            },
        }
    }
}

} // verus!
