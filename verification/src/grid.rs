use vstd::prelude::*;

verus! {

use crate::cell::{Cell, Status};
use crate::line::{
    Line, line_actives, indications_of, max_clue_space, get_indications_max_char_space_needed_lines,
};

/// The cell a flat, row-major store holds for position `(x, y)`.
pub open spec fn cell_at_in(cells: Seq<Cell>, width: int, x: int, y: int) -> Cell {
    cells[x + y * width]
}

/// The hidden activity bits of row `y`, in column order.
pub open spec fn row_actives_of(cells: Seq<Cell>, width: int, y: int) -> Seq<bool> {
    Seq::new(width as nat, |x: int| cell_at_in(cells, width, x, y).active)
}

/// The hidden activity bits of column `x`, in row order.
pub open spec fn col_actives_of(cells: Seq<Cell>, width: int, height: int, x: int) -> Seq<bool> {
    Seq::new(height as nat, |y: int| cell_at_in(cells, width, x, y).active)
}

proof fn lemma_dims_bound(width: int, height: int)
    requires
        1 <= width <= 0xFFFF,
        1 <= height <= 0xFFFF,
    ensures
        1 <= width * height <= 0xFFFE0001,
{
    assert(1 <= width * height <= 0xFFFE0001) by (nonlinear_arith)
        requires
            1 <= width <= 0xFFFF,
            1 <= height <= 0xFFFF,
    ;
}

proof fn lemma_idx_in_range(x: int, y: int, width: int, height: int)
    requires
        0 <= x < width,
        0 <= y < height,
    ensures
        0 <= x + y * width < width * height,
{
    assert(0 <= x + y * width && x + y * width < width * height) by (nonlinear_arith)
        requires
            0 <= x < width,
            0 <= y < height,
    ;
}

proof fn lemma_pair_index_lt(xx: int, yy: int, x: int, y: int, width: int)
    requires
        0 <= xx < width,
        0 <= yy,
        0 <= x,
        yy < y || (yy == y && xx < x),
    ensures
        0 <= xx + yy * width < x + y * width,
{
    assert(0 <= xx + yy * width && xx + yy * width < x + y * width) by (nonlinear_arith)
        requires
            0 <= xx < width,
            0 <= yy,
            0 <= x,
            yy < y || (yy == y && xx < x),
    ;
}

/// The playing field: a flat, row-major store of cells, plus the row lines
/// and column lines that view that store through index lists. Row `y` at
/// column `x` and column `x` at row `y` both resolve to store index
/// `x + y * width`, so the cell they reach is the identical object.
#[derive(Debug)]
pub struct Grid {
    pub width: usize,
    pub height: usize,
    pub cells: Vec<Cell>,
    pub rows: Vec<Line>,
    pub columns: Vec<Line>,
}

impl Grid {
    /// The cell stored for position `(x, y)`.
    pub open spec fn cell_at(self, x: int, y: int) -> Cell {
        cell_at_in(self.cells@, self.width as int, x, y)
    }

    pub open spec fn row_actives(self, y: int) -> Seq<bool> {
        row_actives_of(self.cells@, self.width as int, y)
    }

    pub open spec fn col_actives(self, x: int) -> Seq<bool> {
        col_actives_of(self.cells@, self.width as int, self.height as int, x)
    }

    /// Well-formedness: the store holds `width * height` cells that know
    /// their own coordinates; the row and column lines index the store so
    /// that both views of a position share one cell; and every line caches
    /// exactly the indications derived from the hidden activity pattern.
    pub open spec fn wf(self) -> bool {
        &&& 1 <= self.width <= 0xFFFF
        &&& 1 <= self.height <= 0xFFFF
        &&& self.cells@.len() == self.width * self.height
        &&& forall|x: int, y: int|
            0 <= x < self.width && 0 <= y < self.height ==> (#[trigger] self.cell_at(x, y)).x == x
                && self.cell_at(x, y).y == y
        &&& self.rows@.len() == self.height
        &&& forall|y: int|
            0 <= y < self.height ==> {
                let r = #[trigger] self.rows@[y];
                &&& r.cells@.len() == self.width
                &&& r.space_equivalent == 2
                &&& r.bounded()
                &&& r.indications@.len() <= self.width
                &&& r.inds() == indications_of(self.row_actives(y))
            }
        &&& forall|x: int, y: int|
            0 <= x < self.width && 0 <= y < self.height ==> (#[trigger] self.rows@[y].cells@[x])
                == x + y * self.width
        &&& self.columns@.len() == self.width
        &&& forall|x: int|
            0 <= x < self.width ==> {
                let c = #[trigger] self.columns@[x];
                &&& c.cells@.len() == self.height
                &&& c.space_equivalent == 1
                &&& c.bounded()
                &&& c.indications@.len() <= self.height
                &&& c.inds() == indications_of(self.col_actives(x))
            }
        &&& forall|x: int, y: int|
            0 <= x < self.width && 0 <= y < self.height ==> (#[trigger] self.columns@[x].cells@[y])
                == x + y * self.width
    }

    /// A grid whose hidden pattern is drawn cell by cell at random.
    pub fn new(width: usize, height: usize) -> (g: Grid)
        requires
            1 <= width <= 0xFFFF,
            1 <= height <= 0xFFFF,
        ensures
            g.wf(),
            g.width == width,
            g.height == height,
            forall|x: int, y: int|
                0 <= x < width && 0 <= y < height ==> (#[trigger] g.cell_at(x, y)).status
                    == Status::EMPTY,
    {
        let mut cells: Vec<Cell> = Vec::new();
        let mut y: usize = 0;
        while y < height
            invariant
                1 <= width <= 0xFFFF,
                1 <= height <= 0xFFFF,
                y <= height,
                cells@.len() == y * width,
                forall|xx: int, yy: int|
                    0 <= xx < width && 0 <= yy < y ==> {
                        let c = #[trigger] cell_at_in(cells@, width as int, xx, yy);
                        &&& c.x == xx
                        &&& c.y == yy
                        &&& c.status == Status::EMPTY
                    },
            decreases height - y,
        {
            let mut x: usize = 0;
            while x < width
                invariant
                    1 <= width <= 0xFFFF,
                    1 <= height <= 0xFFFF,
                    y < height,
                    x <= width,
                    cells@.len() == y * width + x,
                    forall|xx: int, yy: int|
                        (0 <= xx < width && 0 <= yy < y) || (0 <= xx < x && yy == y) ==> {
                            let c = #[trigger] cell_at_in(cells@, width as int, xx, yy);
                            &&& c.x == xx
                            &&& c.y == yy
                            &&& c.status == Status::EMPTY
                        },
                decreases width - x,
            {
                let ghost cells0: Seq<Cell> = cells@;
                let c = Cell::new(x, y);
                cells.push(c);
                proof {
                    assert forall|xx: int, yy: int|
                        (0 <= xx < width && 0 <= yy < y) || (0 <= xx <= x && yy == y) implies {
                        let cc = #[trigger] cell_at_in(cells@, width as int, xx, yy);
                        cc.x == xx && cc.y == yy && cc.status == Status::EMPTY
                    } by {
                        let k = xx + yy * (width as int);
                        if yy < y || xx < x {
                            lemma_pair_index_lt(xx, yy, x as int, y as int, width as int);
                            assert(cell_at_in(cells0, width as int, xx, yy) == cells0[k]);
                            assert(cells@[k] == cells0.push(c)[k]);
                            assert(cells@[k] == cells0[k]);
                        } else {
                            assert(k == cells0.len());
                            assert(cells@[k] == c);
                        }
                    }
                }
                x += 1;
            }
            proof {
                assert((y as int + 1) * width == y as int * width + width) by (nonlinear_arith);
            }
            y += 1;
        }
        proof {
            assert(height as int * width as int == width as int * height as int)
                by (nonlinear_arith);
        }
        Grid::from_cells(width, height, cells)
    }

    /// A grid with the given hidden pattern, row-major: the bit for position
    /// `(x, y)` is `pattern[x + y * width]`. This is the deterministic core
    /// of grid construction; `new` feeds it randomness one cell at a time.
    pub fn from_pattern(width: usize, height: usize, pattern: &Vec<bool>) -> (g: Grid)
        requires
            1 <= width <= 0xFFFF,
            1 <= height <= 0xFFFF,
            pattern@.len() == width * height,
        ensures
            g.wf(),
            g.width == width,
            g.height == height,
            forall|x: int, y: int|
                0 <= x < width && 0 <= y < height ==> (#[trigger] g.cell_at(x, y)).status
                    == Status::EMPTY,
            forall|x: int, y: int|
                0 <= x < width && 0 <= y < height ==> (#[trigger] g.cell_at(x, y)).active
                    == pattern@[x + y * width],
    {
        let mut cells: Vec<Cell> = Vec::new();
        let mut y: usize = 0;
        while y < height
            invariant
                1 <= width <= 0xFFFF,
                1 <= height <= 0xFFFF,
                pattern@.len() == width * height,
                y <= height,
                cells@.len() == y * width,
                cells@.len() <= pattern@.len(),
                forall|k: int| 0 <= k < cells@.len() ==> (#[trigger] cells@[k]).active == pattern@[k],
                forall|xx: int, yy: int|
                    0 <= xx < width && 0 <= yy < y ==> {
                        let c = #[trigger] cell_at_in(cells@, width as int, xx, yy);
                        &&& c.x == xx
                        &&& c.y == yy
                        &&& c.status == Status::EMPTY
                    },
            decreases height - y,
        {
            proof {
                lemma_idx_in_range(0, y as int, width as int, height as int);
            }
            let mut x: usize = 0;
            while x < width
                invariant
                    1 <= width <= 0xFFFF,
                    1 <= height <= 0xFFFF,
                    pattern@.len() == width * height,
                    y < height,
                    x <= width,
                    cells@.len() == y * width + x,
                    cells@.len() <= pattern@.len(),
                    forall|k: int|
                        0 <= k < cells@.len() ==> (#[trigger] cells@[k]).active == pattern@[k],
                    forall|xx: int, yy: int|
                        (0 <= xx < width && 0 <= yy < y) || (0 <= xx < x && yy == y) ==> {
                            let c = #[trigger] cell_at_in(cells@, width as int, xx, yy);
                            &&& c.x == xx
                            &&& c.y == yy
                            &&& c.status == Status::EMPTY
                        },
                decreases width - x,
            {
                proof {
                    lemma_dims_bound(width as int, height as int);
                    lemma_idx_in_range(x as int, y as int, width as int, height as int);
                }
                let ghost cells0: Seq<Cell> = cells@;
                let c = Cell { x, y, status: Status::EMPTY, active: pattern[y * width + x] };
                cells.push(c);
                proof {
                    assert forall|xx: int, yy: int|
                        (0 <= xx < width && 0 <= yy < y) || (0 <= xx <= x && yy == y) implies {
                        let cc = #[trigger] cell_at_in(cells@, width as int, xx, yy);
                        cc.x == xx && cc.y == yy && cc.status == Status::EMPTY
                    } by {
                        let k = xx + yy * (width as int);
                        if yy < y || xx < x {
                            lemma_pair_index_lt(xx, yy, x as int, y as int, width as int);
                            assert(cell_at_in(cells0, width as int, xx, yy) == cells0[k]);
                            assert(cells@[k] == cells0.push(c)[k]);
                            assert(cells@[k] == cells0[k]);
                        } else {
                            assert(k == cells0.len());
                            assert(cells@[k] == c);
                        }
                    }
                }
                x += 1;
            }
            proof {
                assert((y as int + 1) * width == y as int * width + width) by (nonlinear_arith);
            }
            y += 1;
        }
        proof {
            assert(height as int * width as int == width as int * height as int)
                by (nonlinear_arith);
        }
        let g = Grid::from_cells(width, height, cells);
        proof {
            assert forall|x: int, y: int| 0 <= x < width && 0 <= y < height implies (
            #[trigger] g.cell_at(x, y)).active == pattern@[x + y * width] by {
                lemma_idx_in_range(x, y, width as int, height as int);
            }
        }
        g
    }

    /// Build the row and column lines over a finished cell store and compute
    /// every line's indications exactly once.
    fn from_cells(width: usize, height: usize, cells: Vec<Cell>) -> (g: Grid)
        requires
            1 <= width <= 0xFFFF,
            1 <= height <= 0xFFFF,
            cells@.len() == width * height,
            forall|x: int, y: int|
                0 <= x < width && 0 <= y < height ==> {
                    let c = #[trigger] cell_at_in(cells@, width as int, x, y);
                    c.x == x && c.y == y
                },
        ensures
            g.wf(),
            g.width == width,
            g.height == height,
            g.cells@ == cells@,
    {
        let mut rows: Vec<Line> = Vec::new();
        let mut j: usize = 0;
        while j < height
            invariant
                1 <= width <= 0xFFFF,
                1 <= height <= 0xFFFF,
                cells@.len() == width * height,
                j <= height,
                rows@.len() == j,
                forall|y: int|
                    0 <= y < j ==> {
                        let r = #[trigger] rows@[y];
                        &&& r.cells@.len() == width
                        &&& r.space_equivalent == 2
                        &&& r.bounded()
                        &&& r.indications@.len() <= width
                        &&& r.inds() == indications_of(row_actives_of(cells@, width as int, y))
                    },
                forall|x: int, y: int|
                    0 <= x < width && 0 <= y < j ==> (#[trigger] rows@[y].cells@[x]) == x + y
                        * width,
            decreases height - j,
        {
            let mut line = Line::new(width, 2);
            proof {
                lemma_dims_bound(width as int, height as int);
            }
            let mut i: usize = 0;
            while i < width
                invariant
                    1 <= width <= 0xFFFF,
                    1 <= height <= 0xFFFF,
                    cells@.len() == width * height,
                    cells@.len() >= 1,
                    j < height,
                    i <= width,
                    line.cells@.len() == width,
                    line.indications@.len() == 0,
                    line.space_equivalent == 2,
                    forall|x: int| 0 <= x < i ==> (#[trigger] line.cells@[x]) == x + j * width,
                    forall|x: int| 0 <= x < width ==> (#[trigger] line.cells@[x]) < cells@.len(),
                decreases width - i,
            {
                proof {
                    lemma_dims_bound(width as int, height as int);
                    lemma_idx_in_range(i as int, j as int, width as int, height as int);
                }
                line.cells[i] = j * width + i;
                i += 1;
            }
            line.update_indications(&cells);
            proof {
                assert(line_actives(line.cells@, cells@) =~= row_actives_of(
                    cells@,
                    width as int,
                    j as int,
                ));
            }
            rows.push(line);
            j += 1;
        }
        let mut columns: Vec<Line> = Vec::new();
        let mut i: usize = 0;
        while i < width
            invariant
                1 <= width <= 0xFFFF,
                1 <= height <= 0xFFFF,
                cells@.len() == width * height,
                i <= width,
                columns@.len() == i,
                forall|x: int|
                    0 <= x < i ==> {
                        let c = #[trigger] columns@[x];
                        &&& c.cells@.len() == height
                        &&& c.space_equivalent == 1
                        &&& c.bounded()
                        &&& c.indications@.len() <= height
                        &&& c.inds() == indications_of(
                            col_actives_of(cells@, width as int, height as int, x),
                        )
                    },
                forall|x: int, y: int|
                    0 <= x < i && 0 <= y < height ==> (#[trigger] columns@[x].cells@[y]) == x + y
                        * width,
            decreases width - i,
        {
            let mut line = Line::new(height, 1);
            proof {
                lemma_dims_bound(width as int, height as int);
            }
            let mut j2: usize = 0;
            while j2 < height
                invariant
                    1 <= width <= 0xFFFF,
                    1 <= height <= 0xFFFF,
                    cells@.len() == width * height,
                    cells@.len() >= 1,
                    i < width,
                    j2 <= height,
                    line.cells@.len() == height,
                    line.indications@.len() == 0,
                    line.space_equivalent == 1,
                    forall|y: int| 0 <= y < j2 ==> (#[trigger] line.cells@[y]) == i + y * width,
                    forall|y: int| 0 <= y < height ==> (#[trigger] line.cells@[y]) < cells@.len(),
                decreases height - j2,
            {
                proof {
                    lemma_dims_bound(width as int, height as int);
                    lemma_idx_in_range(i as int, j2 as int, width as int, height as int);
                }
                line.cells[j2] = j2 * width + i;
                j2 += 1;
            }
            line.update_indications(&cells);
            proof {
                assert(line_actives(line.cells@, cells@) =~= col_actives_of(
                    cells@,
                    width as int,
                    height as int,
                    i as int,
                ));
            }
            columns.push(line);
            i += 1;
        }
        Grid { width, height, cells, rows, columns }
    }

    /// Read access to the cell at in-bounds coordinates `(x, y)`.
    pub fn get_cell(&self, x: usize, y: usize) -> (c: &Cell)
        requires
            self.wf(),
            x < self.width,
            y < self.height,
        ensures
            *c == self.cell_at(x as int, y as int),
    {
        proof {
            lemma_dims_bound(self.width as int, self.height as int);
            lemma_idx_in_range(x as int, y as int, self.width as int, self.height as int);
        }
        &self.cells[y * self.width + x]
    }

    /// Write access to the cell at in-bounds coordinates `(x, y)`. Whatever
    /// the caller writes through the reference is what the store then holds
    /// at `x + y * width`; the lines and dimensions are untouched.
    pub fn get_cell_mut(&mut self, x: usize, y: usize) -> (c: &mut Cell)
        requires
            old(self).wf(),
            x < old(self).width,
            y < old(self).height,
        ensures
            *c == old(self).cell_at(x as int, y as int),
            final(self).cells@ == old(self).cells@.update(
                x + y * old(self).width,
                *final(c),
            ),
            final(self).width == old(self).width,
            final(self).height == old(self).height,
            final(self).rows == old(self).rows,
            final(self).columns == old(self).columns,
    {
        proof {
            lemma_dims_bound(self.width as int, self.height as int);
            lemma_idx_in_range(x as int, y as int, self.width as int, self.height as int);
        }
        let idx = y * self.width + x;
        &mut self.cells[idx]
    }

    /// The row line for `y`: `Some` exactly when `y` is in bounds.
    pub fn get_row(&self, y: usize) -> (r: Option<&Line>)
        ensures
            y < self.rows@.len() ==> (r matches Some(line) && *line == self.rows@[y as int]),
            y >= self.rows@.len() ==> r is None,
    {
        if y < self.rows.len() {
            Some(&self.rows[y])
        } else {
            None
        }
    }

    /// The column line for `x`: `Some` exactly when `x` is in bounds.
    pub fn get_column(&self, x: usize) -> (r: Option<&Line>)
        ensures
            x < self.columns@.len() ==> (r matches Some(line) && *line
                == self.columns@[x as int]),
            x >= self.columns@.len() ==> r is None,
    {
        if x < self.columns.len() {
            Some(&self.columns[x])
        } else {
            None
        }
    }

    /// Updating one cell without touching its coordinates or its hidden bit
    /// preserves well-formedness and leaves every cached indication valid:
    /// the clues derive from the hidden pattern alone.
    pub proof fn lemma_wf_after_status_update(g: Grid, g2: Grid, x: int, y: int, c: Cell)
        requires
            g.wf(),
            0 <= x < g.width,
            0 <= y < g.height,
            g2.width == g.width,
            g2.height == g.height,
            g2.rows == g.rows,
            g2.columns == g.columns,
            g2.cells@ == g.cells@.update(x + y * g.width, c),
            c.x == g.cell_at(x, y).x,
            c.y == g.cell_at(x, y).y,
            c.active == g.cell_at(x, y).active,
        ensures
            g2.wf(),
            forall|xx: int, yy: int|
                0 <= xx < g.width && 0 <= yy < g.height ==> #[trigger] g2.cell_at(xx, yy) == (
                if xx == x && yy == y {
                    c
                } else {
                    g.cell_at(xx, yy)
                }),
    {
        let w = g.width as int;
        let h = g.height as int;
        let idx = x + y * w;
        lemma_idx_in_range(x, y, w, h);
        assert forall|xx: int, yy: int| 0 <= xx < w && 0 <= yy < h implies #[trigger] g2.cell_at(
            xx,
            yy,
        ) == (if xx == x && yy == y {
            c
        } else {
            g.cell_at(xx, yy)
        }) by {
            let k = xx + yy * w;
            lemma_idx_in_range(xx, yy, w, h);
            assert(g.cell_at(xx, yy).x == xx && g.cell_at(xx, yy).y == yy);
            if k == idx {
                assert(g.cell_at(xx, yy) == g.cells@[idx]);
                assert(g.cell_at(x, y) == g.cells@[idx]);
                assert(xx == x && yy == y);
                assert(g2.cells@[k] == c);
            } else {
                assert(g2.cells@[k] == g.cells@[k]);
            }
        }
        assert forall|yy: int| 0 <= yy < h implies #[trigger] g2.row_actives(yy) == g.row_actives(
            yy,
        ) by {
            assert(g2.row_actives(yy) =~= g.row_actives(yy)) by {
                assert forall|xx: int| 0 <= xx < w implies #[trigger] cell_at_in(
                    g2.cells@,
                    w,
                    xx,
                    yy,
                ).active == cell_at_in(g.cells@, w, xx, yy).active by {
                    assert(g2.cell_at(xx, yy) == (if xx == x && yy == y {
                        c
                    } else {
                        g.cell_at(xx, yy)
                    }));
                }
            }
        }
        assert forall|xx: int| 0 <= xx < w implies #[trigger] g2.col_actives(xx) == g.col_actives(
            xx,
        ) by {
            assert(g2.col_actives(xx) =~= g.col_actives(xx)) by {
                assert forall|yy: int| 0 <= yy < h implies #[trigger] cell_at_in(
                    g2.cells@,
                    w,
                    xx,
                    yy,
                ).active == cell_at_in(g.cells@, w, xx, yy).active by {
                    assert(g2.cell_at(xx, yy) == (if xx == x && yy == y {
                        c
                    } else {
                        g.cell_at(xx, yy)
                    }));
                }
            }
        }
    }

    /// The widest row-clue string, which sizes the left margin.
    pub fn get_indications_max_char_space_needed_rows(&self) -> (r: usize)
        requires
            self.wf(),
        ensures
            r == max_clue_space(self.rows@),
    {
        get_indications_max_char_space_needed_lines(&self.rows)
    }

    /// The widest column-clue string, which sizes the top margin.
    pub fn get_indications_max_char_space_needed_columns(&self) -> (r: usize)
        requires
            self.wf(),
        ensures
            r == max_clue_space(self.columns@),
    {
        get_indications_max_char_space_needed_lines(&self.columns)
    }
}

} // verus!
