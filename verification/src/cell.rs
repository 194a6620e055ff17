use vstd::prelude::*;

verus! {

/// The player-visible state of one grid position.
///
/// A cell starts `EMPTY` and can move exactly once, to `MARKED` (the player
/// marked it as active) or to `NONE` (the player cleared it as inactive).
/// Both non-empty states are terminal.
#[derive(Debug, Copy, Clone, PartialEq, Eq, Structural)]
pub enum Status {
    EMPTY,
    NONE,
    MARKED,
}

/// The two recoverable player mistakes, each carrying the coordinates of the
/// cell on which the wrong action was attempted.
#[derive(Debug, Copy, Clone, PartialEq, Eq, Structural)]
pub enum NonogramErrors {
    PutMarkInWrongSpot { x: usize, y: usize },
    PutNoneInWrongSpot { x: usize, y: usize },
}

/// One grid position: its coordinates, the hidden solution bit `active`
/// (fixed at construction), and the player-visible `status`.
#[derive(Debug, Copy, Clone, PartialEq, Eq, Structural)]
pub struct Cell {
    pub x: usize,
    pub y: usize,
    pub status: Status,
    pub active: bool,
}

/// What `mark` leaves behind: an `EMPTY` active cell becomes `MARKED`; every
/// other cell is unchanged.
pub open spec fn cell_after_mark(c: Cell) -> Cell {
    if c.status == Status::EMPTY && c.active {
        Cell { status: Status::MARKED, ..c }
    } else {
        c
    }
}

/// What `mark` reports: the wrong-mark error on an `EMPTY` inactive cell,
/// success everywhere else.
pub open spec fn mark_result(c: Cell) -> Result<(), NonogramErrors> {
    if c.status == Status::EMPTY && !c.active {
        Err(NonogramErrors::PutMarkInWrongSpot { x: c.x, y: c.y })
    } else {
        Ok(())
    }
}

/// What `none` leaves behind: an `EMPTY` inactive cell becomes `NONE`; every
/// other cell is unchanged.
pub open spec fn cell_after_none(c: Cell) -> Cell {
    if c.status == Status::EMPTY && !c.active {
        Cell { status: Status::NONE, ..c }
    } else {
        c
    }
}

/// What `none` reports: the wrong-clear error on an `EMPTY` active cell,
/// success everywhere else.
pub open spec fn none_result(c: Cell) -> Result<(), NonogramErrors> {
    if c.status == Status::EMPTY && c.active {
        Err(NonogramErrors::PutNoneInWrongSpot { x: c.x, y: c.y })
    } else {
        Ok(())
    }
}

/// A cell's status only ever moves `EMPTY` to `MARKED` (under `mark`, when
/// active) or `EMPTY` to `NONE` (under `none`, when inactive); neither action
/// touches the coordinates or the hidden bit.
pub proof fn lemma_cell_transitions(c: Cell)
    ensures
        cell_after_mark(c).status == c.status || (c.status == Status::EMPTY && c.active
            && cell_after_mark(c).status == Status::MARKED),
        cell_after_none(c).status == c.status || (c.status == Status::EMPTY && !c.active
            && cell_after_none(c).status == Status::NONE),
        cell_after_mark(c).x == c.x && cell_after_mark(c).y == c.y && cell_after_mark(c).active
            == c.active,
        cell_after_none(c).x == c.x && cell_after_none(c).y == c.y && cell_after_none(c).active
            == c.active,
{
}

/// A cell that has left `EMPTY` is terminal: re-invoking the same or the
/// other action is a no-op that reports success.
pub proof fn lemma_cell_terminal(c: Cell)
    requires
        c.status != Status::EMPTY,
    ensures
        cell_after_mark(c) == c,
        mark_result(c) == Ok::<(), NonogramErrors>(()),
        cell_after_none(c) == c,
        none_result(c) == Ok::<(), NonogramErrors>(()),
{
}

/// Relies on rand::Rng::gen_range: the result of `gen_range(low..high)` is
/// uniformly distributed in `[low, high)`, so here it is below 10. Nothing
/// more can be promised of a random draw.
#[verifier::external_body]
fn random_digit() -> (r: u32)
    ensures
        r < 10,
{
    rand::Rng::gen_range(&mut rand::thread_rng(), 0u32..10u32)
}

impl Cell {
    /// A fresh cell at `(x, y)`: status `EMPTY`, with the hidden bit drawn at
    /// random — inactive on 4 of the 10 equally likely draws (40%), active on
    /// the other 6 (60%).
    pub fn new(x: usize, y: usize) -> (c: Cell)
        ensures
            c.x == x,
            c.y == y,
            c.status == Status::EMPTY,
    {
        let d = random_digit();
        Cell { x, y, status: Status::EMPTY, active: d >= 4 }
    }

    /// Mark this cell as active. On an `EMPTY` active cell the status becomes
    /// `MARKED`; on an `EMPTY` inactive cell the attempt fails and nothing
    /// changes; a cell that already left `EMPTY` is never changed again and
    /// the call is a no-op success.
    pub fn mark(&mut self) -> (r: Result<(), NonogramErrors>)
        ensures
            *final(self) == cell_after_mark(*old(self)),
            r == mark_result(*old(self)),
    {
        match self.status {
            Status::EMPTY => if self.active {
                self.status = Status::MARKED;
                Ok(())
            } else {
                Err(NonogramErrors::PutMarkInWrongSpot { x: self.x, y: self.y })
            },
            _ => Ok(()),
        }
    }

    /// Clear this cell as inactive. On an `EMPTY` inactive cell the status
    /// becomes `NONE`; on an `EMPTY` active cell the attempt fails and
    /// nothing changes; a cell that already left `EMPTY` is never changed
    /// again and the call is a no-op success.
    pub fn none(&mut self) -> (r: Result<(), NonogramErrors>)
        ensures
            *final(self) == cell_after_none(*old(self)),
            r == none_result(*old(self)),
    {
        match self.status {
            Status::EMPTY => if !self.active {
                self.status = Status::NONE;
                Ok(())
            } else {
                Err(NonogramErrors::PutNoneInWrongSpot { x: self.x, y: self.y })
            },
            _ => Ok(()),
        }
    }
}

} // verus!
