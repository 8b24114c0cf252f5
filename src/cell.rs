use vstd::prelude::*;

verus! {

/// One of the two players' symbols. `X` always moves first.
#[derive(Clone, Copy, Debug, PartialEq, Eq, Structural)]
pub enum Mark {
    X,
    O,
}

/// What occupies one board position.
#[derive(Clone, Copy, Debug, PartialEq, Eq, Structural)]
pub enum Cell {
    Empty,
    X,
    O,
}

impl Mark {
    pub open spec fn spec_other(self) -> Mark {
        match self {
            Mark::X => Mark::O,
            Mark::O => Mark::X,
        }
    }

    pub open spec fn spec_cell(self) -> Cell {
        match self {
            Mark::X => Cell::X,
            Mark::O => Cell::O,
        }
    }

    /// The mark that moves after this one.
    pub fn other(self) -> (r: Mark)
        ensures
            r == self.spec_other(),
    {
        match self {
            Mark::X => Mark::O,
            Mark::O => Mark::X,
        }
    }

    /// The cell value this mark writes onto the board.
    pub fn cell(self) -> (r: Cell)
        ensures
            r == self.spec_cell(),
    {
        match self {
            Mark::X => Cell::X,
            Mark::O => Cell::O,
        }
    }
}

impl Cell {
    pub open spec fn spec_mark(self) -> Option<Mark> {
        match self {
            Cell::Empty => None,
            Cell::X => Some(Mark::X),
            Cell::O => Some(Mark::O),
        }
    }

    /// The mark in this cell, or `None` when it is empty.
    pub fn mark(self) -> (r: Option<Mark>)
        ensures
            r == self.spec_mark(),
    {
        match self {
            Cell::Empty => None,
            Cell::X => Some(Mark::X),
            Cell::O => Some(Mark::O),
        }
    }

    pub fn is_empty(self) -> (r: bool)
        ensures
            r <==> self == Cell::Empty,
    {
        match self {
            Cell::Empty => true,
            _ => false,
        }
    }
}

/// A linear offset outside `0..=8` was given where a board position was expected.
#[derive(Clone, Copy, Debug, PartialEq, Eq, Structural)]
pub struct OutOfRangeIndexError {
    pub offset: usize,
}

/// The nine board positions, row-major from top-left to bottom-right.
#[derive(Clone, Copy, Debug, PartialEq, Eq, Structural)]
pub enum CellIndex {
    TopLeft,
    TopMiddle,
    TopRight,
    MiddleLeft,
    Center,
    MiddleRight,
    BottomLeft,
    BottomMiddle,
    BottomRight,
}

/// The number of positions on the board.
pub const CELL_COUNT: usize = 9;

impl CellIndex {
    /// The row-major offset of this position, in `0..9`.
    pub open spec fn spec_offset(self) -> int {
        match self {
            CellIndex::TopLeft => 0,
            CellIndex::TopMiddle => 1,
            CellIndex::TopRight => 2,
            CellIndex::MiddleLeft => 3,
            CellIndex::Center => 4,
            CellIndex::MiddleRight => 5,
            CellIndex::BottomLeft => 6,
            CellIndex::BottomMiddle => 7,
            CellIndex::BottomRight => 8,
        }
    }

    /// The position at a row-major offset; meaningful for offsets in `0..9`.
    pub open spec fn spec_at(offset: int) -> CellIndex {
        if offset == 0 {
            CellIndex::TopLeft
        } else if offset == 1 {
            CellIndex::TopMiddle
        } else if offset == 2 {
            CellIndex::TopRight
        } else if offset == 3 {
            CellIndex::MiddleLeft
        } else if offset == 4 {
            CellIndex::Center
        } else if offset == 5 {
            CellIndex::MiddleRight
        } else if offset == 6 {
            CellIndex::BottomLeft
        } else if offset == 7 {
            CellIndex::BottomMiddle
        } else {
            CellIndex::BottomRight
        }
    }

    pub fn offset(self) -> (r: usize)
        ensures
            r as int == self.spec_offset(),
            r < CELL_COUNT,
    {
        match self {
            CellIndex::TopLeft => 0,
            CellIndex::TopMiddle => 1,
            CellIndex::TopRight => 2,
            CellIndex::MiddleLeft => 3,
            CellIndex::Center => 4,
            CellIndex::MiddleRight => 5,
            CellIndex::BottomLeft => 6,
            CellIndex::BottomMiddle => 7,
            CellIndex::BottomRight => 8,
        }
    }

    /// The position at a row-major offset. Offsets past 8 are rejected, never clamped.
    pub fn from_offset(offset: usize) -> (r: Result<CellIndex, OutOfRangeIndexError>)
        ensures
            offset < CELL_COUNT ==> r == Ok::<CellIndex, OutOfRangeIndexError>(
                CellIndex::spec_at(offset as int),
            ),
            offset < CELL_COUNT ==> r->Ok_0.spec_offset() == offset as int,
            offset >= CELL_COUNT ==> r == Err::<CellIndex, OutOfRangeIndexError>(
                OutOfRangeIndexError { offset },
            ),
    {
        if offset == 0 {
            Ok(CellIndex::TopLeft)
        } else if offset == 1 {
            Ok(CellIndex::TopMiddle)
        } else if offset == 2 {
            Ok(CellIndex::TopRight)
        } else if offset == 3 {
            Ok(CellIndex::MiddleLeft)
        } else if offset == 4 {
            Ok(CellIndex::Center)
        } else if offset == 5 {
            Ok(CellIndex::MiddleRight)
        } else if offset == 6 {
            Ok(CellIndex::BottomLeft)
        } else if offset == 7 {
            Ok(CellIndex::BottomMiddle)
        } else if offset == 8 {
            Ok(CellIndex::BottomRight)
        } else {
            Err(OutOfRangeIndexError { offset })
        }
    }
}

/// Each offset in `0..9` names one position, and that position's offset is the same number.
pub proof fn lemma_offset_round_trip(offset: int)
    requires
        0 <= offset < CELL_COUNT,
    ensures
        CellIndex::spec_at(offset).spec_offset() == offset,
{
}

/// Distinct positions have distinct offsets.
pub proof fn lemma_offset_injective(a: CellIndex, b: CellIndex)
    ensures
        a.spec_offset() == b.spec_offset() <==> a == b,
{
}

} // verus!
