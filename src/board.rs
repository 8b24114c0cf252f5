use vstd::prelude::*;

use crate::cell::{Cell, CellIndex, Mark, CELL_COUNT};

verus! {

/// The number of fixed lines: three rows, three columns and two diagonals.
pub const LINE_COUNT: usize = 8;

/// The offsets of the three positions of line `k`, scanned rows first, then columns,
/// then the diagonal from top-left, then the one from top-right.
pub open spec fn line(k: int) -> (int, int, int) {
    if k < 3 {
        (3 * k, 3 * k + 1, 3 * k + 2)
    } else if k < 6 {
        (k - 3, k, k + 3)
    } else if k == 6 {
        (0, 4, 8)
    } else {
        (2, 4, 6)
    }
}

/// The mark that fills all three positions of line `k`, if one does.
pub open spec fn line_owner(cells: Seq<Cell>, k: int) -> Option<Mark> {
    let (a, b, c) = line(k);
    if cells[a] != Cell::Empty && cells[a] == cells[b] && cells[b] == cells[c] {
        cells[a].spec_mark()
    } else {
        None
    }
}

/// The owner of the first complete line at or after line `k`, in scan order.
pub open spec fn first_winner(cells: Seq<Cell>, k: int) -> Option<Mark>
    decreases LINE_COUNT - k,
{
    if k >= LINE_COUNT {
        None
    } else if line_owner(cells, k) is Some {
        line_owner(cells, k)
    } else {
        first_winner(cells, k + 1)
    }
}

/// The winner of a board: the owner of its first complete line in scan order.
pub open spec fn winner_of(cells: Seq<Cell>) -> Option<Mark> {
    first_winner(cells, 0)
}

/// Whether no cell is empty.
pub open spec fn is_full_seq(cells: Seq<Cell>) -> bool {
    forall|i: int| 0 <= i < cells.len() ==> cells[i] != Cell::Empty
}

/// How many of the first `n` cells hold `c`.
pub open spec fn count_prefix(cells: Seq<Cell>, c: Cell, n: int) -> nat
    decreases n,
{
    if n <= 0 {
        0
    } else {
        count_prefix(cells, c, n - 1) + if cells[n - 1] == c {
            1nat
        } else {
            0nat
        }
    }
}

/// How many cells hold `c`.
pub open spec fn count(cells: Seq<Cell>, c: Cell) -> nat {
    count_prefix(cells, c, cells.len() as int)
}

pub open spec fn empty_cells() -> Seq<Cell> {
    Seq::new(CELL_COUNT as nat, |i: int| Cell::Empty)
}

/// A move was aimed at a position that already holds a mark.
#[derive(Clone, Copy, Debug, PartialEq, Eq, Structural)]
pub struct CellOccupiedError {
    pub index: CellIndex,
}

/// Nine cells in row-major order.
#[derive(Clone, Copy, Debug, PartialEq, Eq)]
pub struct Board {
    pub cells: [Cell; 9],
}

impl View for Board {
    type V = Seq<Cell>;

    open spec fn view(&self) -> Seq<Cell> {
        self.cells@
    }
}

/// The positions of line `k`, as `line(k)` gives them.
fn line_at(k: usize) -> (r: (usize, usize, usize))
    requires
        k < LINE_COUNT,
    ensures
        (r.0 as int, r.1 as int, r.2 as int) == line(k as int),
        r.0 < CELL_COUNT && r.1 < CELL_COUNT && r.2 < CELL_COUNT,
{
    if k < 3 {
        (3 * k, 3 * k + 1, 3 * k + 2)
    } else if k < 6 {
        (k - 3, k, k + 3)
    } else if k == 6 {
        (0, 4, 8)
    } else {
        (2, 4, 6)
    }
}

impl Board {
    /// A board with every cell empty.
    pub fn new() -> (r: Board)
        ensures
            r@ == empty_cells(),
    {
        let r = Board { cells: [Cell::Empty; 9] };
        assert(r@ =~= empty_cells());
        r
    }

    /// The cell at `index`; total, since every `CellIndex` is on the board.
    pub fn get(&self, index: CellIndex) -> (r: Cell)
        ensures
            r == self@[index.spec_offset()],
    {
        self.cells[index.offset()]
    }

    /// Writes `value` at `index` if that cell is empty; otherwise leaves the board as it
    /// was and reports the occupied cell.
    pub fn set_cell(&mut self, index: CellIndex, value: Cell) -> (r: Result<(), CellOccupiedError>)
        ensures
            old(self)@[index.spec_offset()] == Cell::Empty ==> r is Ok && final(self)@ == old(
                self,
            )@.update(index.spec_offset(), value),
            old(self)@[index.spec_offset()] != Cell::Empty ==> r == Err::<(), CellOccupiedError>(
                CellOccupiedError { index },
            ) && *final(self) == *old(self),
    {
        let i = index.offset();
        if self.cells[i].is_empty() {
            self.cells[i] = value;
            Ok(())
        } else {
            Err(CellOccupiedError { index })
        }
    }

    /// Every position with its cell, in row-major order.
    pub fn iter_positions(&self) -> (r: Vec<(CellIndex, Cell)>)
        ensures
            r@.len() == CELL_COUNT,
            forall|i: int|
                0 <= i < CELL_COUNT ==> #[trigger] r@[i] == (CellIndex::spec_at(i), self@[i]),
    {
        let mut r: Vec<(CellIndex, Cell)> = Vec::new();
        let mut i: usize = 0;
        while i < CELL_COUNT
            invariant
                i <= CELL_COUNT,
                r@.len() == i,
                forall|j: int| 0 <= j < i ==> #[trigger] r@[j] == (CellIndex::spec_at(j), self@[j]),
            decreases CELL_COUNT - i,
        {
            let index = match CellIndex::from_offset(i) {
                Ok(index) => index,
                Err(_) => CellIndex::BottomRight,
            };
            r.push((index, self.cells[i]));
            i = i + 1;
        }
        r
    }

    /// The owner of the first complete line, scanning rows, then columns, then the two
    /// diagonals; `None` when no line is complete.
    pub fn winning_mark(&self) -> (r: Option<Mark>)
        ensures
            r == winner_of(self@),
    {
        let mut k: usize = 0;
        while k < LINE_COUNT
            invariant
                k <= LINE_COUNT,
                first_winner(self@, k as int) == winner_of(self@),
            decreases LINE_COUNT - k,
        {
            let (a, b, c) = line_at(k);
            let ca = self.cells[a];
            if !ca.is_empty() && ca == self.cells[b] && self.cells[b] == self.cells[c] {
                return ca.mark();
            }
            k = k + 1;
        }
        None
    }

    /// How many cells hold `c`.
    pub fn count(&self, c: Cell) -> (r: usize)
        ensures
            r == count(self@, c),
            r <= CELL_COUNT,
    {
        let mut r: usize = 0;
        let mut i: usize = 0;
        while i < CELL_COUNT
            invariant
                i <= CELL_COUNT,
                r == count_prefix(self@, c, i as int),
                r <= i,
            decreases CELL_COUNT - i,
        {
            if self.cells[i] == c {
                r = r + 1;
            }
            i = i + 1;
        }
        r
    }

    /// Whether no cell is empty.
    pub fn is_full(&self) -> (r: bool)
        ensures
            r == is_full_seq(self@),
    {
        let mut i: usize = 0;
        while i < CELL_COUNT
            invariant
                i <= CELL_COUNT,
                forall|j: int| 0 <= j < i ==> self@[j] != Cell::Empty,
            decreases CELL_COUNT - i,
        {
            if self.cells[i].is_empty() {
                return false;
            }
            i = i + 1;
        }
        true
    }
}

proof fn lemma_first_winner_complete(cells: Seq<Cell>, k: int)
    requires
        0 <= k <= LINE_COUNT,
        cells.len() == CELL_COUNT,
    ensures
        first_winner(cells, k) is Some <==> exists|j: int|
            k <= j < LINE_COUNT && (#[trigger] line_owner(cells, j)) is Some,
        forall|m: Mark|
            first_winner(cells, k) == Some(m) ==> exists|j: int|
                k <= j < LINE_COUNT && #[trigger] line_owner(cells, j) == Some(m),
    decreases LINE_COUNT - k,
{
    if k < LINE_COUNT {
        lemma_first_winner_complete(cells, k + 1);
    }
}

/// A board has a winner exactly when one of its eight lines is filled by a single mark,
/// and the winner is a mark that fills such a line.
pub proof fn lemma_winner_iff_complete_line(cells: Seq<Cell>)
    requires
        cells.len() == CELL_COUNT,
    ensures
        winner_of(cells) is Some <==> exists|k: int|
            0 <= k < LINE_COUNT && (#[trigger] line_owner(cells, k)) is Some,
        forall|m: Mark|
            winner_of(cells) == Some(m) ==> exists|k: int|
                0 <= k < LINE_COUNT && #[trigger] line_owner(cells, k) == Some(m),
{
    lemma_first_winner_complete(cells, 0);
}

} // verus!
