use vstd::prelude::*;

use crate::board::{
    count, count_prefix, empty_cells, is_full_seq, winner_of, Board, CellOccupiedError,
};
use crate::cell::{Cell, CellIndex, Mark, CELL_COUNT};

verus! {

/// Where a game stands.
#[derive(Clone, Copy, Debug, PartialEq, Eq, Structural)]
pub enum Outcome {
    InProgress,
    Won(Mark),
    Draw,
}

/// Why a move was refused. A refused move changes nothing.
#[derive(Clone, Copy, Debug, PartialEq, Eq, Structural)]
pub enum MoveError {
    /// The target position already holds a mark.
    CellOccupied(CellOccupiedError),
    /// The game has been won or drawn.
    GameAlreadyOver,
}

/// The mathematical value of a game: its cells, whose turn it is, and its outcome.
pub ghost struct GameModel {
    pub cells: Seq<Cell>,
    pub active: Mark,
    pub outcome: Outcome,
}

/// The outcome that a board decides: won by the owner of its first complete line, else
/// drawn when full, else still in progress.
pub open spec fn outcome_of(cells: Seq<Cell>) -> Outcome {
    if winner_of(cells) is Some {
        Outcome::Won(winner_of(cells)->0)
    } else if is_full_seq(cells) {
        Outcome::Draw
    } else {
        Outcome::InProgress
    }
}

pub open spec fn initial_model() -> GameModel {
    GameModel { cells: empty_cells(), active: Mark::X, outcome: Outcome::InProgress }
}

/// One move by the active mark at `index`: the next model and what the move returns.
pub open spec fn next(m: GameModel, index: CellIndex) -> (GameModel, Result<(), MoveError>) {
    let i = index.spec_offset();
    if m.outcome !is InProgress {
        (m, Err(MoveError::GameAlreadyOver))
    } else if m.cells[i] != Cell::Empty {
        (m, Err(MoveError::CellOccupied(CellOccupiedError { index })))
    } else {
        let cells = m.cells.update(i, m.active.spec_cell());
        let outcome = outcome_of(cells);
        let active = if outcome is InProgress {
            m.active.spec_other()
        } else {
            m.active
        };
        (GameModel { cells, active, outcome }, Ok(()))
    }
}

/// The game after playing `moves` in order from a fresh one; refused moves change nothing.
pub open spec fn play(moves: Seq<CellIndex>) -> GameModel
    decreases moves.len(),
{
    if moves.len() == 0 {
        initial_model()
    } else {
        next(play(moves.drop_last()), moves.last()).0
    }
}

/// How many of `moves` were accepted when played from a fresh game.
pub open spec fn accepted(moves: Seq<CellIndex>) -> nat
    decreases moves.len(),
{
    if moves.len() == 0 {
        0
    } else {
        accepted(moves.drop_last()) + if next(play(moves.drop_last()), moves.last()).1 is Ok {
            1nat
        } else {
            0nat
        }
    }
}

/// The consistency of a game: `X` is never behind `O` and at most one ahead; the outcome
/// is the one the board decides; while in progress the mark with fewer cells (or `X` on a
/// tie) is to move, and once over the mark that moved last stays active.
pub open spec fn consistent(m: GameModel) -> bool {
    let x = count(m.cells, Cell::X);
    let o = count(m.cells, Cell::O);
    &&& m.cells.len() == CELL_COUNT
    &&& (x == o || x == o + 1)
    &&& m.outcome == outcome_of(m.cells)
    &&& (m.active == Mark::X <==> if m.outcome is InProgress {
        x == o
    } else {
        x == o + 1
    })
}

/// A 3x3 game: the board, the mark to move, and the outcome, changed only through moves
/// and resets.
#[derive(Clone, Copy, Debug, PartialEq, Eq)]
pub struct GameState {
    board: Board,
    active: Mark,
    outcome: Outcome,
}

impl View for GameState {
    type V = GameModel;

    closed spec fn view(&self) -> GameModel {
        GameModel { cells: self.board@, active: self.active, outcome: self.outcome }
    }
}

proof fn lemma_count_prefix_update(cells: Seq<Cell>, i: int, v: Cell, c: Cell, n: int)
    requires
        0 <= i < cells.len(),
        0 <= n <= cells.len(),
    ensures
        count_prefix(cells.update(i, v), c, n) == count_prefix(cells, c, n) + (if i < n
            && v == c {
            1int
        } else {
            0int
        }) - (if i < n && cells[i] == c {
            1int
        } else {
            0int
        }),
    decreases n,
{
    if n > 0 {
        lemma_count_prefix_update(cells, i, v, c, n - 1);
    }
}

proof fn lemma_count_empty(c: Cell, n: int)
    requires
        c != Cell::Empty,
        0 <= n <= CELL_COUNT,
    ensures
        count_prefix(empty_cells(), c, n) == 0,
    decreases n,
{
    if n > 0 {
        lemma_count_empty(c, n - 1);
    }
}

/// A fresh game is consistent.
proof fn lemma_initial_consistent()
    ensures
        consistent(initial_model()),
{
    lemma_count_empty(Cell::X, CELL_COUNT as int);
    lemma_count_empty(Cell::O, CELL_COUNT as int);
    assert(!is_full_seq(empty_cells()) && empty_cells()[0] == Cell::Empty);
    assert(winner_of(empty_cells()) is None) by {
        reveal_with_fuel(crate::board::first_winner, 9);
    }
}

/// Every move, accepted or refused, keeps a game consistent.
pub proof fn lemma_next_consistent(m: GameModel, index: CellIndex)
    requires
        consistent(m),
    ensures
        consistent(next(m, index).0),
{
    let i = index.spec_offset();
    if m.outcome is InProgress && m.cells[i] == Cell::Empty {
        let v = m.active.spec_cell();
        lemma_count_prefix_update(m.cells, i, v, Cell::X, CELL_COUNT as int);
        lemma_count_prefix_update(m.cells, i, v, Cell::O, CELL_COUNT as int);
    }
}

/// While a game is in progress, `X` is to move after an even number of accepted moves
/// and `O` after an odd number, whatever moves were refused along the way.
pub proof fn lemma_turns_alternate(moves: Seq<CellIndex>)
    ensures
        play(moves).outcome is InProgress ==> (play(moves).active == Mark::X <==> accepted(
            moves,
        ) % 2 == 0),
    decreases moves.len(),
{
    if moves.len() > 0 {
        lemma_turns_alternate(moves.drop_last());
    }
}

/// Every game reached by playing moves from a fresh one is consistent: in particular `X`
/// is never behind `O` and at most one cell ahead.
pub proof fn lemma_play_consistent(moves: Seq<CellIndex>)
    ensures
        consistent(play(moves)),
    decreases moves.len(),
{
    if moves.len() == 0 {
        lemma_initial_consistent();
    } else {
        lemma_play_consistent(moves.drop_last());
        lemma_next_consistent(play(moves.drop_last()), moves.last());
    }
}

/// A move at an occupied cell of a game in progress is refused as occupied and changes
/// nothing.
pub proof fn lemma_occupied_refused(m: GameModel, index: CellIndex)
    requires
        m.outcome is InProgress,
        m.cells[index.spec_offset()] != Cell::Empty,
    ensures
        next(m, index) == (m, Err::<(), MoveError>(MoveError::CellOccupied(CellOccupiedError { index }))),
{
}

/// Once a game is won or drawn, every move is refused as too late and changes nothing.
pub proof fn lemma_finished_is_final(m: GameModel, index: CellIndex)
    requires
        m.outcome !is InProgress,
    ensures
        next(m, index) == (m, Err::<(), MoveError>(MoveError::GameAlreadyOver)),
{
}

impl GameState {
    /// A fresh game: empty board, `X` to move, in progress.
    pub fn new() -> (r: GameState)
        ensures
            r@ == initial_model(),
            consistent(r@),
    {
        proof {
            lemma_initial_consistent();
        }
        GameState { board: Board::new(), active: Mark::X, outcome: Outcome::InProgress }
    }

    /// The game with these parts, provided they are consistent: `None` when the counts of
    /// marks, the turn or the outcome contradict the board.
    pub fn from_parts(board: Board, active: Mark, outcome: Outcome) -> (r: Option<GameState>)
        ensures
            r is Some <==> consistent(GameModel { cells: board@, active, outcome }),
            r is Some ==> r->0@ == (GameModel { cells: board@, active, outcome }),
    {
        let x = board.count(Cell::X);
        let o = board.count(Cell::O);
        if !(x == o || x == o + 1) {
            return None;
        }
        let decided = match board.winning_mark() {
            Some(m) => Outcome::Won(m),
            None => if board.is_full() {
                Outcome::Draw
            } else {
                Outcome::InProgress
            },
        };
        if outcome != decided {
            return None;
        }
        let x_to_move = match outcome {
            Outcome::InProgress => x == o,
            _ => x == o + 1,
        };
        if (active == Mark::X) != x_to_move {
            return None;
        }
        Some(GameState { board, active, outcome })
    }

    pub fn board(&self) -> (r: &Board)
        ensures
            r@ == self@.cells,
    {
        &self.board
    }

    pub fn active_mark(&self) -> (r: Mark)
        ensures
            r == self@.active,
    {
        self.active
    }

    pub fn outcome(&self) -> (r: Outcome)
        ensures
            r == self@.outcome,
    {
        self.outcome
    }

    /// Replaces the whole game with a fresh one, whatever state it was in.
    pub fn reset(&mut self)
        ensures
            final(self)@ == initial_model(),
            consistent(final(self)@),
    {
        *self = GameState::new();
    }

    /// Plays the active mark at `index`. A finished game refuses the move; so does an
    /// occupied cell. Otherwise the mark is placed and the outcome recomputed: a complete
    /// line wins, a full board draws, and else the turn passes to the other mark.
    pub fn apply_move(&mut self, index: CellIndex) -> (r: Result<(), MoveError>)
        ensures
            (final(self)@, r) == next(old(self)@, index),
            consistent(old(self)@) ==> consistent(final(self)@),
    {
        proof {
            if consistent(self@) {
                lemma_next_consistent(self@, index);
            }
        }
        match self.outcome {
            Outcome::InProgress => {},
            _ => {
                return Err(MoveError::GameAlreadyOver);
            },
        }
        match self.board.set_cell(index, self.active.cell()) {
            Ok(()) => {},
            Err(e) => {
                return Err(MoveError::CellOccupied(e));
            },
        }
        match self.board.winning_mark() {
            Some(m) => {
                self.outcome = Outcome::Won(m);
            },
            None => {
                if self.board.is_full() {
                    self.outcome = Outcome::Draw;
                } else {
                    self.active = self.active.other();
                }
            },
        }
        Ok(())
    }
}

} // verus!
