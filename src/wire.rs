use vstd::prelude::*;

use crate::board::Board;
use crate::cell::{Cell, CellIndex, Mark, OutOfRangeIndexError, CELL_COUNT};
use crate::game::{consistent, GameModel, GameState, Outcome};

verus! {

/// The length of an encoded snapshot: nine cells, the active mark, the outcome tag and
/// the winner.
pub const SNAPSHOT_LEN: usize = 12;

pub open spec fn cell_byte(c: Cell) -> u8 {
    match c {
        Cell::Empty => 46,  // '.'
        Cell::X => 88,  // 'X'
        Cell::O => 79,  // 'O'
    }
}

pub open spec fn mark_byte(m: Mark) -> u8 {
    match m {
        Mark::X => 88,
        Mark::O => 79,
    }
}

/// The outcome tag (`P`, `W` or `D`) and the winner byte (the mark, or `-`).
pub open spec fn outcome_bytes(o: Outcome) -> (u8, u8) {
    match o {
        Outcome::InProgress => (80, 45),
        Outcome::Won(m) => (87, mark_byte(m)),
        Outcome::Draw => (68, 45),
    }
}

pub open spec fn parse_cell(b: u8) -> Option<Cell> {
    if b == 46 {
        Some(Cell::Empty)
    } else if b == 88 {
        Some(Cell::X)
    } else if b == 79 {
        Some(Cell::O)
    } else {
        None
    }
}

pub open spec fn parse_mark(b: u8) -> Option<Mark> {
    if b == 88 {
        Some(Mark::X)
    } else if b == 79 {
        Some(Mark::O)
    } else {
        None
    }
}

pub open spec fn parse_outcome(tag: u8, winner: u8) -> Option<Outcome> {
    if tag == 80 && winner == 45 {
        Some(Outcome::InProgress)
    } else if tag == 68 && winner == 45 {
        Some(Outcome::Draw)
    } else if tag == 87 && parse_mark(winner) is Some {
        Some(Outcome::Won(parse_mark(winner)->0))
    } else {
        None
    }
}

/// The snapshot of a game: its cells in row-major order, the active mark, the outcome tag
/// and the winner, one byte each.
pub open spec fn encode_model(m: GameModel) -> Seq<u8> {
    m.cells.map_values(|c: Cell| cell_byte(c)) + seq![
        mark_byte(m.active),
        outcome_bytes(m.outcome).0,
        outcome_bytes(m.outcome).1,
    ]
}

/// The game a snapshot describes, when it is well formed and describes a consistent game.
pub open spec fn decode_model(b: Seq<u8>) -> Option<GameModel> {
    if b.len() != SNAPSHOT_LEN {
        None
    } else if exists|i: int| 0 <= i < CELL_COUNT && (#[trigger] parse_cell(b[i])) is None {
        None
    } else if parse_mark(b[9]) is None || parse_outcome(b[10], b[11]) is None {
        None
    } else {
        let m = GameModel {
            cells: Seq::new(CELL_COUNT as nat, |i: int| parse_cell(b[i])->0),
            active: parse_mark(b[9])->0,
            outcome: parse_outcome(b[10], b[11])->0,
        };
        if consistent(m) {
            Some(m)
        } else {
            None
        }
    }
}

/// The request body that proposes a move at `index`: its offset as one ASCII digit.
pub open spec fn move_body(index: CellIndex) -> Seq<u8> {
    seq![(48 + index.spec_offset()) as u8]
}

/// A snapshot that is not twelve valid bytes describing a consistent game.
#[derive(Clone, Copy, Debug, PartialEq, Eq, Structural)]
pub struct MalformedSnapshotError;

/// Why a move request body names no position.
#[derive(Clone, Copy, Debug, PartialEq, Eq, Structural)]
pub enum RequestError {
    /// The body is not a single ASCII digit.
    Malformed,
    /// The body is the digit 9, past the last position.
    OutOfRange(OutOfRangeIndexError),
}

pub open spec fn decode_move_spec(body: Seq<u8>) -> Result<CellIndex, RequestError> {
    if body.len() != 1 || body[0] < 48 || body[0] > 57 {
        Err(RequestError::Malformed)
    } else if body[0] - 48 < CELL_COUNT {
        Ok(CellIndex::spec_at(body[0] - 48))
    } else {
        Err(RequestError::OutOfRange(OutOfRangeIndexError { offset: (body[0] - 48) as usize }))
    }
}

fn cell_to_byte(c: Cell) -> (r: u8)
    ensures
        r == cell_byte(c),
{
    match c {
        Cell::Empty => 46,
        Cell::X => 88,
        Cell::O => 79,
    }
}

fn mark_to_byte(m: Mark) -> (r: u8)
    ensures
        r == mark_byte(m),
{
    match m {
        Mark::X => 88,
        Mark::O => 79,
    }
}

fn byte_to_cell(b: u8) -> (r: Option<Cell>)
    ensures
        r == parse_cell(b),
{
    if b == 46 {
        Some(Cell::Empty)
    } else if b == 88 {
        Some(Cell::X)
    } else if b == 79 {
        Some(Cell::O)
    } else {
        None
    }
}

fn byte_to_mark(b: u8) -> (r: Option<Mark>)
    ensures
        r == parse_mark(b),
{
    if b == 88 {
        Some(Mark::X)
    } else if b == 79 {
        Some(Mark::O)
    } else {
        None
    }
}

/// The snapshot bytes of `game`.
pub fn encode_snapshot(game: &GameState) -> (r: Vec<u8>)
    ensures
        r@ == encode_model(game@),
{
    let board = game.board();
    let mut r: Vec<u8> = Vec::new();
    let mut i: usize = 0;
    while i < CELL_COUNT
        invariant
            i <= CELL_COUNT,
            board@ == game@.cells,
            board@.len() == CELL_COUNT,
            r@ == game@.cells.subrange(0, i as int).map_values(|c: Cell| cell_byte(c)),
        decreases CELL_COUNT - i,
    {
        r.push(cell_to_byte(board.cells[i]));
        proof {
            assert(game@.cells.subrange(0, i + 1) =~= game@.cells.subrange(0, i as int).push(
                game@.cells[i as int],
            ));
        }
        i = i + 1;
        assert(r@ =~= game@.cells.subrange(0, i as int).map_values(|c: Cell| cell_byte(c)));
    }
    assert(game@.cells.subrange(0, CELL_COUNT as int) =~= game@.cells);
    r.push(mark_to_byte(game.active_mark()));
    match game.outcome() {
        Outcome::InProgress => {
            r.push(80);
            r.push(45);
        },
        Outcome::Won(m) => {
            r.push(87);
            r.push(mark_to_byte(m));
        },
        Outcome::Draw => {
            r.push(68);
            r.push(45);
        },
    }
    assert(r@ =~= encode_model(game@));
    r
}

/// The game a snapshot describes; a snapshot of the wrong length, with a byte outside its
/// alphabet, or describing an inconsistent game is malformed.
pub fn decode_snapshot(b: &[u8]) -> (r: Result<GameState, MalformedSnapshotError>)
    ensures
        r is Ok <==> decode_model(b@) is Some,
        r is Ok ==> r->Ok_0@ == decode_model(b@)->0,
{
    if b.len() != SNAPSHOT_LEN {
        return Err(MalformedSnapshotError);
    }
    let mut cells: [Cell; 9] = [Cell::Empty; 9];
    let mut i: usize = 0;
    while i < CELL_COUNT
        invariant
            i <= CELL_COUNT,
            b@.len() == SNAPSHOT_LEN,
            cells@.len() == CELL_COUNT,
            forall|j: int|
                0 <= j < i ==> (#[trigger] parse_cell(b@[j])) is Some && cells@[j] == parse_cell(
                    b@[j],
                )->0,
        decreases CELL_COUNT - i,
    {
        match byte_to_cell(b[i]) {
            Some(c) => {
                cells[i] = c;
            },
            None => {
                return Err(MalformedSnapshotError);
            },
        }
        i = i + 1;
    }
    let active = match byte_to_mark(b[9]) {
        Some(m) => m,
        None => {
            return Err(MalformedSnapshotError);
        },
    };
    let tag = b[10];
    let winner = b[11];
    let outcome = if tag == 80 && winner == 45 {
        Outcome::InProgress
    } else if tag == 68 && winner == 45 {
        Outcome::Draw
    } else if tag == 87 {
        match byte_to_mark(winner) {
            Some(m) => Outcome::Won(m),
            None => {
                return Err(MalformedSnapshotError);
            },
        }
    } else {
        return Err(MalformedSnapshotError);
    };
    let board = Board { cells };
    assert(board@ =~= Seq::new(CELL_COUNT as nat, |i: int| parse_cell(b@[i])->0));
    match GameState::from_parts(board, active, outcome) {
        Some(game) => Ok(game),
        None => Err(MalformedSnapshotError),
    }
}

/// The request body that proposes a move at `index`.
pub fn encode_move(index: CellIndex) -> (r: Vec<u8>)
    ensures
        r@ == move_body(index),
{
    let mut r: Vec<u8> = Vec::new();
    r.push(48 + index.offset() as u8);
    assert(r@ =~= move_body(index));
    r
}

/// The position a move request body names.
pub fn decode_move(body: &[u8]) -> (r: Result<CellIndex, RequestError>)
    ensures
        r == decode_move_spec(body@),
{
    if body.len() != 1 || body[0] < 48 || body[0] > 57 {
        return Err(RequestError::Malformed);
    }
    match CellIndex::from_offset((body[0] - 48) as usize) {
        Ok(index) => Ok(index),
        Err(e) => Err(RequestError::OutOfRange(e)),
    }
}

/// Every consistent game reads back from its snapshot unchanged.
pub proof fn lemma_snapshot_round_trip(m: GameModel)
    requires
        consistent(m),
    ensures
        decode_model(encode_model(m)) == Some(m),
{
    let b = encode_model(m);
    assert forall|i: int| 0 <= i < CELL_COUNT implies parse_cell(b[i]) == Some(m.cells[i]) by {}
    assert(Seq::new(CELL_COUNT as nat, |i: int| parse_cell(b[i])->0) =~= m.cells);
}

/// Every position reads back from the body that proposes it.
pub proof fn lemma_move_round_trip(index: CellIndex)
    ensures
        decode_move_spec(move_body(index)) == Ok::<CellIndex, RequestError>(index),
{
}

} // verus!
