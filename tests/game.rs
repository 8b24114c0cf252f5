use tictactoe::board::{Board, CellOccupiedError};
use tictactoe::cell::{Cell, CellIndex, Mark, OutOfRangeIndexError};
use tictactoe::game::{GameState, MoveError, Outcome};

fn play_all(game: &mut GameState, moves: &[CellIndex]) {
    for &m in moves {
        assert_eq!(game.apply_move(m), Ok(()));
    }
}

#[test]
fn top_row_wins_and_blocks_further_moves() {
    let mut game = GameState::new();
    play_all(
        &mut game,
        &[CellIndex::TopLeft, CellIndex::Center, CellIndex::TopMiddle, CellIndex::MiddleRight],
    );
    assert_eq!(game.outcome(), Outcome::InProgress);
    assert_eq!(game.apply_move(CellIndex::TopRight), Ok(()));
    assert_eq!(game.outcome(), Outcome::Won(Mark::X));
    let before = *game.board();
    assert_eq!(game.apply_move(CellIndex::BottomLeft), Err(MoveError::GameAlreadyOver));
    assert_eq!(*game.board(), before);
    assert_eq!(game.outcome(), Outcome::Won(Mark::X));
}

#[test]
fn full_board_without_line_is_a_draw() {
    let mut game = GameState::new();
    let moves = [
        CellIndex::TopLeft,
        CellIndex::TopMiddle,
        CellIndex::TopRight,
        CellIndex::Center,
        CellIndex::MiddleLeft,
        CellIndex::MiddleRight,
        CellIndex::BottomMiddle,
        CellIndex::BottomLeft,
    ];
    play_all(&mut game, &moves);
    assert_eq!(game.outcome(), Outcome::InProgress);
    assert_eq!(game.apply_move(CellIndex::BottomRight), Ok(()));
    assert_eq!(game.outcome(), Outcome::Draw);
    assert!(game.board().is_full());
    assert_eq!(game.board().winning_mark(), None);
    assert_eq!(game.apply_move(CellIndex::Center), Err(MoveError::GameAlreadyOver));
}

#[test]
fn turns_alternate_with_accepted_moves() {
    let mut game = GameState::new();
    assert_eq!(game.active_mark(), Mark::X);
    assert_eq!(game.apply_move(CellIndex::Center), Ok(()));
    assert_eq!(game.active_mark(), Mark::O);
    // A refused move does not pass the turn.
    assert!(game.apply_move(CellIndex::Center).is_err());
    assert_eq!(game.active_mark(), Mark::O);
    assert_eq!(game.apply_move(CellIndex::TopLeft), Ok(()));
    assert_eq!(game.active_mark(), Mark::X);
    assert_eq!(game.board().get(CellIndex::Center), Cell::X);
    assert_eq!(game.board().get(CellIndex::TopLeft), Cell::O);
}

#[test]
fn occupied_cell_is_refused_and_board_kept() {
    let mut game = GameState::new();
    assert_eq!(game.apply_move(CellIndex::BottomRight), Ok(()));
    let before = game;
    assert_eq!(
        game.apply_move(CellIndex::BottomRight),
        Err(MoveError::CellOccupied(CellOccupiedError { index: CellIndex::BottomRight }))
    );
    assert_eq!(game, before);
}

#[test]
fn reset_restores_a_fresh_game() {
    let mut game = GameState::new();
    play_all(
        &mut game,
        &[CellIndex::TopLeft, CellIndex::Center, CellIndex::TopMiddle, CellIndex::MiddleRight, CellIndex::TopRight],
    );
    assert_eq!(game.outcome(), Outcome::Won(Mark::X));
    game.reset();
    assert_eq!(game, GameState::new());
    assert_eq!(game.active_mark(), Mark::X);
    assert_eq!(game.outcome(), Outcome::InProgress);
    assert_eq!(*game.board(), Board::new());
}

#[test]
fn o_wins_on_the_anti_diagonal() {
    let mut game = GameState::new();
    play_all(
        &mut game,
        &[CellIndex::TopLeft, CellIndex::TopRight, CellIndex::TopMiddle, CellIndex::Center, CellIndex::BottomRight],
    );
    assert_eq!(game.apply_move(CellIndex::BottomLeft), Ok(()));
    assert_eq!(game.outcome(), Outcome::Won(Mark::O));
    assert_eq!(game.active_mark(), Mark::O);
}

#[test]
fn set_cell_refuses_occupied_cell() {
    let mut board = Board::new();
    assert_eq!(board.set_cell(CellIndex::Center, Cell::O), Ok(()));
    assert_eq!(
        board.set_cell(CellIndex::Center, Cell::X),
        Err(CellOccupiedError { index: CellIndex::Center })
    );
    assert_eq!(board.get(CellIndex::Center), Cell::O);
    assert_eq!(board.count(Cell::O), 1);
    assert_eq!(board.count(Cell::X), 0);
}

#[test]
fn winning_mark_finds_each_kind_of_line() {
    let lines = [[0usize, 1, 2], [3, 4, 5], [6, 7, 8], [0, 3, 6], [1, 4, 7], [2, 5, 8], [0, 4, 8], [2, 4, 6]];
    for line in lines {
        let mut board = Board::new();
        for &i in &line {
            board.set_cell(CellIndex::from_offset(i).unwrap(), Cell::O).unwrap();
        }
        assert_eq!(board.winning_mark(), Some(Mark::O));
    }
    let mut board = Board::new();
    board.set_cell(CellIndex::TopLeft, Cell::X).unwrap();
    board.set_cell(CellIndex::TopMiddle, Cell::X).unwrap();
    board.set_cell(CellIndex::TopRight, Cell::O).unwrap();
    assert_eq!(board.winning_mark(), None);
    assert_eq!(Board::new().winning_mark(), None);
}

#[test]
fn winning_mark_takes_first_line_in_scan_order() {
    // Bottom row by X, left column by O: rows are scanned before columns.
    let mut board = Board::new();
    for i in [6usize, 7, 8] {
        board.set_cell(CellIndex::from_offset(i).unwrap(), Cell::X).unwrap();
    }
    for i in [0usize, 3] {
        board.set_cell(CellIndex::from_offset(i).unwrap(), Cell::O).unwrap();
    }
    assert_eq!(board.winning_mark(), Some(Mark::X));
    // Top row by O and middle row by X: the top row comes first.
    let mut board = Board::new();
    for i in [0usize, 1, 2] {
        board.set_cell(CellIndex::from_offset(i).unwrap(), Cell::O).unwrap();
    }
    for i in [3usize, 4, 5] {
        board.set_cell(CellIndex::from_offset(i).unwrap(), Cell::X).unwrap();
    }
    assert_eq!(board.winning_mark(), Some(Mark::O));
}

#[test]
fn offsets_convert_both_ways() {
    for i in 0..9usize {
        let index = CellIndex::from_offset(i).unwrap();
        assert_eq!(index.offset(), i);
    }
    assert_eq!(CellIndex::from_offset(4), Ok(CellIndex::Center));
    assert_eq!(CellIndex::from_offset(9), Err(OutOfRangeIndexError { offset: 9 }));
    assert_eq!(CellIndex::from_offset(usize::MAX), Err(OutOfRangeIndexError { offset: usize::MAX }));
}

#[test]
fn positions_come_in_row_major_order() {
    let mut board = Board::new();
    board.set_cell(CellIndex::MiddleRight, Cell::X).unwrap();
    let positions = board.iter_positions();
    assert_eq!(positions.len(), 9);
    assert_eq!(positions[0], (CellIndex::TopLeft, Cell::Empty));
    assert_eq!(positions[5], (CellIndex::MiddleRight, Cell::X));
    assert_eq!(positions[8], (CellIndex::BottomRight, Cell::Empty));
}

#[test]
fn marks_and_cells_correspond() {
    assert_eq!(Mark::X.other(), Mark::O);
    assert_eq!(Mark::O.other(), Mark::X);
    assert_eq!(Mark::O.cell(), Cell::O);
    assert_eq!(Cell::X.mark(), Some(Mark::X));
    assert_eq!(Cell::Empty.mark(), None);
    assert!(Cell::Empty.is_empty());
    assert!(!Cell::O.is_empty());
}

#[test]
fn from_parts_checks_consistency() {
    let fresh = GameState::new();
    assert_eq!(GameState::from_parts(Board::new(), Mark::X, Outcome::InProgress), Some(fresh));
    // O cannot move first.
    assert_eq!(GameState::from_parts(Board::new(), Mark::O, Outcome::InProgress), None);
    // An empty board is not won.
    assert_eq!(GameState::from_parts(Board::new(), Mark::X, Outcome::Won(Mark::X)), None);
    // O may not be ahead of X.
    let mut board = Board::new();
    board.set_cell(CellIndex::Center, Cell::O).unwrap();
    assert_eq!(GameState::from_parts(board, Mark::X, Outcome::InProgress), None);
}
