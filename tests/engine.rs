use retris::board::{is_occupied, is_row_full, Board, CELL_COUNT, COLUMN_COUNT, ROW_COUNT};
use retris::display::{Color, DisplayAction, DisplayBlock};
use retris::state::{Direction, State, SPAWN_POSITION};
use retris::tetromino::{Tetromino, TetrominoType, KIND_COUNT};

const KINDS: [TetrominoType; 7] = [
    TetrominoType::I,
    TetrominoType::J,
    TetrominoType::L,
    TetrominoType::O,
    TetrominoType::S,
    TetrominoType::T,
    TetrominoType::Z,
];

fn persisted(color: Color) -> DisplayBlock {
    DisplayBlock { color: Some(color), action: DisplayAction::Persist }
}

fn empty_state(kind: TetrominoType, position: (i32, i32)) -> State {
    State {
        board: [DisplayBlock::default(); CELL_COUNT],
        position,
        current_piece: Tetromino::new(kind),
        screen_size: (500, 900),
    }
}

fn at(board: &Board, row: usize, col: usize) -> DisplayBlock {
    board[row * COLUMN_COUNT + col]
}

fn count_persisted(board: &Board) -> usize {
    board.iter().filter(|c| c.action == DisplayAction::Persist).count()
}

fn full_rows(board: &Board) -> usize {
    (0..ROW_COUNT).filter(|&r| is_row_full(board, r)).count()
}

#[test]
fn every_kind_has_four_offsets_and_a_color() {
    for kind in KINDS {
        let piece = Tetromino::new(kind);
        assert_eq!(piece.shape.len(), 4);
        assert_ne!(piece.color, Color::Black);
        assert_eq!(piece.t_type, kind);
    }
}

#[test]
fn catalog_values() {
    let i = Tetromino::new(TetrominoType::I);
    assert_eq!(i.shape, [[-1, 0], [0, 0], [1, 0], [2, 0]]);
    assert_eq!(i.color, Color::SkyBlue);
    let s = Tetromino::new(TetrominoType::S);
    assert_eq!(s.shape, [[0, -1], [1, -1], [-1, 0], [0, 0]]);
    assert_eq!(s.color, Color::Green);
    assert_eq!(Tetromino::new(TetrominoType::Z).color, Color::Red);
    assert_eq!(Tetromino::new(TetrominoType::L).shape, [[1, -1], [-1, 0], [0, 0], [1, 0]]);
}

#[test]
fn kinds_by_index() {
    for (i, kind) in KINDS.iter().enumerate() {
        assert_eq!(TetrominoType::from_index(i), *kind);
    }
    assert_eq!(KIND_COUNT, 7);
}

#[test]
fn rotated_shape_turns_each_offset() {
    let t = Tetromino::new(TetrominoType::T);
    assert_eq!(t.rotated_shape(), [[1, 0], [0, -1], [0, 0], [0, 1]]);
}

#[test]
fn rotating_four_times_restores_the_shape() {
    for kind in KINDS {
        let mut piece = Tetromino::new(kind);
        let original = piece.shape;
        piece.rotate();
        if kind != TetrominoType::O {
            assert_ne!(piece.shape, original);
        }
        piece.rotate();
        piece.rotate();
        piece.rotate();
        assert_eq!(piece.shape, original);
    }
}

#[test]
fn fits_is_false_off_the_board() {
    let board = [DisplayBlock::default(); CELL_COUNT];
    let i = Tetromino::new(TetrominoType::I);
    assert!(i.fits(&board, (1, 0)));
    assert!(!i.fits(&board, (0, 0)));
    assert!(!i.fits(&board, (8, 0)));
    assert!(!i.fits(&board, (5, -1)));
    assert!(!i.fits(&board, (5, 20)));
    assert!(i.fits(&board, (7, 19)));
    assert!(!i.fits(&board, (i32::MAX, i32::MAX)));
}

#[test]
fn fits_is_false_over_taken_cells() {
    let mut board = [DisplayBlock::default(); CELL_COUNT];
    let o = Tetromino::new(TetrominoType::O);
    assert!(o.fits(&board, (4, 10)));
    board[10 * COLUMN_COUNT + 5] = persisted(Color::Red);
    assert!(!o.fits(&board, (4, 10)));
    board[10 * COLUMN_COUNT + 5] = DisplayBlock { color: Some(Color::Red), action: DisplayAction::MustClean };
    assert!(!o.fits(&board, (4, 10)));
    assert!(o.fits(&board, (6, 10)));
}

#[test]
fn fits_after_rotate_checks_the_turned_shape() {
    let board = [DisplayBlock::default(); CELL_COUNT];
    let i = Tetromino::new(TetrominoType::I);
    assert!(i.fits_after_rotate(&board, (5, 5)));
    assert!(!i.fits_after_rotate(&board, (5, 18)));
}

#[test]
fn occupied_cells() {
    let mut board = [DisplayBlock::default(); CELL_COUNT];
    board[3 * COLUMN_COUNT + 4] = persisted(Color::Blue);
    assert!(is_occupied(&board, 3, 4));
    assert!(!is_occupied(&board, 4, 3));
    assert!(!is_occupied(&board, -1, 0));
    assert!(!is_occupied(&board, 0, 10));
}

#[test]
fn move_changes_position_by_one_cell_when_it_fits() {
    let mut state = empty_state(TetrominoType::T, (5, 5));
    state.move_current_piece(Direction::Left);
    assert_eq!(state.position, (4, 5));
    state.move_current_piece(Direction::Right);
    assert_eq!(state.position, (5, 5));
    state.move_current_piece(Direction::Down);
    assert_eq!(state.position, (5, 6));
}

#[test]
fn blocked_move_leaves_position() {
    let mut state = empty_state(TetrominoType::I, (1, 5));
    state.move_current_piece(Direction::Left);
    assert_eq!(state.position, (1, 5));
    let mut state = empty_state(TetrominoType::I, (7, 5));
    state.move_current_piece(Direction::Right);
    assert_eq!(state.position, (7, 5));
    let mut state = empty_state(TetrominoType::I, (5, 19));
    state.move_current_piece(Direction::Down);
    assert_eq!(state.position, (5, 19));
    let mut state = empty_state(TetrominoType::I, (5, 5));
    state.board[6 * COLUMN_COUNT + 4] = persisted(Color::Red);
    state.move_current_piece(Direction::Down);
    assert_eq!(state.position, (5, 5));
}

#[test]
fn i_piece_descends_to_the_bottom_then_locks_four_cells() {
    let mut state = empty_state(TetrominoType::I, SPAWN_POSITION);
    assert_eq!(state.position, (5, 1));
    while state.position.1 < (ROW_COUNT as i32) - 1 {
        assert!(state.can_piece_move_down());
        state.move_current_piece(Direction::Down);
    }
    assert_eq!(state.position, (5, 19));
    assert!(!state.can_piece_move_down());
    state.lock_piece();
    assert_eq!(count_persisted(&state.board), 4);
    for col in 4..8 {
        assert_eq!(at(&state.board, 19, col), persisted(Color::SkyBlue));
    }
    assert_eq!(state.position, SPAWN_POSITION);
}

#[test]
fn locking_the_last_cell_of_a_row_clears_it() {
    let mut state = empty_state(TetrominoType::I, (9, 17));
    state.current_piece.rotate();
    for col in 0..COLUMN_COUNT - 1 {
        state.board[19 * COLUMN_COUNT + col] = persisted(Color::Green);
    }
    state.board[10 * COLUMN_COUNT] = persisted(Color::Red);
    assert!(state.current_piece.fits(&state.board, state.position));
    state.lock_piece_with(Tetromino::new(TetrominoType::O));
    assert!(is_row_full(&state.board, 19));
    let removed = state.remove_full_lines();
    assert_eq!(removed, 1);
    assert_eq!(at(&state.board, 11, 0), persisted(Color::Red));
    assert_eq!(at(&state.board, 10, 0), DisplayBlock::default());
    for row in 17..20 {
        assert_eq!(at(&state.board, row, 9), persisted(Color::SkyBlue));
        assert_eq!(at(&state.board, row, 0).action, DisplayAction::Empty);
    }
    assert_eq!(at(&state.board, 16, 9), DisplayBlock::default());
    assert_eq!(count_persisted(&state.board), 4);
    assert_eq!(state.current_piece.t_type, TetrominoType::O);
}

#[test]
fn rotation_against_the_wall_is_refused() {
    let mut state = empty_state(TetrominoType::I, (9, 5));
    state.current_piece.rotate();
    let upright = state.current_piece.shape;
    assert!(state.current_piece.fits(&state.board, state.position));
    state.rotate_current_piece();
    assert_eq!(state.current_piece.shape, upright);
    state.position = (5, 5);
    state.rotate_current_piece();
    assert_eq!(state.current_piece.shape, [[1, 0], [0, 0], [-1, 0], [-2, 0]]);
}

#[test]
fn compaction_removes_full_rows_and_keeps_order() {
    let mut state = empty_state(TetrominoType::O, SPAWN_POSITION);
    for col in 0..COLUMN_COUNT {
        state.board[19 * COLUMN_COUNT + col] = persisted(Color::Blue);
        state.board[17 * COLUMN_COUNT + col] = persisted(Color::Blue);
    }
    state.board[18 * COLUMN_COUNT + 2] = persisted(Color::Red);
    state.board[16 * COLUMN_COUNT + 3] = persisted(Color::Green);
    state.board[15 * COLUMN_COUNT + 4] = persisted(Color::Yellow);
    let before = count_persisted(&state.board);
    let removed = state.remove_full_lines();
    assert_eq!(removed, 2);
    assert_eq!(full_rows(&state.board), 0);
    assert_eq!(count_persisted(&state.board) + 10 * removed, before);
    assert_eq!(at(&state.board, 19, 2), persisted(Color::Red));
    assert_eq!(at(&state.board, 18, 3), persisted(Color::Green));
    assert_eq!(at(&state.board, 17, 4), persisted(Color::Yellow));
    assert_eq!(count_persisted(&state.board), 3);
}

#[test]
fn compaction_twice_removes_nothing_more() {
    let mut state = empty_state(TetrominoType::O, SPAWN_POSITION);
    for row in 12..20 {
        for col in 0..COLUMN_COUNT {
            if row % 3 != 0 || col != 4 {
                state.board[row * COLUMN_COUNT + col] = persisted(Color::Purple);
            }
        }
    }
    let first = state.remove_full_lines();
    assert_eq!(first, 5);
    let board = state.board;
    assert_eq!(state.remove_full_lines(), 0);
    assert_eq!(state.board, board);
}

#[test]
fn compaction_of_a_full_board_empties_it() {
    let mut state = empty_state(TetrominoType::O, SPAWN_POSITION);
    state.board = [persisted(Color::Orange); CELL_COUNT];
    assert_eq!(state.remove_full_lines(), ROW_COUNT);
    assert_eq!(state.board, [DisplayBlock::default(); CELL_COUNT]);
}

#[test]
fn clean_board_clears_painted_piece_and_full_rows() {
    let mut state = empty_state(TetrominoType::T, (5, 5));
    state.manipulate_current_piece(DisplayAction::MustClean);
    assert_eq!(at(&state.board, 4, 5).action, DisplayAction::MustClean);
    assert_eq!(at(&state.board, 5, 4).color, Some(Color::Purple));
    for col in 0..COLUMN_COUNT {
        state.board[19 * COLUMN_COUNT + col] = persisted(Color::Blue);
    }
    state.board[18 * COLUMN_COUNT] = persisted(Color::Red);
    state.clean_board();
    assert_eq!(count_persisted(&state.board), 1);
    assert_eq!(at(&state.board, 19, 0), persisted(Color::Red));
    assert!(state.board.iter().all(|c| c.action != DisplayAction::MustClean));
}

#[test]
fn painting_is_skipped_where_the_piece_does_not_fit() {
    let mut state = empty_state(TetrominoType::I, (0, 5));
    let board = state.board;
    state.manipulate_current_piece(DisplayAction::MustClean);
    assert_eq!(state.board, board);
    state.lock_piece_with(Tetromino::new(TetrominoType::S));
    assert_eq!(state.board, board);
    assert_eq!(state.position, SPAWN_POSITION);
    assert_eq!(state.current_piece.t_type, TetrominoType::S);
}

#[test]
fn hard_drop_lands_on_the_stack() {
    let mut state = empty_state(TetrominoType::O, SPAWN_POSITION);
    state.board[15 * COLUMN_COUNT + 6] = persisted(Color::Red);
    state.hard_drop_with(Tetromino::new(TetrominoType::Z));
    assert_eq!(at(&state.board, 14, 5), persisted(Color::Yellow));
    assert_eq!(at(&state.board, 14, 6), persisted(Color::Yellow));
    assert_eq!(at(&state.board, 13, 5), persisted(Color::Yellow));
    assert_eq!(at(&state.board, 13, 6), persisted(Color::Yellow));
    assert_eq!(count_persisted(&state.board), 5);
    assert_eq!(state.current_piece.t_type, TetrominoType::Z);
    let mut state = empty_state(TetrominoType::I, SPAWN_POSITION);
    state.hard_drop();
    assert_eq!(count_persisted(&state.board), 4);
    assert_eq!(at(&state.board, 19, 4), persisted(Color::SkyBlue));
}

#[test]
fn random_pieces_are_base_pieces_of_several_kinds() {
    let mut seen = [false; 7];
    for _ in 0..300 {
        let piece = Tetromino::random();
        let base = Tetromino::new(piece.t_type);
        assert_eq!(piece.shape, base.shape);
        assert_eq!(piece.color, base.color);
        let index = KINDS.iter().position(|k| *k == piece.t_type).unwrap();
        seen[index] = true;
    }
    assert!(seen.iter().filter(|s| **s).count() >= 2);
}

#[test]
fn default_state_is_empty_at_spawn() {
    let state = State::default();
    assert_eq!(state.board, [DisplayBlock::default(); CELL_COUNT]);
    assert_eq!(state.position, (5, 1));
    assert_eq!(state.screen_size, (500, 900));
    assert_eq!(state.cell_width(), 50);
    assert_eq!(state.cell_height(), 45);
}

#[test]
fn blank_cells_and_filled_cells() {
    let blank = DisplayBlock::default();
    assert_eq!(blank.color, Some(Color::Black));
    assert_eq!(blank.action, DisplayAction::Empty);
    assert!(!blank.is_filled());
    assert!(persisted(Color::Red).is_filled());
    assert!(DisplayBlock { color: Some(Color::Red), action: DisplayAction::MustClean }.is_filled());
}
