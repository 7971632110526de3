use vstd::prelude::*;
use crate::board::{
    board_wf, cell_index, copy_row, full_row_count, is_compaction, is_row_full, kept_rows,
    lemma_compaction_leaves_no_full_row, lemma_kept_rows_ordered, row_full, Board, Position,
    CELL_COUNT, COLUMN_COUNT, ROW_COUNT,
};
use crate::display::{DisplayAction, DisplayBlock};
use crate::tetromino::{cell_free, offsets, rotated, shape_fits, Tetromino};

verus! {

/// Where a new piece's pivot starts: column 5, row 1.
pub const SPAWN_POSITION: Position = (5, 1);

/// A move of the falling piece by one cell.
#[derive(Debug, Clone, Copy, PartialEq, Eq, Structural)]
pub enum Direction {
    Left,
    Right,
    Down,
}

/// The game: the board, the falling piece and where its pivot stands, and the
/// size of the window the board is drawn in.
#[derive(Debug, Clone, Copy)]
pub struct State {
    pub board: Board,
    pub position: Position,
    pub current_piece: Tetromino,
    pub screen_size: (usize, usize),
}

/// The position one cell away from `p` in the direction `d`.
pub open spec fn shifted(p: Position, d: Direction) -> (int, int) {
    match d {
        Direction::Left => (p.0 - 1, p.1 as int),
        Direction::Right => (p.0 + 1, p.1 as int),
        Direction::Down => (p.0 as int, p.1 + 1),
    }
}

/// Whether both coordinates fit in an `i32`.
pub open spec fn representable(p: (int, int)) -> bool {
    i32::MIN <= p.0 <= i32::MAX && i32::MIN <= p.1 <= i32::MAX
}

/// `board` with the cells of the first `n` offsets of `o`, pivot at (x, y), set to `block`.
pub open spec fn painted(
    board: Seq<DisplayBlock>,
    x: int,
    y: int,
    o: Seq<(int, int)>,
    block: DisplayBlock,
) -> Seq<DisplayBlock>
    decreases o.len(),
{
    if o.len() == 0 {
        board
    } else {
        painted(board, x, y, o.drop_last(), block).update(
            cell_index(y + o.last().1, x + o.last().0),
            block,
        )
    }
}

/// The row the pivot comes to rest on when the piece keeps moving down from
/// row `y` for as long as it fits one row lower.
pub open spec fn landing_row(board: Seq<DisplayBlock>, x: int, y: int, o: Seq<(int, int)>) -> int
    decreases i32::MAX - y,
{
    if y < i32::MAX && shape_fits(board, x, y + 1, o) {
        landing_row(board, x, y + 1, o)
    } else {
        y
    }
}

/// `board` with each cell that shows the falling piece made empty again.
pub open spec fn cleared(board: Seq<DisplayBlock>) -> Seq<DisplayBlock> {
    board.map_values(
        |c: DisplayBlock|
            if c.action == DisplayAction::MustClean {
                DisplayBlock::blank()
            } else {
                c
            },
    )
}

impl Default for State {
    /// An empty board of the default window size, with a piece of a random
    /// kind at the spawn position.
    fn default() -> (r: State)
        ensures
            forall|i: int| 0 <= i < 200 ==> #[trigger] r.board@[i] == DisplayBlock::blank(),
            r.position == SPAWN_POSITION,
            r.current_piece.is_base(),
            r.screen_size == (500usize, 900usize),
            r.wf(),
    {
        State {
            board: [DisplayBlock::default();CELL_COUNT],
            position: SPAWN_POSITION,
            current_piece: Tetromino::random(),
            screen_size: (500, 900),
        }
    }
}

impl State {
    /// The falling piece can be rotated and every cell that is not empty holds a color.
    pub open spec fn wf(self) -> bool {
        &&& self.current_piece.wf()
        &&& board_wf(self.board@)
    }

    /// Whether the falling piece fits where its pivot stands.
    pub open spec fn piece_fits(self) -> bool {
        shape_fits(
            self.board@,
            self.position.0 as int,
            self.position.1 as int,
            offsets(self.current_piece.shape),
        )
    }

    /// The board with the falling piece's cells set to `action`, in the piece's color.
    pub open spec fn with_piece(self, action: DisplayAction) -> Seq<DisplayBlock> {
        painted(
            self.board@,
            self.position.0 as int,
            self.position.1 as int,
            offsets(self.current_piece.shape),
            DisplayBlock { color: Some(self.current_piece.color), action },
        )
    }

    /// Width in pixels of one cell.
    pub fn cell_width(&self) -> (r: usize)
        ensures
            r == self.screen_size.0 / 10,
    {
        let (width, _) = self.screen_size;
        width / COLUMN_COUNT
    }

    /// Height in pixels of one cell.
    pub fn cell_height(&self) -> (r: usize)
        ensures
            r == self.screen_size.1 / 20,
    {
        let (_, height) = self.screen_size;
        height / ROW_COUNT
    }

    /// Moves the falling piece one cell in `direction` when it fits there;
    /// otherwise nothing changes.
    pub fn move_current_piece(&mut self, direction: Direction)
        ensures
            ({
                let c = shifted(old(self).position, direction);
                if representable(c) && shape_fits(
                    old(self).board@,
                    c.0,
                    c.1,
                    offsets(old(self).current_piece.shape),
                ) {
                    final(self).position.0 == c.0 && final(self).position.1 == c.1
                } else {
                    final(self).position == old(self).position
                }
            }),
            final(self).board == old(self).board,
            final(self).current_piece == old(self).current_piece,
            final(self).screen_size == old(self).screen_size,
    {
        let (x, y) = self.position;
        let candidate = match direction {
            Direction::Left => if x > i32::MIN {
                Some((x - 1, y))
            } else {
                None
            },
            Direction::Right => if x < i32::MAX {
                Some((x + 1, y))
            } else {
                None
            },
            Direction::Down => if y < i32::MAX {
                Some((x, y + 1))
            } else {
                None
            },
        };
        if let Some(new_position) = candidate {
            if self.current_piece.fits(&self.board, new_position) {
                self.position = new_position;
            }
        }
    }

    /// Writes the falling piece's cells into the board as `action`, in its
    /// color, when the piece fits where it stands; otherwise nothing changes.
    pub fn manipulate_current_piece(&mut self, action: DisplayAction)
        requires
            old(self).wf(),
        ensures
            final(self).board@ == if old(self).piece_fits() {
                old(self).with_piece(action)
            } else {
                old(self).board@
            },
            final(self).position == old(self).position,
            final(self).current_piece == old(self).current_piece,
            final(self).screen_size == old(self).screen_size,
            final(self).wf(),
    {
        let (cx, cy) = self.position;
        if self.current_piece.fits(&self.board, self.position) {
            let ghost o = offsets(self.current_piece.shape);
            let ghost before = self.board@;
            let block = DisplayBlock { color: Some(self.current_piece.color), action };
            let mut i: usize = 0;
            while i < 4
                invariant
                    i <= 4,
                    o == offsets(self.current_piece.shape),
                    self.position == (cx, cy),
                    self.current_piece == old(self).current_piece,
                    self.screen_size == old(self).screen_size,
                    before == old(self).board@,
                    block == (DisplayBlock { color: Some(self.current_piece.color), action }),
                    shape_fits(before, cx as int, cy as int, o),
                    self.board@ == painted(before, cx as int, cy as int, o.take(i as int), block),
                    board_wf(self.board@),
                decreases 4 - i,
            {
                let x = self.current_piece.shape[i][0];
                let y = self.current_piece.shape[i][1];
                assert(o[i as int] == (x as int, y as int));
                assert(cell_free(before, cy + o[i as int].1, cx + o[i as int].0));
                let new_x = (x as i64 + cx as i64) as usize;
                let new_y = (y as i64 + cy as i64) as usize;
                self.board[new_y * COLUMN_COUNT + new_x] = block;
                assert(o.take(i + 1).drop_last() =~= o.take(i as int));
                i += 1;
            }
            assert(o.take(4) =~= o);
        }
    }

    /// Whether the falling piece fits one row lower.
    pub fn can_piece_move_down(&self) -> (r: bool)
        ensures
            r == (self.position.1 < i32::MAX && shape_fits(
                self.board@,
                self.position.0 as int,
                self.position.1 + 1,
                offsets(self.current_piece.shape),
            )),
    {
        self.position.1 < i32::MAX && self.current_piece.fits(
            &self.board,
            (self.position.0, self.position.1 + 1),
        )
    }

    /// Clears the cells that showed the falling piece, then takes out the full rows.
    pub fn clean_board(&mut self)
        requires
            old(self).wf(),
        ensures
            is_compaction(cleared(old(self).board@), final(self).board@),
            forall|row: int| 0 <= row < 20 ==> !#[trigger] row_full(final(self).board@, row),
            final(self).position == old(self).position,
            final(self).current_piece == old(self).current_piece,
            final(self).screen_size == old(self).screen_size,
            final(self).wf(),
    {
        let ghost before = self.board@;
        let mut i: usize = 0;
        while i < CELL_COUNT
            invariant
                i <= 200,
                self.current_piece == old(self).current_piece,
                self.position == old(self).position,
                self.screen_size == old(self).screen_size,
                before == old(self).board@,
                board_wf(before),
                forall|k: int| 0 <= k < i ==> #[trigger] self.board@[k] == cleared(before)[k],
                forall|k: int| i <= k < 200 ==> #[trigger] self.board@[k] == before[k],
            decreases 200 - i,
        {
            if self.board[i].action == DisplayAction::MustClean {
                self.board[i] = DisplayBlock::default();
            }
            i += 1;
        }
        assert(self.board@ =~= cleared(before));
        assert(board_wf(self.board@)) by {
            assert forall|k: int| 0 <= k < 200 implies (#[trigger] self.board@[k]).wf() by {
                assert(before[k].wf());
            }
        }
        self.remove_full_lines();
    }

    /// Writes the falling piece into the board for good, when it fits where it
    /// stands, and brings `next` in at the spawn position.
    pub fn lock_piece_with(&mut self, next: Tetromino)
        requires
            old(self).wf(),
            next.wf(),
        ensures
            final(self).board@ == if old(self).piece_fits() {
                old(self).with_piece(DisplayAction::Persist)
            } else {
                old(self).board@
            },
            final(self).position == SPAWN_POSITION,
            final(self).current_piece == next,
            final(self).screen_size == old(self).screen_size,
            final(self).wf(),
    {
        self.manipulate_current_piece(DisplayAction::Persist);
        self.position = SPAWN_POSITION;
        self.current_piece = next;
    }

    /// Writes the falling piece into the board for good, when it fits where it
    /// stands, and brings a piece of a random kind in at the spawn position.
    pub fn lock_piece(&mut self)
        requires
            old(self).wf(),
        ensures
            final(self).board@ == if old(self).piece_fits() {
                old(self).with_piece(DisplayAction::Persist)
            } else {
                old(self).board@
            },
            final(self).position == SPAWN_POSITION,
            final(self).current_piece.is_base(),
            final(self).screen_size == old(self).screen_size,
            final(self).wf(),
    {
        let next = Tetromino::random();
        self.lock_piece_with(next);
    }

    /// Turns the falling piece a quarter when it fits so turned; otherwise
    /// nothing changes.
    pub fn rotate_current_piece(&mut self)
        requires
            old(self).wf(),
        ensures
            if shape_fits(
                old(self).board@,
                old(self).position.0 as int,
                old(self).position.1 as int,
                rotated(offsets(old(self).current_piece.shape)),
            ) {
                &&& offsets(final(self).current_piece.shape) == rotated(
                    offsets(old(self).current_piece.shape),
                )
                &&& final(self).current_piece.color == old(self).current_piece.color
                &&& final(self).current_piece.t_type == old(self).current_piece.t_type
            } else {
                final(self).current_piece == old(self).current_piece
            },
            final(self).board == old(self).board,
            final(self).position == old(self).position,
            final(self).screen_size == old(self).screen_size,
            final(self).wf(),
    {
        if self.current_piece.fits_after_rotate(&self.board, self.position) {
            self.current_piece.rotate();
        }
    }

    /// Moves the falling piece down for as long as it fits one row lower, then
    /// locks it and brings `next` in.
    pub fn hard_drop_with(&mut self, next: Tetromino)
        requires
            old(self).wf(),
            next.wf(),
        ensures
            ({
                let o = offsets(old(self).current_piece.shape);
                let x = old(self).position.0 as int;
                let y = landing_row(old(self).board@, x, old(self).position.1 as int, o);
                final(self).board@ == if shape_fits(old(self).board@, x, y, o) {
                    painted(
                        old(self).board@,
                        x,
                        y,
                        o,
                        DisplayBlock {
                            color: Some(old(self).current_piece.color),
                            action: DisplayAction::Persist,
                        },
                    )
                } else {
                    old(self).board@
                }
            }),
            final(self).position == SPAWN_POSITION,
            final(self).current_piece == next,
            final(self).screen_size == old(self).screen_size,
            final(self).wf(),
    {
        let ghost o = offsets(self.current_piece.shape);
        let ghost target = landing_row(self.board@, self.position.0 as int, self.position.1 as int, o);
        while self.can_piece_move_down()
            invariant
                self.wf(),
                self.board == old(self).board,
                self.current_piece == old(self).current_piece,
                self.screen_size == old(self).screen_size,
                self.position.0 == old(self).position.0,
                o == offsets(self.current_piece.shape),
                landing_row(self.board@, self.position.0 as int, self.position.1 as int, o) == target,
            decreases i32::MAX - self.position.1,
        {
            self.move_current_piece(Direction::Down);
        }
        self.lock_piece_with(next);
    }

    /// Moves the falling piece down for as long as it fits one row lower, then
    /// locks it and brings a piece of a random kind in.
    pub fn hard_drop(&mut self)
        requires
            old(self).wf(),
        ensures
            ({
                let o = offsets(old(self).current_piece.shape);
                let x = old(self).position.0 as int;
                let y = landing_row(old(self).board@, x, old(self).position.1 as int, o);
                final(self).board@ == if shape_fits(old(self).board@, x, y, o) {
                    painted(
                        old(self).board@,
                        x,
                        y,
                        o,
                        DisplayBlock {
                            color: Some(old(self).current_piece.color),
                            action: DisplayAction::Persist,
                        },
                    )
                } else {
                    old(self).board@
                }
            }),
            final(self).position == SPAWN_POSITION,
            final(self).current_piece.is_base(),
            final(self).screen_size == old(self).screen_size,
            final(self).wf(),
    {
        let next = Tetromino::random();
        self.hard_drop_with(next);
    }

    /// Takes out every full row, moves the rows above each one down in their
    /// order, and fills the top with as many empty rows; returns how many rows
    /// were taken out.
    pub fn remove_full_lines(&mut self) -> (removed: usize)
        requires
            old(self).wf(),
        ensures
            removed == full_row_count(old(self).board@),
            is_compaction(old(self).board@, final(self).board@),
            forall|row: int| 0 <= row < 20 ==> !#[trigger] row_full(final(self).board@, row),
            final(self).position == old(self).position,
            final(self).current_piece == old(self).current_piece,
            final(self).screen_size == old(self).screen_size,
            final(self).wf(),
    {
        let ghost before = self.board@;
        let mut new_board: Board = [DisplayBlock::default();CELL_COUNT];
        let mut next_row_to_fill: usize = ROW_COUNT;
        let mut row: usize = ROW_COUNT;
        while row > 0
            invariant
                row <= 20,
                before == self.board@,
                next_row_to_fill == 20 - kept_rows(before, row as int).len(),
                forall|r: int, c: int|
                    0 <= r < next_row_to_fill && 0 <= c < 10 ==> #[trigger] new_board@[cell_index(
                        r,
                        c,
                    )] == DisplayBlock::blank(),
                forall|i: int, c: int|
                    0 <= i < kept_rows(before, row as int).len() && 0 <= c < 10
                        ==> #[trigger] new_board@[cell_index(next_row_to_fill + i, c)]
                        == before[cell_index(kept_rows(before, row as int)[i], c)],
            decreases row,
        {
            proof {
                lemma_kept_rows_ordered(before, row as int);
            }
            row -= 1;
            let ghost later = kept_rows(before, row + 1);
            if !is_row_full(&self.board, row) {
                next_row_to_fill -= 1;
                let ghost previous = new_board@;
                copy_row(&mut new_board, next_row_to_fill, &self.board, row);
                let ghost kept = kept_rows(before, row as int);
                assert(kept == seq![row as int].add(later));
                assert forall|i: int, c: int|
                    0 <= i < kept.len() && 0 <= c < 10 implies #[trigger] new_board@[cell_index(
                    next_row_to_fill + i,
                    c,
                )] == before[cell_index(kept[i], c)] by {
                    if i > 0 {
                        assert(previous[cell_index(next_row_to_fill + 1 + (i - 1), c)]
                            == before[cell_index(later[i - 1], c)]);
                    }
                }
            }
        }
        proof {
            lemma_kept_rows_ordered(before, 0);
            assert(board_wf(new_board@)) by {
                assert forall|k: int| 0 <= k < 200 implies (#[trigger] new_board@[k]).wf() by {
                    let r = k / 10;
                    let c = k % 10;
                    assert(k == cell_index(r, c));
                    if r >= next_row_to_fill {
                        let i = r - next_row_to_fill;
                        assert(new_board@[cell_index(next_row_to_fill + i, c)] == before[cell_index(
                            kept_rows(before, 0)[i],
                            c,
                        )]);
                    }
                }
            }
        }
        self.board = new_board;
        proof {
            lemma_compaction_leaves_no_full_row(before, self.board@);
        }
        next_row_to_fill
    }
}

} // verus!
