use vstd::prelude::*;
use crate::board::{cell_index, in_bounds, is_occupied, Board, Position, COLUMN_COUNT, ROW_COUNT};
use crate::display::{Color, DisplayAction, DisplayBlock};

verus! {

/// The seven kinds of piece.
#[derive(Debug, Clone, Copy, PartialEq, Eq, Structural)]
pub enum TetrominoType {
    I,
    J,
    L,
    O,
    S,
    T,
    Z,
}

/// Number of kinds of piece.
pub const KIND_COUNT: usize = 7;

/// The offsets of a piece's four cells from its pivot, each as [dx, dy].
pub type Shape = [[i32; 2]; 4];

/// A piece: its kind, its current orientation and its color.
#[derive(Debug, Clone, Copy)]
pub struct Tetromino {
    pub shape: Shape,
    pub color: Color,
    pub t_type: TetrominoType,
}

/// The kind at place `i` of the order I, J, L, O, S, T, Z.
pub open spec fn kind_at(i: int) -> TetrominoType {
    if i == 0 {
        TetrominoType::I
    } else if i == 1 {
        TetrominoType::J
    } else if i == 2 {
        TetrominoType::L
    } else if i == 3 {
        TetrominoType::O
    } else if i == 4 {
        TetrominoType::S
    } else if i == 5 {
        TetrominoType::T
    } else {
        TetrominoType::Z
    }
}

/// The base orientation of each kind, as (dx, dy) offsets.
pub open spec fn base_offsets(t: TetrominoType) -> Seq<(int, int)> {
    match t {
        TetrominoType::I => seq![(-1, 0), (0, 0), (1, 0), (2, 0)],
        TetrominoType::T => seq![(0, -1), (-1, 0), (0, 0), (1, 0)],
        TetrominoType::O => seq![(0, -1), (1, -1), (0, 0), (1, 0)],
        TetrominoType::J => seq![(-1, -1), (-1, 0), (0, 0), (1, 0)],
        TetrominoType::L => seq![(1, -1), (-1, 0), (0, 0), (1, 0)],
        TetrominoType::S => seq![(0, -1), (1, -1), (-1, 0), (0, 0)],
        TetrominoType::Z => seq![(-1, -1), (0, -1), (0, 0), (1, 0)],
    }
}

/// The color of each kind.
pub open spec fn base_color(t: TetrominoType) -> Color {
    match t {
        TetrominoType::I => Color::SkyBlue,
        TetrominoType::T => Color::Purple,
        TetrominoType::O => Color::Yellow,
        TetrominoType::J => Color::Blue,
        TetrominoType::L => Color::Orange,
        TetrominoType::S => Color::Green,
        TetrominoType::Z => Color::Red,
    }
}

/// The offsets of a shape as pairs of integers.
pub open spec fn offsets(s: Shape) -> Seq<(int, int)> {
    Seq::new(4, |i: int| (s[i][0] as int, s[i][1] as int))
}

/// Each offset (x, y) turned a quarter about the pivot, into (-y, x).
pub open spec fn rotated(o: Seq<(int, int)>) -> Seq<(int, int)> {
    Seq::new(o.len(), |i: int| (-o[i].1, o[i].0))
}

/// Whether the cell at (row, col) lies on the board and is empty.
pub open spec fn cell_free(board: Seq<DisplayBlock>, row: int, col: int) -> bool {
    in_bounds(row, col) && board[cell_index(row, col)].action == DisplayAction::Empty
}

/// Whether the cells `o` covers with its pivot at column `x` and row `y`
/// all lie on the board and are empty.
pub open spec fn shape_fits(board: Seq<DisplayBlock>, x: int, y: int, o: Seq<(int, int)>) -> bool {
    forall|i: int| 0 <= i < o.len() ==> #[trigger] cell_free(board, y + o[i].1, x + o[i].0)
}

/// No offset of the shape is `i32::MIN`, so each can be negated.
pub open spec fn shape_wf(s: Shape) -> bool {
    forall|i: int, j: int| 0 <= i < 4 && 0 <= j < 2 ==> #[trigger] s[i][j] != i32::MIN
}

/// Each kind's base shape has four offsets and a color other than the background.
pub proof fn lemma_base_pieces(t: TetrominoType)
    ensures
        base_offsets(t).len() == 4,
        base_color(t) != crate::display::BACKGROUND,
{
}

/// Turning a shape a quarter four times gives back the offsets it started with.
pub proof fn lemma_rotate_four_times(o: Seq<(int, int)>)
    ensures
        rotated(rotated(rotated(rotated(o)))) == o,
{
    assert(rotated(rotated(rotated(rotated(o)))) =~= o);
}

/// Four quarter turns in a row, each as `rotate` makes it, give back the shape
/// they started from.
pub proof fn lemma_four_rotations_restore_shape(s0: Shape, s1: Shape, s2: Shape, s3: Shape, s4: Shape)
    requires
        offsets(s1) == rotated(offsets(s0)),
        offsets(s2) == rotated(offsets(s1)),
        offsets(s3) == rotated(offsets(s2)),
        offsets(s4) == rotated(offsets(s3)),
    ensures
        s4 == s0,
{
    lemma_rotate_four_times(offsets(s0));
    assert forall|i: int| 0 <= i < 4 implies s4[i] == s0[i] by {
        assert(offsets(s4)[i] == offsets(s0)[i]);
        assert(s4[i] =~= s0[i]);
    }
    assert(s4 =~= s0);
}

/// A placement fits exactly when each of its cells lies on the board over a
/// cell that neither a locked piece nor the painted falling piece takes up.
pub proof fn lemma_fits_iff_cells_free(board: Seq<DisplayBlock>, x: int, y: int, o: Seq<(int, int)>)
    requires
        board.len() == 200,
    ensures
        shape_fits(board, x, y, o) <==> forall|i: int|
            0 <= i < o.len() ==> {
                &&& #[trigger] in_bounds(y + o[i].1, x + o[i].0)
                &&& board[cell_index(y + o[i].1, x + o[i].0)].action != DisplayAction::Persist
                &&& board[cell_index(y + o[i].1, x + o[i].0)].action != DisplayAction::MustClean
            },
{
    if !shape_fits(board, x, y, o) {
        let i = choose|i: int| 0 <= i < o.len() && !#[trigger] cell_free(board, y + o[i].1, x + o[i].0);
        assert(!in_bounds(y + o[i].1, x + o[i].0) || board[cell_index(y + o[i].1, x + o[i].0)].action != DisplayAction::Empty);
    } else {
        assert forall|i: int| 0 <= i < o.len() implies {
            &&& #[trigger] in_bounds(y + o[i].1, x + o[i].0)
            &&& board[cell_index(y + o[i].1, x + o[i].0)].action != DisplayAction::Persist
            &&& board[cell_index(y + o[i].1, x + o[i].0)].action != DisplayAction::MustClean
        } by {
            assert(cell_free(board, y + o[i].1, x + o[i].0));
        }
    }
}

/// A placement with a cell off the board does not fit.
pub proof fn lemma_off_board_does_not_fit(
    board: Seq<DisplayBlock>,
    x: int,
    y: int,
    o: Seq<(int, int)>,
    i: int,
)
    requires
        0 <= i < o.len(),
        !in_bounds(y + o[i].1, x + o[i].0),
    ensures
        !shape_fits(board, x, y, o),
{
    assert(!cell_free(board, y + o[i].1, x + o[i].0));
}

/// Relies on macroquad::rand::gen_range (quad_rand's): on integers it scales a
/// draw of `[0, 1)` onto `[low, high)` and truncates; with `low == 0` and
/// `high` this small the scaled value stays below `high`.
#[verifier::external_body]
fn random_below(high: usize) -> (r: usize)
    requires
        0 < high <= 0xFFFF,
    ensures
        r < high,
{
    macroquad::rand::gen_range(0, high)
}

impl TetrominoType {
    /// The kind at place `i` of the order I, J, L, O, S, T, Z.
    pub fn from_index(i: usize) -> (r: TetrominoType)
        requires
            i < KIND_COUNT,
        ensures
            r == kind_at(i as int),
    {
        match i {
            0 => TetrominoType::I,
            1 => TetrominoType::J,
            2 => TetrominoType::L,
            3 => TetrominoType::O,
            4 => TetrominoType::S,
            5 => TetrominoType::T,
            _ => TetrominoType::Z,
        }
    }
}

impl Tetromino {
    /// The piece is in the base orientation and color of its kind.
    pub open spec fn is_base(self) -> bool {
        &&& offsets(self.shape) == base_offsets(self.t_type)
        &&& self.color == base_color(self.t_type)
    }

    /// The piece's offsets can be rotated without overflow.
    pub open spec fn wf(self) -> bool {
        shape_wf(self.shape)
    }

    /// The piece of the given kind, in its base orientation and color.
    pub fn new(t_type: TetrominoType) -> (r: Tetromino)
        ensures
            r.t_type == t_type,
            r.is_base(),
            r.wf(),
    {
        let (shape, color): (Shape, Color) = match t_type {
            TetrominoType::I => ([[-1, 0], [0, 0], [1, 0], [2, 0]], Color::SkyBlue),
            TetrominoType::T => ([[0, -1], [-1, 0], [0, 0], [1, 0]], Color::Purple),
            TetrominoType::O => ([[0, -1], [1, -1], [0, 0], [1, 0]], Color::Yellow),
            TetrominoType::J => ([[-1, -1], [-1, 0], [0, 0], [1, 0]], Color::Blue),
            TetrominoType::L => ([[1, -1], [-1, 0], [0, 0], [1, 0]], Color::Orange),
            TetrominoType::S => ([[0, -1], [1, -1], [-1, 0], [0, 0]], Color::Green),
            TetrominoType::Z => ([[-1, -1], [0, -1], [0, 0], [1, 0]], Color::Red),
        };
        let r = Tetromino { shape, color, t_type };
        assert(offsets(r.shape) =~= base_offsets(t_type));
        r
    }

    /// A piece of a kind drawn at random, in its base orientation.
    pub fn random() -> (r: Tetromino)
        ensures
            r.is_base(),
            r.wf(),
    {
        let num = random_below(KIND_COUNT);
        Self::new(TetrominoType::from_index(num))
    }

    /// Whether the piece, with its pivot at `position`, lies on the board over empty cells.
    pub fn fits(&self, board: &Board, position: Position) -> (r: bool)
        ensures
            r == shape_fits(board@, position.0 as int, position.1 as int, offsets(self.shape)),
    {
        self.check_fit(board, position, &self.shape)
    }

    /// Whether the piece, turned a quarter, would fit with its pivot at `position`.
    pub fn fits_after_rotate(&self, board: &Board, position: Position) -> (r: bool)
        requires
            self.wf(),
        ensures
            r == shape_fits(
                board@,
                position.0 as int,
                position.1 as int,
                rotated(offsets(self.shape)),
            ),
    {
        self.check_fit(board, position, &self.rotated_shape())
    }

    fn check_fit(&self, board: &Board, position: Position, shape: &Shape) -> (r: bool)
        ensures
            r == shape_fits(board@, position.0 as int, position.1 as int, offsets(*shape)),
    {
        let (cx, cy) = position;
        let ghost o = offsets(*shape);
        let mut i: usize = 0;
        let mut all_free = true;
        while i < 4 && all_free
            invariant
                i <= 4,
                o == offsets(*shape),
                all_free == shape_fits(board@, cx as int, cy as int, o.take(i as int)),
                !all_free ==> i > 0 && !cell_free(board@, cy + o[i - 1].1, cx + o[i - 1].0),
            decreases 4 - i,
        {
            let col = shape[i][0] as i64 + cx as i64;
            let row = shape[i][1] as i64 + cy as i64;
            assert(o[i as int] == (shape[i as int][0] as int, shape[i as int][1] as int));
            all_free = 0 <= row && row < ROW_COUNT as i64 && 0 <= col && col < COLUMN_COUNT as i64
                && !is_occupied(board, row, col);
            assert(all_free == cell_free(board@, cy + o[i as int].1, cx + o[i as int].0));
            assert(o.take(i + 1) =~= o.take(i as int).push(o[i as int]));
            assert(o.take(i + 1)[i as int] == o[i as int]);
            i += 1;
        }
        if !all_free {
            assert(!cell_free(board@, cy + o[i - 1].1, cx + o[i - 1].0));
        } else {
            assert(o.take(4) =~= o);
        }
        all_free
    }

    /// The shape turned a quarter about the pivot: each offset (x, y) becomes (-y, x).
    pub fn rotated_shape(self) -> (r: Shape)
        requires
            self.wf(),
        ensures
            offsets(r) == rotated(offsets(self.shape)),
            shape_wf(r),
    {
        let s = self.shape;
        let r: Shape = [[-s[0][1], s[0][0]], [-s[1][1], s[1][0]], [-s[2][1], s[2][0]], [
            -s[3][1],
            s[3][0],
        ]];
        assert(offsets(r) =~= rotated(offsets(self.shape)));
        r
    }

    /// Turns the piece a quarter about its pivot, whether or not it still fits.
    pub fn rotate(&mut self)
        requires
            old(self).wf(),
        ensures
            offsets(final(self).shape) == rotated(offsets(old(self).shape)),
            final(self).color == old(self).color,
            final(self).t_type == old(self).t_type,
            final(self).wf(),
    {
        self.shape = self.rotated_shape();
    }
}

} // verus!
