use vstd::prelude::*;
use crate::display::{DisplayAction, DisplayBlock};

verus! {

/// Number of rows of the board; row 0 is the top.
pub const ROW_COUNT: usize = 20;

/// Number of columns of the board.
pub const COLUMN_COUNT: usize = 10;

/// Number of cells of the board.
pub const CELL_COUNT: usize = 200;

/// The board, row by row: the cell of row `r` and column `c` is at `r * COLUMN_COUNT + c`.
pub type Board = [DisplayBlock; 200];

/// An anchor on the board, as (column, row).
pub type Position = (i32, i32);

/// Whether (row, col) lies on the board.
pub open spec fn in_bounds(row: int, col: int) -> bool {
    0 <= row < 20 && 0 <= col < 10
}

/// Index of the cell at (row, col).
pub open spec fn cell_index(row: int, col: int) -> int {
    row * 10 + col
}

/// Whether (row, col) lies on the board and its cell is not empty.
pub open spec fn occupied(board: Seq<DisplayBlock>, row: int, col: int) -> bool {
    in_bounds(row, col) && board[cell_index(row, col)].action != DisplayAction::Empty
}

/// A row is full when each of its cells belongs to a locked piece.
pub open spec fn row_full(board: Seq<DisplayBlock>, row: int) -> bool {
    forall|col: int| 0 <= col < 10 ==> #[trigger] board[cell_index(row, col)].action
        == DisplayAction::Persist
}

/// The rows from `row` down to the bottom that are not full, top to bottom.
pub open spec fn kept_rows(board: Seq<DisplayBlock>, row: int) -> Seq<int>
    decreases 20 - row,
{
    if row >= 20 || row < 0 {
        Seq::empty()
    } else if row_full(board, row) {
        kept_rows(board, row + 1)
    } else {
        seq![row].add(kept_rows(board, row + 1))
    }
}

/// How many full rows the board holds.
pub open spec fn full_row_count(board: Seq<DisplayBlock>) -> int {
    20 - kept_rows(board, 0).len()
}

/// `after` is `before` with its full rows taken out, the rows above them moved
/// down in their order, and as many empty rows put on top as were taken out.
pub open spec fn is_compaction(before: Seq<DisplayBlock>, after: Seq<DisplayBlock>) -> bool {
    let kept = kept_rows(before, 0);
    let removed = full_row_count(before);
    &&& after.len() == 200
    &&& forall|row: int, col: int|
        0 <= row < removed && 0 <= col < 10 ==> #[trigger] after[cell_index(row, col)]
            == DisplayBlock::blank()
    &&& forall|i: int, col: int|
        0 <= i < kept.len() && 0 <= col < 10 ==> #[trigger] after[cell_index(removed + i, col)]
            == before[cell_index(kept[i], col)]
}

/// Each cell that is not empty holds a color.
pub open spec fn board_wf(board: Seq<DisplayBlock>) -> bool {
    forall|i: int| 0 <= i < board.len() ==> (#[trigger] board[i]).wf()
}

/// The rows that `kept_rows` gives lie between `row` and the bottom, are not
/// full, and come top to bottom.
pub proof fn lemma_kept_rows_ordered(board: Seq<DisplayBlock>, row: int)
    requires
        0 <= row <= 20,
    ensures
        kept_rows(board, row).len() <= 20 - row,
        forall|i: int|
            0 <= i < kept_rows(board, row).len() ==> row <= #[trigger] kept_rows(board, row)[i]
                < 20 && !row_full(board, kept_rows(board, row)[i]),
        forall|i: int, j: int|
            0 <= i < j < kept_rows(board, row).len() ==> #[trigger] kept_rows(board, row)[i]
                < #[trigger] kept_rows(board, row)[j],
    decreases 20 - row,
{
    if row < 20 {
        lemma_kept_rows_ordered(board, row + 1);
    }
}

/// Every row from `row` down that is not full is kept.
pub proof fn lemma_kept_rows_complete(board: Seq<DisplayBlock>, row: int)
    requires
        0 <= row <= 20,
    ensures
        forall|r: int| row <= r < 20 && !row_full(board, r) ==> #[trigger] kept_rows(board, row).contains(r),
    decreases 20 - row,
{
    if row < 20 {
        lemma_kept_rows_complete(board, row + 1);
        assert forall|r: int| row <= r < 20 && !row_full(board, r) implies #[trigger] kept_rows(board, row).contains(r) by {
            if r == row {
                assert(kept_rows(board, row)[0] == row);
            } else {
                assert(kept_rows(board, row + 1).contains(r));
                let j = choose|j: int| 0 <= j < kept_rows(board, row + 1).len() && #[trigger] kept_rows(board, row + 1)[j] == r;
                if row_full(board, row) {
                } else {
                    assert(kept_rows(board, row) == seq![row].add(kept_rows(board, row + 1)));
                    assert(kept_rows(board, row)[j + 1] == r);
                }
            }
        }
    }
}

/// On a board with no full row from `row` down, every one of those rows is kept.
pub proof fn lemma_kept_rows_all(board: Seq<DisplayBlock>, row: int)
    requires
        0 <= row <= 20,
        forall|r: int| row <= r < 20 ==> !#[trigger] row_full(board, r),
    ensures
        kept_rows(board, row) == Seq::new((20 - row) as nat, |i: int| row + i),
    decreases 20 - row,
{
    if row < 20 {
        lemma_kept_rows_all(board, row + 1);
        assert(kept_rows(board, row) =~= Seq::new((20 - row) as nat, |i: int| row + i));
    } else {
        assert(kept_rows(board, row) =~= Seq::new((20 - row) as nat, |i: int| row + i));
    }
}

/// A compacted board holds no full row.
pub proof fn lemma_compaction_leaves_no_full_row(before: Seq<DisplayBlock>, after: Seq<DisplayBlock>)
    requires
        before.len() == 200,
        is_compaction(before, after),
    ensures
        forall|row: int| 0 <= row < 20 ==> !#[trigger] row_full(after, row),
        full_row_count(after) == 0,
{
    let kept = kept_rows(before, 0);
    let removed = full_row_count(before);
    lemma_kept_rows_ordered(before, 0);
    assert forall|row: int| 0 <= row < 20 implies !#[trigger] row_full(after, row) by {
        if row < removed {
            assert(after[cell_index(row, 0)] == DisplayBlock::blank());
            assert(after[cell_index(row, 0)].action != DisplayAction::Persist);
        } else {
            let i = row - removed;
            let k = kept[i];
            assert(!row_full(before, k));
            let col = choose|col: int|
                0 <= col < 10 && before[cell_index(k, col)].action != DisplayAction::Persist;
            assert(after[cell_index(removed + i, col)] == before[cell_index(k, col)]);
            assert(after[cell_index(row, col)].action != DisplayAction::Persist);
        }
    }
    lemma_kept_rows_all(after, 0);
}

/// Row `ra` of `a` holds the same cells as row `rb` of `b`.
pub open spec fn same_row(a: Seq<DisplayBlock>, ra: int, b: Seq<DisplayBlock>, rb: int) -> bool {
    forall|col: int| 0 <= col < 10 ==> #[trigger] a[cell_index(ra, col)] == b[cell_index(rb, col)]
}

/// Compaction keeps any two rows that are not full, with their cells, and
/// keeps the upper one above the lower one.
pub proof fn lemma_compaction_keeps_row_order(
    before: Seq<DisplayBlock>,
    after: Seq<DisplayBlock>,
    upper: int,
    lower: int,
)
    requires
        before.len() == 200,
        is_compaction(before, after),
        0 <= upper < lower < 20,
        !row_full(before, upper),
        !row_full(before, lower),
    ensures
        exists|p: int, q: int|
            0 <= p < q < 20 && same_row(after, p, before, upper) && same_row(after, q, before, lower),
{
    let kept = kept_rows(before, 0);
    let removed = full_row_count(before);
    lemma_kept_rows_ordered(before, 0);
    lemma_kept_rows_complete(before, 0);
    assert(kept.contains(upper));
    assert(kept.contains(lower));
    let i = choose|i: int| 0 <= i < kept.len() && #[trigger] kept[i] == upper;
    let j = choose|j: int| 0 <= j < kept.len() && #[trigger] kept[j] == lower;
    if j <= i {
        if j < i {
            assert(kept[j] < kept[i]);
        }
    }
    assert forall|col: int| 0 <= col < 10 implies #[trigger] after[cell_index(removed + i, col)]
        == before[cell_index(upper, col)] by {}
    assert forall|col: int| 0 <= col < 10 implies #[trigger] after[cell_index(removed + j, col)]
        == before[cell_index(lower, col)] by {}
    assert(same_row(after, removed + i, before, upper));
    assert(same_row(after, removed + j, before, lower));
}

/// Compacting a board that was just compacted removes no row and changes nothing.
pub proof fn lemma_compaction_idempotent(before: Seq<DisplayBlock>, after: Seq<DisplayBlock>)
    requires
        before.len() == 200,
        is_compaction(before, after),
    ensures
        full_row_count(after) == 0,
        is_compaction(after, after),
{
    lemma_compaction_leaves_no_full_row(before, after);
    lemma_kept_rows_all(after, 0);
}

/// How many of the first `n` cells of the row belong to a locked piece.
pub open spec fn persisted_in_row(board: Seq<DisplayBlock>, row: int, n: int) -> int
    decreases n,
{
    if n <= 0 {
        0
    } else {
        persisted_in_row(board, row, n - 1) + if board[cell_index(row, n - 1)].action
            == DisplayAction::Persist {
            1int
        } else {
            0int
        }
    }
}

/// How many cells of the listed rows belong to a locked piece.
pub open spec fn persisted_in_rows(board: Seq<DisplayBlock>, rows: Seq<int>) -> int
    decreases rows.len(),
{
    if rows.len() == 0 {
        0
    } else {
        persisted_in_row(board, rows[0], 10) + persisted_in_rows(board, rows.drop_first())
    }
}

/// How many cells of rows `row` to the bottom belong to a locked piece.
pub open spec fn persisted_from(board: Seq<DisplayBlock>, row: int) -> int
    decreases 20 - row,
{
    if row >= 20 || row < 0 {
        0
    } else {
        persisted_in_row(board, row, 10) + persisted_from(board, row + 1)
    }
}

/// How many cells of the board belong to a locked piece.
pub open spec fn persisted_count(board: Seq<DisplayBlock>) -> int {
    persisted_from(board, 0)
}

proof fn lemma_full_row_count(board: Seq<DisplayBlock>, row: int, n: int)
    requires
        row_full(board, row),
        0 <= n <= 10,
    ensures
        persisted_in_row(board, row, n) == n,
    decreases n,
{
    if n > 0 {
        lemma_full_row_count(board, row, n - 1);
    }
}

proof fn lemma_same_row_count(a: Seq<DisplayBlock>, ra: int, b: Seq<DisplayBlock>, rb: int, n: int)
    requires
        0 <= n <= 10,
        forall|col: int| 0 <= col < n ==> a[cell_index(ra, col)] == b[cell_index(rb, col)],
    ensures
        persisted_in_row(a, ra, n) == persisted_in_row(b, rb, n),
    decreases n,
{
    if n > 0 {
        lemma_same_row_count(a, ra, b, rb, n - 1);
    }
}

proof fn lemma_persisted_in_kept_rows(board: Seq<DisplayBlock>, row: int)
    requires
        0 <= row <= 20,
    ensures
        persisted_from(board, row) == persisted_in_rows(board, kept_rows(board, row)) + 10 * (20
            - row - kept_rows(board, row).len()),
    decreases 20 - row,
{
    if row < 20 {
        lemma_persisted_in_kept_rows(board, row + 1);
        lemma_kept_rows_ordered(board, row + 1);
        if row_full(board, row) {
            lemma_full_row_count(board, row, 10);
        } else {
            let k = kept_rows(board, row);
            assert(k.drop_first() =~= kept_rows(board, row + 1));
        }
    }
}

proof fn lemma_persisted_after_compaction(
    before: Seq<DisplayBlock>,
    after: Seq<DisplayBlock>,
    row: int,
)
    requires
        is_compaction(before, after),
        full_row_count(before) <= row <= 20,
    ensures
        persisted_from(after, row) == persisted_in_rows(
            before,
            kept_rows(before, 0).subrange(row - full_row_count(before), kept_rows(before, 0).len() as int),
        ),
    decreases 20 - row,
{
    let kept = kept_rows(before, 0);
    let removed = full_row_count(before);
    lemma_kept_rows_ordered(before, 0);
    if row < 20 {
        lemma_persisted_after_compaction(before, after, row + 1);
        let i = row - removed;
        assert forall|col: int| 0 <= col < 10 implies after[cell_index(row, col)] == before[cell_index(kept[i], col)] by {
            assert(after[cell_index(removed + i, col)] == before[cell_index(kept[i], col)]);
        }
        lemma_same_row_count(after, row, before, kept[i], 10);
        assert(kept.subrange(i, kept.len() as int).drop_first() =~= kept.subrange(i + 1, kept.len() as int));
    } else {
        assert(kept.subrange(row - removed, kept.len() as int) =~= Seq::<int>::empty());
    }
}

proof fn lemma_blank_rows_count(after: Seq<DisplayBlock>, row: int, removed: int)
    requires
        0 <= row <= removed <= 20,
        forall|r: int, col: int|
            0 <= r < removed && 0 <= col < 10 ==> #[trigger] after[cell_index(r, col)]
                == DisplayBlock::blank(),
    ensures
        persisted_from(after, row) == persisted_from(after, removed),
    decreases removed - row,
{
    if row < removed {
        lemma_blank_rows_count(after, row + 1, removed);
        lemma_blank_row_count(after, row, 10);
    }
}

proof fn lemma_blank_row_count(after: Seq<DisplayBlock>, row: int, n: int)
    requires
        0 <= n <= 10,
        forall|col: int| 0 <= col < 10 ==> #[trigger] after[cell_index(row, col)] == DisplayBlock::blank(),
    ensures
        persisted_in_row(after, row, n) == 0,
    decreases n,
{
    if n > 0 {
        lemma_blank_row_count(after, row, n - 1);
        assert(after[cell_index(row, n - 1)] == DisplayBlock::blank());
    }
}

/// Compaction takes away exactly the locked cells of the full rows: ten for
/// each row taken out.
pub proof fn lemma_compaction_keeps_persisted_cells(before: Seq<DisplayBlock>, after: Seq<DisplayBlock>)
    requires
        before.len() == 200,
        is_compaction(before, after),
    ensures
        persisted_count(after) + 10 * full_row_count(before) == persisted_count(before),
{
    let kept = kept_rows(before, 0);
    let removed = full_row_count(before);
    lemma_kept_rows_ordered(before, 0);
    lemma_persisted_in_kept_rows(before, 0);
    lemma_persisted_after_compaction(before, after, removed);
    assert(kept.subrange(0, kept.len() as int) =~= kept);
    lemma_blank_rows_count(after, 0, removed);
}

/// Whether (row, col) lies on the board and its cell is not empty.
pub fn is_occupied(board: &Board, row: i64, col: i64) -> (r: bool)
    ensures
        r == occupied(board@, row as int, col as int),
{
    if 0 <= row && row < ROW_COUNT as i64 && 0 <= col && col < COLUMN_COUNT as i64 {
        let index = row as usize * COLUMN_COUNT + col as usize;
        board[index].action != DisplayAction::Empty
    } else {
        false
    }
}

/// Whether each cell of the row belongs to a locked piece.
pub fn is_row_full(board: &Board, row: usize) -> (r: bool)
    requires
        row < ROW_COUNT,
    ensures
        r == row_full(board@, row as int),
{
    let mut col: usize = 0;
    while col < COLUMN_COUNT
        invariant
            row < 20,
            col <= 10,
            forall|c: int| 0 <= c < col ==> #[trigger] board@[cell_index(row as int, c)].action
                == DisplayAction::Persist,
        decreases 10 - col,
    {
        if board[row * COLUMN_COUNT + col].action != DisplayAction::Persist {
            assert(board@[cell_index(row as int, col as int)].action != DisplayAction::Persist);
            return false;
        }
        col += 1;
    }
    true
}

/// Copies row `from` of `source` over row `to` of `target`, leaving the other rows as they were.
pub fn copy_row(target: &mut Board, to: usize, source: &Board, from: usize)
    requires
        to < ROW_COUNT,
        from < ROW_COUNT,
    ensures
        forall|col: int|
            0 <= col < 10 ==> #[trigger] final(target)@[cell_index(to as int, col)]
                == source@[cell_index(from as int, col)],
        forall|row: int, col: int|
            0 <= row < 20 && row != to && 0 <= col < 10 ==> #[trigger] final(target)@[cell_index(
                row,
                col,
            )] == old(target)@[cell_index(row, col)],
{
    let mut col: usize = 0;
    while col < COLUMN_COUNT
        invariant
            to < 20,
            from < 20,
            col <= 10,
            forall|c: int|
                0 <= c < col ==> #[trigger] target@[cell_index(to as int, c)]
                    == source@[cell_index(from as int, c)],
            forall|row: int, c: int|
                0 <= row < 20 && row != to && 0 <= c < 10 ==> #[trigger] target@[cell_index(row, c)]
                    == old(target)@[cell_index(row, c)],
        decreases 10 - col,
    {
        target[to * COLUMN_COUNT + col] = source[from * COLUMN_COUNT + col];
        col += 1;
    }
}

} // verus!
