//! Win detection: every possible five-cell line of the board is precomputed
//! as a tuple of flat indices, and the winner query scans those tuples for
//! one wholly occupied by a single color.

use vstd::prelude::*;
use vstd::arithmetic::div_mod::{lemma_fundamental_div_mod, lemma_fundamental_div_mod_converse};

use crate::board::{Board, MoveDirection, Coord, row_delta, col_delta};
use crate::cross_point::ChessType;

verus! {

/// One candidate winning line: the five indices reached from start
/// `(row, col)` by stepping `(dr, dc)` four times, on a board of side
/// length `size`.
pub open spec fn line_tuple(size: int, row: int, col: int, dr: int, dc: int) -> Seq<int> {
    Seq::new(5, |k: int| (row + k * dr) * size + (col + k * dc))
}

/// All line tuples of one orientation `(dr, dc)`: their starts enumerated
/// row-major, `row_count` rows from `row_off` and `col_count` columns from
/// `col_off`.
pub open spec fn orientation_tuples(
    size: int,
    row_off: int,
    col_off: int,
    row_count: int,
    col_count: int,
    dr: int,
    dc: int,
) -> Seq<Seq<int>> {
    Seq::new(
        (row_count * col_count) as nat,
        |t: int| line_tuple(size, row_off + t / col_count, col_off + t % col_count, dr, dc),
    )
}

/// Every candidate five-in-a-row line of a board of side length `size`, in
/// construction order: horizontal runs, vertical runs, down-right diagonals,
/// then down-left diagonals; within an orientation, row-major by start.
/// A board with fewer than five cells per side has no such line.
pub open spec fn all_tuples(size: int) -> Seq<Seq<int>> {
    if size < 5 {
        Seq::empty()
    } else {
        orientation_tuples(size, 0, 0, size, size - 4, 0, 1) + orientation_tuples(
            size,
            0,
            0,
            size - 4,
            size,
            1,
            0,
        ) + orientation_tuples(size, 0, 0, size - 4, size - 4, 1, 1) + orientation_tuples(
            size,
            0,
            4,
            size - 4,
            size - 4,
            1,
            -1,
        )
    }
}

/// True when tuple `t` is a five-cell line whose every cell lies on the
/// board and holds a piece of color `c`.
pub open spec fn tuple_won(cells: Seq<Option<ChessType>>, t: Seq<int>, c: ChessType) -> bool {
    t.len() == 5 && forall|k: int| 0 <= k < t.len() ==> 0 <= #[trigger] t[k] < cells.len()
        && cells[t[k]] == Some(c)
}

/// The winner the scan reports: walking the tuples in order, the first one
/// wholly of a single color decides the game, black checked before white on
/// each tuple; with no such tuple there is no winner.
pub open spec fn winner_spec(ts: Seq<Seq<int>>, cells: Seq<Option<ChessType>>) -> Option<
    ChessType,
>
    decreases ts.len(),
{
    if ts.len() == 0 {
        None
    } else if tuple_won(cells, ts[0], ChessType::CtBlack) {
        Some(ChessType::CtBlack)
    } else if tuple_won(cells, ts[0], ChessType::CtWhite) {
        Some(ChessType::CtWhite)
    } else {
        winner_spec(ts.skip(1), cells)
    }
}

/// How many of the first `n` cells of tuple `t` lie on the board and hold a
/// piece of color `c`.
pub open spec fn color_count(
    cells: Seq<Option<ChessType>>,
    t: Seq<int>,
    c: ChessType,
    n: int,
) -> int
    decreases n,
{
    if n <= 0 {
        0
    } else {
        color_count(cells, t, c, n - 1) + (if 0 <= t[n - 1] < cells.len() && cells[t[n - 1]]
            == Some(c) {
            1int
        } else {
            0int
        })
    }
}

/// The count over a whole five-cell tuple reaches five exactly when the
/// tuple is won by that color.
proof fn lemma_count_prefix(cells: Seq<Option<ChessType>>, t: Seq<int>, c: ChessType, n: int)
    requires
        0 <= n <= t.len(),
    ensures
        0 <= color_count(cells, t, c, n) <= n,
        color_count(cells, t, c, n) == n <==> (forall|k: int| 0 <= k < n ==> 0 <= #[trigger] t[k]
            < cells.len() && cells[t[k]] == Some(c)),
    decreases n,
{
    if n > 0 {
        lemma_count_prefix(cells, t, c, n - 1);
    }
}

/// Dropping a prefix of tuples none of which is won leaves the winner
/// unchanged.
proof fn lemma_winner_prefix_none(ts: Seq<Seq<int>>, cells: Seq<Option<ChessType>>, i: int)
    requires
        0 <= i <= ts.len(),
        forall|j: int| 0 <= j < i ==> !tuple_won(cells, #[trigger] ts[j], ChessType::CtBlack)
            && !tuple_won(cells, ts[j], ChessType::CtWhite),
    ensures
        winner_spec(ts, cells) == winner_spec(ts.skip(i), cells),
    decreases i,
{
    if i == 0 {
        assert(ts.skip(0) =~= ts);
    } else {
        lemma_winner_prefix_none(ts.skip(1), cells, i - 1);
        assert(forall|j: int| 0 <= j < i - 1 ==> ts.skip(1)[j] == ts[j + 1]);
        assert(ts.skip(1).skip(i - 1) =~= ts.skip(i));
    }
}

/// On a board with no pieces at all there is no winner: no tuple can be
/// wholly one color, so the scan reports none.
pub proof fn lemma_empty_board_no_winner(ts: Seq<Seq<int>>, cells: Seq<Option<ChessType>>)
    requires
        forall|i: int| 0 <= i < cells.len() ==> #[trigger] cells[i] is None,
    ensures
        winner_spec(ts, cells) == None::<ChessType>,
    decreases ts.len(),
{
    if ts.len() > 0 {
        if tuple_won(cells, ts[0], ChessType::CtBlack) {
            assert(cells[ts[0][0]] == Some(ChessType::CtBlack));
        }
        if tuple_won(cells, ts[0], ChessType::CtWhite) {
            assert(cells[ts[0][0]] == Some(ChessType::CtWhite));
        }
        lemma_empty_board_no_winner(ts.skip(1), cells);
    }
}

/// A board of side length `N >= 5` has exactly `2*N*(N-4) + 2*(N-4)*(N-4)`
/// candidate five-in-a-row lines: one horizontal and one vertical block of
/// `N*(N-4)` runs each, and two diagonal blocks of `(N-4)*(N-4)` runs each.
pub proof fn lemma_tuple_count(size: int)
    requires
        size >= 5,
    ensures
        all_tuples(size).len() == 2 * size * (size - 4) + 2 * (size - 4) * (size - 4),
{
    assert(size * (size - 4) >= 0 && (size - 4) * (size - 4) >= 0) by (nonlinear_arith)
        requires
            size >= 5,
    {}
    assert(size * (size - 4) + (size - 4) * size + ((size - 4) * (size - 4) + (size - 4) * (size
        - 4)) == 2 * size * (size - 4) + 2 * (size - 4) * (size - 4)) by (nonlinear_arith)
    {}
}

/// When some tuple is wholly of color `ch` and no tuple is wholly of the
/// opposing color, the scan reports `ch`, whichever tuple it meets first.
proof fn lemma_winner_unique_color(
    ts: Seq<Seq<int>>,
    cells: Seq<Option<ChessType>>,
    ch: ChessType,
)
    requires
        exists|p: int| 0 <= p < ts.len() && tuple_won(cells, #[trigger] ts[p], ch),
        forall|p: int| 0 <= p < ts.len() ==> !tuple_won(cells, #[trigger] ts[p], ch.spec_another()),
    ensures
        winner_spec(ts, cells) == Some(ch),
    decreases ts.len(),
{
    let p = choose|p: int| 0 <= p < ts.len() && tuple_won(cells, #[trigger] ts[p], ch);
    if tuple_won(cells, ts[0], ChessType::CtBlack) {
        assert(ch == ChessType::CtBlack);
    } else if tuple_won(cells, ts[0], ChessType::CtWhite) {
        assert(ch == ChessType::CtWhite);
    } else {
        assert(p != 0);
        assert(ts.skip(1)[p - 1] == ts[p]);
        assert(forall|q: int| 0 <= q < ts.skip(1).len() ==> ts.skip(1)[q] == ts[q + 1]);
        lemma_winner_unique_color(ts.skip(1), cells, ch);
    }
}

/// Every candidate line spans at least four index positions: its last entry
/// exceeds its first by four times a positive step.
proof fn lemma_tuple_spread(size: int, q: int)
    requires
        size >= 5,
        0 <= q < all_tuples(size).len(),
    ensures
        all_tuples(size)[q].len() == 5,
        all_tuples(size)[q][4] - all_tuples(size)[q][0] >= 4,
{
    let o1 = orientation_tuples(size, 0, 0, size, size - 4, 0, 1);
    let o2 = orientation_tuples(size, 0, 0, size - 4, size, 1, 0);
    let o3 = orientation_tuples(size, 0, 0, size - 4, size - 4, 1, 1);
    let o4 = orientation_tuples(size, 0, 4, size - 4, size - 4, 1, -1);
    let t = all_tuples(size)[q];
    assert forall|r: int, c: int, dr: int, dc: int|
        (dr == 0 || dr == 1) && -1 <= dc <= 1 && (dr * size + dc >= 1)
            implies #[trigger] line_tuple(size, r, c, dr, dc)[4] - line_tuple(size, r, c, dr, dc)[0]
            >= 4 by {
        assert((r + 4 * dr) * size + (c + 4 * dc) - (r * size + c) == 4 * (dr * size + dc))
            by (nonlinear_arith)
        {}
        assert(4 * (dr * size + dc) >= 4) by (nonlinear_arith)
            requires
                dr * size + dc >= 1,
        {}
    }
    if q < o1.len() {
        assert(t == line_tuple(size, 0 + q / (size - 4), 0 + q % (size - 4), 0, 1));
        assert(0 * size + 1 >= 1) by (nonlinear_arith) {}
    } else if q < o1.len() + o2.len() {
        let q2 = q - o1.len();
        assert(t == line_tuple(size, 0 + q2 / size, 0 + q2 % size, 1, 0));
        assert(1 * size + 0 >= 1) by (nonlinear_arith)
            requires
                size >= 5,
        {}
    } else if q < o1.len() + o2.len() + o3.len() {
        let q3 = q - o1.len() - o2.len();
        assert(t == line_tuple(size, 0 + q3 / (size - 4), 0 + q3 % (size - 4), 1, 1));
        assert(1 * size + 1 >= 1) by (nonlinear_arith)
            requires
                size >= 5,
        {}
    } else {
        let q4 = q - o1.len() - o2.len() - o3.len();
        assert(t == line_tuple(size, 0 + q4 / (size - 4), 4 + q4 % (size - 4), 1, -1));
        assert(1 * size + -1 >= 1) by (nonlinear_arith)
            requires
                size >= 5,
        {}
    }
}

/// Five pieces of one color filling a whole horizontal run, on an otherwise
/// empty board, make that color the winner the scan reports.
pub proof fn lemma_five_in_row_wins(
    size: int,
    cells: Seq<Option<ChessType>>,
    row: int,
    col: int,
    ch: ChessType,
)
    requires
        size >= 5,
        cells.len() == size * size,
        0 <= row < size,
        0 <= col,
        col + 4 < size,
        forall|j: int| 0 <= j < cells.len() ==> #[trigger] cells[j] == (if row * size + col <= j
            <= row * size + col + 4 {
            Some(ch)
        } else {
            None::<ChessType>
        }),
    ensures
        winner_spec(all_tuples(size), cells) == Some(ch),
{
    let ts = all_tuples(size);
    let base = row * size + col;
    let o1 = orientation_tuples(size, 0, 0, size, size - 4, 0, 1);
    let p = row * (size - 4) + col;
    assert(0 <= p < size * (size - 4)) by (nonlinear_arith)
        requires
            0 <= row < size,
            0 <= col < size - 4,
            size >= 5,
            p == row * (size - 4) + col,
    {}
    assert(size * (size - 4) >= 0) by (nonlinear_arith)
        requires
            size >= 5,
    {}
    assert(o1.len() == size * (size - 4));
    lemma_fundamental_div_mod_converse(p, size - 4, row, col);
    assert(ts[p] == o1[p]);
    assert(ts[p] == line_tuple(size, row, col, 0, 1));
    assert forall|k: int| 0 <= k < 5 implies 0 <= #[trigger] ts[p][k] < cells.len()
        && cells[ts[p][k]] == Some(ch) by {
        assert(ts[p][k] == (row + k * 0) * size + (col + k * 1));
        assert((row + k * 0) * size + (col + k * 1) == base + k) by (nonlinear_arith)
            requires
                base == row * size + col,
        {}
        assert(0 <= base + k < size * size) by (nonlinear_arith)
            requires
                0 <= row < size,
                0 <= col + k < size,
                base + k == row * size + (col + k),
        {}
    }
    assert(tuple_won(cells, ts[p], ch));
    assert forall|q: int| 0 <= q < ts.len() implies !tuple_won(
        cells,
        #[trigger] ts[q],
        ch.spec_another(),
    ) by {
        if tuple_won(cells, ts[q], ch.spec_another()) {
            assert(cells[ts[q][0]] == Some(ch.spec_another()));
            assert(cells[ts[q][0]] == Some(ch));
        }
    }
    lemma_winner_unique_color(ts, cells, ch);
}

/// Four in a row do not win: with pieces of one color on a four-cell
/// horizontal run and nowhere else, the scan still reports no winner.
pub proof fn lemma_four_in_row_no_win(
    size: int,
    cells: Seq<Option<ChessType>>,
    row: int,
    col: int,
    ch: ChessType,
)
    requires
        size >= 5,
        cells.len() == size * size,
        0 <= row < size,
        0 <= col,
        col + 3 < size,
        forall|j: int| 0 <= j < cells.len() ==> #[trigger] cells[j] == (if row * size + col <= j
            <= row * size + col + 3 {
            Some(ch)
        } else {
            None::<ChessType>
        }),
    ensures
        winner_spec(all_tuples(size), cells) == None::<ChessType>,
{
    let ts = all_tuples(size);
    let base = row * size + col;
    assert forall|q: int| 0 <= q < ts.len() implies !tuple_won(
        cells,
        #[trigger] ts[q],
        ChessType::CtBlack,
    ) && !tuple_won(cells, ts[q], ChessType::CtWhite) by {
        lemma_tuple_spread(size, q);
        let t = ts[q];
        if tuple_won(cells, t, ChessType::CtBlack) || tuple_won(cells, t, ChessType::CtWhite) {
            assert(cells[t[0]] is Some);
            assert(base <= t[0] <= base + 3);
            assert(cells[t[4]] is Some);
            assert(base <= t[4] <= base + 3);
            assert(false);
        }
    }
    lemma_winner_prefix_none(ts, cells, ts.len() as int);
    assert(ts.skip(ts.len() as int) =~= Seq::<Seq<int>>::empty());
}

/// The offsets, within the one tuple list, at which each orientation's
/// block begins; kept for partial-rescan use, not needed for correctness.
struct TupleIndices {
    right: usize,
    down: usize,
    down_right: usize,
    down_left: usize,
}

/// The win detector: a snapshot of the board it judges, plus the precomputed
/// tuple list. The snapshot is private, so a caller that mutates its own
/// board must rebuild the checker before asking for the winner again.
pub struct RuleChecker {
    board: Board,
    tuples: Vec<Vec<usize>>,
    tuple_indices: TupleIndices,
}

/// A sequence of flat indices, as mathematical integers.
pub open spec fn indices_model(s: Seq<usize>) -> Seq<int> {
    s.map(|_k: int, x: usize| x as int)
}

impl RuleChecker {
    /// The board snapshot the checker judges.
    pub closed spec fn spec_board(&self) -> Board {
        self.board
    }

    /// The tuple list, as sequences of mathematical integers.
    pub closed spec fn tuples_model(&self) -> Seq<Seq<int>> {
        Seq::new(self.tuples@.len(), |i: int| indices_model(self.tuples@[i]@))
    }

    /// Every stored tuple has five entries, each a valid cell index.
    spec fn tuples_rep_ok(&self) -> bool {
        forall|i: int| 0 <= i < self.tuples@.len() ==> (#[trigger] self.tuples@[i])@.len() == 5
            && (forall|k: int| 0 <= k < self.tuples@[i]@.len() ==> #[trigger] self.tuples@[i]@[k]
            < self.board.spec_cp_count())
    }

    /// Well-formedness: the snapshot is a well-formed board and the tuple
    /// list is exactly the full set of candidate lines for its size.
    pub closed spec fn wf(&self) -> bool {
        &&& self.board.wf()
        &&& self.tuples_model() == all_tuples(self.board.spec_size() as int)
        &&& self.tuples_rep_ok()
    }

    /// The number of precomputed line tuples.
    pub fn tuple_count(&self) -> (n: usize)
        requires
            self.wf(),
        ensures
            n == all_tuples(self.spec_board().spec_size() as int).len(),
    {
        proof {
            assert(self.tuples_model().len() == self.tuples@.len());
        }
        self.tuples.len()
    }

    /// A checker over a fresh board of the classic side length, 15, with
    /// every line tuple precomputed.
    pub fn new() -> (rc: RuleChecker)
        ensures
            rc.wf(),
            rc.spec_board().spec_size() == 15,
            rc.spec_board().cells().len() == 225,
            forall|i: int| 0 <= i < rc.spec_board().cells().len()
                ==> rc.spec_board().cells()[i] is None,
    {
        let board = Board::new();
        let mut rule_checker = RuleChecker {
            board,
            tuples: Vec::new(),
            tuple_indices: TupleIndices { right: 0, down: 0, down_right: 0, down_left: 0 },
        };
        rule_checker.set_all_tuples();
        rule_checker
    }

    /// A checker over a private snapshot of the given board, with every
    /// line tuple precomputed for that board's size. A caller that mutates
    /// its own board afterwards must build a fresh checker to observe it.
    pub fn create_with_board(board: &Board) -> (rc: RuleChecker)
        requires
            board.wf(),
        ensures
            rc.wf(),
            rc.spec_board().spec_size() == board.spec_size(),
            rc.spec_board().cells() == board.cells(),
    {
        let mut rule_checker = RuleChecker {
            board: board.clone(),
            tuples: Vec::new(),
            tuple_indices: TupleIndices { right: 0, down: 0, down_right: 0, down_left: 0 },
        };
        rule_checker.set_all_tuples();
        rule_checker
    }

    /// Precomputes the whole tuple list, one orientation block after the
    /// other, and records where each block starts. A board too small for
    /// any five-cell run gets an empty list.
    fn set_all_tuples(&mut self)
        requires
            old(self).board.wf(),
            old(self).tuples@.len() == 0,
        ensures
            final(self).board == old(self).board,
            final(self).wf(),
    {
        let ghost size_i = self.board.spec_size() as int;
        let size = self.board.size();
        if size < 5 {
            proof {
                assert(self.tuples_model() =~= all_tuples(size_i));
            }
            return;
        }
        let tp_one_line = size - 4;

        self.tuple_indices.right = self.tuples.len();
        self.set_tuples(0, 0, size, tp_one_line, MoveDirection::MdRight);
        self.tuple_indices.down = self.tuples.len();
        self.set_tuples(0, 0, tp_one_line, size, MoveDirection::MdDown);
        self.tuple_indices.down_right = self.tuples.len();
        self.set_tuples(0, 0, tp_one_line, tp_one_line, MoveDirection::MdDownRight);
        self.tuple_indices.down_left = self.tuples.len();
        self.set_tuples(0, 4, tp_one_line, tp_one_line, MoveDirection::MdDownLeft);

        proof {
            let o1 = orientation_tuples(size_i, 0, 0, size_i, size_i - 4, 0, 1);
            let o2 = orientation_tuples(size_i, 0, 0, size_i - 4, size_i, 1, 0);
            let o3 = orientation_tuples(size_i, 0, 0, size_i - 4, size_i - 4, 1, 1);
            let o4 = orientation_tuples(size_i, 0, 4, size_i - 4, size_i - 4, 1, -1);
            assert(size_i * (size_i - 4) >= 0 && (size_i - 4) * (size_i - 4) >= 0)
                by (nonlinear_arith)
                requires
                    size_i >= 5,
            {}
            assert(o1.len() == size_i * (size_i - 4));
            assert(o2.len() == (size_i - 4) * size_i);
            assert(o3.len() == (size_i - 4) * (size_i - 4));
            assert(o4.len() == (size_i - 4) * (size_i - 4));
            assert(self.tuples_model() =~= all_tuples(size_i));
        }
    }

    /// Appends every line tuple of one orientation `(dr, dc)` of direction
    /// `md`, walking the block of start coordinates row-major.
    fn set_tuples(
        &mut self,
        row_offset: usize,
        col_offset: usize,
        row_count: usize,
        col_count: usize,
        md: MoveDirection,
    )
        requires
            old(self).board.wf(),
            row_count >= 1,
            col_count >= 1,
            row_delta(md) == 0 || row_delta(md) == 1,
            col_delta(md) == -1 || col_delta(md) == 0 || col_delta(md) == 1,
            row_offset + row_count + 4 * row_delta(md) <= old(self).board.spec_size(),
            col_offset + col_count + (if col_delta(md) == 1 {
                4int
            } else {
                0int
            }) <= old(self).board.spec_size(),
            col_delta(md) == -1 ==> col_offset >= 4,
        ensures
            final(self).board == old(self).board,
            final(self).tuples@.len() == old(self).tuples@.len() + row_count * col_count,
            forall|i: int| 0 <= i < old(self).tuples@.len() ==> final(self).tuples@[i] == old(
                self,
            ).tuples@[i],
            forall|i: int| old(self).tuples@.len() <= i < final(self).tuples@.len()
                ==> (#[trigger] final(self).tuples@[i])@.len() == 5 && (forall|k: int| 0 <= k < 5
                ==> final(self).tuples@[i]@[k] < old(self).board.spec_cp_count()),
            forall|i: int| old(self).tuples@.len() <= i < final(self).tuples@.len()
                ==> indices_model((#[trigger] final(self).tuples@[i])@) == orientation_tuples(
                old(self).board.spec_size() as int,
                row_offset as int,
                col_offset as int,
                row_count as int,
                col_count as int,
                row_delta(md),
                col_delta(md),
            )[i - old(self).tuples@.len()],
    {
        let ghost orig = *self;
        let ghost size_i = self.board.spec_size() as int;
        let ghost dr = row_delta(md);
        let ghost dc = col_delta(md);
        let ghost block = orientation_tuples(
            size_i,
            row_offset as int,
            col_offset as int,
            row_count as int,
            col_count as int,
            dr,
            dc,
        );
        let size = self.board.size();
        let row_end = row_offset + row_count;
        let col_end = col_offset + col_count;

        let mut row = row_offset;
        while row < row_end
            invariant
                self.board == orig.board,
                self.board.wf(),
                size_i == self.board.spec_size() as int,
                size == self.board.spec_size(),
                dr == row_delta(md),
                dc == col_delta(md),
                dr == 0 || dr == 1,
                dc == -1 || dc == 0 || dc == 1,
                row_offset + row_count + 4 * dr <= size_i,
                col_offset + col_count + (if dc == 1 {
                    4int
                } else {
                    0int
                }) <= size_i,
                dc == -1 ==> col_offset >= 4,
                row_count >= 1,
                col_count >= 1,
                row_end == row_offset + row_count,
                col_end == col_offset + col_count,
                row_offset <= row <= row_end,
                block == orientation_tuples(
                    size_i,
                    row_offset as int,
                    col_offset as int,
                    row_count as int,
                    col_count as int,
                    dr,
                    dc,
                ),
                self.tuples@.len() == orig.tuples@.len() + (row - row_offset) * col_count,
                forall|i: int| 0 <= i < orig.tuples@.len() ==> self.tuples@[i] == orig.tuples@[i],
                forall|i: int| orig.tuples@.len() <= i < self.tuples@.len()
                    ==> (#[trigger] self.tuples@[i])@.len() == 5 && (forall|k: int| 0 <= k < 5
                    ==> self.tuples@[i]@[k] < self.board.spec_cp_count()),
                forall|i: int| orig.tuples@.len() <= i < self.tuples@.len()
                    ==> indices_model((#[trigger] self.tuples@[i])@) == block[i - orig.tuples@.len()],
            decreases row_end - row,
        {
            let mut col = col_offset;
            while col < col_end
                invariant
                    self.board == orig.board,
                    self.board.wf(),
                    size_i == self.board.spec_size() as int,
                    size == self.board.spec_size(),
                    dr == row_delta(md),
                    dc == col_delta(md),
                    dr == 0 || dr == 1,
                    dc == -1 || dc == 0 || dc == 1,
                    row_offset + row_count + 4 * dr <= size_i,
                    col_offset + col_count + (if dc == 1 {
                        4int
                    } else {
                        0int
                    }) <= size_i,
                    dc == -1 ==> col_offset >= 4,
                    row_count >= 1,
                    col_count >= 1,
                    row_end == row_offset + row_count,
                    col_end == col_offset + col_count,
                    row_offset <= row < row_end,
                    col_offset <= col <= col_end,
                    block == orientation_tuples(
                        size_i,
                        row_offset as int,
                        col_offset as int,
                        row_count as int,
                        col_count as int,
                        dr,
                        dc,
                    ),
                    self.tuples@.len() == orig.tuples@.len() + (row - row_offset) * col_count + (
                    col - col_offset),
                    forall|i: int| 0 <= i < orig.tuples@.len() ==> self.tuples@[i]
                        == orig.tuples@[i],
                    forall|i: int| orig.tuples@.len() <= i < self.tuples@.len()
                        ==> (#[trigger] self.tuples@[i])@.len() == 5 && (forall|k: int| 0 <= k < 5
                        ==> self.tuples@[i]@[k] < self.board.spec_cp_count()),
                    forall|i: int| orig.tuples@.len() <= i < self.tuples@.len()
                        ==> indices_model((#[trigger] self.tuples@[i])@) == block[i
                        - orig.tuples@.len()],
                decreases col_end - col,
            {
                proof {
                    self.board.lemma_wf_facts();
                }
                let index = Coord { row, col }.to_index(size);
                proof {
                    lemma_fundamental_div_mod_converse(
                        index as int,
                        size as int,
                        row as int,
                        col as int,
                    );
                }
                let ghost len_before = self.tuples@.len();
                self.set_tuple(index, md);
                proof {
                    let p = len_before - orig.tuples@.len();
                    assert(0 <= p < block.len()) by (nonlinear_arith)
                        requires
                            p == (row - row_offset) * col_count + (col - col_offset),
                            block.len() == row_count * col_count,
                            row_offset <= row < row_offset + row_count,
                            col_offset <= col < col_offset + col_count,
                            col_count >= 1,
                    {}
                    lemma_fundamental_div_mod_converse(
                        p,
                        col_count as int,
                        row - row_offset,
                        col - col_offset,
                    );
                    assert(block[p] == line_tuple(size_i, row as int, col as int, dr, dc));
                    assert(indices_model(self.tuples@[len_before as int]@) == block[p]);
                    assert(self.tuples@.len() == orig.tuples@.len() + (row - row_offset)
                        * col_count + (col - col_offset) + 1);
                }
                col = col + 1;
            }
            proof {
                assert((row + 1 - row_offset) * col_count == (row - row_offset) * col_count
                    + col_count) by (nonlinear_arith)
                {}
            }
            row = row + 1;
        }
        proof {
            assert((row_end - row_offset) * col_count == row_count * col_count);
        }
    }

    /// Materializes one five-index tuple: the start index, then four steps
    /// in direction `md` resolved through the board's neighbor table, which
    /// the start's position guarantees all succeed; appends it to the list.
    fn set_tuple(&mut self, index: usize, md: MoveDirection)
        requires
            old(self).board.wf(),
            index < old(self).board.spec_cp_count(),
            ({
                let size = old(self).board.spec_size() as int;
                let row = index as int / size;
                let col = index as int % size;
                &&& (row_delta(md) == 0 || row_delta(md) == 1)
                &&& (col_delta(md) == -1 || col_delta(md) == 0 || col_delta(md) == 1)
                &&& 0 <= row + 4 * row_delta(md) < size
                &&& 0 <= col + 4 * col_delta(md) < size
            }),
        ensures
            final(self).board == old(self).board,
            final(self).tuples@.len() == old(self).tuples@.len() + 1,
            forall|i: int| 0 <= i < old(self).tuples@.len() ==> final(self).tuples@[i] == old(
                self,
            ).tuples@[i],
            (final(self).tuples@[old(self).tuples@.len() as int])@.len() == 5,
            forall|k: int| 0 <= k < 5 ==> (final(self).tuples@[old(
                self,
            ).tuples@.len() as int])@[k] < old(self).board.spec_cp_count(),
            indices_model((final(self).tuples@[old(self).tuples@.len() as int])@) == line_tuple(
                old(self).board.spec_size() as int,
                index as int / old(self).board.spec_size() as int,
                index as int % old(self).board.spec_size() as int,
                row_delta(md),
                col_delta(md),
            ),
    {
        let ghost orig = *self;
        let ghost size_i = self.board.spec_size() as int;
        let ghost dr = row_delta(md);
        let ghost dc = col_delta(md);
        let ghost row0 = index as int / size_i;
        let ghost col0 = index as int % size_i;
        proof {
            self.board.lemma_wf_facts();
            assert(size_i > 0) by (nonlinear_arith)
                requires
                    0 <= index as int,
                    (index as int) < size_i * size_i,
                    size_i >= 0,
            {}
            lemma_fundamental_div_mod(index as int, size_i);
            assert((row0 + 0 * dr) * size_i + (col0 + 0 * dc) == size_i * row0 + col0)
                by (nonlinear_arith)
            {}
        }

        let mut tuple: Vec<usize> = Vec::new();
        let mut index_t = index;
        tuple.push(index_t);

        let mut step_no: usize = 0;
        while step_no < 4
            invariant
                *self == orig,
                self.board.wf(),
                size_i == self.board.spec_size() as int,
                size_i > 0,
                self.board.spec_cp_count() == size_i * size_i,
                dr == row_delta(md),
                dc == col_delta(md),
                dr == 0 || dr == 1,
                dc == -1 || dc == 0 || dc == 1,
                0 <= row0 + 4 * dr < size_i,
                0 <= col0 + 4 * dc < size_i,
                0 <= row0 < size_i,
                0 <= col0 < size_i,
                step_no <= 4,
                tuple@.len() == step_no + 1,
                forall|k: int| 0 <= k <= step_no ==> #[trigger] tuple@[k] as int == (row0 + k * dr)
                    * size_i + (col0 + k * dc),
                forall|k: int| 0 <= k <= step_no ==> #[trigger] tuple@[k]
                    < self.board.spec_cp_count(),
                index_t == tuple@[step_no as int],
            decreases 4 - step_no,
        {
            proof {
                assert(0 <= row0 + step_no * dr && row0 + step_no * dr < size_i && 0 <= row0 + (
                step_no + 1) * dr && row0 + (step_no + 1) * dr < size_i) by (nonlinear_arith)
                    requires
                        0 <= step_no < 4,
                        dr == 0 || dr == 1,
                        0 <= row0 < size_i,
                        0 <= row0 + 4 * dr < size_i,
                {}
                assert(0 <= col0 + step_no * dc && col0 + step_no * dc < size_i && 0 <= col0 + (
                step_no + 1) * dc && col0 + (step_no + 1) * dc < size_i) by (nonlinear_arith)
                    requires
                        0 <= step_no < 4,
                        dc == -1 || dc == 0 || dc == 1,
                        0 <= col0 < size_i,
                        0 <= col0 + 4 * dc < size_i,
                {}
                lemma_fundamental_div_mod_converse(
                    index_t as int,
                    size_i,
                    row0 + step_no * dr,
                    col0 + step_no * dc,
                );
                assert((row0 + step_no * dr + dr) * size_i + (col0 + step_no * dc + dc) == (row0
                    + (step_no + 1) * dr) * size_i + (col0 + (step_no + 1) * dc))
                    by (nonlinear_arith)
                {}
            }
            let next = match self.board.move_by_direction(index_t, md) {
                Ok(n) => n,
                Err(_) => {
                    proof {
                        assert(false);
                    }
                    0
                },
            };
            tuple.push(next);
            index_t = next;
            step_no = step_no + 1;
        }

        proof {
            assert(indices_model(tuple@) =~= line_tuple(size_i, row0, col0, dr, dc));
        }
        self.tuples.push(tuple);
    }

    /// Scans every tuple in construction order and reports the first color
    /// holding one wholly; `None` when no five-in-a-row exists.
    pub fn get_winner(&self) -> (winner: Option<ChessType>)
        requires
            self.wf(),
        ensures
            winner == winner_spec(
                all_tuples(self.spec_board().spec_size() as int),
                self.spec_board().cells(),
            ),
    {
        let ghost ts = all_tuples(self.spec_board().spec_size() as int);
        let ghost cells = self.spec_board().cells();
        let mut t: usize = 0;
        while t < self.tuples.len()
            invariant
                self.wf(),
                t <= self.tuples@.len(),
                ts == all_tuples(self.spec_board().spec_size() as int),
                cells == self.spec_board().cells(),
                forall|j: int| 0 <= j < t ==> !tuple_won(cells, #[trigger] ts[j], ChessType::CtBlack)
                    && !tuple_won(cells, ts[j], ChessType::CtWhite),
            decreases self.tuples@.len() - t,
        {
            let tuple = &self.tuples[t];
            let mut black_count: usize = 0;
            let mut white_count: usize = 0;

            let mut k: usize = 0;
            while k < tuple.len()
                invariant
                    self.wf(),
                    cells == self.spec_board().cells(),
                    t < self.tuples@.len(),
                    tuple == self.tuples@[t as int],
                    k <= tuple@.len(),
                    tuple@.len() == 5,
                    black_count == color_count(cells, indices_model(tuple@), ChessType::CtBlack, k as int),
                    white_count == color_count(cells, indices_model(tuple@), ChessType::CtWhite, k as int),
                    black_count <= k,
                    white_count <= k,
                decreases tuple@.len() - k,
            {
                proof {
                    lemma_count_prefix(cells, indices_model(tuple@), ChessType::CtBlack, k as int);
                    lemma_count_prefix(cells, indices_model(tuple@), ChessType::CtWhite, k as int);
                    assert(self.tuples@[t as int]@[k as int] < self.board.spec_cp_count());
                }
                let index = tuple[k];
                proof {
                    self.board.lemma_wf_facts();
                    let tm = indices_model(tuple@);
                    assert(tm[k as int] == tuple@[k as int] as int);
                    assert(0 <= tm[k as int] < cells.len());
                    assert(color_count(cells, tm, ChessType::CtBlack, k + 1) == color_count(
                        cells,
                        tm,
                        ChessType::CtBlack,
                        k as int,
                    ) + (if cells[tm[k as int]] == Some(ChessType::CtBlack) {
                        1int
                    } else {
                        0int
                    }));
                    assert(color_count(cells, tm, ChessType::CtWhite, k + 1) == color_count(
                        cells,
                        tm,
                        ChessType::CtWhite,
                        k as int,
                    ) + (if cells[tm[k as int]] == Some(ChessType::CtWhite) {
                        1int
                    } else {
                        0int
                    }));
                }
                match self.board.get_chess_at(index) {
                    Ok(Some(ChessType::CtBlack)) => black_count = black_count + 1,
                    Ok(Some(ChessType::CtWhite)) => white_count = white_count + 1,
                    Ok(None) => {},
                    Err(_) => {
                        proof {
                            assert(false);
                        }
                    },
                }
                k = k + 1;
            }

            proof {
                lemma_count_prefix(cells, indices_model(tuple@), ChessType::CtBlack, 5);
                lemma_count_prefix(cells, indices_model(tuple@), ChessType::CtWhite, 5);
                assert(ts[t as int] == indices_model(tuple@));
            }
            if black_count == 5 {
                proof {
                    lemma_winner_prefix_none(ts, cells, t as int);
                    assert(ts.skip(t as int)[0] == ts[t as int]);
                }
                return Some(ChessType::CtBlack);
            } else if white_count == 5 {
                proof {
                    lemma_winner_prefix_none(ts, cells, t as int);
                    assert(ts.skip(t as int)[0] == ts[t as int]);
                }
                return Some(ChessType::CtWhite);
            }
            t = t + 1;
        }
        proof {
            lemma_winner_prefix_none(ts, cells, ts.len() as int);
            assert(ts.skip(ts.len() as int) =~= Seq::<Seq<int>>::empty());
        }
        None
    }
}

} // verus!
