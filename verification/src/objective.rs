//! Objectives: pattern-scoring rules with an integer multiplier, applied
//! identically to every player's finished board.

use vstd::prelude::*;
use crate::board::{
    board_wf, board_dice_wf, count_grid, count_row, has_color, has_face, BoardCell,
    lemma_count_grid_take_all, lemma_count_grid_take_step, lemma_count_row_take_all,
    lemma_count_row_take_step,
};
use crate::color::Color;

verus! {

/// A pattern-scoring rule carrying its multiplier.
#[derive(Clone, Copy, Debug, PartialEq, Eq, Structural)]
pub enum Objective {
    /// Multiplier per column whose cells are all occupied with pairwise
    /// distinct face values.
    ColumnNumbers(i32),
    /// The same per row.
    RowNumbers(i32),
    /// Multiplier times the least face-value count over the six faces.
    Numbers(i32),
    /// Multiplier per column whose cells are all occupied with pairwise
    /// distinct colors.
    ColumnColors(i32),
    /// The same per row.
    RowColors(i32),
    /// Multiplier times the least color count over the five colors.
    Colors(i32),
    /// Multiplier times min(count of 1s, count of 2s).
    Pair12(i32),
    /// Multiplier times min(count of 3s, count of 4s).
    Pair34(i32),
    /// Multiplier times min(count of 5s, count of 6s).
    Pair56(i32),
    /// Multiplier per occupied cell with a same-colored diagonal neighbor.
    ColorDiagonals(i32),
}

impl Objective {
    /// The rule's multiplier.
    pub open spec fn mult(self) -> int {
        match self {
            Objective::ColumnNumbers(n) => n as int,
            Objective::RowNumbers(n) => n as int,
            Objective::Numbers(n) => n as int,
            Objective::ColumnColors(n) => n as int,
            Objective::RowColors(n) => n as int,
            Objective::Colors(n) => n as int,
            Objective::Pair12(n) => n as int,
            Objective::Pair34(n) => n as int,
            Objective::Pair56(n) => n as int,
            Objective::ColorDiagonals(n) => n as int,
        }
    }

    /// A multiplier small enough that a whole hand of objectives scored on
    /// a full board still fits the score's integer type.
    pub open spec fn bounded(self) -> bool {
        -10_000_000 <= self.mult() <= 10_000_000
    }
}

/// The objective catalog, in catalog order.
pub open spec fn all_objectives_seq() -> Seq<Objective> {
    seq![
        Objective::ColumnNumbers(4),
        Objective::RowNumbers(5),
        Objective::Numbers(5),
        Objective::ColumnColors(5),
        Objective::RowColors(6),
        Objective::Colors(4),
        Objective::Pair12(2),
        Objective::Pair34(2),
        Objective::Pair56(2),
        Objective::ColorDiagonals(1),
    ]
}

/// Builds the objective catalog as a vector.
pub fn all_objectives() -> (v: Vec<Objective>)
    ensures
        v@ == all_objectives_seq(),
{
    let mut v: Vec<Objective> = Vec::new();
    v.push(Objective::ColumnNumbers(4));
    v.push(Objective::RowNumbers(5));
    v.push(Objective::Numbers(5));
    v.push(Objective::ColumnColors(5));
    v.push(Objective::RowColors(6));
    v.push(Objective::Colors(4));
    v.push(Objective::Pair12(2));
    v.push(Objective::Pair34(2));
    v.push(Objective::Pair56(2));
    v.push(Objective::ColorDiagonals(1));
    proof {
        assert(v@ =~= all_objectives_seq());
    }
    v
}

/// The cell predicate "holds a die showing face `n`".
pub open spec fn face_pred(n: u8) -> spec_fn(BoardCell) -> bool {
    |c: BoardCell| has_face(c, n)
}

/// The cell predicate "holds a die of color `col`".
pub open spec fn color_pred(col: Color) -> spec_fn(BoardCell) -> bool {
    |c: BoardCell| has_color(c, col)
}

/// How many cells of the board hold a die showing face `n`.
pub open spec fn count_face(b: Seq<Vec<BoardCell>>, n: u8) -> int {
    count_grid(b, face_pred(n))
}

/// How many cells of the board hold a die of color `col`.
pub open spec fn count_color_of(b: Seq<Vec<BoardCell>>, col: Color) -> int {
    count_grid(b, color_pred(col))
}

/// Every die in the line shows a real face value.
pub open spec fn line_dice_wf(cells: Seq<BoardCell>) -> bool {
    forall|i: int|
        0 <= i < cells.len() && (#[trigger] cells[i]).die is Some ==> cells[i].die->0.wf()
}

/// The line is fully occupied and no face value repeats.
pub open spec fn distinct_faces(cells: Seq<BoardCell>) -> bool {
    &&& forall|i: int| 0 <= i < cells.len() ==> (#[trigger] cells[i]).die is Some
    &&& forall|i: int, j: int|
        #![trigger cells[i], cells[j]]
        0 <= i < j < cells.len() ==> cells[i].die->0.face != cells[j].die->0.face
}

/// The line is fully occupied and no color repeats.
pub open spec fn distinct_colors_in(cells: Seq<BoardCell>) -> bool {
    &&& forall|i: int| 0 <= i < cells.len() ==> (#[trigger] cells[i]).die is Some
    &&& forall|i: int, j: int|
        #![trigger cells[i], cells[j]]
        0 <= i < j < cells.len() ==> cells[i].die->0.color != cells[j].die->0.color
}

/// The cells of column `c`, top to bottom.
pub open spec fn col_cells(b: Seq<Vec<BoardCell>>, c: int) -> Seq<BoardCell> {
    Seq::new(b.len(), |i: int| b[i]@[c])
}

/// The rows of the board, as lines.
pub open spec fn rows_of(b: Seq<Vec<BoardCell>>) -> Seq<Seq<BoardCell>> {
    Seq::new(b.len(), |i: int| b[i]@)
}

/// The columns of the board, as lines.
pub open spec fn cols_of(b: Seq<Vec<BoardCell>>) -> Seq<Seq<BoardCell>> {
    Seq::new(crate::constants::BOARD_COLS as nat, |c: int| col_cells(b, c))
}

/// How many of the first `k` lines satisfy the predicate.
pub open spec fn count_lines(
    lines: Seq<Seq<BoardCell>>,
    p: spec_fn(Seq<BoardCell>) -> bool,
    k: int,
) -> int
    decreases k,
{
    if k <= 0 {
        0
    } else {
        count_lines(lines, p, k - 1) + if p(lines[k - 1]) {
            1int
        } else {
            0int
        }
    }
}

/// The predicate form of [`distinct_faces`].
pub open spec fn distinct_faces_pred() -> spec_fn(Seq<BoardCell>) -> bool {
    |l: Seq<BoardCell>| distinct_faces(l)
}

/// The predicate form of [`distinct_colors_in`].
pub open spec fn distinct_colors_pred() -> spec_fn(Seq<BoardCell>) -> bool {
    |l: Seq<BoardCell>| distinct_colors_in(l)
}

/// The smaller of two integers.
pub open spec fn min2(a: int, b: int) -> int {
    if a <= b {
        a
    } else {
        b
    }
}

/// The least face-value count over the six faces.
pub open spec fn min_face_count(b: Seq<Vec<BoardCell>>) -> int {
    min2(
        min2(min2(count_face(b, 1), count_face(b, 2)), min2(count_face(b, 3), count_face(b, 4))),
        min2(count_face(b, 5), count_face(b, 6)),
    )
}

/// The least color count over the five colors.
pub open spec fn min_color_count(b: Seq<Vec<BoardCell>>) -> int {
    min2(
        min2(
            min2(count_color_of(b, Color::Red), count_color_of(b, Color::Yellow)),
            min2(count_color_of(b, Color::Green), count_color_of(b, Color::Blue)),
        ),
        count_color_of(b, Color::Purple),
    )
}

/// Whether the die at `(i, j)` has a same-colored die on a diagonal
/// neighbor.
pub open spec fn diag_qualifies(b: Seq<Vec<BoardCell>>, i: int, j: int) -> bool {
    b[i]@[j].die matches Some(d) && {
        ||| (i > 0 && has_diag_spec(b[i - 1]@, j, d.color))
        ||| (i + 1 < b.len() && has_diag_spec(b[i + 1]@, j, d.color))
    }
}

/// Whether the row holds a die of the color diagonally beside position `j`,
/// i.e. at `j - 1` or `j + 1`.
pub open spec fn has_diag_spec(row: Seq<BoardCell>, j: int, color: Color) -> bool {
    ||| (j > 0 && has_color(row[j - 1], color))
    ||| (j + 1 < row.len() && has_color(row[j + 1], color))
}

/// How many of the first `c` cells of row `i` qualify for the diagonal
/// objective.
pub open spec fn diag_count_row(b: Seq<Vec<BoardCell>>, i: int, c: int) -> int
    decreases c,
{
    if c <= 0 {
        0
    } else {
        diag_count_row(b, i, c - 1) + if diag_qualifies(b, i, c - 1) {
            1int
        } else {
            0int
        }
    }
}

/// How many cells of the first `r` rows qualify for the diagonal objective.
pub open spec fn diag_count(b: Seq<Vec<BoardCell>>, r: int) -> int
    decreases r,
{
    if r <= 0 {
        0
    } else {
        diag_count(b, r - 1) + diag_count_row(b, r - 1, b[r - 1]@.len() as int)
    }
}

/// The score a single objective awards on a board.
pub open spec fn objective_score(o: Objective, b: Seq<Vec<BoardCell>>) -> int {
    match o {
        Objective::ColumnNumbers(n) => n * count_lines(
            cols_of(b),
            distinct_faces_pred(),
            cols_of(b).len() as int,
        ),
        Objective::RowNumbers(n) => n * count_lines(
            rows_of(b),
            distinct_faces_pred(),
            rows_of(b).len() as int,
        ),
        Objective::Numbers(n) => n * min_face_count(b),
        Objective::ColumnColors(n) => n * count_lines(
            cols_of(b),
            distinct_colors_pred(),
            cols_of(b).len() as int,
        ),
        Objective::RowColors(n) => n * count_lines(
            rows_of(b),
            distinct_colors_pred(),
            rows_of(b).len() as int,
        ),
        Objective::Colors(n) => n * min_color_count(b),
        Objective::Pair12(n) => n * min2(count_face(b, 1), count_face(b, 2)),
        Objective::Pair34(n) => n * min2(count_face(b, 3), count_face(b, 4)),
        Objective::Pair56(n) => n * min2(count_face(b, 5), count_face(b, 6)),
        Objective::ColorDiagonals(n) => n * diag_count(b, b.len() as int),
    }
}

/// The line is fully occupied with pairwise distinct face values.
pub fn distinct_numbers(cells: &Vec<BoardCell>) -> (r: bool)
    requires
        line_dice_wf(cells@),
    ensures
        r == distinct_faces(cells@),
{
    let ghost cs = cells@;
    let mut s1 = false;
    let mut s2 = false;
    let mut s3 = false;
    let mut s4 = false;
    let mut s5 = false;
    let mut s6 = false;
    let mut i: usize = 0;
    while i < cells.len()
        invariant
            line_dice_wf(cs),
            cs == cells@,
            i <= cs.len(),
            forall|k: int| 0 <= k < i ==> (#[trigger] cs[k]).die is Some,
            s1 == exists|k: int| 0 <= k < i && (#[trigger] cs[k]).die->0.face == 1,
            s2 == exists|k: int| 0 <= k < i && (#[trigger] cs[k]).die->0.face == 2,
            s3 == exists|k: int| 0 <= k < i && (#[trigger] cs[k]).die->0.face == 3,
            s4 == exists|k: int| 0 <= k < i && (#[trigger] cs[k]).die->0.face == 4,
            s5 == exists|k: int| 0 <= k < i && (#[trigger] cs[k]).die->0.face == 5,
            s6 == exists|k: int| 0 <= k < i && (#[trigger] cs[k]).die->0.face == 6,
            forall|k1: int, k2: int|
                #![trigger cs[k1], cs[k2]]
                0 <= k1 < k2 < i ==> cs[k1].die->0.face != cs[k2].die->0.face,
        decreases cs.len() - i,
    {
        match cells[i].die {
            None => {
                return false;
            },
            Some(d) => {
                let seen = match d.face {
                    1 => s1,
                    2 => s2,
                    3 => s3,
                    4 => s4,
                    5 => s5,
                    _ => s6,
                };
                if seen {
                    proof {
                        let prev = choose|k: int| 0 <= k < i && (#[trigger] cs[k]).die->0.face
                            == d.face;
                        assert(cs[prev].die->0.face == cs[i as int].die->0.face);
                    }
                    return false;
                }
                match d.face {
                    1 => {
                        s1 = true;
                    },
                    2 => {
                        s2 = true;
                    },
                    3 => {
                        s3 = true;
                    },
                    4 => {
                        s4 = true;
                    },
                    5 => {
                        s5 = true;
                    },
                    _ => {
                        s6 = true;
                    },
                }
            },
        }
        i = i + 1;
    }
    true
}

/// The line is fully occupied with pairwise distinct colors.
pub fn distinct_colors(cells: &Vec<BoardCell>) -> (r: bool)
    ensures
        r == distinct_colors_in(cells@),
{
    let ghost cs = cells@;
    let mut s_red = false;
    let mut s_yellow = false;
    let mut s_green = false;
    let mut s_blue = false;
    let mut s_purple = false;
    let mut i: usize = 0;
    while i < cells.len()
        invariant
            cs == cells@,
            i <= cs.len(),
            forall|k: int| 0 <= k < i ==> (#[trigger] cs[k]).die is Some,
            s_red == exists|k: int| 0 <= k < i && (#[trigger] cs[k]).die->0.color == Color::Red,
            s_yellow == exists|k: int|
                0 <= k < i && (#[trigger] cs[k]).die->0.color == Color::Yellow,
            s_green == exists|k: int|
                0 <= k < i && (#[trigger] cs[k]).die->0.color == Color::Green,
            s_blue == exists|k: int| 0 <= k < i && (#[trigger] cs[k]).die->0.color == Color::Blue,
            s_purple == exists|k: int|
                0 <= k < i && (#[trigger] cs[k]).die->0.color == Color::Purple,
            forall|k1: int, k2: int|
                #![trigger cs[k1], cs[k2]]
                0 <= k1 < k2 < i ==> cs[k1].die->0.color != cs[k2].die->0.color,
        decreases cs.len() - i,
    {
        match cells[i].die {
            None => {
                return false;
            },
            Some(d) => {
                let seen = match d.color {
                    Color::Red => s_red,
                    Color::Yellow => s_yellow,
                    Color::Green => s_green,
                    Color::Blue => s_blue,
                    Color::Purple => s_purple,
                };
                if seen {
                    proof {
                        let prev = choose|k: int| 0 <= k < i && (#[trigger] cs[k]).die->0.color
                            == d.color;
                        assert(cs[prev].die->0.color == cs[i as int].die->0.color);
                    }
                    return false;
                }
                match d.color {
                    Color::Red => {
                        s_red = true;
                    },
                    Color::Yellow => {
                        s_yellow = true;
                    },
                    Color::Green => {
                        s_green = true;
                    },
                    Color::Blue => {
                        s_blue = true;
                    },
                    Color::Purple => {
                        s_purple = true;
                    },
                }
            },
        }
        i = i + 1;
    }
    true
}

/// How many cells of the board hold a die showing face `n`.
pub fn count_number(board: &Vec<Vec<BoardCell>>, n: u8) -> (r: i32)
    requires
        board_wf(board@),
    ensures
        r == count_face(board@, n),
        0 <= r <= 20,
{
    let ghost p = face_pred(n);
    let mut total: i32 = 0;
    let mut i: usize = 0;
    while i < board.len()
        invariant
            board_wf(board@),
            p == face_pred(n),
            i <= board@.len(),
            total == count_grid(board@.take(i as int), p),
            0 <= total <= 5 * i,
        decreases board@.len() - i,
    {
        let row = &board[i];
        let mut rowcnt: i32 = 0;
        let mut j: usize = 0;
        while j < row.len()
            invariant
                row@ == board@[i as int]@,
                board_wf(board@),
                i < board@.len(),
                p == face_pred(n),
                j <= row@.len(),
                rowcnt == count_row(row@.take(j as int), p),
                0 <= rowcnt <= j,
            decreases row@.len() - j,
        {
            let is_match = match row[j].die {
                Some(d) => d.face == n,
                None => false,
            };
            proof {
                assert(p(row@[j as int]) == is_match);
                lemma_count_row_take_step(row@, p, j as int);
            }
            if is_match {
                rowcnt = rowcnt + 1;
            }
            j = j + 1;
        }
        proof {
            lemma_count_row_take_all(row@, p);
            lemma_count_grid_take_step(board@, p, i as int);
        }
        total = total + rowcnt;
        i = i + 1;
    }
    proof {
        lemma_count_grid_take_all(board@, p);
    }
    total
}

/// How many cells of the board hold a die of color `c`.
pub fn count_color(board: &Vec<Vec<BoardCell>>, c: Color) -> (r: i32)
    requires
        board_wf(board@),
    ensures
        r == count_color_of(board@, c),
        0 <= r <= 20,
{
    let ghost p = color_pred(c);
    let mut total: i32 = 0;
    let mut i: usize = 0;
    while i < board.len()
        invariant
            board_wf(board@),
            p == color_pred(c),
            i <= board@.len(),
            total == count_grid(board@.take(i as int), p),
            0 <= total <= 5 * i,
        decreases board@.len() - i,
    {
        let row = &board[i];
        let mut rowcnt: i32 = 0;
        let mut j: usize = 0;
        while j < row.len()
            invariant
                row@ == board@[i as int]@,
                board_wf(board@),
                i < board@.len(),
                p == color_pred(c),
                j <= row@.len(),
                rowcnt == count_row(row@.take(j as int), p),
                0 <= rowcnt <= j,
            decreases row@.len() - j,
        {
            let is_match = match row[j].die {
                Some(d) => d.color == c,
                None => false,
            };
            proof {
                assert(p(row@[j as int]) == is_match);
                lemma_count_row_take_step(row@, p, j as int);
            }
            if is_match {
                rowcnt = rowcnt + 1;
            }
            j = j + 1;
        }
        proof {
            lemma_count_row_take_all(row@, p);
            lemma_count_grid_take_step(board@, p, i as int);
        }
        total = total + rowcnt;
        i = i + 1;
    }
    proof {
        lemma_count_grid_take_all(board@, p);
    }
    total
}

/// Whether the row holds a die of the given color beside position `j`.
pub fn has_diag(row: &Vec<BoardCell>, j: usize, color: Color) -> (r: bool)
    requires
        j < row@.len(),
    ensures
        r == has_diag_spec(row@, j as int, color),
{
    let left = j > 0 && (match row[j - 1].die {
        Some(d) => d.color == color,
        None => false,
    });
    let right = j < row.len() - 1 && (match row[j + 1].die {
        Some(d) => d.color == color,
        None => false,
    });
    left || right
}

/// How many occupied cells have a same-colored die on a diagonal neighbor.
pub fn color_diagonals(board: &Vec<Vec<BoardCell>>) -> (r: i32)
    requires
        board_wf(board@),
    ensures
        r == diag_count(board@, board@.len() as int),
        0 <= r <= 20,
{
    let mut count: i32 = 0;
    let mut i: usize = 0;
    while i < board.len()
        invariant
            board_wf(board@),
            i <= board@.len(),
            count == diag_count(board@, i as int),
            0 <= count <= 5 * i,
        decreases board@.len() - i,
    {
        let mut j: usize = 0;
        let mut rowcnt: i32 = 0;
        while j < board[i].len()
            invariant
                board_wf(board@),
                i < board@.len(),
                board@[i as int]@.len() == 5,
                j <= 5,
                rowcnt == diag_count_row(board@, i as int, j as int),
                0 <= rowcnt <= j,
            decreases 5 - j,
        {
            let qualifies = match board[i][j].die {
                Some(d) => {
                    let upper = i > 0 && has_diag(&board[i - 1], j, d.color);
                    let lower = i + 1 < board.len() && has_diag(&board[i + 1], j, d.color);
                    upper || lower
                },
                None => false,
            };
            if qualifies {
                rowcnt = rowcnt + 1;
            }
            j = j + 1;
        }
        count = count + rowcnt;
        i = i + 1;
    }
    count
}

impl Objective {
    /// The score this objective awards on the board.
    pub fn score(self, board: &Vec<Vec<BoardCell>>) -> (r: i32)
        requires
            self.bounded(),
            board_wf(board@),
            board_dice_wf(board@),
        ensures
            r == objective_score(self, board@),
            -200_000_000 <= r <= 200_000_000,
    {
        match self {
            Objective::ColumnNumbers(n) => {
                let m = count_distinct_columns(board, true);
                proof {
                    mult_in_range(n as int, m as int);
                }
                n * m
            },
            Objective::RowNumbers(n) => {
                let m = count_distinct_rows(board, true);
                proof {
                    mult_in_range(n as int, m as int);
                }
                n * m
            },
            Objective::Numbers(n) => {
                let m = min_count_number(board);
                proof {
                    mult_in_range(n as int, m as int);
                }
                n * m
            },
            Objective::ColumnColors(n) => {
                let m = count_distinct_columns(board, false);
                proof {
                    mult_in_range(n as int, m as int);
                }
                n * m
            },
            Objective::RowColors(n) => {
                let m = count_distinct_rows(board, false);
                proof {
                    mult_in_range(n as int, m as int);
                }
                n * m
            },
            Objective::Colors(n) => {
                let m = min_count_color(board);
                proof {
                    mult_in_range(n as int, m as int);
                }
                n * m
            },
            Objective::Pair12(n) => {
                let a = count_number(board, 1);
                let b = count_number(board, 2);
                let m = if a <= b {
                    a
                } else {
                    b
                };
                proof {
                    mult_in_range(n as int, m as int);
                }
                n * m
            },
            Objective::Pair34(n) => {
                let a = count_number(board, 3);
                let b = count_number(board, 4);
                let m = if a <= b {
                    a
                } else {
                    b
                };
                proof {
                    mult_in_range(n as int, m as int);
                }
                n * m
            },
            Objective::Pair56(n) => {
                let a = count_number(board, 5);
                let b = count_number(board, 6);
                let m = if a <= b {
                    a
                } else {
                    b
                };
                proof {
                    mult_in_range(n as int, m as int);
                }
                n * m
            },
            Objective::ColorDiagonals(n) => {
                let m = color_diagonals(board);
                proof {
                    mult_in_range(n as int, m as int);
                }
                n * m
            },
        }
    }
}

/// A bounded multiplier times a cell count stays in the objective score
/// range.
proof fn mult_in_range(n: int, m: int)
    requires
        -10_000_000 <= n <= 10_000_000,
        0 <= m <= 20,
    ensures
        -200_000_000 <= n * m <= 200_000_000,
{
    assert(-200_000_000 <= n * m <= 200_000_000) by (nonlinear_arith)
        requires
            -10_000_000 <= n <= 10_000_000,
            0 <= m <= 20,
    ;
}

/// The least face-value count over the six faces.
fn min_count_number(board: &Vec<Vec<BoardCell>>) -> (r: i32)
    requires
        board_wf(board@),
    ensures
        r == min_face_count(board@),
        0 <= r <= 20,
{
    let c1 = count_number(board, 1);
    let c2 = count_number(board, 2);
    let c3 = count_number(board, 3);
    let c4 = count_number(board, 4);
    let c5 = count_number(board, 5);
    let c6 = count_number(board, 6);
    let mut m = c1;
    if c2 < m {
        m = c2;
    }
    if c3 < m {
        m = c3;
    }
    if c4 < m {
        m = c4;
    }
    if c5 < m {
        m = c5;
    }
    if c6 < m {
        m = c6;
    }
    m
}

/// The least color count over the five colors.
fn min_count_color(board: &Vec<Vec<BoardCell>>) -> (r: i32)
    requires
        board_wf(board@),
    ensures
        r == min_color_count(board@),
        0 <= r <= 20,
{
    let c1 = count_color(board, Color::Red);
    let c2 = count_color(board, Color::Yellow);
    let c3 = count_color(board, Color::Green);
    let c4 = count_color(board, Color::Blue);
    let c5 = count_color(board, Color::Purple);
    let mut m = c1;
    if c2 < m {
        m = c2;
    }
    if c3 < m {
        m = c3;
    }
    if c4 < m {
        m = c4;
    }
    if c5 < m {
        m = c5;
    }
    m
}

/// How many columns are fully occupied with pairwise distinct faces (when
/// `by_faces` holds) or colors (otherwise).
fn count_distinct_columns(board: &Vec<Vec<BoardCell>>, by_faces: bool) -> (r: i32)
    requires
        board_wf(board@),
        board_dice_wf(board@),
    ensures
        by_faces ==> r == count_lines(
            cols_of(board@),
            distinct_faces_pred(),
            cols_of(board@).len() as int,
        ),
        !by_faces ==> r == count_lines(
            cols_of(board@),
            distinct_colors_pred(),
            cols_of(board@).len() as int,
        ),
        0 <= r <= 20,
{
    let ghost pf = distinct_faces_pred();
    let ghost pc = distinct_colors_pred();
    let mut cnt: i32 = 0;
    let mut c: usize = 0;
    while c < 5
        invariant
            board_wf(board@),
            board_dice_wf(board@),
            pf == distinct_faces_pred(),
            pc == distinct_colors_pred(),
            c <= 5,
            by_faces ==> cnt == count_lines(cols_of(board@), pf, c as int),
            !by_faces ==> cnt == count_lines(cols_of(board@), pc, c as int),
            0 <= cnt <= c,
        decreases 5 - c,
    {
        let mut col: Vec<BoardCell> = Vec::new();
        let mut r: usize = 0;
        while r < board.len()
            invariant
                board_wf(board@),
                c < 5,
                r <= board@.len(),
                col@.len() == r,
                forall|k: int| 0 <= k < r ==> col@[k] == board@[k]@[c as int],
            decreases board@.len() - r,
        {
            col.push(board[r][c]);
            r = r + 1;
        }
        proof {
            assert(col@ =~= col_cells(board@, c as int));
            assert(cols_of(board@)[c as int] == col_cells(board@, c as int));
            assert forall|k: int|
                0 <= k < col@.len() && (#[trigger] col@[k]).die is Some implies col@[k].die->0.wf()
            by {
                assert(col@[k] == board@[k]@[c as int]);
            }
        }
        let line_ok = if by_faces {
            distinct_numbers(&col)
        } else {
            distinct_colors(&col)
        };
        if line_ok {
            cnt = cnt + 1;
        }
        proof {
            let ci = c as int;
            assert(pf(cols_of(board@)[ci]) == distinct_faces(col@));
            assert(pc(cols_of(board@)[ci]) == distinct_colors_in(col@));
            assert(count_lines(cols_of(board@), pf, ci + 1) == count_lines(cols_of(board@), pf, ci)
                + if pf(cols_of(board@)[ci]) {
                1int
            } else {
                0int
            });
            assert(count_lines(cols_of(board@), pc, ci + 1) == count_lines(cols_of(board@), pc, ci)
                + if pc(cols_of(board@)[ci]) {
                1int
            } else {
                0int
            });
        }
        c = c + 1;
    }
    cnt
}

/// How many rows are fully occupied with pairwise distinct faces (when
/// `by_faces` holds) or colors (otherwise).
fn count_distinct_rows(board: &Vec<Vec<BoardCell>>, by_faces: bool) -> (r: i32)
    requires
        board_wf(board@),
        board_dice_wf(board@),
    ensures
        by_faces ==> r == count_lines(
            rows_of(board@),
            distinct_faces_pred(),
            rows_of(board@).len() as int,
        ),
        !by_faces ==> r == count_lines(
            rows_of(board@),
            distinct_colors_pred(),
            rows_of(board@).len() as int,
        ),
        0 <= r <= 20,
{
    let ghost pf = distinct_faces_pred();
    let ghost pc = distinct_colors_pred();
    let mut cnt: i32 = 0;
    let mut i: usize = 0;
    while i < board.len()
        invariant
            board_wf(board@),
            board_dice_wf(board@),
            pf == distinct_faces_pred(),
            pc == distinct_colors_pred(),
            i <= board@.len(),
            by_faces ==> cnt == count_lines(rows_of(board@), pf, i as int),
            !by_faces ==> cnt == count_lines(rows_of(board@), pc, i as int),
            0 <= cnt <= i,
        decreases board@.len() - i,
    {
        let row = &board[i];
        proof {
            assert(rows_of(board@)[i as int] == board@[i as int]@);
            assert forall|k: int|
                0 <= k < row@.len() && (#[trigger] row@[k]).die is Some implies row@[k].die->0.wf()
            by {}
        }
        let line_ok = if by_faces {
            distinct_numbers(row)
        } else {
            distinct_colors(row)
        };
        if line_ok {
            cnt = cnt + 1;
        }
        proof {
            let ri = i as int;
            assert(pf(rows_of(board@)[ri]) == distinct_faces(row@));
            assert(pc(rows_of(board@)[ri]) == distinct_colors_in(row@));
            assert(count_lines(rows_of(board@), pf, ri + 1) == count_lines(rows_of(board@), pf, ri)
                + if pf(rows_of(board@)[ri]) {
                1int
            } else {
                0int
            });
            assert(count_lines(rows_of(board@), pc, ri + 1) == count_lines(rows_of(board@), pc, ri)
                + if pc(rows_of(board@)[ri]) {
                1int
            } else {
                0int
            });
        }
        i = i + 1;
    }
    cnt
}

} // verus!
