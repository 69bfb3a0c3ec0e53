//! One cell of a player board: a slot constraint and, possibly, a placed
//! die. Also the counting machinery over whole boards that the scoring
//! engine and the dice-conservation argument are stated with.

use vstd::prelude::*;
use crate::color::{Color, Dice};
use crate::constants::{BOARD_COLS, BOARD_ROWS};
use crate::template::Slot;

verus! {

/// A board cell. A die, once placed, is never removed or moved.
#[derive(Clone, Copy, Debug)]
pub struct BoardCell {
    pub slot: Slot,
    pub die: Option<Dice>,
}

impl Default for BoardCell {
    /// An unconstrained, empty cell.
    fn default() -> (c: Self)
        ensures
            c.slot == Slot::Any,
            c.die is None,
    {
        Self { slot: Slot::Any, die: None }
    }
}

impl BoardCell {
    /// An unconstrained cell holding the given die.
    pub fn with_die(die: Dice) -> (c: Self)
        ensures
            c.slot == Slot::Any,
            c.die == Some(die),
    {
        Self { slot: Slot::Any, die: Some(die) }
    }
}

/// A board is well formed when its grid has the board's dimensions.
pub open spec fn board_wf(b: Seq<Vec<BoardCell>>) -> bool {
    &&& b.len() == BOARD_ROWS
    &&& forall|i: int| 0 <= i < b.len() ==> (#[trigger] b[i])@.len() == BOARD_COLS
}

/// Every die placed on the board shows a real face value.
pub open spec fn board_dice_wf(b: Seq<Vec<BoardCell>>) -> bool {
    forall|i: int, j: int|
        0 <= i < b.len() && 0 <= j < b[i]@.len() && (#[trigger] b[i]@[j]).die is Some
            ==> b[i]@[j].die->0.wf()
}

/// Whether the cell holds a die.
pub open spec fn is_placed(c: BoardCell) -> bool {
    c.die is Some
}

/// Whether the cell holds a die showing face value `n`.
pub open spec fn has_face(c: BoardCell, n: u8) -> bool {
    c.die matches Some(d) && d.face == n
}

/// Whether the cell holds a die of color `col`.
pub open spec fn has_color(c: BoardCell, col: Color) -> bool {
    c.die matches Some(d) && d.color == col
}

/// The predicate form of [`is_placed`].
pub open spec fn placed_pred() -> spec_fn(BoardCell) -> bool {
    |c: BoardCell| is_placed(c)
}

/// The cell predicate "holds no die".
pub open spec fn empty_pred() -> spec_fn(BoardCell) -> bool {
    |c: BoardCell| c.die is None
}

/// How many cells of the row satisfy the predicate.
pub open spec fn count_row(row: Seq<BoardCell>, p: spec_fn(BoardCell) -> bool) -> int
    decreases row.len(),
{
    if row.len() == 0 {
        0
    } else {
        count_row(row.drop_last(), p) + if p(row.last()) {
            1int
        } else {
            0int
        }
    }
}

/// How many cells of the whole grid satisfy the predicate.
pub open spec fn count_grid(g: Seq<Vec<BoardCell>>, p: spec_fn(BoardCell) -> bool) -> int
    decreases g.len(),
{
    if g.len() == 0 {
        0
    } else {
        count_grid(g.drop_last(), p) + count_row(g.last()@, p)
    }
}

/// Extending a prefix of a row by one cell adjusts its count by whether
/// that cell satisfies the predicate.
pub proof fn lemma_count_row_take_step(row: Seq<BoardCell>, p: spec_fn(BoardCell) -> bool, j: int)
    requires
        0 <= j < row.len(),
    ensures
        count_row(row.take(j + 1), p) == count_row(row.take(j), p) + if p(row[j]) {
            1int
        } else {
            0int
        },
{
    assert(row.take(j + 1).drop_last() =~= row.take(j));
    assert(row.take(j + 1).last() == row[j]);
}

/// Taking the whole row is the row itself.
pub proof fn lemma_count_row_take_all(row: Seq<BoardCell>, p: spec_fn(BoardCell) -> bool)
    ensures
        count_row(row.take(row.len() as int), p) == count_row(row, p),
{
    assert(row.take(row.len() as int) =~= row);
}

/// Extending a prefix of a grid by one row adds that row's count.
pub proof fn lemma_count_grid_take_step(g: Seq<Vec<BoardCell>>, p: spec_fn(BoardCell) -> bool, i: int)
    requires
        0 <= i < g.len(),
    ensures
        count_grid(g.take(i + 1), p) == count_grid(g.take(i), p) + count_row(g[i]@, p),
{
    assert(g.take(i + 1).drop_last() =~= g.take(i));
    assert(g.take(i + 1).last() == g[i]);
}

/// Taking the whole grid is the grid itself.
pub proof fn lemma_count_grid_take_all(g: Seq<Vec<BoardCell>>, p: spec_fn(BoardCell) -> bool)
    ensures
        count_grid(g.take(g.len() as int), p) == count_grid(g, p),
{
    assert(g.take(g.len() as int) =~= g);
}

/// Replacing one cell of a row adjusts its count by the difference at that
/// cell.
pub proof fn lemma_count_row_update(
    row: Seq<BoardCell>,
    p: spec_fn(BoardCell) -> bool,
    c: int,
    x: BoardCell,
)
    requires
        0 <= c < row.len(),
    ensures
        count_row(row.update(c, x), p) == count_row(row, p) + (if p(x) {
            1int
        } else {
            0int
        }) - (if p(row[c]) {
            1int
        } else {
            0int
        }),
    decreases row.len(),
{
    let updated = row.update(c, x);
    if c == row.len() - 1 {
        assert(updated.drop_last() =~= row.drop_last());
        assert(updated.last() == x);
    } else {
        assert(updated.drop_last() =~= row.drop_last().update(c, x));
        assert(updated.last() == row.last());
        lemma_count_row_update(row.drop_last(), p, c, x);
    }
}

/// A row without a matching cell counts zero.
pub proof fn lemma_count_row_zero(row: Seq<BoardCell>, p: spec_fn(BoardCell) -> bool)
    requires
        forall|j: int| 0 <= j < row.len() ==> !p(#[trigger] row[j]),
    ensures
        count_row(row, p) == 0,
    decreases row.len(),
{
    if row.len() > 0 {
        lemma_count_row_zero(row.drop_last(), p);
    }
}

/// A grid without a matching cell counts zero.
pub proof fn lemma_count_grid_zero(g: Seq<Vec<BoardCell>>, p: spec_fn(BoardCell) -> bool)
    requires
        forall|i: int, j: int|
            #![trigger g[i]@[j]]
            0 <= i < g.len() && 0 <= j < g[i]@.len() ==> !p(g[i]@[j]),
    ensures
        count_grid(g, p) == 0,
    decreases g.len(),
{
    if g.len() > 0 {
        lemma_count_grid_zero(g.drop_last(), p);
        lemma_count_row_zero(g.last()@, p);
    }
}

/// Two rows whose cells agree under the predicate have the same count.
pub proof fn lemma_count_row_congruence(
    r1: Seq<BoardCell>,
    r2: Seq<BoardCell>,
    p: spec_fn(BoardCell) -> bool,
)
    requires
        r1.len() == r2.len(),
        forall|j: int| 0 <= j < r1.len() ==> p(#[trigger] r1[j]) == p(#[trigger] r2[j]),
    ensures
        count_row(r1, p) == count_row(r2, p),
    decreases r1.len(),
{
    if r1.len() > 0 {
        lemma_count_row_congruence(r1.drop_last(), r2.drop_last(), p);
    }
}

/// Two grids whose cells agree under the predicate have the same count.
pub proof fn lemma_count_grid_congruence(
    g1: Seq<Vec<BoardCell>>,
    g2: Seq<Vec<BoardCell>>,
    p: spec_fn(BoardCell) -> bool,
)
    requires
        g1.len() == g2.len(),
        forall|i: int| 0 <= i < g1.len() ==> (#[trigger] g1[i])@.len() == (#[trigger] g2[i])@.len(),
        forall|i: int, j: int|
            #![trigger g1[i]@[j], g2[i]@[j]]
            0 <= i < g1.len() && 0 <= j < g1[i]@.len() ==> p(g1[i]@[j]) == p(g2[i]@[j]),
    ensures
        count_grid(g1, p) == count_grid(g2, p),
    decreases g1.len(),
{
    if g1.len() > 0 {
        lemma_count_grid_congruence(g1.drop_last(), g2.drop_last(), p);
        lemma_count_row_congruence(g1.last()@, g2.last()@, p);
    }
}

/// Replacing one row of a grid swaps that row's contribution to the count.
pub proof fn lemma_count_grid_update(
    g: Seq<Vec<BoardCell>>,
    p: spec_fn(BoardCell) -> bool,
    r: int,
    rv: Vec<BoardCell>,
)
    requires
        0 <= r < g.len(),
    ensures
        count_grid(g.update(r, rv), p) == count_grid(g, p) - count_row(g[r]@, p) + count_row(
            rv@,
            p,
        ),
    decreases g.len(),
{
    let updated = g.update(r, rv);
    if r == g.len() - 1 {
        assert(updated.drop_last() =~= g.drop_last());
        assert(updated.last() == rv);
    } else {
        assert(updated.drop_last() =~= g.drop_last().update(r, rv));
        assert(updated.last() == g.last());
        lemma_count_grid_update(g.drop_last(), p, r, rv);
    }
}

} // verus!
