//! The player and the game state machine: turn progression, the
//! draft-and-placement protocol, tool resolution and score queries.

use vstd::prelude::*;
use crate::board::{
    board_dice_wf, board_wf, count_grid, count_row, empty_pred, is_placed, placed_pred, BoardCell,
    lemma_count_grid_take_all, lemma_count_grid_take_step, lemma_count_grid_update,
    lemma_count_row_take_all, lemma_count_row_take_step, lemma_count_row_update,
};
use crate::color::{all_colors, Color, Dice};
use crate::constants::{BOARD_COLS, BOARD_ROWS, DICE_PER_COLOR, MAX_PLAYERS, NUM_OBJECTIVES, NUM_ROUNDS, NUM_TOOLS, TOTAL_DICE};
use crate::error::{GameError, PlacementError};
use crate::objective::{all_objectives, all_objectives_seq, color_pred, count_color, objective_score, Objective};
use crate::template::{all_board_templates, BoardTemplate, Slot};
use crate::tool::{all_tool_types, all_tool_types_seq, data_matches_type, Tool, ToolData, ToolType};
use crate::turn::{tool_wrong_phase, ActionType, TurnAction, TurnPhase};

verus! {

/// One participant's state: spendable tokens, the placed-dice grid, the
/// hidden scoring color, the dealt candidate templates, and the one-shot
/// tool modifier armed for the next placement.
#[derive(Clone, Debug)]
pub struct Player {
    pub tokens: u8,
    pub board: Vec<Vec<BoardCell>>,
    pub secret: Color,
    pub templates: Vec<BoardTemplate>,
    pub active_tool: Option<ToolType>,
}

impl Player {
    /// A player is well formed when the board has the right dimensions and
    /// holds only real dice, the dealt templates are well formed, and the
    /// armed modifier is one a tool of the dealt set can arm.
    pub open spec fn wf(self) -> bool {
        &&& board_wf(self.board@)
        &&& board_dice_wf(self.board@)
        &&& forall|i: int|
            0 <= i < self.templates@.len() ==> (#[trigger] self.templates@[i]).wf()
        &&& (self.active_tool is None || self.active_tool == Some(
            ToolType::PlaceIgnoringAdjacency,
        ))
    }

    /// How many dice the player has placed.
    pub open spec fn placed_count(self) -> int {
        count_grid(self.board@, placed_pred())
    }
}

/// The cell in row `i`, column `j`.
pub open spec fn cell(b: Seq<Vec<BoardCell>>, i: int, j: int) -> BoardCell {
    b[i]@[j]
}

/// Whether `(r, c)` is a position on the board.
pub open spec fn in_range(r: int, c: int) -> bool {
    0 <= r < BOARD_ROWS && 0 <= c < BOARD_COLS
}

/// Whether the two positions are orthogonal neighbors.
pub open spec fn orth_adjacent(r1: int, c1: int, r2: int, c2: int) -> bool {
    ||| (r1 == r2 && (c1 == c2 + 1 || c2 == c1 + 1))
    ||| (c1 == c2 && (r1 == r2 + 1 || r2 == r1 + 1))
}

/// Whether the two positions are diagonal neighbors.
pub open spec fn diag_adjacent(r1: int, c1: int, r2: int, c2: int) -> bool {
    (r1 == r2 + 1 || r2 == r1 + 1) && (c1 == c2 + 1 || c2 == c1 + 1)
}

/// Whether some orthogonal neighbor of `(r, c)` holds a die.
pub open spec fn has_orth_neighbor(b: Seq<Vec<BoardCell>>, r: int, c: int) -> bool {
    exists|i: int, j: int|
        in_range(i, j) && orth_adjacent(i, j, r, c) && is_placed(#[trigger] cell(b, i, j))
}

/// Whether some orthogonal neighbor of `(r, c)` holds a die of color `col`.
pub open spec fn orth_color_conflict(b: Seq<Vec<BoardCell>>, r: int, c: int, col: Color) -> bool {
    exists|i: int, j: int|
        in_range(i, j) && orth_adjacent(i, j, r, c) && ((#[trigger] cell(b, i, j)).die matches Some(d)
            && d.color == col)
}

/// Whether some orthogonal neighbor of `(r, c)` holds a die showing `f`.
pub open spec fn orth_face_conflict(b: Seq<Vec<BoardCell>>, r: int, c: int, f: u8) -> bool {
    exists|i: int, j: int|
        in_range(i, j) && orth_adjacent(i, j, r, c) && ((#[trigger] cell(b, i, j)).die matches Some(d)
            && d.face == f)
}

/// Whether some diagonal neighbor of `(r, c)` holds a die.
pub open spec fn has_diag_neighbor(b: Seq<Vec<BoardCell>>, r: int, c: int) -> bool {
    exists|i: int, j: int|
        in_range(i, j) && diag_adjacent(i, j, r, c) && is_placed(#[trigger] cell(b, i, j))
}

/// Whether no cell of the board holds a die.
pub open spec fn board_empty(b: Seq<Vec<BoardCell>>) -> bool {
    forall|i: int, j: int|
        #![trigger b[i]@[j]]
        0 <= i < b.len() && 0 <= j < b[i]@.len() ==> !is_placed(b[i]@[j])
}

/// Whether `(r, c)` is an interior position: not in the first or last row,
/// nor in the first or last column.
pub open spec fn interior(r: int, c: int) -> bool {
    1 <= r < BOARD_ROWS - 1 && 1 <= c < BOARD_COLS - 1
}

/// The verdict of the placement-legality check: the exact error a
/// submission fails with, in check order, or `Ok`.
pub open spec fn place_verdict(p: Player, coords: (usize, usize), die: Dice) -> Result<
    (),
    GameError,
> {
    let r = coords.0 as int;
    let c = coords.1 as int;
    let b = p.board@;
    if r >= BOARD_ROWS {
        Err(GameError::InvalidIndex)
    } else if c >= BOARD_COLS {
        Err(GameError::InvalidIndex)
    } else if cell(b, r, c).die is Some {
        Err(GameError::IllegalPlacement(PlacementError::Occupied))
    } else if cell(b, r, c).slot matches Slot::Color(col) && col != die.color {
        Err(GameError::IllegalPlacement(PlacementError::SlotColorMismatch))
    } else if cell(b, r, c).slot matches Slot::Face(f) && f != die.face {
        Err(GameError::IllegalPlacement(PlacementError::SlotFaceMismatch))
    } else if orth_color_conflict(b, r, c, die.color) {
        Err(GameError::IllegalPlacement(PlacementError::NeighborColorMatch))
    } else if orth_face_conflict(b, r, c, die.face) {
        Err(GameError::IllegalPlacement(PlacementError::NeighborFaceMatch))
    } else if !has_orth_neighbor(b, r, c) && p.active_tool != Some(ToolType::PlaceIgnoringAdjacency)
        && !has_diag_neighbor(b, r, c) {
        if !board_empty(b) {
            Err(GameError::IllegalPlacement(PlacementError::NotAdjacent))
        } else if interior(r, c) {
            Err(GameError::IllegalPlacement(PlacementError::FirstDieNotOnEdge))
        } else {
            Ok(())
        }
    } else {
        Ok(())
    }
}

/// Whether any cell of the board holds a die.
fn board_has_die(board: &Vec<Vec<BoardCell>>) -> (r: bool)
    ensures
        r == !board_empty(board@),
{
    let mut i: usize = 0;
    while i < board.len()
        invariant
            i <= board@.len(),
            forall|i2: int, j2: int|
                #![trigger board@[i2]@[j2]]
                0 <= i2 < i && 0 <= j2 < board@[i2]@.len() ==> !is_placed(board@[i2]@[j2]),
        decreases board@.len() - i,
    {
        let row = &board[i];
        let mut j: usize = 0;
        while j < row.len()
            invariant
                row@ == board@[i as int]@,
                i < board@.len(),
                j <= row@.len(),
                forall|j2: int| 0 <= j2 < j ==> !is_placed(#[trigger] board@[i as int]@[j2]),
            decreases row@.len() - j,
        {
            if row[j].die.is_some() {
                return true;
            }
            j = j + 1;
        }
        i = i + 1;
    }
    false
}

/// Scans the up to four orthogonal neighbors of `(row_i, col_i)`:
/// whether any is occupied, whether any holds a die of `die`'s color, and
/// whether any holds a die showing `die`'s face.
#[verifier::rlimit(50)]
fn scan_orth(board: &Vec<Vec<BoardCell>>, row_i: usize, col_i: usize, die: Dice) -> (t: (
    bool,
    bool,
    bool,
))
    requires
        board_wf(board@),
        row_i < BOARD_ROWS,
        col_i < BOARD_COLS,
    ensures
        t.0 == has_orth_neighbor(board@, row_i as int, col_i as int),
        t.1 == orth_color_conflict(board@, row_i as int, col_i as int, die.color),
        t.2 == orth_face_conflict(board@, row_i as int, col_i as int, die.face),
{
    let ghost bv = board@;
    let ghost ri = row_i as int;
    let ghost ci = col_i as int;
    let mut any_nbr = false;
    let mut conflict_color = false;
    let mut conflict_face = false;
    if col_i > 0 {
        match board[row_i][col_i - 1].die {
            Some(d) => {
                any_nbr = true;
                if d.color == die.color {
                    conflict_color = true;
                }
                if d.face == die.face {
                    conflict_face = true;
                }
            },
            None => {},
        }
    }
    if col_i + 1 < BOARD_COLS {
        match board[row_i][col_i + 1].die {
            Some(d) => {
                any_nbr = true;
                if d.color == die.color {
                    conflict_color = true;
                }
                if d.face == die.face {
                    conflict_face = true;
                }
            },
            None => {},
        }
    }
    if row_i > 0 {
        match board[row_i - 1][col_i].die {
            Some(d) => {
                any_nbr = true;
                if d.color == die.color {
                    conflict_color = true;
                }
                if d.face == die.face {
                    conflict_face = true;
                }
            },
            None => {},
        }
    }
    if row_i + 1 < BOARD_ROWS {
        match board[row_i + 1][col_i].die {
            Some(d) => {
                any_nbr = true;
                if d.color == die.color {
                    conflict_color = true;
                }
                if d.face == die.face {
                    conflict_face = true;
                }
            },
            None => {},
        }
    }
    proof {
        // Name the candidate cells so the quantifiers below can find them.
        if col_i > 0 {
            assert(cell(bv, ri, ci - 1) == bv[ri]@[ci - 1]);
        }
        if col_i + 1 < BOARD_COLS {
            assert(cell(bv, ri, ci + 1) == bv[ri]@[ci + 1]);
        }
        if row_i > 0 {
            assert(cell(bv, ri - 1, ci) == bv[ri - 1]@[ci]);
        }
        if row_i + 1 < BOARD_ROWS {
            assert(cell(bv, ri + 1, ci) == bv[ri + 1]@[ci]);
        }
        if has_orth_neighbor(bv, ri, ci) {
            let (i, j) = choose|i: int, j: int|
                in_range(i, j) && orth_adjacent(i, j, ri, ci) && is_placed(
                    #[trigger] cell(bv, i, j),
                );
            assert(any_nbr);
        }
        if orth_color_conflict(bv, ri, ci, die.color) {
            let (i, j) = choose|i: int, j: int|
                in_range(i, j) && orth_adjacent(i, j, ri, ci) && ((#[trigger] cell(
                    bv,
                    i,
                    j,
                )).die matches Some(d) && d.color == die.color);
            assert(conflict_color);
        }
        if orth_face_conflict(bv, ri, ci, die.face) {
            let (i, j) = choose|i: int, j: int|
                in_range(i, j) && orth_adjacent(i, j, ri, ci) && ((#[trigger] cell(
                    bv,
                    i,
                    j,
                )).die matches Some(d) && d.face == die.face);
            assert(conflict_face);
        }
        assert(any_nbr == has_orth_neighbor(bv, ri, ci));
        assert(conflict_color == orth_color_conflict(bv, ri, ci, die.color));
        assert(conflict_face == orth_face_conflict(bv, ri, ci, die.face));
    }
    (any_nbr, conflict_color, conflict_face)
}

/// Whether any diagonal neighbor of `(row_i, col_i)` holds a die.
fn scan_diag(board: &Vec<Vec<BoardCell>>, row_i: usize, col_i: usize) -> (r: bool)
    requires
        board_wf(board@),
        row_i < BOARD_ROWS,
        col_i < BOARD_COLS,
    ensures
        r == has_diag_neighbor(board@, row_i as int, col_i as int),
{
    let ghost bv = board@;
    let ghost ri = row_i as int;
    let ghost ci = col_i as int;
    let mut any_diag = false;
    if row_i > 0 && col_i > 0 && board[row_i - 1][col_i - 1].die.is_some() {
        any_diag = true;
    }
    if row_i > 0 && col_i + 1 < BOARD_COLS && board[row_i - 1][col_i + 1].die.is_some() {
        any_diag = true;
    }
    if row_i + 1 < BOARD_ROWS && col_i > 0 && board[row_i + 1][col_i - 1].die.is_some() {
        any_diag = true;
    }
    if row_i + 1 < BOARD_ROWS && col_i + 1 < BOARD_COLS && board[row_i + 1][col_i + 1].die.is_some()
    {
        any_diag = true;
    }
    proof {
        if row_i > 0 && col_i > 0 {
            assert(cell(bv, ri - 1, ci - 1) == bv[ri - 1]@[ci - 1]);
        }
        if row_i > 0 && col_i + 1 < BOARD_COLS {
            assert(cell(bv, ri - 1, ci + 1) == bv[ri - 1]@[ci + 1]);
        }
        if row_i + 1 < BOARD_ROWS && col_i > 0 {
            assert(cell(bv, ri + 1, ci - 1) == bv[ri + 1]@[ci - 1]);
        }
        if row_i + 1 < BOARD_ROWS && col_i + 1 < BOARD_COLS {
            assert(cell(bv, ri + 1, ci + 1) == bv[ri + 1]@[ci + 1]);
        }
        if has_diag_neighbor(bv, ri, ci) {
            let (i, j) = choose|i: int, j: int|
                in_range(i, j) && diag_adjacent(i, j, ri, ci) && is_placed(
                    #[trigger] cell(bv, i, j),
                );
            assert(any_diag);
        }
        assert(any_diag == has_diag_neighbor(bv, ri, ci));
    }
    any_diag
}

impl Player {
    /// The placement-legality check. Pure: the verdict depends only on the
    /// submitted position and die, the board, and the armed modifier.
    pub fn can_place_die(&self, coords: (usize, usize), die: Dice) -> (r: Result<(), GameError>)
        requires
            board_wf(self.board@),
        ensures
            r == place_verdict(*self, coords, die),
    {
        let (row_i, col_i) = coords;
        if row_i >= BOARD_ROWS {
            return Err(GameError::InvalidIndex);
        }
        if col_i >= BOARD_COLS {
            return Err(GameError::InvalidIndex);
        }
        let target = self.board[row_i][col_i];
        if target.die.is_some() {
            return Err(GameError::IllegalPlacement(PlacementError::Occupied));
        }
        match target.slot {
            Slot::Color(col) => {
                if col != die.color {
                    return Err(GameError::IllegalPlacement(PlacementError::SlotColorMismatch));
                }
            },
            Slot::Face(f) => {
                if f != die.face {
                    return Err(GameError::IllegalPlacement(PlacementError::SlotFaceMismatch));
                }
            },
            Slot::Any => {},
        }
        let (any_nbr, conflict_color, conflict_face) = scan_orth(&self.board, row_i, col_i, die);
        if conflict_color {
            return Err(GameError::IllegalPlacement(PlacementError::NeighborColorMatch));
        }
        if conflict_face {
            return Err(GameError::IllegalPlacement(PlacementError::NeighborFaceMatch));
        }
        let ignoring = matches!(self.active_tool, Some(ToolType::PlaceIgnoringAdjacency));
        if !any_nbr && !ignoring && !scan_diag(&self.board, row_i, col_i) {
            if board_has_die(&self.board) {
                return Err(GameError::IllegalPlacement(PlacementError::NotAdjacent));
            }
            if row_i >= 1 && row_i < BOARD_ROWS - 1 && col_i >= 1 && col_i < BOARD_COLS - 1 {
                return Err(GameError::IllegalPlacement(PlacementError::FirstDieNotOnEdge));
            }
        }
        Ok(())
    }
}

/// Replaces the cell at `(r, c)`, leaving every other cell as it was.
fn set_cell(board: &mut Vec<Vec<BoardCell>>, r: usize, c: usize, v: BoardCell)
    requires
        r < old(board)@.len(),
        c < old(board)@[r as int]@.len(),
    ensures
        final(board)@.len() == old(board)@.len(),
        forall|i: int|
            0 <= i < old(board)@.len() && i != r ==> final(board)@[i] == old(board)@[i],
        final(board)@[r as int]@ == old(board)@[r as int]@.update(c as int, v),
{
    let ghost orig = board@;
    let mut row: Vec<BoardCell> = Vec::new();
    let n = board[r].len();
    let mut j: usize = 0;
    while j < n
        invariant
            board@ == orig,
            r < orig.len(),
            n == orig[r as int]@.len(),
            j <= n,
            row@.len() == j,
            forall|k: int| 0 <= k < j ==> row@[k] == orig[r as int]@[k],
        decreases n - j,
    {
        row.push(board[r][j]);
        j = j + 1;
    }
    proof {
        assert(row@ =~= orig[r as int]@);
    }
    row.set(c, v);
    board.set(r, row);
}

/// The result of selecting template `idx`: only an index beyond the dealt
/// hand is refused.
pub open spec fn select_verdict(p: Player, idx: usize) -> Result<(), GameError> {
    if idx >= p.templates@.len() {
        Err(GameError::InvalidIndex)
    } else {
        Ok(())
    }
}

/// How the player looks after adopting template `idx`: the starting token
/// value is taken over and the template's slots are laid onto the board,
/// with the placed dice left where they were.
pub open spec fn template_selected(p0: Player, p1: Player, idx: int) -> bool {
    &&& p1.tokens == p0.templates@[idx].value
    &&& p1.secret == p0.secret
    &&& p1.templates == p0.templates
    &&& p1.active_tool == p0.active_tool
    &&& p1.board@.len() == p0.board@.len()
    &&& forall|i: int|
        0 <= i < p0.board@.len() ==> (#[trigger] p1.board@[i])@.len() == p0.board@[i]@.len()
    &&& forall|i: int, j: int|
        #![trigger p1.board@[i]@[j]]
        0 <= i < p0.board@.len() && 0 <= j < p0.board@[i]@.len() ==> p1.board@[i]@[j].slot
            == p0.templates@[idx].slots@[i]@[j] && p1.board@[i]@[j].die == p0.board@[i]@[j].die
}

/// The die a placement commit actually writes: the submitted die, turned
/// to its opposite face when a flip modifier is armed.
pub open spec fn modified_die(at: Option<ToolType>, die: Dice) -> Dice {
    if at == Some(ToolType::FlipDraftedDie) {
        die.flipped()
    } else {
        die
    }
}

/// How the player looks after a die was committed at `coords`: the target
/// cell now holds `placed`, and everything else is as before.
pub open spec fn board_updated(p0: Player, p1: Player, coords: (usize, usize), placed: Dice) -> bool {
    let ri = coords.0 as int;
    let ci = coords.1 as int;
    &&& p1.tokens == p0.tokens
    &&& p1.secret == p0.secret
    &&& p1.templates == p0.templates
    &&& p1.active_tool == p0.active_tool
    &&& p1.board@.len() == p0.board@.len()
    &&& forall|i: int| 0 <= i < p0.board@.len() && i != ri ==> p1.board@[i] == p0.board@[i]
    &&& p1.board@[ri]@ == p0.board@[ri]@.update(
        ci,
        BoardCell { slot: p0.board@[ri]@[ci].slot, die: Some(placed) },
    )
}

/// A successful placement commit: the die that was written is well formed,
/// has the submitted color, came from the submitted die through the armed
/// modifier, passed the legality check, and landed on the target cell.
pub open spec fn place_commit_ok(
    p0: Player,
    p1: Player,
    coords: (usize, usize),
    submitted: Dice,
    placed: Dice,
) -> bool {
    &&& placed.wf()
    &&& placed.color == submitted.color
    &&& (p0.active_tool == Some(ToolType::RerollDraftedDie) || placed == modified_die(
        p0.active_tool,
        submitted,
    ))
    &&& place_verdict(p0, coords, placed) is Ok
    &&& board_updated(p0, p1, coords, placed)
}

impl Player {
    /// The placement commit: re-validates, applies an armed one-shot
    /// modifier to the die value, and writes the die. Rejections leave the
    /// player unchanged.
    fn place_die(&mut self, coords: (usize, usize), die: Dice) -> (r: Result<(), GameError>)
        requires
            board_wf(old(self).board@),
            board_dice_wf(old(self).board@),
            die.wf(),
        ensures
            board_wf(final(self).board@),
            board_dice_wf(final(self).board@),
            r is Err ==> *final(self) == *old(self),
            r is Ok ==> exists|placed: Dice|
                #[trigger] place_commit_ok(*old(self), *final(self), coords, die, placed),
            r is Ok ==> final(self).placed_count() == old(self).placed_count() + 1,
            old(self).active_tool != Some(ToolType::RerollDraftedDie) ==> r == place_verdict(
                *old(self),
                coords,
                modified_die(old(self).active_tool, die),
            ),
    {
        let mut die2 = die;
        match self.active_tool {
            Some(ToolType::FlipDraftedDie) => die2.flip(),
            Some(ToolType::RerollDraftedDie) => die2.reroll(),
            _ => {},
        }
        let verdict = self.can_place_die(coords, die2);
        match verdict {
            Err(e) => Err(e),
            Ok(()) => {
                let row_i = coords.0;
                let col_i = coords.1;
                let slot0 = self.board[row_i][col_i].slot;
                let newcell = BoardCell { slot: slot0, die: Some(die2) };
                let ghost before = self.board@;
                set_cell(&mut self.board, row_i, col_i, newcell);
                proof {
                    let ri = row_i as int;
                    let ci = col_i as int;
                    assert(place_commit_ok(*old(self), *self, coords, die, die2));
                    // The placed-dice count grows by exactly one.
                    lemma_count_row_update(before[ri]@, placed_pred(), ci, newcell);
                    assert(self.board@ =~= before.update(ri, self.board@[ri]));
                    lemma_count_grid_update(before, placed_pred(), ri, self.board@[ri]);
                    assert(count_row(self.board@[ri]@, placed_pred()) == count_row(
                        before[ri]@,
                        placed_pred(),
                    ) + 1);
                }
                Ok(())
            },
        }
    }

    /// The template overlay: takes over the starting token value and lays
    /// the template's slot grid onto the board.
    fn select_template(&mut self, idx: usize) -> (r: Result<(), GameError>)
        requires
            old(self).wf(),
        ensures
            final(self).wf(),
            r == select_verdict(*old(self), idx),
            r is Err ==> *final(self) == *old(self),
            r is Ok ==> template_selected(*old(self), *final(self), idx as int),
            final(self).placed_count() == old(self).placed_count(),
    {
        if idx >= self.templates.len() {
            return Err(GameError::InvalidIndex);
        }
        let ghost p0 = *old(self);
        let ghost t = self.templates@[idx as int];
        self.tokens = self.templates[idx].value;
        let mut i: usize = 0;
        while i < BOARD_ROWS
            invariant
                p0.wf(),
                idx < p0.templates@.len(),
                t == p0.templates@[idx as int],
                i <= BOARD_ROWS,
                self.tokens == t.value,
                self.secret == p0.secret,
                self.templates == p0.templates,
                self.active_tool == p0.active_tool,
                self.board@.len() == p0.board@.len(),
                forall|i2: int|
                    0 <= i2 < p0.board@.len() ==> (#[trigger] self.board@[i2])@.len()
                        == p0.board@[i2]@.len(),
                forall|i2: int, j2: int|
                    #![trigger self.board@[i2]@[j2]]
                    0 <= i2 < i && 0 <= j2 < p0.board@[i2]@.len() ==> self.board@[i2]@[j2].slot
                        == t.slots@[i2]@[j2] && self.board@[i2]@[j2].die == p0.board@[i2]@[j2].die,
                forall|i2: int|
                    i <= i2 < p0.board@.len() ==> self.board@[i2] == #[trigger] p0.board@[i2],
            decreases BOARD_ROWS - i,
        {
            let mut j: usize = 0;
            while j < BOARD_COLS
                invariant
                    p0.wf(),
                    idx < p0.templates@.len(),
                    t == p0.templates@[idx as int],
                    i < BOARD_ROWS,
                    j <= BOARD_COLS,
                    self.tokens == t.value,
                    self.secret == p0.secret,
                    self.templates == p0.templates,
                    self.active_tool == p0.active_tool,
                    self.board@.len() == p0.board@.len(),
                    forall|i2: int|
                        0 <= i2 < p0.board@.len() ==> (#[trigger] self.board@[i2])@.len()
                            == p0.board@[i2]@.len(),
                    forall|i2: int, j2: int|
                        #![trigger self.board@[i2]@[j2]]
                        0 <= i2 < i && 0 <= j2 < p0.board@[i2]@.len() ==> self.board@[i2]@[j2].slot
                            == t.slots@[i2]@[j2] && self.board@[i2]@[j2].die
                            == p0.board@[i2]@[j2].die,
                    forall|j2: int|
                        #![trigger self.board@[i as int]@[j2]]
                        0 <= j2 < j ==> self.board@[i as int]@[j2].slot == t.slots@[i as int]@[j2]
                            && self.board@[i as int]@[j2].die == p0.board@[i as int]@[j2].die,
                    forall|j2: int|
                        #![trigger self.board@[i as int]@[j2]]
                        j <= j2 < p0.board@[i as int]@.len() ==> self.board@[i as int]@[j2]
                            == p0.board@[i as int]@[j2],
                    forall|i2: int|
                        i < i2 < p0.board@.len() ==> self.board@[i2] == #[trigger] p0.board@[i2],
                decreases BOARD_COLS - j,
            {
                let slot = self.templates[idx].slots[i][j];
                let die0 = self.board[i][j].die;
                set_cell(&mut self.board, i, j, BoardCell { slot, die: die0 });
                j = j + 1;
            }
            i = i + 1;
        }
        proof {
            // Dice were left in place cell for cell, so the placed count is
            // unchanged.
            crate::board::lemma_count_grid_congruence(self.board@, p0.board@, placed_pred());
        }
        Ok(())
    }

    /// Whether the player can afford the tool at its current cost.
    pub fn can_use_tool(&self, tool: &Tool) -> (r: Result<(), GameError>)
        ensures
            r == if tool.cost > self.tokens {
                Err::<(), GameError>(GameError::InsufficientTokens)
            } else {
                Ok::<(), GameError>(())
            },
    {
        if tool.cost > self.tokens {
            return Err(GameError::InsufficientTokens);
        }
        Ok(())
    }

    /// The player's total score: one point per die of the secret color,
    /// minus one per empty cell, plus the remaining tokens, plus every
    /// objective's score.
    pub fn calculate_score(&self, objectives: &Vec<Objective>) -> (r: i32)
        requires
            self.wf(),
            objectives@.len() <= 10,
            forall|i: int| 0 <= i < objectives@.len() ==> (#[trigger] objectives@[i]).bounded(),
        ensures
            r == player_score(*self, objectives@),
    {
        let secret_count = count_color(&self.board, self.secret);
        let empty_count = count_empty(&self.board);
        let mut score: i32 = secret_count - empty_count;
        score = score + (self.tokens as i32);
        let mut k: usize = 0;
        while k < objectives.len()
            invariant
                self.wf(),
                objectives@.len() <= 10,
                forall|i: int|
                    0 <= i < objectives@.len() ==> (#[trigger] objectives@[i]).bounded(),
                k <= objectives@.len(),
                score == board_points(self.board@, self.secret) + self.tokens
                    + objectives_points(objectives@, self.board@, k as int),
                -300 - 200_000_000 * (k as int) <= score <= 300 + 200_000_000 * (k as int),
            decreases objectives@.len() - k,
        {
            let s = objectives[k].score(&self.board);
            score = score + s;
            k = k + 1;
        }
        score
    }
}

/// The board part of the score: one point per die of the secret color,
/// minus one per empty cell.
pub open spec fn board_points(b: Seq<Vec<BoardCell>>, secret: Color) -> int {
    count_grid(b, color_pred(secret)) - count_grid(b, empty_pred())
}

/// What the first `k` objectives award on the board, together.
pub open spec fn objectives_points(objs: Seq<Objective>, b: Seq<Vec<BoardCell>>, k: int) -> int
    decreases k,
{
    if k <= 0 {
        0
    } else {
        objectives_points(objs, b, k - 1) + objective_score(objs[k - 1], b)
    }
}

/// The player's total score.
pub open spec fn player_score(p: Player, objs: Seq<Objective>) -> int {
    board_points(p.board@, p.secret) + p.tokens + objectives_points(
        objs,
        p.board@,
        objs.len() as int,
    )
}

/// How many cells of the board are empty.
fn count_empty(board: &Vec<Vec<BoardCell>>) -> (r: i32)
    requires
        board_wf(board@),
    ensures
        r == count_grid(board@, empty_pred()),
        0 <= r <= 20,
{
    let ghost p = empty_pred();
    let mut total: i32 = 0;
    let mut i: usize = 0;
    while i < board.len()
        invariant
            board_wf(board@),
            p == empty_pred(),
            i <= board@.len(),
            total == count_grid(board@.take(i as int), p),
            0 <= total <= 5 * i,
        decreases board@.len() - i,
    {
        let row = &board[i];
        let mut rowcnt: i32 = 0;
        let mut j: usize = 0;
        while j < row.len()
            invariant
                row@ == board@[i as int]@,
                board_wf(board@),
                i < board@.len(),
                p == empty_pred(),
                j <= row@.len(),
                rowcnt == count_row(row@.take(j as int), p),
                0 <= rowcnt <= j,
            decreases row@.len() - j,
        {
            let is_match = row[j].die.is_none();
            proof {
                assert(p(row@[j as int]) == is_match);
                lemma_count_row_take_step(row@, p, j as int);
            }
            if is_match {
                rowcnt = rowcnt + 1;
            }
            j = j + 1;
        }
        proof {
            lemma_count_row_take_all(row@, p);
            lemma_count_grid_take_step(board@, p, i as int);
        }
        total = total + rowcnt;
        i = i + 1;
    }
    proof {
        lemma_count_grid_take_all(board@, p);
    }
    total
}


/// The whole match state: the seats, the turn pointers, the phase, the
/// dice supply, the shared catalogs.
#[derive(Clone, Debug)]
pub struct GameState {
    pub players: Vec<Player>,
    pub start_player_idx: usize,
    pub curr_player_idx: usize,
    pub phase: TurnPhase,
    pub dice_bag: Vec<Color>,
    pub draft_pool: Vec<Dice>,
    pub round_track: Vec<Vec<Dice>>,
    pub tools: Vec<Tool>,
    pub objectives: Vec<Objective>,
}

/// How many dice lie on the first `k` entries of the round track.
pub open spec fn track_dice(track: Seq<Vec<Dice>>, k: int) -> int
    decreases k,
{
    if k <= 0 {
        0
    } else {
        track_dice(track, k - 1) + track[k - 1]@.len()
    }
}

/// How many dice the first `k` players have placed.
pub open spec fn players_placed(players: Seq<Player>, k: int) -> int
    decreases k,
{
    if k <= 0 {
        0
    } else {
        players_placed(players, k - 1) + players[k - 1].placed_count()
    }
}

/// Two tracks that agree on their first `k` entries hold the same dice
/// there.
pub proof fn lemma_track_dice_prefix(t1: Seq<Vec<Dice>>, t2: Seq<Vec<Dice>>, k: int)
    requires
        forall|i: int| 0 <= i < k ==> t1[i] == t2[i],
    ensures
        track_dice(t1, k) == track_dice(t2, k),
    decreases k,
{
    if k > 0 {
        lemma_track_dice_prefix(t1, t2, k - 1);
    }
}

/// Replacing player `i` shifts the placed sum by that player's difference.
pub proof fn lemma_players_placed_update(ps: Seq<Player>, i: int, p2: Player, k: int)
    requires
        0 <= i < ps.len(),
        k <= ps.len(),
    ensures
        players_placed(ps.update(i, p2), k) == players_placed(ps, k) + if i < k {
            p2.placed_count() - ps[i].placed_count()
        } else {
            0int
        },
    decreases k,
{
    if k > 0 {
        lemma_players_placed_update(ps, i, p2, k - 1);
    }
}

/// Two seat lists that agree on their first `k` players have the same
/// placed sum there.
pub proof fn lemma_players_placed_prefix(p1: Seq<Player>, p2: Seq<Player>, k: int)
    requires
        forall|i: int| 0 <= i < k ==> p1[i] == p2[i],
    ensures
        players_placed(p1, k) == players_placed(p2, k),
    decreases k,
{
    if k > 0 {
        lemma_players_placed_prefix(p1, p2, k - 1);
    }
}

impl GameState {
    /// How many dice a round's draft pool holds.
    pub open spec fn pool_size_spec(self) -> int {
        2 * self.players@.len() as int + 1
    }

    /// Whether the match is inside a round's draft passes.
    pub open spec fn in_draft(self) -> bool {
        self.phase == TurnPhase::FirstDraft || self.phase == TurnPhase::SecondDraft
    }

    /// How many rounds still have to draw a pool from the bag.
    pub open spec fn rounds_to_draw(self) -> int {
        NUM_ROUNDS - self.round_track@.len() - if self.in_draft() {
            1int
        } else {
            0int
        }
    }

    /// Every die in the match, wherever it lies: in the bag, in the draft
    /// pool, on the round track, or placed on a board. Conserved by every
    /// turn.
    pub open spec fn total_dice(self) -> int {
        self.dice_bag@.len() + self.draft_pool@.len() + track_dice(
            self.round_track@,
            self.round_track@.len() as int,
        ) + players_placed(self.players@, self.players@.len() as int)
    }

    /// The match state is well formed: the seat count and turn pointers
    /// are in range, every player, pool die and track die is well formed,
    /// tool costs are 1 or 2, the objective hand is a bounded catalog
    /// draw, and the bag still holds enough dice for the rounds to come.
    pub open spec fn wf(self) -> bool {
        &&& 2 <= self.players@.len() <= MAX_PLAYERS
        &&& self.curr_player_idx < self.players@.len()
        &&& self.start_player_idx < self.players@.len()
        &&& forall|i: int| 0 <= i < self.players@.len() ==> (#[trigger] self.players@[i]).wf()
        &&& forall|i: int|
            0 <= i < self.draft_pool@.len() ==> (#[trigger] self.draft_pool@[i]).wf()
        &&& forall|i: int, j: int|
            #![trigger self.round_track@[i]@[j]]
            0 <= i < self.round_track@.len() && 0 <= j < self.round_track@[i]@.len()
                ==> self.round_track@[i]@[j].wf()
        &&& forall|i: int|
            0 <= i < self.tools@.len() ==> (#[trigger] self.tools@[i]).cost == 1
                || self.tools@[i].cost == 2
        &&& self.objectives@.len() <= 10
        &&& forall|i: int|
            0 <= i < self.objectives@.len() ==> (#[trigger] self.objectives@[i]).bounded()
        &&& (self.phase == TurnPhase::SelectTemplate ==> self.draft_pool@.len() == 0
            && self.round_track@.len() == 0)
        &&& self.dice_bag@.len() >= self.pool_size_spec() * (if self.rounds_to_draw() >= 0 {
            self.rounds_to_draw()
        } else {
            0int
        })
    }

    /// Whether the match has reached its terminal state: every round is
    /// on the track and the pool is drained.
    pub fn is_finished(&self) -> (r: bool)
        ensures
            r == (self.round_track@.len() >= NUM_ROUNDS && self.draft_pool@.len() == 0),
    {
        self.round_track.len() >= NUM_ROUNDS && self.draft_pool.is_empty()
    }

    /// The seat after `idx` in play order.
    fn next_idx(&self, idx: usize) -> (r: usize)
        requires
            self.players@.len() >= 1,
            self.players@.len() <= MAX_PLAYERS,
            idx < self.players@.len(),
        ensures
            r == (idx + 1) as int % self.players@.len() as int,
            r < self.players@.len(),
    {
        (idx + 1) % self.players.len()
    }

    /// The seat before `idx` in play order.
    fn prev_idx(&self, idx: usize) -> (r: usize)
        requires
            self.players@.len() >= 1,
            self.players@.len() <= MAX_PLAYERS,
            idx < self.players@.len(),
        ensures
            r == (idx + self.players@.len() - 1) as int % self.players@.len() as int,
            r < self.players@.len(),
    {
        (idx + self.players.len() - 1) % self.players.len()
    }

    /// How many dice a round's draft pool holds.
    fn pool_size(&self) -> (r: usize)
        requires
            self.players@.len() <= MAX_PLAYERS,
        ensures
            r == self.pool_size_spec(),
    {
        2 * self.players.len() + 1
    }

    /// The player whose turn it is.
    pub fn current_player(&self) -> (p: &Player)
        requires
            self.curr_player_idx < self.players@.len(),
        ensures
            *p == self.players@[self.curr_player_idx as int],
    {
        &self.players[self.curr_player_idx]
    }

    /// The player whose turn it is.
    pub fn curr_player(&self) -> (p: &Player)
        requires
            self.curr_player_idx < self.players@.len(),
        ensures
            *p == self.players@[self.curr_player_idx as int],
    {
        self.current_player()
    }

    /// Every player's total score, in seat order.
    pub fn player_scores(&self) -> (r: Vec<i32>)
        requires
            self.wf(),
        ensures
            r@.len() == self.players@.len(),
            forall|i: int|
                0 <= i < r@.len() ==> r@[i] == player_score(
                    #[trigger] self.players@[i],
                    self.objectives@,
                ),
    {
        let mut scores: Vec<i32> = Vec::new();
        let mut i: usize = 0;
        while i < self.players.len()
            invariant
                self.wf(),
                i <= self.players@.len(),
                scores@.len() == i,
                forall|k: int|
                    0 <= k < i ==> scores@[k] == player_score(
                        #[trigger] self.players@[k],
                        self.objectives@,
                    ),
            decreases self.players@.len() - i,
        {
            scores.push(self.players[i].calculate_score(&self.objectives));
            i = i + 1;
        }
        scores
    }
}

/// Rolls a fresh die of the given color.
pub fn roll_die(color: Color) -> (d: Dice)
    ensures
        d.color == color,
        d.wf(),
{
    Dice::roll(color)
}

impl GameState {
    /// Draws a fresh draft pool from the back of the bag, rolling each
    /// drawn die, and opens the round's first draft pass.
    fn start_round(&mut self)
        requires
            2 <= old(self).players@.len() <= MAX_PLAYERS,
            old(self).draft_pool@.len() == 0,
            old(self).dice_bag@.len() >= old(self).pool_size_spec(),
        ensures
            final(self).players == old(self).players,
            final(self).start_player_idx == old(self).start_player_idx,
            final(self).curr_player_idx == old(self).curr_player_idx,
            final(self).round_track == old(self).round_track,
            final(self).tools == old(self).tools,
            final(self).objectives == old(self).objectives,
            final(self).phase == TurnPhase::FirstDraft,
            final(self).dice_bag@ == old(self).dice_bag@.subrange(
                0,
                old(self).dice_bag@.len() - old(self).pool_size_spec(),
            ),
            final(self).draft_pool@.len() == old(self).pool_size_spec(),
            forall|i: int|
                0 <= i < final(self).draft_pool@.len()
                    ==> (#[trigger] final(self).draft_pool@[i]).wf(),
            forall|i: int|
                0 <= i < final(self).draft_pool@.len()
                    ==> (#[trigger] final(self).draft_pool@[i]).color
                    == old(self).dice_bag@[old(self).dice_bag@.len()
                    - old(self).pool_size_spec() + i],
            final(self).total_dice() == old(self).total_dice(),
    {
        let ps = self.pool_size();
        let cut = self.dice_bag.len() - ps;
        let drawn = self.dice_bag.split_off(cut);
        let ghost drawn_colors = drawn@;
        let mut pool: Vec<Dice> = Vec::new();
        let mut i: usize = 0;
        while i < drawn.len()
            invariant
                drawn@ == drawn_colors,
                i <= drawn@.len(),
                pool@.len() == i,
                forall|k: int| 0 <= k < i ==> (#[trigger] pool@[k]).wf(),
                forall|k: int| 0 <= k < i ==> (#[trigger] pool@[k]).color == drawn_colors[k],
            decreases drawn@.len() - i,
        {
            pool.push(Dice::roll(drawn[i]));
            i = i + 1;
        }
        self.draft_pool = pool;
        self.phase = TurnPhase::FirstDraft;
        proof {
            lemma_track_dice_prefix(self.round_track@, old(self).round_track@,
                self.round_track@.len() as int);
            lemma_players_placed_prefix(self.players@, old(self).players@,
                self.players@.len() as int);
        }
    }

    /// Closes the round: the undrafted dice move onto the round track as
    /// one entry, and the starting seat rotates to the next player, who
    /// also acts first when a new round begins.
    fn finish_round(&mut self)
        requires
            2 <= old(self).players@.len() <= MAX_PLAYERS,
            old(self).start_player_idx < old(self).players@.len(),
        ensures
            final(self).players == old(self).players,
            final(self).tools == old(self).tools,
            final(self).objectives == old(self).objectives,
            final(self).dice_bag == old(self).dice_bag,
            final(self).phase == old(self).phase,
            final(self).draft_pool@.len() == 0,
            final(self).round_track@.len() == old(self).round_track@.len() + 1,
            forall|i: int|
                0 <= i < old(self).round_track@.len() ==> #[trigger] final(self).round_track@[i]
                    == old(self).round_track@[i],
            final(self).round_track@.last()@ == old(self).draft_pool@,
            final(self).start_player_idx == (old(self).start_player_idx + 1) as int
                % old(self).players@.len() as int,
            final(self).curr_player_idx == final(self).start_player_idx,
            final(self).start_player_idx < final(self).players@.len(),
            final(self).total_dice() == old(self).total_dice(),
    {
        let ghost old_track = self.round_track@;
        let ghost old_pool = self.draft_pool@;
        // Move the leftover pool dice onto the round track.
        let mut moved: Vec<Dice> = Vec::new();
        let mut i: usize = 0;
        while i < self.draft_pool.len()
            invariant
                self.draft_pool@ == old_pool,
                i <= old_pool.len(),
                moved@.len() == i,
                forall|k: int| 0 <= k < i ==> #[trigger] moved@[k] == old_pool[k],
            decreases old_pool.len() - i,
        {
            moved.push(self.draft_pool[i]);
            i = i + 1;
        }
        proof {
            assert(moved@ =~= old_pool);
        }
        self.draft_pool.clear();
        self.round_track.push(moved);
        let next_start = self.next_idx(self.start_player_idx);
        self.start_player_idx = next_start;
        self.curr_player_idx = next_start;
        proof {
            let k0 = old_track.len() as int;
            lemma_track_dice_prefix(self.round_track@, old_track, k0);
            assert(track_dice(self.round_track@, k0 + 1) == track_dice(self.round_track@, k0)
                + old_pool.len());
            lemma_players_placed_prefix(self.players@, old(self).players@,
                self.players@.len() as int);
        }
    }
}

/// Replaces the die at `(i, j)` of the round track, leaving every other
/// die as it was.
fn set_track_die(track: &mut Vec<Vec<Dice>>, i: usize, j: usize, v: Dice)
    requires
        i < old(track)@.len(),
        j < old(track)@[i as int]@.len(),
    ensures
        final(track)@.len() == old(track)@.len(),
        forall|k: int| 0 <= k < old(track)@.len() && k != i ==> final(track)@[k] == old(track)@[k],
        final(track)@[i as int]@ == old(track)@[i as int]@.update(j as int, v),
{
    let ghost orig = track@;
    let mut row: Vec<Dice> = Vec::new();
    let n = track[i].len();
    let mut k: usize = 0;
    while k < n
        invariant
            track@ == orig,
            i < orig.len(),
            n == orig[i as int]@.len(),
            k <= n,
            row@.len() == k,
            forall|m: int| 0 <= m < k ==> row@[m] == orig[i as int]@[m],
        decreases n - k,
    {
        row.push(track[i][k]);
        k = k + 1;
    }
    proof {
        assert(row@ =~= orig[i as int]@);
    }
    row.set(j, v);
    track.set(i, row);
}

/// Replacing one entry of the round track shifts the dice sum by the
/// difference of the entry sizes.
pub proof fn lemma_track_dice_update(t: Seq<Vec<Dice>>, i: int, v: Vec<Dice>, k: int)
    requires
        0 <= i < t.len(),
        k <= t.len(),
    ensures
        track_dice(t.update(i, v), k) == track_dice(t, k) + if i < k {
            v@.len() - t[i]@.len()
        } else {
            0int
        },
    decreases k,
{
    if k > 0 {
        lemma_track_dice_update(t, i, v, k - 1);
    }
}

/// An empty seat value to swap in while a player is being edited.
fn placeholder_player() -> Player {
    Player {
        tokens: 0,
        board: Vec::new(),
        secret: Color::Red,
        templates: Vec::new(),
        active_tool: None,
    }
}

/// A draft action that the current rules accept: it names a pool die and a
/// destination where that die may legally land.
pub open spec fn legal_draft_action(gs: GameState, p: Player, a: TurnAction) -> bool {
    &&& a.tool is None
    &&& a.idx matches ActionType::DraftDie(i) && i < gs.draft_pool@.len() && (
    a.coords matches Some(rc) && place_verdict(p, rc, gs.draft_pool@[i as int]) is Ok)
}

/// Whether the player has any legal placement for any die in the pool.
pub open spec fn has_any_legal_draft(gs: GameState, p: Player) -> bool {
    exists|i: int, rc: (usize, usize)|
        0 <= i < gs.draft_pool@.len() && (#[trigger] place_verdict(p, rc, gs.draft_pool@[i])) is Ok
}

/// Every legal (pool die, destination) pair for the player, as submittable
/// actions. Empty exactly when the player has no legal placement.
pub fn all_valid_drafts(game: &GameState, player: &Player) -> (v: Vec<TurnAction>)
    requires
        board_wf(player.board@),
    ensures
        forall|m: int| 0 <= m < v@.len() ==> legal_draft_action(*game, *player, #[trigger] v@[m]),
        forall|i: usize, r: usize, c: usize|
            i < game.draft_pool@.len() && (#[trigger] place_verdict(
                *player,
                (r, c),
                game.draft_pool@[i as int],
            )) is Ok ==> v@.contains(
                TurnAction { idx: ActionType::DraftDie(i), coords: Some((r, c)), tool: None },
            ),
        v@.len() == 0 <==> !has_any_legal_draft(*game, *player),
{
    let mut v: Vec<TurnAction> = Vec::new();
    let mut i: usize = 0;
    while i < game.draft_pool.len()
        invariant
            board_wf(player.board@),
            i <= game.draft_pool@.len(),
            forall|m: int|
                0 <= m < v@.len() ==> legal_draft_action(*game, *player, #[trigger] v@[m]),
            forall|i2: usize, r2: usize, c2: usize|
                i2 < i && (#[trigger] place_verdict(
                    *player,
                    (r2, c2),
                    game.draft_pool@[i2 as int],
                )) is Ok ==> v@.contains(
                    TurnAction { idx: ActionType::DraftDie(i2), coords: Some((r2, c2)), tool: None },
                ),
        decreases game.draft_pool@.len() - i,
    {
        let die = game.draft_pool[i];
        let mut r: usize = 0;
        while r < BOARD_ROWS
            invariant
                board_wf(player.board@),
                i < game.draft_pool@.len(),
                die == game.draft_pool@[i as int],
                r <= BOARD_ROWS,
                forall|m: int|
                    0 <= m < v@.len() ==> legal_draft_action(*game, *player, #[trigger] v@[m]),
                forall|i2: usize, r2: usize, c2: usize|
                    i2 < i && (#[trigger] place_verdict(
                        *player,
                        (r2, c2),
                        game.draft_pool@[i2 as int],
                    )) is Ok ==> v@.contains(
                        TurnAction {
                            idx: ActionType::DraftDie(i2),
                            coords: Some((r2, c2)),
                            tool: None,
                        },
                    ),
                forall|r2: usize, c2: usize|
                    r2 < r && (#[trigger] place_verdict(
                        *player,
                        (r2, c2),
                        game.draft_pool@[i as int],
                    )) is Ok ==> v@.contains(
                        TurnAction {
                            idx: ActionType::DraftDie(i),
                            coords: Some((r2, c2)),
                            tool: None,
                        },
                    ),
            decreases BOARD_ROWS - r,
        {
            let mut c: usize = 0;
            while c < BOARD_COLS
                invariant
                    board_wf(player.board@),
                    i < game.draft_pool@.len(),
                    die == game.draft_pool@[i as int],
                    r < BOARD_ROWS,
                    c <= BOARD_COLS,
                    forall|m: int|
                        0 <= m < v@.len() ==> legal_draft_action(*game, *player, #[trigger] v@[m]),
                    forall|i2: usize, r2: usize, c2: usize|
                        i2 < i && (#[trigger] place_verdict(
                            *player,
                            (r2, c2),
                            game.draft_pool@[i2 as int],
                        )) is Ok ==> v@.contains(
                            TurnAction {
                                idx: ActionType::DraftDie(i2),
                                coords: Some((r2, c2)),
                                tool: None,
                            },
                        ),
                    forall|r2: usize, c2: usize|
                        r2 < r && (#[trigger] place_verdict(
                            *player,
                            (r2, c2),
                            game.draft_pool@[i as int],
                        )) is Ok ==> v@.contains(
                            TurnAction {
                                idx: ActionType::DraftDie(i),
                                coords: Some((r2, c2)),
                                tool: None,
                            },
                        ),
                    forall|c2: usize|
                        c2 < c && (#[trigger] place_verdict(
                            *player,
                            (r, c2),
                            game.draft_pool@[i as int],
                        )) is Ok ==> v@.contains(
                            TurnAction {
                                idx: ActionType::DraftDie(i),
                                coords: Some((r, c2)),
                                tool: None,
                            },
                        ),
                decreases BOARD_COLS - c,
            {
                let ghost v_before = v@;
                if player.can_place_die((r, c), die).is_ok() {
                    v.push(TurnAction { idx: ActionType::DraftDie(i), coords: Some((r, c)), tool: None });
                    proof {
                        assert(v@.last() == TurnAction {
                            idx: ActionType::DraftDie(i),
                            coords: Some((r, c)),
                            tool: None,
                        });
                        assert(v@.contains(TurnAction {
                            idx: ActionType::DraftDie(i),
                            coords: Some((r, c)),
                            tool: None,
                        }));
                    }
                }
                proof {
                    assert forall|a: TurnAction| v_before.contains(a) implies v@.contains(a) by {
                        let m = choose|m: int| 0 <= m < v_before.len() && v_before[m] == a;
                        assert(v@[m] == a);
                    }
                }
                c = c + 1;
            }
            r = r + 1;
        }
        i = i + 1;
    }
    proof {
        if v@.len() > 0 {
            assert(legal_draft_action(*game, *player, v@[0]));
            let rc = v@[0].coords->0;
            let i0 = v@[0].idx->DraftDie_0;
            assert(place_verdict(*player, rc, game.draft_pool@[i0 as int]) is Ok);
            assert(has_any_legal_draft(*game, *player));
        }
        if has_any_legal_draft(*game, *player) {
            let (i0, rc) = choose|i0: int, rc: (usize, usize)|
                0 <= i0 < game.draft_pool@.len() && (#[trigger] place_verdict(
                    *player,
                    rc,
                    game.draft_pool@[i0],
                )) is Ok;
            // Out-of-range destinations are always refused, so this witness
            // is one the loops visited.
            assert(rc.0 < BOARD_ROWS && rc.1 < BOARD_COLS);
            assert(v@.contains(
                TurnAction { idx: ActionType::DraftDie(i0 as usize), coords: Some((rc.0, rc.1)), tool: None },
            ));
            assert(v@.len() > 0);
        }
    }
    v
}

/// An enumerated draft action proposed for the current player is exactly
/// one the engine accepts.
pub proof fn lemma_legal_draft_accepted(gs: GameState, a: TurnAction, i: usize)
    requires
        gs.curr_player_idx < gs.players@.len(),
        legal_draft_action(gs, gs.players@[gs.curr_player_idx as int], a),
        a.idx == ActionType::DraftDie(i),
    ensures
        draft_verdict(gs, i, a.coords) is Ok,
{
}

/// The validity of a draft submission: with a destination, the named pool
/// die must exist and legally land there; without one, no die in the pool
/// may have any legal placement.
pub open spec fn draft_verdict(gs: GameState, pool_idx: usize, coords: Option<(usize, usize)>) -> Result<(), GameError> {
    let p = gs.players@[gs.curr_player_idx as int];
    match coords {
        Some(rc) => if pool_idx >= gs.draft_pool@.len() {
            Err(GameError::InvalidIndex)
        } else {
            place_verdict(p, rc, gs.draft_pool@[pool_idx as int])
        },
        None => if has_any_legal_draft(gs, p) {
            Err(GameError::IllegalPlacement(PlacementError::LegalPlacementExists))
        } else {
            Ok(())
        },
    }
}

/// Whether the indices a tool payload names are in range, and whether the
/// tool's behavior is resolved at all.
pub open spec fn tool_indices_verdict(gs: GameState, data: ToolData) -> Result<(), GameError> {
    match data {
        ToolData::RerollAllDiceInPool => Ok(()),
        ToolData::PlaceIgnoringAdjacency => Ok(()),
        ToolData::FlipDraftedDie { draft_idx } => if draft_idx >= gs.draft_pool@.len() {
            Err(GameError::InvalidIndex)
        } else {
            Ok(())
        },
        ToolData::RerollDraftedDie { draft_idx } => if draft_idx >= gs.draft_pool@.len() {
            Err(GameError::InvalidIndex)
        } else {
            Ok(())
        },
        ToolData::BumpDraftedDie { draft_idx, .. } => if draft_idx >= gs.draft_pool@.len() {
            Err(GameError::InvalidIndex)
        } else {
            Ok(())
        },
        ToolData::SwapDraftedDieWithRoundTrack { draft_idx, round_idx } => if round_idx.0
            >= gs.round_track@.len() {
            Err(GameError::InvalidIndex)
        } else if round_idx.1 >= gs.round_track@[round_idx.0 as int]@.len() {
            Err(GameError::InvalidIndex)
        } else if draft_idx >= gs.draft_pool@.len() {
            Err(GameError::InvalidIndex)
        } else {
            Ok(())
        },
        _ => Err(GameError::ToolUnimplemented),
    }
}

/// The validity of a tool submission, in check order: the tool index, the
/// payload and its kind, the phase table, the token balance, and last the
/// payload's own indices.
pub open spec fn use_tool_verdict(gs: GameState, tool_idx: usize, data_opt: Option<ToolData>) -> Result<(), GameError> {
    if tool_idx >= gs.tools@.len() {
        Err(GameError::InvalidIndex)
    } else if data_opt is None {
        Err(GameError::ToolDataMismatch)
    } else {
        let data = data_opt->0;
        let tool = gs.tools@[tool_idx as int];
        if !data_matches_type(data, tool.tool_type) {
            Err(GameError::ToolDataMismatch)
        } else if tool_wrong_phase(tool.tool_type, gs.phase) {
            Err(GameError::ToolPhaseIllegal)
        } else if tool.cost > gs.players@[gs.curr_player_idx as int].tokens {
            Err(GameError::InsufficientTokens)
        } else {
            tool_indices_verdict(gs, data)
        }
    }
}

/// The verdict of an in-draft action, with whether the turn advances on
/// success: a draft advances it, a tool use does not.
pub open spec fn action_verdict(gs: GameState, action: TurnAction) -> Result<bool, GameError> {
    match action.idx {
        ActionType::SelectTemplate(_) => Err(GameError::WrongPhaseAction),
        ActionType::DraftDie(i) => match draft_verdict(gs, i, action.coords) {
            Ok(()) => Ok(true),
            Err(e) => Err(e),
        },
        ActionType::UseTool(t) => match use_tool_verdict(gs, t, action.tool) {
            Ok(()) => Ok(false),
            Err(e) => Err(e),
        },
    }
}

/// The bumped die: its face raised or lowered by one, saturating at 6
/// and 1.
pub open spec fn bumped(d: Dice, up: bool) -> Dice {
    if up {
        Dice { color: d.color, face: if d.face >= 6 { 6u8 } else { (d.face + 1) as u8 } }
    } else {
        Dice { color: d.color, face: if d.face <= 1 { 1u8 } else { (d.face - 1) as u8 } }
    }
}

/// What a tool effect does to the draft pool and the round track.
pub open spec fn tool_pool_ok(gs0: GameState, gs1: GameState, data: ToolData) -> bool {
    let pool0 = gs0.draft_pool@;
    let pool1 = gs1.draft_pool@;
    match data {
        ToolData::RerollAllDiceInPool => {
            &&& gs1.round_track == gs0.round_track
            &&& pool1.len() == pool0.len()
            &&& forall|k: int|
                0 <= k < pool0.len() ==> (#[trigger] pool1[k]).wf() && pool1[k].color
                    == pool0[k].color
        },
        ToolData::PlaceIgnoringAdjacency => gs1.draft_pool == gs0.draft_pool && gs1.round_track
            == gs0.round_track,
        ToolData::FlipDraftedDie { draft_idx } => {
            &&& gs1.round_track == gs0.round_track
            &&& pool1 == pool0.update(draft_idx as int, pool0[draft_idx as int].flipped())
        },
        ToolData::RerollDraftedDie { draft_idx } => {
            &&& gs1.round_track == gs0.round_track
            &&& pool1.len() == pool0.len()
            &&& forall|k: int|
                0 <= k < pool0.len() && k != draft_idx ==> #[trigger] pool1[k] == pool0[k]
            &&& pool1[draft_idx as int].wf()
            &&& pool1[draft_idx as int].color == pool0[draft_idx as int].color
        },
        ToolData::BumpDraftedDie { draft_idx, is_increment } => {
            &&& gs1.round_track == gs0.round_track
            &&& pool1 == pool0.update(draft_idx as int, bumped(pool0[draft_idx as int], is_increment))
        },
        ToolData::SwapDraftedDieWithRoundTrack { draft_idx, round_idx } => {
            &&& pool1 == pool0.update(
                draft_idx as int,
                gs0.round_track@[round_idx.0 as int]@[round_idx.1 as int],
            )
            &&& gs1.round_track@.len() == gs0.round_track@.len()
            &&& forall|k: int|
                0 <= k < gs0.round_track@.len() && k != round_idx.0 ==> #[trigger] gs1.round_track@[k]
                    == gs0.round_track@[k]
            &&& gs1.round_track@[round_idx.0 as int]@ == gs0.round_track@[round_idx.0 as int]@.update(
                round_idx.1 as int,
                pool0[draft_idx as int],
            )
        },
        _ => false,
    }
}

/// How the match looks after a successful tool use: the effect applied,
/// the cost deducted from the acting player, the tool's cost escalated to
/// 2 for everyone, and nothing else touched.
pub open spec fn tool_effect_ok(gs0: GameState, gs1: GameState, tool_idx: int, data: ToolData) -> bool {
    let cur = gs0.curr_player_idx as int;
    let p0 = gs0.players@[cur];
    let p1 = gs1.players@[cur];
    &&& gs1.phase == gs0.phase
    &&& gs1.curr_player_idx == gs0.curr_player_idx
    &&& gs1.start_player_idx == gs0.start_player_idx
    &&& gs1.dice_bag == gs0.dice_bag
    &&& gs1.objectives == gs0.objectives
    &&& gs1.tools@.len() == gs0.tools@.len()
    &&& forall|t: int|
        0 <= t < gs0.tools@.len() && t != tool_idx ==> #[trigger] gs1.tools@[t] == gs0.tools@[t]
    &&& gs1.tools@[tool_idx].tool_type == gs0.tools@[tool_idx].tool_type
    &&& gs1.tools@[tool_idx].cost == 2
    &&& gs1.players@.len() == gs0.players@.len()
    &&& forall|q: int|
        0 <= q < gs0.players@.len() && q != cur ==> #[trigger] gs1.players@[q] == gs0.players@[q]
    &&& p1.tokens == p0.tokens - gs0.tools@[tool_idx].cost
    &&& p1.board == p0.board
    &&& p1.secret == p0.secret
    &&& p1.templates == p0.templates
    &&& p1.active_tool == (if data is PlaceIgnoringAdjacency {
        Some(ToolType::PlaceIgnoringAdjacency)
    } else {
        p0.active_tool
    })
    &&& tool_pool_ok(gs0, gs1, data)
}

/// How the acting player looks after a successful draft: the die placed at
/// the destination (when there is one) and the one-shot modifier cleared.
pub open spec fn drafted_player_ok(p0: Player, p1: Player, die: Dice, coords: Option<(usize, usize)>) -> bool {
    &&& p1.active_tool is None
    &&& p1.secret == p0.secret
    &&& p1.templates == p0.templates
    &&& p1.tokens == p0.tokens
    &&& match coords {
        None => p1.board == p0.board,
        Some(rc) => {
            &&& rc.0 < BOARD_ROWS && rc.1 < BOARD_COLS
            &&& p1.board@.len() == p0.board@.len()
            &&& forall|k: int|
                0 <= k < p0.board@.len() && k != rc.0 ==> #[trigger] p1.board@[k] == p0.board@[k]
            &&& p1.board@[rc.0 as int]@ == p0.board@[rc.0 as int]@.update(
                rc.1 as int,
                BoardCell { slot: p0.board@[rc.0 as int]@[rc.1 as int].slot, die: Some(die) },
            )
        },
    }
}

/// How the match looks after a successful draft action, before any turn
/// advance: the named die (if a destination was given) moved from the pool
/// onto the acting player's board, and everything else untouched.
pub open spec fn draft_effect_ok(gs0: GameState, gs1: GameState, pool_idx: usize, coords: Option<(usize, usize)>) -> bool {
    let cur = gs0.curr_player_idx as int;
    &&& gs1.phase == gs0.phase
    &&& gs1.curr_player_idx == gs0.curr_player_idx
    &&& gs1.start_player_idx == gs0.start_player_idx
    &&& gs1.dice_bag == gs0.dice_bag
    &&& gs1.round_track == gs0.round_track
    &&& gs1.tools == gs0.tools
    &&& gs1.objectives == gs0.objectives
    &&& gs1.players@.len() == gs0.players@.len()
    &&& forall|q: int|
        0 <= q < gs0.players@.len() && q != cur ==> #[trigger] gs1.players@[q] == gs0.players@[q]
    &&& match coords {
        None => gs1.draft_pool == gs0.draft_pool,
        Some(rc) => {
            &&& pool_idx < gs0.draft_pool@.len()
            &&& gs1.draft_pool@ == gs0.draft_pool@.remove(pool_idx as int)
        },
    }
    &&& drafted_player_ok(
        gs0.players@[cur],
        gs1.players@[cur],
        gs0.draft_pool@[pool_idx as int],
        coords,
    )
}

impl GameState {
    /// Validates and applies one draft submission by the current player.
    /// A rejection leaves the state untouched.
    fn handle_draft(&mut self, pool_idx: usize, coords: Option<(usize, usize)>) -> (r: Result<
        bool,
        GameError,
    >)
        requires
            old(self).wf(),
            old(self).in_draft(),
        ensures
            final(self).wf(),
            final(self).total_dice() == old(self).total_dice(),
            r is Err ==> *final(self) == *old(self),
            r == match draft_verdict(*old(self), pool_idx, coords) {
                Ok(()) => Ok::<bool, GameError>(true),
                Err(e) => Err::<bool, GameError>(e),
            },
            r is Ok ==> draft_effect_ok(*old(self), *final(self), pool_idx, coords),
            final(self).phase == old(self).phase,
            final(self).curr_player_idx == old(self).curr_player_idx,
            final(self).round_track@.len() == old(self).round_track@.len(),
    {
        let ghost gs0 = *old(self);
        let cur = self.curr_player_idx;
        match coords {
            Some(rc) => {
                if pool_idx >= self.draft_pool.len() {
                    return Err(GameError::InvalidIndex);
                }
                let die = self.draft_pool[pool_idx];
                let verdict = self.players[cur].can_place_die(rc, die);
                if let Err(e) = verdict {
                    return Err(e);
                }
                // The check passed; commit the placement.
                let mut p = placeholder_player();
                self.players.set_and_swap(cur, &mut p);
                let ghost p0 = gs0.players@[cur as int];
                let res = p.place_die(rc, die);
                match res {
                    Err(e) => {
                        proof {
                            // The armed modifier of a well-formed player
                            // leaves the die unchanged, so the commit
                            // cannot fail after the check succeeded.
                            assert(modified_die(p0.active_tool, die) == die);
                            assert(false);
                        }
                        Err(e)
                    },
                    Ok(()) => {
                        p.active_tool = None;
                        self.players.set_and_swap(cur, &mut p);
                        self.draft_pool.remove(pool_idx);
                        proof {
                            let ghost pf = self.players@[cur as int];
                            assert(self.players@ =~= gs0.players@.update(cur as int, pf));
                            assert(modified_die(p0.active_tool, die) == die);
                            let placed = choose|d2: Dice|
                                #[trigger] place_commit_ok(p0, Player { active_tool: p0.active_tool, ..pf }, rc, die, d2);
                            assert(placed == die);
                            lemma_players_placed_update(
                                gs0.players@,
                                cur as int,
                                pf,
                                gs0.players@.len() as int,
                            );
                            lemma_track_dice_prefix(
                                self.round_track@,
                                gs0.round_track@,
                                gs0.round_track@.len() as int,
                            );
                        }
                        Ok(true)
                    },
                }
            },
            None => {
                let me = self.current_player();
                let acts = all_valid_drafts(self, me);
                if !acts.is_empty() {
                    return Err(GameError::IllegalPlacement(PlacementError::LegalPlacementExists));
                }
                let mut p = placeholder_player();
                self.players.set_and_swap(cur, &mut p);
                p.active_tool = None;
                self.players.set_and_swap(cur, &mut p);
                proof {
                    let ghost pf = self.players@[cur as int];
                    assert(self.players@ =~= gs0.players@.update(cur as int, pf));
                    lemma_players_placed_update(
                        gs0.players@,
                        cur as int,
                        pf,
                        gs0.players@.len() as int,
                    );
                    lemma_track_dice_prefix(
                        self.round_track@,
                        gs0.round_track@,
                        gs0.round_track@.len() as int,
                    );
                }
                Ok(true)
            },
        }
    }
}

impl GameState {
    /// Validates and applies one tool submission by the current player: the
    /// effect, the cost, and the first-use escalation. A rejection leaves
    /// the state untouched. Using a tool does not advance the turn.
    fn handle_tool(&mut self, tool_idx: usize, data_opt: &Option<ToolData>) -> (r: Result<
        (),
        GameError,
    >)
        requires
            old(self).wf(),
            old(self).in_draft(),
        ensures
            final(self).wf(),
            final(self).total_dice() == old(self).total_dice(),
            r is Err ==> *final(self) == *old(self),
            r == use_tool_verdict(*old(self), tool_idx, *data_opt),
            r is Ok ==> (*data_opt matches Some(data) && tool_effect_ok(
                *old(self),
                *final(self),
                tool_idx as int,
                data,
            )),
    {
        let ghost gs0 = *old(self);
        if tool_idx >= self.tools.len() {
            return Err(GameError::InvalidIndex);
        }
        let data = match data_opt {
            Some(d) => *d,
            None => {
                return Err(GameError::ToolDataMismatch);
            },
        };
        let tool = self.tools[tool_idx];
        if !data.matches_type(tool.tool_type) {
            return Err(GameError::ToolDataMismatch);
        }
        if tool.in_wrong_phase(self.phase) {
            return Err(GameError::ToolPhaseIllegal);
        }
        let cur = self.curr_player_idx;
        if tool.cost > self.players[cur].tokens {
            return Err(GameError::InsufficientTokens);
        }
        // All further checks precede every mutation, so rejected
        // submissions leave the state untouched.
        match data {
            ToolData::RerollAllDiceInPool => {
                let mut k: usize = 0;
                while k < self.draft_pool.len()
                    invariant
                        self.players == gs0.players,
                        self.start_player_idx == gs0.start_player_idx,
                        self.curr_player_idx == gs0.curr_player_idx,
                        self.phase == gs0.phase,
                        self.dice_bag == gs0.dice_bag,
                        self.round_track == gs0.round_track,
                        self.tools == gs0.tools,
                        self.objectives == gs0.objectives,
                        k <= self.draft_pool@.len(),
                        self.draft_pool@.len() == gs0.draft_pool@.len(),
                        forall|m: int|
                            0 <= m < k ==> (#[trigger] self.draft_pool@[m]).wf()
                                && self.draft_pool@[m].color == gs0.draft_pool@[m].color,
                        forall|m: int|
                            k <= m < gs0.draft_pool@.len() ==> #[trigger] self.draft_pool@[m]
                                == gs0.draft_pool@[m],
                    decreases self.draft_pool@.len() - k,
                {
                    let c = self.draft_pool[k].color;
                    self.draft_pool.set(k, Dice::roll(c));
                    k = k + 1;
                }
            },
            ToolData::PlaceIgnoringAdjacency => {},
            ToolData::FlipDraftedDie { draft_idx } => {
                if draft_idx >= self.draft_pool.len() {
                    return Err(GameError::InvalidIndex);
                }
                let mut d = self.draft_pool[draft_idx];
                d.flip();
                self.draft_pool.set(draft_idx, d);
            },
            ToolData::RerollDraftedDie { draft_idx } => {
                if draft_idx >= self.draft_pool.len() {
                    return Err(GameError::InvalidIndex);
                }
                let mut d = self.draft_pool[draft_idx];
                d.reroll();
                self.draft_pool.set(draft_idx, d);
            },
            ToolData::BumpDraftedDie { draft_idx, is_increment } => {
                if draft_idx >= self.draft_pool.len() {
                    return Err(GameError::InvalidIndex);
                }
                let mut d = self.draft_pool[draft_idx];
                if is_increment {
                    d.increment();
                } else {
                    d.decrement();
                }
                self.draft_pool.set(draft_idx, d);
                proof {
                    assert(self.draft_pool@ =~= gs0.draft_pool@.update(
                        draft_idx as int,
                        bumped(gs0.draft_pool@[draft_idx as int], is_increment),
                    ));
                }
            },
            ToolData::SwapDraftedDieWithRoundTrack { draft_idx, round_idx } => {
                let (ri, pi) = round_idx;
                if ri >= self.round_track.len() {
                    return Err(GameError::InvalidIndex);
                }
                if pi >= self.round_track[ri].len() {
                    return Err(GameError::InvalidIndex);
                }
                if draft_idx >= self.draft_pool.len() {
                    return Err(GameError::InvalidIndex);
                }
                let pool_die = self.draft_pool[draft_idx];
                let track_die = self.round_track[ri][pi];
                self.draft_pool.set(draft_idx, track_die);
                set_track_die(&mut self.round_track, ri, pi, pool_die);
                proof {
                    assert(self.round_track@ =~= gs0.round_track@.update(
                        ri as int,
                        self.round_track@[ri as int],
                    ));
                    lemma_track_dice_update(
                        gs0.round_track@,
                        ri as int,
                        self.round_track@[ri as int],
                        gs0.round_track@.len() as int,
                    );
                }
            },
            _ => {
                return Err(GameError::ToolUnimplemented);
            },
        }
        // Deduct the cost, and arm the one-shot modifier for the flag tool.
        let mut p = placeholder_player();
        self.players.set_and_swap(cur, &mut p);
        p.tokens = p.tokens - tool.cost;
        if matches!(data, ToolData::PlaceIgnoringAdjacency) {
            p.active_tool = Some(ToolType::PlaceIgnoringAdjacency);
        }
        self.players.set_and_swap(cur, &mut p);
        // The first successful use raises the cost for every later use.
        if tool.cost == 1 {
            self.tools.set(tool_idx, Tool { tool_type: tool.tool_type, cost: 2 });
        }
        proof {
            let pf = self.players@[cur as int];
            assert(self.players@ =~= gs0.players@.update(cur as int, pf));
            lemma_players_placed_update(gs0.players@, cur as int, pf, gs0.players@.len() as int);
        }
        Ok(())
    }
}

/// The legal phase successions: template selection can only open the first
/// draft, the first draft pass only the second, the second draft pass only
/// a new round or the end of the match, and the terminal state is final.
pub open spec fn phase_step_ok(ph0: TurnPhase, ph1: TurnPhase) -> bool {
    match ph0 {
        TurnPhase::SelectTemplate => ph1 == TurnPhase::SelectTemplate || ph1
            == TurnPhase::FirstDraft,
        TurnPhase::FirstDraft => ph1 == TurnPhase::FirstDraft || ph1 == TurnPhase::SecondDraft,
        TurnPhase::SecondDraft => ph1 == TurnPhase::SecondDraft || ph1 == TurnPhase::FirstDraft
            || ph1 == TurnPhase::GameOver,
        TurnPhase::GameOver => ph1 == TurnPhase::GameOver,
    }
}

/// Template selection never recurs: once the match has left the selection
/// phase, no turn step brings it back.
pub proof fn lemma_selection_never_recurs(ph0: TurnPhase, ph1: TurnPhase)
    requires
        phase_step_ok(ph0, ph1),
        ph0 != TurnPhase::SelectTemplate,
    ensures
        ph1 != TurnPhase::SelectTemplate,
{
}

/// The second draft pass is only ever entered through the first.
pub proof fn lemma_second_pass_follows_first(ph0: TurnPhase, ph1: TurnPhase)
    requires
        phase_step_ok(ph0, ph1),
        ph1 == TurnPhase::SecondDraft,
    ensures
        ph0 == TurnPhase::FirstDraft || ph0 == TurnPhase::SecondDraft,
{
}

/// The terminal state is final: no turn step leaves it.
pub proof fn lemma_game_over_terminal(ph0: TurnPhase, ph1: TurnPhase)
    requires
        phase_step_ok(ph0, ph1),
        ph0 == TurnPhase::GameOver,
    ensures
        ph1 == TurnPhase::GameOver,
{
}

/// The verdict of a turn submission, phase by phase, with the returned
/// match-over flag on success.
pub open spec fn turn_verdict(gs: GameState, action: TurnAction) -> Result<bool, GameError> {
    match gs.phase {
        TurnPhase::GameOver => Err(GameError::GameAlreadyOver),
        TurnPhase::SelectTemplate => match action.idx {
            ActionType::SelectTemplate(i) => match select_verdict(
                gs.players@[gs.curr_player_idx as int],
                i,
            ) {
                Ok(()) => Ok(false),
                Err(e) => Err(e),
            },
            _ => Err(GameError::WrongPhaseAction),
        },
        TurnPhase::FirstDraft => match action_verdict(gs, action) {
            Ok(_) => Ok(false),
            Err(e) => Err(e),
        },
        TurnPhase::SecondDraft => match action_verdict(gs, action) {
            Ok(advance) => Ok(
                advance && gs.curr_player_idx == gs.start_player_idx && gs.round_track@.len() + 1
                    >= NUM_ROUNDS,
            ),
            Err(e) => Err(e),
        },
    }
}

/// How the match looks after a successful template selection: the acting
/// player adopted the chosen template, the turn moved on, and — once the
/// pointer wrapped — the first round was opened with a fresh pool.
pub open spec fn select_turn_ok(gs0: GameState, gs1: GameState, action: TurnAction) -> bool {
    let cur = gs0.curr_player_idx as int;
    let n = gs0.players@.len() as int;
    let nxt = (cur + 1) % n;
    &&& action.idx matches ActionType::SelectTemplate(ti) && template_selected(
        gs0.players@[cur],
        gs1.players@[cur],
        ti as int,
    )
    &&& gs1.players@.len() == gs0.players@.len()
    &&& forall|q: int| 0 <= q < n && q != cur ==> #[trigger] gs1.players@[q] == gs0.players@[q]
    &&& gs1.start_player_idx == gs0.start_player_idx
    &&& gs1.curr_player_idx == nxt
    &&& gs1.round_track == gs0.round_track
    &&& gs1.tools == gs0.tools
    &&& gs1.objectives == gs0.objectives
    &&& if nxt == gs0.start_player_idx {
        &&& gs1.phase == TurnPhase::FirstDraft
        &&& gs1.draft_pool@.len() == gs0.pool_size_spec()
        &&& forall|i: int| 0 <= i < gs1.draft_pool@.len() ==> (#[trigger] gs1.draft_pool@[i]).wf()
        &&& gs1.dice_bag@.len() == gs0.dice_bag@.len() - gs0.pool_size_spec()
    } else {
        &&& gs1.phase == TurnPhase::SelectTemplate
        &&& gs1.draft_pool == gs0.draft_pool
        &&& gs1.dice_bag == gs0.dice_bag
    }
}

/// How the match looks after a successful draft action, turn advance
/// included: forward through the first pass, backward through the second,
/// and the round closing on the second pass's last seat.
pub open spec fn draft_turn_ok(gs0: GameState, gs1: GameState, pool_idx: usize, coords: Option<(usize, usize)>) -> bool {
    let cur = gs0.curr_player_idx as int;
    let n = gs0.players@.len() as int;
    let mid_pool = match coords {
        Some(_) => gs0.draft_pool@.remove(pool_idx as int),
        None => gs0.draft_pool@,
    };
    &&& gs1.players@.len() == gs0.players@.len()
    &&& forall|q: int| 0 <= q < n && q != cur ==> #[trigger] gs1.players@[q] == gs0.players@[q]
    &&& drafted_player_ok(
        gs0.players@[cur],
        gs1.players@[cur],
        gs0.draft_pool@[pool_idx as int],
        coords,
    )
    &&& gs1.tools == gs0.tools
    &&& gs1.objectives == gs0.objectives
    &&& match gs0.phase {
        TurnPhase::FirstDraft => {
            let nxt = (cur + 1) % n;
            &&& gs1.round_track == gs0.round_track
            &&& gs1.dice_bag == gs0.dice_bag
            &&& gs1.draft_pool@ == mid_pool
            &&& gs1.start_player_idx == gs0.start_player_idx
            &&& if nxt == gs0.start_player_idx {
                gs1.phase == TurnPhase::SecondDraft && gs1.curr_player_idx == (nxt + n - 1) % n
            } else {
                gs1.phase == TurnPhase::FirstDraft && gs1.curr_player_idx == nxt
            }
        },
        TurnPhase::SecondDraft => {
            if cur != gs0.start_player_idx {
                &&& gs1.round_track == gs0.round_track
                &&& gs1.dice_bag == gs0.dice_bag
                &&& gs1.draft_pool@ == mid_pool
                &&& gs1.start_player_idx == gs0.start_player_idx
                &&& gs1.phase == TurnPhase::SecondDraft
                &&& gs1.curr_player_idx == (cur + n - 1) % n
            } else {
                &&& gs1.round_track@.len() == gs0.round_track@.len() + 1
                &&& forall|k: int|
                    0 <= k < gs0.round_track@.len() ==> #[trigger] gs1.round_track@[k]
                        == gs0.round_track@[k]
                &&& gs1.round_track@.last()@ == mid_pool
                &&& gs1.start_player_idx == (gs0.start_player_idx + 1) % n
                &&& gs1.curr_player_idx == gs1.start_player_idx
                &&& if gs0.round_track@.len() + 1 >= NUM_ROUNDS {
                    &&& gs1.phase == TurnPhase::GameOver
                    &&& gs1.draft_pool@.len() == 0
                    &&& gs1.dice_bag == gs0.dice_bag
                } else {
                    &&& gs1.phase == TurnPhase::FirstDraft
                    &&& gs1.draft_pool@.len() == gs0.pool_size_spec()
                    &&& forall|i: int|
                        0 <= i < gs1.draft_pool@.len() ==> (#[trigger] gs1.draft_pool@[i]).wf()
                    &&& gs1.dice_bag@.len() == gs0.dice_bag@.len() - gs0.pool_size_spec()
                }
            }
        },
        _ => false,
    }
}

/// Multiplying a non-negative quantity by one fewer round frees exactly
/// one pool's worth of dice.
proof fn lemma_mul_step(a: int, k: int)
    requires
        a >= 0,
        k >= 1,
    ensures
        a * k - a == a * (k - 1),
        a * k >= a,
{
    assert(a * k - a == a * (k - 1) && a * k >= a) by (nonlinear_arith)
        requires
            a >= 0,
            k >= 1,
    ;
}

impl GameState {
    /// Validates and applies one in-draft action. On success the returned
    /// flag says whether the turn advances: a draft does, a tool use does
    /// not. Any rejection leaves the state untouched.
    fn handle_action(&mut self, action: &TurnAction) -> (r: Result<bool, GameError>)
        requires
            old(self).wf(),
            old(self).in_draft(),
        ensures
            final(self).wf(),
            final(self).total_dice() == old(self).total_dice(),
            r is Err ==> *final(self) == *old(self),
            r == action_verdict(*old(self), *action),
            r == Ok::<bool, GameError>(true) ==> (action.idx matches ActionType::DraftDie(i)
                && draft_effect_ok(*old(self), *final(self), i, action.coords)),
            r == Ok::<bool, GameError>(false) ==> (action.idx matches ActionType::UseTool(t)
                && action.tool matches Some(data) && tool_effect_ok(
                *old(self),
                *final(self),
                t as int,
                data,
            )),
    {
        match action.idx {
            ActionType::SelectTemplate(_) => Err(GameError::WrongPhaseAction),
            ActionType::DraftDie(idx) => self.handle_draft(idx, action.coords),
            ActionType::UseTool(idx) => match self.handle_tool(idx, &action.tool) {
                Ok(()) => Ok(false),
                Err(e) => Err(e),
            },
        }
    }

    /// The single mutating entry point of the match: validates the
    /// submitted action against the current phase, applies it, and moves
    /// the turn and phase pointers. On success the returned flag says
    /// whether the match has just ended. Any rejection leaves the state
    /// untouched; after the terminal state every submission is rejected.
    pub fn take_turn(&mut self, action: &TurnAction) -> (r: Result<bool, GameError>)
        requires
            old(self).wf(),
        ensures
            final(self).wf(),
            final(self).total_dice() == old(self).total_dice(),
            r == turn_verdict(*old(self), *action),
            r is Err ==> *final(self) == *old(self),
            phase_step_ok(old(self).phase, final(self).phase),
            r matches Ok(b) ==> b == (final(self).phase == TurnPhase::GameOver),
            final(self).tools@.len() == old(self).tools@.len(),
            forall|t: int|
                0 <= t < old(self).tools@.len() ==> (#[trigger] final(self).tools@[t]).tool_type
                    == old(self).tools@[t].tool_type,
            forall|t: int|
                0 <= t < old(self).tools@.len()
                    ==> old(self).tools@[t].cost <= (#[trigger] final(self).tools@[t]).cost,
            forall|t: int|
                0 <= t < old(self).tools@.len()
                    && (#[trigger] final(self).tools@[t]).cost != old(self).tools@[t].cost
                    ==> (old(self).tools@[t].cost == 1 && final(self).tools@[t].cost == 2
                    && r is Ok && action.idx == ActionType::UseTool(t as usize)),
            final(self).players@.len() == old(self).players@.len(),
            forall|q: int|
                0 <= q < old(self).players@.len() && q != old(self).curr_player_idx
                    ==> (#[trigger] final(self).players@[q]) == old(self).players@[q],
            forall|q: int|
                0 <= q < old(self).players@.len()
                    ==> (#[trigger] final(self).players@[q]).secret == old(self).players@[q].secret
                    && final(self).players@[q].templates == old(self).players@[q].templates,
            forall|q: int, i: int, j: int|
                #![trigger final(self).players@[q].board@[i]@[j]]
                0 <= q < old(self).players@.len() && 0 <= i < old(self).players@[q].board@.len()
                    && 0 <= j < old(self).players@[q].board@[i]@.len()
                    && old(self).players@[q].board@[i]@[j].die is Some
                    ==> final(self).players@[q].board@[i]@[j].die
                    == old(self).players@[q].board@[i]@[j].die,
            old(self).phase == TurnPhase::SelectTemplate && r is Ok ==> select_turn_ok(
                *old(self),
                *final(self),
                *action,
            ),
            old(self).in_draft() && r is Ok ==> match action.idx {
                ActionType::UseTool(t) => action.tool matches Some(data) && tool_effect_ok(
                    *old(self),
                    *final(self),
                    t as int,
                    data,
                ) && final(self).curr_player_idx == old(self).curr_player_idx && final(self).phase
                    == old(self).phase,
                ActionType::DraftDie(i) => draft_turn_ok(*old(self), *final(self), i, action.coords),
                _ => true,
            },
    {
        let ghost gs0 = *old(self);
        match self.phase {
            TurnPhase::GameOver => Err(GameError::GameAlreadyOver),
            TurnPhase::SelectTemplate => {
                let ti = match action.idx {
                    ActionType::SelectTemplate(ti) => ti,
                    _ => {
                        return Err(GameError::WrongPhaseAction);
                    },
                };
                let cur = self.curr_player_idx;
                if ti >= self.players[cur].templates.len() {
                    return Err(GameError::InvalidIndex);
                }
                let mut p = placeholder_player();
                self.players.set_and_swap(cur, &mut p);
                let res = p.select_template(ti);
                match res {
                    Err(e) => {
                        proof {
                            assert(false);
                        }
                        Err(e)
                    },
                    Ok(()) => {
                        self.players.set_and_swap(cur, &mut p);
                        proof {
                            let pf = self.players@[cur as int];
                            assert(self.players@ =~= gs0.players@.update(cur as int, pf));
                            lemma_players_placed_update(
                                gs0.players@,
                                cur as int,
                                pf,
                                gs0.players@.len() as int,
                            );
                        }
                        let nxt = self.next_idx(cur);
                        self.curr_player_idx = nxt;
                        if nxt == self.start_player_idx {
                            proof {
                                lemma_mul_step(gs0.pool_size_spec(), gs0.rounds_to_draw());
                            }
                            self.start_round();
                        }
                        Ok(false)
                    },
                }
            },
            TurnPhase::FirstDraft => {
                match self.handle_action(action) {
                    Err(e) => Err(e),
                    Ok(advance) => {
                        if advance {
                            let nxt = self.next_idx(self.curr_player_idx);
                            self.curr_player_idx = nxt;
                            if nxt == self.start_player_idx {
                                self.curr_player_idx = self.prev_idx(nxt);
                                self.phase = TurnPhase::SecondDraft;
                            }
                        }
                        Ok(false)
                    },
                }
            },
            TurnPhase::SecondDraft => {
                match self.handle_action(action) {
                    Err(e) => Err(e),
                    Ok(advance) => {
                        let ghost gs_mid = *self;
                        let mut over = false;
                        if advance {
                            if self.curr_player_idx == self.start_player_idx {
                                self.finish_round();
                                if self.is_finished() {
                                    self.phase = TurnPhase::GameOver;
                                    over = true;
                                } else {
                                    proof {
                                        lemma_mul_step(gs0.pool_size_spec(), NUM_ROUNDS
                                            - gs0.round_track@.len() - 1);
                                    }
                                    self.start_round();
                                }
                            } else {
                                self.curr_player_idx = self.prev_idx(self.curr_player_idx);
                            }
                        }
                        Ok(over)
                    },
                }
            },
        }
    }
}

/// A fresh, unconstrained, empty player board.
fn empty_board() -> (b: Vec<Vec<BoardCell>>)
    ensures
        board_wf(b@),
        board_dice_wf(b@),
        board_empty(b@),
        forall|i: int, j: int|
            #![trigger b@[i]@[j]]
            0 <= i < b@.len() && 0 <= j < b@[i]@.len() ==> b@[i]@[j].slot == Slot::Any,
        count_grid(b@, placed_pred()) == 0,
{
    let mut b: Vec<Vec<BoardCell>> = Vec::new();
    let mut i: usize = 0;
    while i < BOARD_ROWS
        invariant
            i <= BOARD_ROWS,
            b@.len() == i,
            forall|i2: int| 0 <= i2 < i ==> (#[trigger] b@[i2])@.len() == BOARD_COLS,
            forall|i2: int, j2: int|
                #![trigger b@[i2]@[j2]]
                0 <= i2 < i && 0 <= j2 < BOARD_COLS ==> b@[i2]@[j2].die is None
                    && b@[i2]@[j2].slot == Slot::Any,
        decreases BOARD_ROWS - i,
    {
        let mut row: Vec<BoardCell> = Vec::new();
        let mut j: usize = 0;
        while j < BOARD_COLS
            invariant
                j <= BOARD_COLS,
                row@.len() == j,
                forall|j2: int|
                    0 <= j2 < j ==> (#[trigger] row@[j2]).die is None && row@[j2].slot
                        == Slot::Any,
            decreases BOARD_COLS - j,
        {
            row.push(BoardCell { slot: Slot::Any, die: None });
            j = j + 1;
        }
        b.push(row);
        i = i + 1;
    }
    proof {
        crate::board::lemma_count_grid_zero(b@, placed_pred());
    }
    b
}

/// Draws `amount` elements from the working pool, uniformly and without
/// replacement. Every drawn element, and every element left behind, comes
/// from the pool as it was handed in.
fn draw_random<T>(pool: &mut Vec<T>, amount: usize) -> (v: Vec<T>)
    requires
        amount <= old(pool)@.len(),
    ensures
        v@.len() == amount,
        final(pool)@.len() == old(pool)@.len() - amount,
        forall|i: int| 0 <= i < v@.len() ==> old(pool)@.contains(#[trigger] v@[i]),
        forall|i: int|
            0 <= i < final(pool)@.len() ==> old(pool)@.contains(#[trigger] final(pool)@[i]),
{
    let ghost orig = pool@;
    let mut v: Vec<T> = Vec::new();
    let mut k: usize = 0;
    while k < amount
        invariant
            k <= amount,
            amount <= orig.len(),
            v@.len() == k,
            pool@.len() == orig.len() - k,
            forall|i: int| 0 <= i < v@.len() ==> orig.contains(#[trigger] v@[i]),
            forall|i: int| 0 <= i < pool@.len() ==> orig.contains(#[trigger] pool@[i]),
        decreases amount - k,
    {
        let j = crate::rng::random_below(pool.len());
        let ghost before = pool@;
        let picked = pool.swap_remove(j);
        proof {
            assert(orig.contains(before[j as int]));
            assert forall|i: int| 0 <= i < pool@.len() implies orig.contains(
                #[trigger] pool@[i],
            ) by {
                assert(pool@[i] == before.update(j as int, before.last()).drop_last()[i]);
                if i == j {
                    assert(pool@[i] == before[before.len() - 1]);
                } else {
                    assert(pool@[i] == before[i]);
                }
            }
        }
        v.push(picked);
        k = k + 1;
    }
    v
}

/// The full, unshuffled dice supply: the same number of dice of each
/// color.
fn build_bag() -> (bag: Vec<Color>)
    ensures
        bag@.len() == TOTAL_DICE,
        forall|c: Color| #[trigger] bag@.to_multiset().count(c) == DICE_PER_COLOR,
{
    broadcast use vstd::seq_lib::group_to_multiset_ensures;

    let mut bag: Vec<Color> = Vec::new();
    let mut k: usize = 0;
    while k < DICE_PER_COLOR
        invariant
            k <= DICE_PER_COLOR,
            bag@.len() == 5 * k,
            forall|c: Color| #[trigger] bag@.to_multiset().count(c) == k,
        decreases DICE_PER_COLOR - k,
    {
        broadcast use vstd::seq_lib::group_to_multiset_ensures;

        bag.push(Color::Red);
        bag.push(Color::Yellow);
        bag.push(Color::Green);
        bag.push(Color::Blue);
        bag.push(Color::Purple);
        proof {
            assert forall|c: Color| #[trigger] bag@.to_multiset().count(c) == k + 1 by {
                match c {
                    Color::Red => {},
                    Color::Yellow => {},
                    Color::Green => {},
                    Color::Blue => {},
                    Color::Purple => {},
                }
            }
        }
        k = k + 1;
    }
    bag
}

/// What initialization promises of a fresh match.
pub open spec fn init_ok(gs: GameState, n: usize) -> bool {
    &&& gs.wf()
    &&& gs.players@.len() == n
    &&& gs.phase == TurnPhase::SelectTemplate
    &&& gs.curr_player_idx == gs.start_player_idx
    &&& gs.draft_pool@.len() == 0
    &&& gs.round_track@.len() == 0
    &&& gs.dice_bag@.len() == TOTAL_DICE
    &&& forall|c: Color| #[trigger] gs.dice_bag@.to_multiset().count(c) == DICE_PER_COLOR
    &&& gs.total_dice() == TOTAL_DICE
    &&& gs.tools@.len() == NUM_TOOLS
    &&& forall|t: int|
        0 <= t < gs.tools@.len() ==> (#[trigger] gs.tools@[t]).cost == 1
            && all_tool_types_seq().contains(gs.tools@[t].tool_type)
    &&& gs.objectives@.len() == NUM_OBJECTIVES
    &&& forall|k: int|
        0 <= k < gs.objectives@.len() ==> all_objectives_seq().contains(#[trigger] gs.objectives@[k])
    &&& forall|q: int|
        0 <= q < gs.players@.len() ==> {
            let p = #[trigger] gs.players@[q];
            &&& p.tokens == 0
            &&& p.templates@.len() == 2
            &&& p.active_tool is None
            &&& board_empty(p.board@)
        }
}

impl GameState {
    /// Sets up a fresh match: a shuffled full bag, a random starting seat,
    /// two dealt templates and a secret color per player, and three tools
    /// and three objectives drawn from the catalogs. Fails only on a seat
    /// count outside two through four.
    pub fn init(num_players: usize) -> (r: Result<GameState, GameError>)
        ensures
            (2 <= num_players <= MAX_PLAYERS) <==> r is Ok,
            r is Err ==> r == Err::<GameState, GameError>(GameError::InvalidPlayerCount),
            r matches Ok(gs) ==> init_ok(gs, num_players),
    {
        if num_players < 2 || num_players > MAX_PLAYERS {
            return Err(GameError::InvalidPlayerCount);
        }
        let mut dice_bag = build_bag();
        crate::rng::shuffle_colors(&mut dice_bag);
        let start_player_idx = crate::rng::random_below(num_players);

        // Deal two templates to every player.
        let mut template_stock = all_board_templates();
        let ghost tcat = template_stock@;
        let mut dealt = draw_random(&mut template_stock, 2 * num_players);
        proof {
            assert forall|m: int| 0 <= m < dealt@.len() implies (#[trigger] dealt@[m]).wf() by {
                assert(tcat.contains(dealt@[m]));
                let j = choose|j: int| 0 <= j < tcat.len() && tcat[j] == dealt@[m];
                assert(tcat[j].wf());
            }
        }

        // One secret color per player.
        let mut color_stock = all_colors();
        let secrets = draw_random(&mut color_stock, num_players);

        // Three tools, at their starting cost.
        let mut tool_stock = all_tool_types();
        let drawn_tools = draw_random(&mut tool_stock, NUM_TOOLS);
        let mut tools: Vec<Tool> = Vec::new();
        let mut k: usize = 0;
        while k < drawn_tools.len()
            invariant
                k <= drawn_tools@.len(),
                tools@.len() == k,
                forall|m: int|
                    0 <= m < drawn_tools@.len() ==> all_tool_types_seq().contains(
                        #[trigger] drawn_tools@[m],
                    ),
                forall|m: int|
                    0 <= m < k ==> (#[trigger] tools@[m]).cost == 1 && tools@[m].tool_type
                        == drawn_tools@[m],
            decreases drawn_tools@.len() - k,
        {
            tools.push(Tool { tool_type: drawn_tools[k], cost: 1 });
            k = k + 1;
        }

        // Three objectives.
        let mut objective_stock = all_objectives();
        let objectives = draw_random(&mut objective_stock, NUM_OBJECTIVES);

        // The seats.
        let mut players: Vec<Player> = Vec::new();
        let mut q: usize = 0;
        while q < num_players
            invariant
                q <= num_players,
                num_players <= MAX_PLAYERS,
                players@.len() == q,
                secrets@.len() == num_players,
                dealt@.len() == 2 * num_players - 2 * q,
                forall|m: int| 0 <= m < dealt@.len() ==> (#[trigger] dealt@[m]).wf(),
                forall|m: int|
                    0 <= m < q ==> {
                        let p = #[trigger] players@[m];
                        &&& p.wf()
                        &&& p.tokens == 0
                        &&& p.templates@.len() == 2
                        &&& p.active_tool is None
                        &&& board_empty(p.board@)
                        &&& p.placed_count() == 0
                    },
                players_placed(players@, q as int) == 0,
            decreases num_players - q,
        {
            let t1 = dealt.remove(0);
            let t2 = dealt.remove(0);
            proof {
                assert forall|m: int| 0 <= m < dealt@.len() implies (#[trigger] dealt@[m]).wf()
                by {}
            }
            let mut tvec: Vec<BoardTemplate> = Vec::new();
            tvec.push(t1);
            tvec.push(t2);
            let board = empty_board();
            let p = Player {
                tokens: 0,
                board,
                secret: secrets[q],
                templates: tvec,
                active_tool: None,
            };
            proof {
                lemma_players_placed_prefix(players@.push(p), players@, q as int);
            }
            players.push(p);
            q = q + 1;
        }

        let gs = GameState {
            players,
            start_player_idx,
            curr_player_idx: start_player_idx,
            phase: TurnPhase::SelectTemplate,
            dice_bag,
            draft_pool: Vec::new(),
            round_track: Vec::new(),
            tools,
            objectives,
        };
        proof {
            assert forall|k2: int|
                0 <= k2 < gs.objectives@.len() implies (#[trigger] gs.objectives@[k2]).bounded()
            by {
                assert(all_objectives_seq().contains(gs.objectives@[k2]));
                let j = choose|j: int|
                    0 <= j < all_objectives_seq().len() && all_objectives_seq()[j]
                        == gs.objectives@[k2];
                assert(all_objectives_seq()[j].bounded());
            }
        }
        Ok(gs)
    }
}

/// A tool action the current rules accept from a player with the given
/// state: the tool exists, the payload belongs to it, the phase admits it,
/// the player can afford it, and every index the payload names is in
/// range.
pub open spec fn usable_tool_action(gs: GameState, p: Player, a: TurnAction) -> bool {
    &&& a.coords is None
    &&& a.idx matches ActionType::UseTool(t) && t < gs.tools@.len() && (a.tool matches Some(data)
        && data_matches_type(data, gs.tools@[t as int].tool_type) && !tool_wrong_phase(
        gs.tools@[t as int].tool_type,
        gs.phase,
    ) && gs.tools@[t as int].cost <= p.tokens && tool_indices_verdict(gs, data) is Ok)
}

/// A usable tool action proposed for the current player is exactly one the
/// engine accepts.
pub proof fn lemma_usable_tool_accepted(gs: GameState, a: TurnAction, t: usize)
    requires
        gs.curr_player_idx < gs.players@.len(),
        usable_tool_action(gs, gs.players@[gs.curr_player_idx as int], a),
        a.idx == ActionType::UseTool(t),
    ensures
        use_tool_verdict(gs, t, a.tool) is Ok,
{
}

/// Appends one usable tool action.
fn push_tool_action(
    v: &mut Vec<TurnAction>,
    game: &GameState,
    player: &Player,
    tool_idx: usize,
    data: ToolData,
)
    requires
        forall|m: int|
            0 <= m < old(v)@.len() ==> usable_tool_action(*game, *player, #[trigger] old(v)@[m]),
        tool_idx < game.tools@.len(),
        data_matches_type(data, game.tools@[tool_idx as int].tool_type),
        !tool_wrong_phase(game.tools@[tool_idx as int].tool_type, game.phase),
        game.tools@[tool_idx as int].cost <= player.tokens,
        tool_indices_verdict(*game, data) is Ok,
    ensures
        final(v)@.len() == old(v)@.len() + 1,
        forall|m: int|
            0 <= m < final(v)@.len() ==> usable_tool_action(*game, *player, #[trigger] final(v)@[m]),
{
    v.push(TurnAction { idx: ActionType::UseTool(tool_idx), coords: None, tool: Some(data) });
}

/// Tool actions the player could submit right now, enumerated the way an
/// action-chooser wants them: every entry is one the engine accepts from
/// this player.
pub fn all_valid_tools(game: &GameState, player: &Player) -> (v: Vec<TurnAction>)
    ensures
        forall|m: int| 0 <= m < v@.len() ==> usable_tool_action(*game, *player, #[trigger] v@[m]),
{
    let mut v: Vec<TurnAction> = Vec::new();
    let mut idx: usize = 0;
    while idx < game.tools.len()
        invariant
            idx <= game.tools@.len(),
            forall|m: int|
                0 <= m < v@.len() ==> usable_tool_action(*game, *player, #[trigger] v@[m]),
        decreases game.tools@.len() - idx,
    {
        let tool = game.tools[idx];
        let affordable = tool.cost <= player.tokens;
        let phase_ok = !tool.in_wrong_phase(game.phase);
        if affordable && phase_ok {
            match tool.tool_type {
                ToolType::FlipDraftedDie => {
                    let mut draft_idx: usize = 0;
                    while draft_idx < game.draft_pool.len()
                        invariant
                            idx < game.tools@.len(),
                            tool == game.tools@[idx as int],
                            tool.cost <= player.tokens,
                            !tool_wrong_phase(tool.tool_type, game.phase),
                            tool.tool_type == ToolType::FlipDraftedDie,
                            draft_idx <= game.draft_pool@.len(),
                            forall|m: int|
                                0 <= m < v@.len() ==> usable_tool_action(
                                    *game,
                                    *player,
                                    #[trigger] v@[m],
                                ),
                        decreases game.draft_pool@.len() - draft_idx,
                    {
                        push_tool_action(&mut v, game, player, idx, ToolData::FlipDraftedDie {
                            draft_idx,
                        });
                        draft_idx = draft_idx + 1;
                    }
                },
                ToolType::RerollDraftedDie => {
                    let mut draft_idx: usize = 0;
                    while draft_idx < game.draft_pool.len()
                        invariant
                            idx < game.tools@.len(),
                            tool == game.tools@[idx as int],
                            tool.cost <= player.tokens,
                            !tool_wrong_phase(tool.tool_type, game.phase),
                            tool.tool_type == ToolType::RerollDraftedDie,
                            draft_idx <= game.draft_pool@.len(),
                            forall|m: int|
                                0 <= m < v@.len() ==> usable_tool_action(
                                    *game,
                                    *player,
                                    #[trigger] v@[m],
                                ),
                        decreases game.draft_pool@.len() - draft_idx,
                    {
                        push_tool_action(&mut v, game, player, idx, ToolData::RerollDraftedDie {
                            draft_idx,
                        });
                        draft_idx = draft_idx + 1;
                    }
                },
                ToolType::BumpDraftedDie => {
                    let mut draft_idx: usize = 0;
                    while draft_idx < game.draft_pool.len()
                        invariant
                            idx < game.tools@.len(),
                            tool == game.tools@[idx as int],
                            tool.cost <= player.tokens,
                            !tool_wrong_phase(tool.tool_type, game.phase),
                            tool.tool_type == ToolType::BumpDraftedDie,
                            draft_idx <= game.draft_pool@.len(),
                            forall|m: int|
                                0 <= m < v@.len() ==> usable_tool_action(
                                    *game,
                                    *player,
                                    #[trigger] v@[m],
                                ),
                        decreases game.draft_pool@.len() - draft_idx,
                    {
                        let face = game.draft_pool[draft_idx].face;
                        if face < 6 {
                            push_tool_action(&mut v, game, player, idx, ToolData::BumpDraftedDie {
                                draft_idx,
                                is_increment: true,
                            });
                        }
                        if face > 1 {
                            push_tool_action(&mut v, game, player, idx, ToolData::BumpDraftedDie {
                                draft_idx,
                                is_increment: false,
                            });
                        }
                        draft_idx = draft_idx + 1;
                    }
                },
                ToolType::RerollAllDiceInPool => {
                    push_tool_action(&mut v, game, player, idx, ToolData::RerollAllDiceInPool);
                },
                ToolType::PlaceIgnoringAdjacency => {
                    push_tool_action(&mut v, game, player, idx, ToolData::PlaceIgnoringAdjacency);
                },
                ToolType::SwapDraftedDieWithRoundTrack => {
                    let mut draft_idx: usize = 0;
                    while draft_idx < game.draft_pool.len()
                        invariant
                            idx < game.tools@.len(),
                            tool == game.tools@[idx as int],
                            tool.cost <= player.tokens,
                            !tool_wrong_phase(tool.tool_type, game.phase),
                            tool.tool_type == ToolType::SwapDraftedDieWithRoundTrack,
                            draft_idx <= game.draft_pool@.len(),
                            forall|m: int|
                                0 <= m < v@.len() ==> usable_tool_action(
                                    *game,
                                    *player,
                                    #[trigger] v@[m],
                                ),
                        decreases game.draft_pool@.len() - draft_idx,
                    {
                        let mut ri: usize = 0;
                        while ri < game.round_track.len()
                            invariant
                                idx < game.tools@.len(),
                                tool == game.tools@[idx as int],
                                tool.cost <= player.tokens,
                                !tool_wrong_phase(tool.tool_type, game.phase),
                                tool.tool_type == ToolType::SwapDraftedDieWithRoundTrack,
                                draft_idx < game.draft_pool@.len(),
                                ri <= game.round_track@.len(),
                                forall|m: int|
                                    0 <= m < v@.len() ==> usable_tool_action(
                                        *game,
                                        *player,
                                        #[trigger] v@[m],
                                    ),
                            decreases game.round_track@.len() - ri,
                        {
                            let mut pi: usize = 0;
                            while pi < game.round_track[ri].len()
                                invariant
                                    idx < game.tools@.len(),
                                    tool == game.tools@[idx as int],
                                    tool.cost <= player.tokens,
                                    !tool_wrong_phase(tool.tool_type, game.phase),
                                    tool.tool_type == ToolType::SwapDraftedDieWithRoundTrack,
                                    draft_idx < game.draft_pool@.len(),
                                    ri < game.round_track@.len(),
                                    pi <= game.round_track@[ri as int]@.len(),
                                    forall|m: int|
                                        0 <= m < v@.len() ==> usable_tool_action(
                                            *game,
                                            *player,
                                            #[trigger] v@[m],
                                        ),
                                decreases game.round_track@[ri as int]@.len() - pi,
                            {
                                push_tool_action(
                                    &mut v,
                                    game,
                                    player,
                                    idx,
                                    ToolData::SwapDraftedDieWithRoundTrack {
                                        draft_idx,
                                        round_idx: (ri, pi),
                                    },
                                );
                                pi = pi + 1;
                            }
                            ri = ri + 1;
                        }
                        draft_idx = draft_idx + 1;
                    }
                },
                _ => {},
            }
        }
        idx = idx + 1;
    }
    v
}

/// The placement-legality check is a pure function of the board, the armed
/// modifier, the submitted position and the submitted die: two players
/// that agree on board and modifier get the same verdict, so checking the
/// same submission twice gives the same verdict — there are no hidden
/// counters.
pub proof fn lemma_place_verdict_pure(p1: Player, p2: Player, coords: (usize, usize), die: Dice)
    requires
        p1.board == p2.board,
        p1.active_tool == p2.active_tool,
    ensures
        place_verdict(p1, coords, die) == place_verdict(p2, coords, die),
{
}

/// Zero-tolerance adjacency: a die orthogonally beside a die of its color,
/// or beside a die showing its face, is always refused.
pub proof fn lemma_zero_tolerance(p: Player, coords: (usize, usize), die: Dice, i: int, j: int)
    requires
        in_range(i, j),
        orth_adjacent(i, j, coords.0 as int, coords.1 as int),
        cell(p.board@, i, j).die matches Some(d) && (d.color == die.color || d.face == die.face),
    ensures
        place_verdict(p, coords, die) is Err,
{
    let d = cell(p.board@, i, j).die->0;
    if d.color == die.color {
        assert(orth_color_conflict(p.board@, coords.0 as int, coords.1 as int, die.color));
    } else {
        assert(orth_face_conflict(p.board@, coords.0 as int, coords.1 as int, die.face));
    }
}

/// No conflict of any kind can be found on an empty board.
proof fn lemma_empty_board_quiet(b: Seq<Vec<BoardCell>>, r: int, c: int, die: Dice)
    requires
        board_wf(b),
        board_empty(b),
    ensures
        !has_orth_neighbor(b, r, c),
        !has_diag_neighbor(b, r, c),
        !orth_color_conflict(b, r, c, die.color),
        !orth_face_conflict(b, r, c, die.face),
{
    assert forall|i: int, j: int| in_range(i, j) implies !is_placed(#[trigger] cell(b, i, j)) by {
        assert(!is_placed(b[i]@[j]));
    }
}

/// Edge-first rule, rejection half: on an empty board, with no
/// ignore-adjacency modifier armed, placing in an interior cell is always
/// refused.
pub proof fn lemma_edge_first_interior(p: Player, coords: (usize, usize), die: Dice)
    requires
        board_wf(p.board@),
        board_empty(p.board@),
        p.active_tool != Some(ToolType::PlaceIgnoringAdjacency),
        interior(coords.0 as int, coords.1 as int),
    ensures
        place_verdict(p, coords, die) is Err,
{
    lemma_empty_board_quiet(p.board@, coords.0 as int, coords.1 as int, die);
    assert(!is_placed(p.board@[coords.0 as int]@[coords.1 as int]));
}

/// Edge-first rule, acceptance half: on an empty board, any border cell
/// whose slot admits the die accepts it.
pub proof fn lemma_edge_first_border(p: Player, coords: (usize, usize), die: Dice)
    requires
        board_wf(p.board@),
        board_empty(p.board@),
        in_range(coords.0 as int, coords.1 as int),
        !interior(coords.0 as int, coords.1 as int),
        match cell(p.board@, coords.0 as int, coords.1 as int).slot {
            Slot::Any => true,
            Slot::Color(c) => c == die.color,
            Slot::Face(f) => f == die.face,
        },
    ensures
        place_verdict(p, coords, die) is Ok,
{
    lemma_empty_board_quiet(p.board@, coords.0 as int, coords.1 as int, die);
    assert(!is_placed(p.board@[coords.0 as int]@[coords.1 as int]));
}

/// What one player of the redacted, player-facing view shows: everything
/// but the secret color, which only the viewer's own entry carries.
#[derive(Clone, Debug)]
pub struct PlayerView {
    pub tokens: u8,
    pub board: Vec<Vec<BoardCell>>,
    pub secret: Option<Color>,
    pub templates: Vec<BoardTemplate>,
    pub active_tool: Option<ToolType>,
}

/// The redacted, player-facing projection of the match state.
#[derive(Clone, Debug)]
pub struct GameView {
    pub players: Vec<PlayerView>,
    pub start_player_idx: usize,
    pub curr_player_idx: usize,
    pub phase: TurnPhase,
    pub draft_pool: Vec<Dice>,
    pub round_track: Vec<Vec<Dice>>,
    pub tools: Vec<Tool>,
    pub objectives: Vec<Objective>,
}

/// Copies a board cell for cell.
fn clone_board(b: &Vec<Vec<BoardCell>>) -> (b2: Vec<Vec<BoardCell>>)
    ensures
        b2@.len() == b@.len(),
        forall|i: int| 0 <= i < b@.len() ==> (#[trigger] b2@[i])@ == b@[i]@,
{
    let mut b2: Vec<Vec<BoardCell>> = Vec::new();
    let mut i: usize = 0;
    while i < b.len()
        invariant
            i <= b@.len(),
            b2@.len() == i,
            forall|k: int| 0 <= k < i ==> (#[trigger] b2@[k])@ == b@[k]@,
        decreases b@.len() - i,
    {
        let row = &b[i];
        let mut row2: Vec<BoardCell> = Vec::new();
        let mut j: usize = 0;
        while j < row.len()
            invariant
                row@ == b@[i as int]@,
                i < b@.len(),
                j <= row@.len(),
                row2@.len() == j,
                forall|k: int| 0 <= k < j ==> row2@[k] == row@[k],
            decreases row@.len() - j,
        {
            row2.push(row[j]);
            j = j + 1;
        }
        proof {
            assert(row2@ =~= b@[i as int]@);
        }
        b2.push(row2);
        i = i + 1;
    }
    b2
}

/// Whether a template copy matches the original, grid value for grid
/// value.
pub open spec fn template_eq(t1: BoardTemplate, t2: BoardTemplate) -> bool {
    &&& t1.value == t2.value
    &&& t1.slots@.len() == t2.slots@.len()
    &&& forall|i: int| 0 <= i < t2.slots@.len() ==> (#[trigger] t1.slots@[i])@ == t2.slots@[i]@
}

/// Copies a template slot for slot.
fn clone_template(t: &BoardTemplate) -> (t2: BoardTemplate)
    ensures
        template_eq(*t, t2),
{
    let mut slots: Vec<Vec<Slot>> = Vec::new();
    let mut i: usize = 0;
    while i < t.slots.len()
        invariant
            i <= t.slots@.len(),
            slots@.len() == i,
            forall|k: int| 0 <= k < i ==> (#[trigger] slots@[k])@ == t.slots@[k]@,
        decreases t.slots@.len() - i,
    {
        let row = &t.slots[i];
        let mut row2: Vec<Slot> = Vec::new();
        let mut j: usize = 0;
        while j < row.len()
            invariant
                row@ == t.slots@[i as int]@,
                i < t.slots@.len(),
                j <= row@.len(),
                row2@.len() == j,
                forall|k: int| 0 <= k < j ==> row2@[k] == row@[k],
            decreases row@.len() - j,
        {
            row2.push(row[j]);
            j = j + 1;
        }
        proof {
            assert(row2@ =~= t.slots@[i as int]@);
        }
        slots.push(row2);
        i = i + 1;
    }
    BoardTemplate { slots, value: t.value }
}

/// Copies a dice list die for die.
fn clone_dice(v: &Vec<Dice>) -> (v2: Vec<Dice>)
    ensures
        v2@ == v@,
{
    let mut v2: Vec<Dice> = Vec::new();
    let mut i: usize = 0;
    while i < v.len()
        invariant
            i <= v@.len(),
            v2@.len() == i,
            forall|k: int| 0 <= k < i ==> v2@[k] == v@[k],
        decreases v@.len() - i,
    {
        v2.push(v[i]);
        i = i + 1;
    }
    proof {
        assert(v2@ =~= v@);
    }
    v2
}

/// Whether one redacted seat matches the player it projects, showing the
/// secret color only to its owner.
pub open spec fn player_view_ok(p: Player, pv: PlayerView, own_seat: bool) -> bool {
    &&& pv.tokens == p.tokens
    &&& pv.board@.len() == p.board@.len()
    &&& forall|i: int| 0 <= i < p.board@.len() ==> (#[trigger] pv.board@[i])@ == p.board@[i]@
    &&& pv.secret == (if own_seat {
        Some(p.secret)
    } else {
        None::<Color>
    })
    &&& pv.templates@.len() == p.templates@.len()
    &&& forall|i: int|
        0 <= i < p.templates@.len() ==> template_eq(#[trigger] pv.templates@[i], p.templates@[i])
    &&& pv.active_tool == p.active_tool
}

impl GameState {
    /// The player-facing view for one seat: a pure projection of the match
    /// state that omits every other player's secret color — the only
    /// hidden information. The bag is not part of any player's view.
    pub fn player_view(&self, viewer_idx: usize) -> (v: GameView)
        ensures
            v.players@.len() == self.players@.len(),
            forall|q: int|
                0 <= q < self.players@.len() ==> player_view_ok(
                    #[trigger] self.players@[q],
                    v.players@[q],
                    q == viewer_idx,
                ),
            v.start_player_idx == self.start_player_idx,
            v.curr_player_idx == self.curr_player_idx,
            v.phase == self.phase,
            v.draft_pool@ == self.draft_pool@,
            v.round_track@.len() == self.round_track@.len(),
            forall|i: int|
                0 <= i < self.round_track@.len() ==> (#[trigger] v.round_track@[i])@
                    == self.round_track@[i]@,
            v.tools@ == self.tools@,
            v.objectives@ == self.objectives@,
    {
        let mut players: Vec<PlayerView> = Vec::new();
        let mut q: usize = 0;
        while q < self.players.len()
            invariant
                q <= self.players@.len(),
                players@.len() == q,
                forall|k: int|
                    0 <= k < q ==> player_view_ok(
                        #[trigger] self.players@[k],
                        players@[k],
                        k == viewer_idx,
                    ),
            decreases self.players@.len() - q,
        {
            let p = &self.players[q];
            let mut templates: Vec<BoardTemplate> = Vec::new();
            let mut k: usize = 0;
            while k < p.templates.len()
                invariant
                    p == &self.players@[q as int],
                    q < self.players@.len(),
                    k <= p.templates@.len(),
                    templates@.len() == k,
                    forall|m: int|
                        0 <= m < k ==> template_eq(
                            #[trigger] templates@[m],
                            p.templates@[m],
                        ),
                decreases p.templates@.len() - k,
            {
                templates.push(clone_template(&p.templates[k]));
                k = k + 1;
            }
            let secret = if q == viewer_idx {
                Some(p.secret)
            } else {
                None
            };
            players.push(
                PlayerView {
                    tokens: p.tokens,
                    board: clone_board(&p.board),
                    secret,
                    templates,
                    active_tool: p.active_tool,
                },
            );
            q = q + 1;
        }
        let mut round_track: Vec<Vec<Dice>> = Vec::new();
        let mut i: usize = 0;
        while i < self.round_track.len()
            invariant
                i <= self.round_track@.len(),
                round_track@.len() == i,
                forall|k: int|
                    0 <= k < i ==> (#[trigger] round_track@[k])@ == self.round_track@[k]@,
            decreases self.round_track@.len() - i,
        {
            round_track.push(clone_dice(&self.round_track[i]));
            i = i + 1;
        }
        let mut tools: Vec<Tool> = Vec::new();
        let mut t: usize = 0;
        while t < self.tools.len()
            invariant
                t <= self.tools@.len(),
                tools@.len() == t,
                forall|k: int| 0 <= k < t ==> tools@[k] == self.tools@[k],
            decreases self.tools@.len() - t,
        {
            tools.push(self.tools[t]);
            t = t + 1;
        }
        let mut objectives: Vec<Objective> = Vec::new();
        let mut o: usize = 0;
        while o < self.objectives.len()
            invariant
                o <= self.objectives@.len(),
                objectives@.len() == o,
                forall|k: int| 0 <= k < o ==> objectives@[k] == self.objectives@[k],
            decreases self.objectives@.len() - o,
        {
            objectives.push(self.objectives[o]);
            o = o + 1;
        }
        proof {
            assert(tools@ =~= self.tools@);
            assert(objectives@ =~= self.objectives@);
        }
        GameView {
            players,
            start_player_idx: self.start_player_idx,
            curr_player_idx: self.curr_player_idx,
            phase: self.phase,
            draft_pool: clone_dice(&self.draft_pool),
            round_track,
            tools,
            objectives,
        }
    }
}

} // verus!
