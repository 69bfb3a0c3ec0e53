//! Fixed parameters of the game.

use vstd::prelude::*;

verus! {

/// Number of rounds in a match.
pub const NUM_ROUNDS: usize = 10;

/// Number of public objectives drawn at game start.
pub const NUM_OBJECTIVES: usize = 3;

/// Number of tools drawn at game start.
pub const NUM_TOOLS: usize = 3;

/// Largest supported seat count.
pub const MAX_PLAYERS: usize = 4;

/// Size of the color palette.
pub const NUM_COLORS: usize = 5;

/// Dice manufactured per color: enough to draw a full pool every round at
/// the largest seat count.
pub const DICE_PER_COLOR: usize = (2 * MAX_PLAYERS + 1) * NUM_ROUNDS / NUM_COLORS;

/// Total number of manufactured dice.
pub const TOTAL_DICE: usize = DICE_PER_COLOR * NUM_COLORS;

/// Rows of every player board.
pub const BOARD_ROWS: usize = 4;

/// Columns of every player board.
pub const BOARD_COLS: usize = 5;

} // verus!
