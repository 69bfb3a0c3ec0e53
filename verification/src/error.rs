//! The error taxonomy of the rules engine.
//!
//! Every error is non-fatal to the engine: the state is left unchanged and
//! the error is returned to the caller. Only `GameAlreadyOver` on a turn
//! submission after the terminal state and `InvalidPlayerCount` at
//! construction have no retry path.

use vstd::prelude::*;

verus! {

/// The specific reason a die placement was refused.
#[derive(Clone, Copy, Debug, PartialEq, Eq, Structural)]
pub enum PlacementError {
    /// The target cell already holds a die.
    Occupied,
    /// The target slot requires a different color.
    SlotColorMismatch,
    /// The target slot requires a different face value.
    SlotFaceMismatch,
    /// An orthogonally adjacent die shows the same color.
    NeighborColorMatch,
    /// An orthogonally adjacent die shows the same face value.
    NeighborFaceMatch,
    /// The die touches no other die, orthogonally or diagonally.
    NotAdjacent,
    /// The board is empty and the target cell is not on the border.
    FirstDieNotOnEdge,
    /// A draft without a destination was submitted although some die in the
    /// pool still has a legal placement.
    LegalPlacementExists,
}

/// Everything a turn submission or the constructor can fail with.
#[derive(Clone, Copy, Debug, PartialEq, Eq, Structural)]
pub enum GameError {
    /// The requested seat count is outside the supported range.
    InvalidPlayerCount,
    /// The action kind does not match the current phase.
    WrongPhaseAction,
    /// A template, draft-pool, tool or round-track index is out of range.
    InvalidIndex,
    /// The requested die placement is illegal, with the specific reason.
    IllegalPlacement(PlacementError),
    /// The acting player cannot afford the tool's current cost.
    InsufficientTokens,
    /// The tool cannot be used in the current phase.
    ToolPhaseIllegal,
    /// The tool is a catalog member whose behavior is not yet resolved.
    ToolUnimplemented,
    /// The tool payload is missing or belongs to a different tool.
    ToolDataMismatch,
    /// The match has reached its terminal state; no action is accepted.
    GameAlreadyOver,
}

} // verus!
