//! Turn phases and the actions a player can submit.

use vstd::prelude::*;
use crate::tool::{Tool, ToolData, ToolType};

verus! {

/// The phase of the match. Rounds loop through the two draft phases until
/// the last round closes and the match reaches its terminal state.
#[derive(Clone, Copy, Debug, PartialEq, Eq, Structural)]
pub enum TurnPhase {
    SelectTemplate,
    FirstDraft,
    SecondDraft,
    GameOver,
}

/// One submitted action: the action kind with its index, an optional
/// destination cell for a drafted die, and an optional tool payload.
#[derive(Clone, Debug)]
pub struct TurnAction {
    pub idx: ActionType,
    pub coords: Option<(usize, usize)>,
    pub tool: Option<ToolData>,
}

impl TurnAction {
    /// The "pass" convention: a draft with no destination, legal only when
    /// no die in the pool has a legal placement.
    pub fn pass() -> (a: Self)
        ensures
            a.idx == ActionType::DraftDie(0),
            a.coords is None,
            a.tool is None,
    {
        Self { idx: ActionType::DraftDie(0), coords: None, tool: None }
    }
}

/// The kind of a submitted action, with its template, pool or tool index.
#[derive(Clone, Copy, Debug, PartialEq, Eq, Structural)]
pub enum ActionType {
    SelectTemplate(usize),
    DraftDie(usize),
    UseTool(usize),
}

/// The tool-kind-by-phase exclusion table: tools are legal only during the
/// draft phases, rerolling the whole pool only during the second draft, and
/// drafting two dice only during the first.
pub open spec fn tool_wrong_phase(tool_type: ToolType, phase: TurnPhase) -> bool {
    ||| phase == TurnPhase::SelectTemplate
    ||| phase == TurnPhase::GameOver
    ||| (phase == TurnPhase::FirstDraft && tool_type == ToolType::RerollAllDiceInPool)
    ||| (phase == TurnPhase::SecondDraft && tool_type == ToolType::DraftTwoDice)
}

impl Tool {
    /// Whether this tool is illegal in the given phase.
    pub fn in_wrong_phase(&self, phase: TurnPhase) -> (r: bool)
        ensures
            r == tool_wrong_phase(self.tool_type, phase),
    {
        match (phase, self.tool_type) {
            (TurnPhase::SelectTemplate, _) => true,
            (TurnPhase::GameOver, _) => true,
            (TurnPhase::FirstDraft, ToolType::RerollAllDiceInPool) => true,
            (TurnPhase::SecondDraft, ToolType::DraftTwoDice) => true,
            _ => false,
        }
    }
}

} // verus!
