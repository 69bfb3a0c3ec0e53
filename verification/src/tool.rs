//! Tools: shared, token-costed one-shot abilities that bend a drafting or
//! placement rule.

use vstd::prelude::*;

verus! {

/// One shared catalog instance: its kind and its current cost. The cost
/// escalates from 1 to 2 the first time the tool is used by anyone.
#[derive(Clone, Copy, Debug, PartialEq, Eq, Structural)]
pub struct Tool {
    pub tool_type: ToolType,
    pub cost: u8,
}

/// Every tool kind of the game, including the ones whose behavior is not
/// yet resolved. Unresolved kinds stay representable so that callers get a
/// typed error instead of a silent no-op.
#[derive(Clone, Copy, Debug, PartialEq, Eq, Structural)]
pub enum ToolType {
    // Tools that modify the draft pool.
    BumpDraftedDie,
    FlipDraftedDie,
    RerollDraftedDie,
    SwapDraftedDieWithRoundTrack,
    SwapDraftedDieWithBag,
    RerollAllDiceInPool,
    // Tools that move dice already on the board.
    MoveDieIgnoringColor,
    MoveDieIgnoringValue,
    MoveExactlyTwoDice,
    MoveUpToTwoDiceMatchingColor,
    // Tools that break a rule.
    DraftTwoDice,
    PlaceIgnoringAdjacency,
}

/// Whether a tool kind has resolved behavior in this engine.
pub open spec fn tool_implemented(t: ToolType) -> bool {
    match t {
        ToolType::BumpDraftedDie => true,
        ToolType::FlipDraftedDie => true,
        ToolType::RerollDraftedDie => true,
        ToolType::SwapDraftedDieWithRoundTrack => true,
        ToolType::RerollAllDiceInPool => true,
        ToolType::PlaceIgnoringAdjacency => true,
        _ => false,
    }
}

/// The tool kinds dealt from at game start: exactly the resolved ones.
pub fn all_tool_types() -> (v: Vec<ToolType>)
    ensures
        v@ == all_tool_types_seq(),
        forall|i: int| 0 <= i < v@.len() ==> tool_implemented(#[trigger] v@[i]),
{
    let mut v: Vec<ToolType> = Vec::new();
    v.push(ToolType::BumpDraftedDie);
    v.push(ToolType::FlipDraftedDie);
    v.push(ToolType::RerollDraftedDie);
    v.push(ToolType::SwapDraftedDieWithRoundTrack);
    v.push(ToolType::RerollAllDiceInPool);
    v.push(ToolType::PlaceIgnoringAdjacency);
    proof {
        assert(v@ =~= all_tool_types_seq());
    }
    v
}

/// The dealt tool kinds, in catalog order.
pub open spec fn all_tool_types_seq() -> Seq<ToolType> {
    seq![
        ToolType::BumpDraftedDie,
        ToolType::FlipDraftedDie,
        ToolType::RerollDraftedDie,
        ToolType::SwapDraftedDieWithRoundTrack,
        ToolType::RerollAllDiceInPool,
        ToolType::PlaceIgnoringAdjacency,
    ]
}

/// The payload of a tool-usage action, supplying any required indices.
#[allow(inconsistent_fields)]
#[derive(Clone, Copy, Debug)]
pub enum ToolData {
    BumpDraftedDie { draft_idx: usize, is_increment: bool },
    FlipDraftedDie { draft_idx: usize },
    RerollDraftedDie { draft_idx: usize },
    SwapDraftedDieWithRoundTrack { draft_idx: usize, round_idx: (usize, usize) },
    SwapDraftedDieWithBag { draft_idx: usize, face: u8 },
    RerollAllDiceInPool,
    MoveDieIgnoringColor { from: (usize, usize) },
    MoveDieIgnoringValue { from: (usize, usize) },
    MoveExactlyTwoDice { from: [(usize, usize); 2], to: [(usize, usize); 2] },
    MoveUpToTwoDiceMatchingColor {
        from: [(usize, usize); 2],
        to: [(usize, usize); 2],
        round_idx: (usize, usize),
    },
    DraftTwoDice,
    PlaceIgnoringAdjacency,
}

/// Whether a payload belongs to the given tool kind.
pub open spec fn data_matches_type(data: ToolData, tool_type: ToolType) -> bool {
    match (data, tool_type) {
        (ToolData::BumpDraftedDie { .. }, ToolType::BumpDraftedDie) => true,
        (ToolData::FlipDraftedDie { .. }, ToolType::FlipDraftedDie) => true,
        (ToolData::RerollDraftedDie { .. }, ToolType::RerollDraftedDie) => true,
        (
            ToolData::SwapDraftedDieWithRoundTrack { .. },
            ToolType::SwapDraftedDieWithRoundTrack,
        ) => true,
        (ToolData::SwapDraftedDieWithBag { .. }, ToolType::SwapDraftedDieWithBag) => true,
        (ToolData::RerollAllDiceInPool, ToolType::RerollAllDiceInPool) => true,
        (ToolData::MoveDieIgnoringColor { .. }, ToolType::MoveDieIgnoringColor) => true,
        (ToolData::MoveDieIgnoringValue { .. }, ToolType::MoveDieIgnoringValue) => true,
        (ToolData::MoveExactlyTwoDice { .. }, ToolType::MoveExactlyTwoDice) => true,
        (
            ToolData::MoveUpToTwoDiceMatchingColor { .. },
            ToolType::MoveUpToTwoDiceMatchingColor,
        ) => true,
        (ToolData::DraftTwoDice, ToolType::DraftTwoDice) => true,
        (ToolData::PlaceIgnoringAdjacency, ToolType::PlaceIgnoringAdjacency) => true,
        _ => false,
    }
}

impl ToolData {
    /// Whether this payload belongs to the given tool kind.
    pub fn matches_type(&self, tool_type: ToolType) -> (r: bool)
        ensures
            r == data_matches_type(*self, tool_type),
    {
        match (self, tool_type) {
            (ToolData::BumpDraftedDie { .. }, ToolType::BumpDraftedDie) => true,
            (ToolData::FlipDraftedDie { .. }, ToolType::FlipDraftedDie) => true,
            (ToolData::RerollDraftedDie { .. }, ToolType::RerollDraftedDie) => true,
            (
                ToolData::SwapDraftedDieWithRoundTrack { .. },
                ToolType::SwapDraftedDieWithRoundTrack,
            ) => true,
            (ToolData::SwapDraftedDieWithBag { .. }, ToolType::SwapDraftedDieWithBag) => true,
            (ToolData::RerollAllDiceInPool, ToolType::RerollAllDiceInPool) => true,
            (ToolData::MoveDieIgnoringColor { .. }, ToolType::MoveDieIgnoringColor) => true,
            (ToolData::MoveDieIgnoringValue { .. }, ToolType::MoveDieIgnoringValue) => true,
            (ToolData::MoveExactlyTwoDice { .. }, ToolType::MoveExactlyTwoDice) => true,
            (
                ToolData::MoveUpToTwoDiceMatchingColor { .. },
                ToolType::MoveUpToTwoDiceMatchingColor,
            ) => true,
            (ToolData::DraftTwoDice, ToolType::DraftTwoDice) => true,
            (ToolData::PlaceIgnoringAdjacency, ToolType::PlaceIgnoringAdjacency) => true,
            _ => false,
        }
    }
}

} // verus!
