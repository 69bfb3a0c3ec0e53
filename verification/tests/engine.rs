use stained::board::BoardCell;
use stained::color::{Color, Dice};
use stained::error::{GameError, PlacementError};
use stained::game::{all_valid_drafts, all_valid_tools, GameState, Player};
use stained::template::{BoardTemplate, Slot};
use stained::tool::{Tool, ToolData, ToolType};
use stained::turn::{ActionType, TurnAction, TurnPhase};

fn empty_board() -> Vec<Vec<BoardCell>> {
    vec![vec![BoardCell::default(); 5]; 4]
}

fn bag_of(n: usize) -> Vec<Color> {
    vec![Color::Red; n]
}

fn plain_template(value: u8) -> BoardTemplate {
    let mut slots = vec![vec![Slot::Any; 5]; 4];
    slots[0][0] = Slot::Face(5);
    BoardTemplate { slots, value }
}

fn mk_player(tokens: u8, secret: Color) -> Player {
    Player {
        tokens,
        board: empty_board(),
        secret,
        templates: vec![plain_template(4), plain_template(6)],
        active_tool: None,
    }
}

/// A two-player state in the first draft pass of the first round.
fn draft_state(pool: Vec<Dice>, tools: Vec<Tool>) -> GameState {
    GameState {
        players: vec![mk_player(5, Color::Red), mk_player(5, Color::Blue)],
        start_player_idx: 0,
        curr_player_idx: 0,
        phase: TurnPhase::FirstDraft,
        dice_bag: bag_of(50),
        draft_pool: pool,
        round_track: Vec::new(),
        tools,
        objectives: Vec::new(),
    }
}

fn draft_action(pool_idx: usize, coords: (usize, usize)) -> TurnAction {
    TurnAction { idx: ActionType::DraftDie(pool_idx), coords: Some(coords), tool: None }
}

fn tool_action(tool_idx: usize, data: ToolData) -> TurnAction {
    TurnAction { idx: ActionType::UseTool(tool_idx), coords: None, tool: Some(data) }
}

fn total_dice_count(gs: &GameState) -> usize {
    let placed: usize = gs
        .players
        .iter()
        .map(|p| p.board.iter().flatten().filter(|c| c.die.is_some()).count())
        .sum();
    let on_track: usize = gs.round_track.iter().map(|e| e.len()).sum();
    gs.dice_bag.len() + gs.draft_pool.len() + on_track + placed
}

/// Picks the first legal draft, or passes.
fn play_one(gs: &mut GameState) {
    let action = match gs.phase {
        TurnPhase::SelectTemplate => {
            TurnAction { idx: ActionType::SelectTemplate(0), coords: None, tool: None }
        }
        _ => {
            let drafts = all_valid_drafts(gs, gs.current_player());
            if let Some(a) = drafts.first() {
                a.clone()
            } else {
                TurnAction::pass()
            }
        }
    };
    gs.take_turn(&action).unwrap();
}

#[test]
fn test_round_scenario() {
    let mut gs = GameState::init(2).unwrap();
    let start = gs.start_player_idx;
    assert_eq!(gs.phase, TurnPhase::SelectTemplate);
    play_one(&mut gs);
    assert_eq!(gs.phase, TurnPhase::SelectTemplate, "one selection left");
    play_one(&mut gs);
    // Both selected: the first round opens with 2 * 2 + 1 dice.
    assert_eq!(gs.phase, TurnPhase::FirstDraft);
    assert_eq!(gs.draft_pool.len(), 5);
    assert_eq!(gs.curr_player_idx, start);
    // Both act once: the order reverses into the second pass.
    play_one(&mut gs);
    play_one(&mut gs);
    assert_eq!(gs.phase, TurnPhase::SecondDraft);
    assert_eq!(gs.curr_player_idx, (start + 1) % 2, "play direction reverses");
    // Both act again: the round closes, leftovers go on the track, and a
    // fresh pool is drawn.
    play_one(&mut gs);
    play_one(&mut gs);
    assert_eq!(gs.round_track.len(), 1);
    assert_eq!(gs.phase, TurnPhase::FirstDraft);
    assert_eq!(gs.draft_pool.len(), 5);
    assert_eq!(gs.start_player_idx, (start + 1) % 2, "the starting seat rotates");
}

#[test]
fn test_full_game_conserves_dice_and_terminates() {
    let mut gs = GameState::init(2).unwrap();
    assert_eq!(total_dice_count(&gs), 90);
    let mut steps = 0;
    while !gs.is_finished() {
        play_one(&mut gs);
        assert_eq!(total_dice_count(&gs), 90, "dice are conserved by every turn");
        steps += 1;
        assert!(steps < 1000, "the match must terminate");
    }
    assert_eq!(gs.phase, TurnPhase::GameOver);
    assert_eq!(gs.round_track.len(), 10);
    let scores = gs.player_scores();
    assert_eq!(scores.len(), 2);
    // The terminal state is final.
    let before = total_dice_count(&gs);
    let res = gs.take_turn(&TurnAction::pass());
    assert_eq!(res, Err(GameError::GameAlreadyOver));
    assert_eq!(gs.phase, TurnPhase::GameOver);
    assert_eq!(total_dice_count(&gs), before);
}

#[test]
fn test_select_template_mechanics() {
    let mut gs = GameState {
        players: vec![mk_player(0, Color::Red), mk_player(0, Color::Blue)],
        start_player_idx: 0,
        curr_player_idx: 0,
        phase: TurnPhase::SelectTemplate,
        dice_bag: bag_of(90),
        draft_pool: Vec::new(),
        round_track: Vec::new(),
        tools: Vec::new(),
        objectives: Vec::new(),
    };
    // A non-selection action is refused in this phase.
    let res = gs.take_turn(&draft_action(0, (0, 0)));
    assert_eq!(res, Err(GameError::WrongPhaseAction));
    // An index beyond the dealt hand is refused.
    let bad = TurnAction { idx: ActionType::SelectTemplate(9), coords: None, tool: None };
    assert_eq!(gs.take_turn(&bad), Err(GameError::InvalidIndex));
    assert_eq!(gs.players[0].tokens, 0, "a rejected action changes nothing");
    // A selection takes over the token value and overlays the slot grid.
    let select = TurnAction { idx: ActionType::SelectTemplate(1), coords: None, tool: None };
    assert_eq!(gs.take_turn(&select), Ok(false));
    assert_eq!(gs.players[0].tokens, 6);
    assert_eq!(gs.players[0].board[0][0].slot, Slot::Face(5));
    assert_eq!(gs.curr_player_idx, 1);
    assert_eq!(gs.phase, TurnPhase::SelectTemplate);
    // The second selection wraps the pointer and opens the first round.
    let select0 = TurnAction { idx: ActionType::SelectTemplate(0), coords: None, tool: None };
    assert_eq!(gs.take_turn(&select0), Ok(false));
    assert_eq!(gs.players[1].tokens, 4);
    assert_eq!(gs.phase, TurnPhase::FirstDraft);
    assert_eq!(gs.draft_pool.len(), 5);
    assert_eq!(gs.dice_bag.len(), 85);
}

#[test]
fn test_placement_zero_tolerance() {
    let mut player = mk_player(0, Color::Red);
    player.board[0][0].die = Some(Dice { color: Color::Red, face: 3 });
    // A matching color orthogonally beside is refused, whatever the face.
    assert_eq!(
        player.can_place_die((0, 1), Dice { color: Color::Red, face: 5 }),
        Err(GameError::IllegalPlacement(PlacementError::NeighborColorMatch))
    );
    // A matching face orthogonally beside is refused, whatever the color.
    assert_eq!(
        player.can_place_die((0, 1), Dice { color: Color::Blue, face: 3 }),
        Err(GameError::IllegalPlacement(PlacementError::NeighborFaceMatch))
    );
    // No match: accepted.
    assert_eq!(player.can_place_die((0, 1), Dice { color: Color::Blue, face: 5 }), Ok(()));
    // Diagonal contact never conflicts.
    assert_eq!(player.can_place_die((1, 1), Dice { color: Color::Red, face: 3 }), Ok(()));
}

#[test]
fn test_placement_edge_first_rule() {
    let player = mk_player(0, Color::Red);
    let die = Dice { color: Color::Green, face: 2 };
    // Interior cells of an empty board are refused.
    for &coords in &[(1, 1), (1, 2), (1, 3), (2, 1), (2, 2), (2, 3)] {
        assert_eq!(
            player.can_place_die(coords, die),
            Err(GameError::IllegalPlacement(PlacementError::FirstDieNotOnEdge)),
            "interior cell {:?} must reject",
            coords
        );
    }
    // Border cells accept (the slots are unconstrained here).
    for &coords in &[(0, 0), (0, 4), (3, 0), (3, 4), (0, 2), (3, 2), (1, 0), (2, 4)] {
        assert_eq!(player.can_place_die(coords, die), Ok(()), "border cell {:?}", coords);
    }
}

#[test]
fn test_placement_misc_rules() {
    let mut player = mk_player(0, Color::Red);
    player.board[0][0].slot = Slot::Color(Color::Blue);
    player.board[0][1].slot = Slot::Face(6);
    assert_eq!(
        player.can_place_die((0, 0), Dice { color: Color::Red, face: 1 }),
        Err(GameError::IllegalPlacement(PlacementError::SlotColorMismatch))
    );
    assert_eq!(
        player.can_place_die((0, 1), Dice { color: Color::Red, face: 1 }),
        Err(GameError::IllegalPlacement(PlacementError::SlotFaceMismatch))
    );
    assert_eq!(
        player.can_place_die((4, 0), Dice { color: Color::Red, face: 1 }),
        Err(GameError::InvalidIndex)
    );
    player.board[0][4].die = Some(Dice { color: Color::Red, face: 3 });
    assert_eq!(
        player.can_place_die((0, 4), Dice { color: Color::Blue, face: 1 }),
        Err(GameError::IllegalPlacement(PlacementError::Occupied))
    );
    // A die touching nothing is refused once the board has dice.
    assert_eq!(
        player.can_place_die((3, 0), Dice { color: Color::Blue, face: 1 }),
        Err(GameError::IllegalPlacement(PlacementError::NotAdjacent))
    );
}

#[test]
fn test_placement_check_is_idempotent() {
    let mut player = mk_player(0, Color::Red);
    player.board[2][2].die = Some(Dice { color: Color::Yellow, face: 4 });
    for &coords in &[(0, 0), (1, 1), (2, 3), (2, 2), (9, 9)] {
        let die = Dice { color: Color::Yellow, face: 2 };
        let first = player.can_place_die(coords, die);
        let second = player.can_place_die(coords, die);
        assert_eq!(first, second, "the check is pure: no hidden counters");
    }
}

#[test]
fn test_draft_moves_die_and_advances() {
    let pool = vec![Dice { color: Color::Red, face: 3 }, Dice { color: Color::Blue, face: 5 }];
    let mut gs = draft_state(pool, Vec::new());
    let before = total_dice_count(&gs);
    assert_eq!(gs.take_turn(&draft_action(1, (0, 0))), Ok(false));
    assert_eq!(gs.draft_pool.len(), 1);
    assert_eq!(gs.draft_pool[0].color, Color::Red);
    let placed = gs.players[0].board[0][0].die.unwrap();
    assert_eq!(placed.color, Color::Blue);
    assert_eq!(placed.face, 5);
    assert_eq!(total_dice_count(&gs), before);
    // Both players acted: the pass direction reverses.
    assert_eq!(gs.curr_player_idx, 1);
    assert_eq!(gs.phase, TurnPhase::FirstDraft);
    assert_eq!(gs.take_turn(&draft_action(0, (0, 0))), Ok(false));
    assert_eq!(gs.phase, TurnPhase::SecondDraft);
}

#[test]
fn test_draft_bad_submissions() {
    let pool = vec![Dice { color: Color::Red, face: 3 }];
    let mut gs = draft_state(pool, Vec::new());
    assert_eq!(gs.take_turn(&draft_action(7, (0, 0))), Err(GameError::InvalidIndex));
    assert_eq!(
        gs.take_turn(&draft_action(0, (1, 1))),
        Err(GameError::IllegalPlacement(PlacementError::FirstDieNotOnEdge))
    );
    // A pass is refused while a legal placement exists.
    assert_eq!(
        gs.take_turn(&TurnAction::pass()),
        Err(GameError::IllegalPlacement(PlacementError::LegalPlacementExists))
    );
    assert_eq!(gs.curr_player_idx, 0, "rejections do not advance the turn");
    assert_eq!(gs.draft_pool.len(), 1);
}

#[test]
fn test_pass_with_no_legal_placement() {
    // An empty pool leaves nothing placeable, so the pass is legal.
    let mut gs = draft_state(Vec::new(), Vec::new());
    assert_eq!(gs.take_turn(&TurnAction::pass()), Ok(false));
    assert_eq!(gs.curr_player_idx, 1, "a legal pass advances the turn");
}

#[test]
fn test_tool_invalid_index_changes_nothing() {
    let pool = vec![Dice { color: Color::Red, face: 3 }];
    let tools = vec![Tool { tool_type: ToolType::BumpDraftedDie, cost: 1 }];
    let mut gs = draft_state(pool, tools);
    let tokens_before = gs.players[0].tokens;
    let pool_before: Vec<(Color, u8)> = gs.draft_pool.iter().map(|d| (d.color, d.face)).collect();
    let res = gs.take_turn(&tool_action(5, ToolData::RerollAllDiceInPool));
    assert_eq!(res, Err(GameError::InvalidIndex));
    assert_eq!(gs.players[0].tokens, tokens_before);
    let pool_after: Vec<(Color, u8)> = gs.draft_pool.iter().map(|d| (d.color, d.face)).collect();
    assert_eq!(pool_after, pool_before);
    assert!(gs.players[0].board.iter().flatten().all(|c| c.die.is_none()));
}

#[test]
fn test_tool_error_variants() {
    let pool = vec![Dice { color: Color::Red, face: 3 }];
    let tools = vec![
        Tool { tool_type: ToolType::RerollAllDiceInPool, cost: 1 },
        Tool { tool_type: ToolType::BumpDraftedDie, cost: 1 },
        Tool { tool_type: ToolType::DraftTwoDice, cost: 1 },
    ];
    let mut gs = draft_state(pool, tools);
    // Payload missing.
    let no_data = TurnAction { idx: ActionType::UseTool(0), coords: None, tool: None };
    assert_eq!(gs.take_turn(&no_data), Err(GameError::ToolDataMismatch));
    // Payload of another tool.
    assert_eq!(
        gs.take_turn(&tool_action(0, ToolData::PlaceIgnoringAdjacency)),
        Err(GameError::ToolDataMismatch)
    );
    // Rerolling the whole pool is illegal during the first draft pass.
    assert_eq!(
        gs.take_turn(&tool_action(0, ToolData::RerollAllDiceInPool)),
        Err(GameError::ToolPhaseIllegal)
    );
    // An unresolved catalog member fails with its own signal.
    assert_eq!(
        gs.take_turn(&tool_action(2, ToolData::DraftTwoDice)),
        Err(GameError::ToolUnimplemented)
    );
    // A payload index beyond the pool.
    assert_eq!(
        gs.take_turn(&tool_action(1, ToolData::BumpDraftedDie { draft_idx: 4, is_increment: true })),
        Err(GameError::InvalidIndex)
    );
    // Too few tokens.
    gs.players[0].tokens = 0;
    assert_eq!(
        gs.take_turn(&tool_action(1, ToolData::BumpDraftedDie { draft_idx: 0, is_increment: true })),
        Err(GameError::InsufficientTokens)
    );
}

#[test]
fn test_tool_cost_escalation() {
    let pool = vec![Dice { color: Color::Red, face: 3 }];
    let tools = vec![Tool { tool_type: ToolType::BumpDraftedDie, cost: 1 }];
    let mut gs = draft_state(pool, tools);
    assert_eq!(gs.tools[0].cost, 1, "cost is 1 before any use");
    let bump = tool_action(0, ToolData::BumpDraftedDie { draft_idx: 0, is_increment: true });
    assert_eq!(gs.take_turn(&bump), Ok(false));
    assert_eq!(gs.draft_pool[0].face, 4);
    assert_eq!(gs.players[0].tokens, 4, "the first use costs 1");
    assert_eq!(gs.tools[0].cost, 2, "the first use raises the cost to 2");
    assert_eq!(gs.curr_player_idx, 0, "a tool use does not advance the turn");
    // The escalated cost binds every player, including later uses.
    assert_eq!(gs.take_turn(&bump), Ok(false));
    assert_eq!(gs.draft_pool[0].face, 5);
    assert_eq!(gs.players[0].tokens, 2, "the second use costs 2");
    assert_eq!(gs.tools[0].cost, 2);
}

#[test]
fn test_tool_effects() {
    let pool = vec![Dice { color: Color::Red, face: 2 }, Dice { color: Color::Blue, face: 6 }];
    let tools = vec![
        Tool { tool_type: ToolType::FlipDraftedDie, cost: 1 },
        Tool { tool_type: ToolType::SwapDraftedDieWithRoundTrack, cost: 1 },
        Tool { tool_type: ToolType::PlaceIgnoringAdjacency, cost: 1 },
    ];
    let mut gs = draft_state(pool, tools);
    gs.round_track = vec![vec![Dice { color: Color::Purple, face: 1 }]];
    // Flip: 2 becomes 5.
    assert_eq!(
        gs.take_turn(&tool_action(0, ToolData::FlipDraftedDie { draft_idx: 0 })),
        Ok(false)
    );
    assert_eq!(gs.draft_pool[0].face, 5);
    // Swap with the round track.
    let swap = tool_action(
        1,
        ToolData::SwapDraftedDieWithRoundTrack { draft_idx: 1, round_idx: (0, 0) },
    );
    assert_eq!(gs.take_turn(&swap), Ok(false));
    assert_eq!(gs.draft_pool[1].color, Color::Purple);
    assert_eq!(gs.draft_pool[1].face, 1);
    assert_eq!(gs.round_track[0][0].color, Color::Blue);
    assert_eq!(gs.round_track[0][0].face, 6);
    // Arm the ignore-adjacency flag: an interior first placement passes.
    assert_eq!(
        gs.take_turn(&tool_action(2, ToolData::PlaceIgnoringAdjacency)),
        Ok(false)
    );
    assert_eq!(gs.players[0].active_tool, Some(ToolType::PlaceIgnoringAdjacency));
    assert_eq!(gs.take_turn(&draft_action(0, (1, 2))), Ok(false));
    assert!(gs.players[0].board[1][2].die.is_some());
    assert_eq!(gs.players[0].active_tool, None, "the flag is consumed");
}

#[test]
fn test_reroll_tools_keep_colors() {
    let pool = vec![Dice { color: Color::Red, face: 2 }, Dice { color: Color::Blue, face: 6 }];
    let tools = vec![
        Tool { tool_type: ToolType::RerollDraftedDie, cost: 1 },
        Tool { tool_type: ToolType::RerollAllDiceInPool, cost: 1 },
    ];
    let mut gs = draft_state(pool, tools);
    gs.phase = TurnPhase::SecondDraft;
    assert_eq!(
        gs.take_turn(&tool_action(0, ToolData::RerollDraftedDie { draft_idx: 0 })),
        Ok(false)
    );
    assert_eq!(gs.draft_pool[0].color, Color::Red);
    assert!((1..=6).contains(&gs.draft_pool[0].face));
    assert_eq!(gs.draft_pool[1].face, 6, "the other die is untouched");
    assert_eq!(
        gs.take_turn(&tool_action(1, ToolData::RerollAllDiceInPool)),
        Ok(false)
    );
    assert_eq!(gs.draft_pool[0].color, Color::Red);
    assert_eq!(gs.draft_pool[1].color, Color::Blue);
    assert!(gs.draft_pool.iter().all(|d| (1..=6).contains(&d.face)));
}

#[test]
fn test_action_enumeration() {
    // One die, an empty board: every border cell is a legal destination.
    let pool = vec![Dice { color: Color::Red, face: 3 }];
    let mut gs = draft_state(pool, vec![Tool { tool_type: ToolType::FlipDraftedDie, cost: 1 }]);
    let drafts = all_valid_drafts(&gs, gs.current_player());
    assert_eq!(drafts.len(), 14, "a 4 by 5 board has 14 border cells");
    let tools = all_valid_tools(&gs, gs.current_player());
    assert_eq!(tools.len(), 1, "one flip option for the one pool die");
    // Every enumerated action is accepted by the engine.
    let probe = drafts[0].clone();
    assert!(gs.take_turn(&probe).is_ok());
    // With no tokens there are no tool options.
    gs.players[1].tokens = 0;
    let none = all_valid_tools(&gs, &gs.players[1]);
    assert!(none.is_empty());
}
