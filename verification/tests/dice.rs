use stained::color::{all_colors, Color, Dice};
use stained::constants::{DICE_PER_COLOR, TOTAL_DICE};
use stained::game::{roll_die, GameState};
use stained::turn::TurnPhase;

#[test]
fn test_dice_code() {
    let die = Dice { color: Color::Blue, face: 5 };
    let code = die.to_code_bytes();
    assert_eq!(code, b"B5".to_vec());
    let decoded = Dice::from_code_bytes(&code).unwrap();
    assert_eq!(decoded.color, Color::Blue);
    assert_eq!(decoded.face, 5);
}

#[test]
fn test_dice_code_round_trip_all() {
    for &color in all_colors().iter() {
        for face in 1..=6u8 {
            let die = Dice { color, face };
            let code = die.to_code_bytes();
            assert_eq!(code.len(), 2);
            let back = Dice::from_code_bytes(&code).unwrap();
            assert_eq!(back.color, color);
            assert_eq!(back.face, face);
        }
    }
}

#[test]
fn test_dice_code_rejects_bad_input() {
    assert!(Dice::from_code_bytes(b"").is_none());
    assert!(Dice::from_code_bytes(b"B").is_none());
    assert!(Dice::from_code_bytes(b"B55").is_none());
    assert!(Dice::from_code_bytes(b"X5").is_none(), "unknown color letter");
    assert!(Dice::from_code_bytes(b"B0").is_none(), "face below 1");
    assert!(Dice::from_code_bytes(b"B7").is_none(), "face above 6");
}

#[test]
fn test_dice_operations() {
    let mut d = Dice { color: Color::Red, face: 2 };
    d.flip();
    assert_eq!(d.face, 5, "opposite faces sum to 7");
    d.increment();
    assert_eq!(d.face, 6);
    d.increment();
    assert_eq!(d.face, 6, "increment saturates at 6");
    let mut low = Dice { color: Color::Red, face: 1 };
    low.decrement();
    assert_eq!(low.face, 1, "decrement saturates at 1");
    low.increment();
    assert_eq!(low.face, 2);
    low.decrement();
    assert_eq!(low.face, 1);
}

#[test]
fn test_rolls_stay_in_range() {
    for &color in all_colors().iter() {
        for _ in 0..50 {
            let d = roll_die(color);
            assert_eq!(d.color, color);
            assert!((1..=6).contains(&d.face));
            let mut r = Dice { color, face: 1 };
            r.reroll();
            assert_eq!(r.color, color);
            assert!((1..=6).contains(&r.face));
        }
    }
}

#[test]
fn test_init_validates_player_count() {
    assert!(GameState::init(0).is_err());
    assert!(GameState::init(1).is_err());
    assert!(GameState::init(5).is_err());
    assert!(GameState::init(2).is_ok());
    assert!(GameState::init(3).is_ok());
    assert!(GameState::init(4).is_ok());
}

#[test]
fn test_init_deals_the_match() {
    let gs = GameState::init(3).unwrap();
    assert_eq!(gs.players.len(), 3);
    assert_eq!(gs.phase, TurnPhase::SelectTemplate);
    assert_eq!(gs.curr_player_idx, gs.start_player_idx);
    assert!(gs.start_player_idx < 3);
    assert!(gs.draft_pool.is_empty());
    assert!(gs.round_track.is_empty());
    assert_eq!(gs.dice_bag.len(), TOTAL_DICE);
    // The supply is even across the palette (the shuffle loses nothing).
    for &color in all_colors().iter() {
        let n = gs.dice_bag.iter().filter(|&&c| c == color).count();
        assert_eq!(n, DICE_PER_COLOR);
    }
    assert_eq!(gs.tools.len(), 3);
    for tool in gs.tools.iter() {
        assert_eq!(tool.cost, 1, "every tool starts at cost 1");
    }
    assert_eq!(gs.objectives.len(), 3);
    for p in gs.players.iter() {
        assert_eq!(p.tokens, 0);
        assert_eq!(p.templates.len(), 2, "two templates dealt per player");
        assert!(p.active_tool.is_none());
        for row in p.board.iter() {
            for cell in row.iter() {
                assert!(cell.die.is_none());
            }
        }
    }
}

#[test]
fn test_player_view_redacts_secrets() {
    let gs = GameState::init(2).unwrap();
    let view = gs.player_view(0);
    assert_eq!(view.players.len(), 2);
    assert_eq!(view.players[0].secret, Some(gs.players[0].secret));
    assert_eq!(view.players[1].secret, None, "the other seat's secret is omitted");
    assert_eq!(view.phase, gs.phase);
    assert_eq!(view.curr_player_idx, gs.curr_player_idx);
    assert_eq!(view.tools.len(), gs.tools.len());
    assert_eq!(view.draft_pool.len(), gs.draft_pool.len());
}
