use stained::board::BoardCell;
use stained::color::{Color, Dice};
use stained::objective::{
    color_diagonals, count_color, count_number, distinct_colors, distinct_numbers, has_diag,
    Objective,
};
use stained::game::Player;

fn empty_cell() -> BoardCell {
    BoardCell::default()
}

fn die_cell(color: Color, face: u8) -> BoardCell {
    BoardCell::with_die(Dice { color, face })
}

#[test]
fn test_has_diag() {
    let empty = BoardCell::default();
    let red = BoardCell::with_die(Dice { color: Color::Red, face: 3 });
    let blue = BoardCell::with_die(Dice { color: Color::Blue, face: 4 });
    let row = vec![empty.clone(), red, blue, empty.clone(), empty];

    assert!(has_diag(&row, 0, Color::Red), "red @ 0 has diag");
    assert!(!has_diag(&row, 0, Color::Blue), "blue @ 0 no diag");
    assert!(!has_diag(&row, 1, Color::Red), "red @ 1 no diag");
    assert!(has_diag(&row, 1, Color::Blue), "blue @ 1 has diag");
    assert!(has_diag(&row, 2, Color::Red), "red @ 2 has diag");
    assert!(!has_diag(&row, 2, Color::Blue), "blue @ 2 no diag");
    assert!(!has_diag(&row, 3, Color::Red), "red @ 3 no diag");
    assert!(has_diag(&row, 3, Color::Blue), "blue @ 3 has diag");
}

#[test]
fn test_color_diagonals() {
    let empty = BoardCell::default();
    let red = BoardCell::with_die(Dice { color: Color::Red, face: 3 });
    let blue = BoardCell::with_die(Dice { color: Color::Blue, face: 4 });
    // Board layout:
    // . R . . .
    // R . B . .
    // . B . R .
    // . . R . B
    let board = vec![
        vec![empty.clone(), red.clone(), empty.clone(), empty.clone(), empty.clone()],
        vec![red.clone(), empty.clone(), blue.clone(), empty.clone(), empty.clone()],
        vec![empty.clone(), blue.clone(), empty.clone(), red.clone(), empty.clone()],
        vec![empty.clone(), empty.clone(), red.clone(), empty.clone(), blue.clone()],
    ];

    assert_eq!(color_diagonals(&board), 6);
    assert_eq!(Objective::ColorDiagonals(2).score(&board), 12);
}

#[test]
fn test_counts_and_distinct_lines() {
    let board = vec![
        vec![
            die_cell(Color::Red, 1),
            die_cell(Color::Yellow, 2),
            die_cell(Color::Green, 3),
            die_cell(Color::Blue, 4),
            die_cell(Color::Purple, 5),
        ],
        vec![
            die_cell(Color::Red, 1),
            die_cell(Color::Red, 1),
            empty_cell(),
            empty_cell(),
            empty_cell(),
        ],
        vec![empty_cell(); 5],
        vec![empty_cell(); 5],
    ];
    assert_eq!(count_number(&board, 1), 3);
    assert_eq!(count_number(&board, 6), 0);
    assert_eq!(count_color(&board, Color::Red), 3);
    assert_eq!(count_color(&board, Color::Purple), 1);
    assert!(distinct_numbers(&board[0]));
    assert!(distinct_colors(&board[0]));
    assert!(!distinct_numbers(&board[1]), "duplicate faces fail");
    assert!(!distinct_colors(&board[2]), "an empty cell fails");
}

#[test]
fn test_objective_scores_exact() {
    // A full first row of pairwise distinct faces and colors; the rest
    // empty.
    let board = vec![
        vec![
            die_cell(Color::Red, 1),
            die_cell(Color::Yellow, 2),
            die_cell(Color::Green, 3),
            die_cell(Color::Blue, 4),
            die_cell(Color::Purple, 5),
        ],
        vec![empty_cell(); 5],
        vec![empty_cell(); 5],
        vec![empty_cell(); 5],
    ];
    assert_eq!(Objective::RowNumbers(5).score(&board), 5);
    assert_eq!(Objective::RowColors(6).score(&board), 6);
    assert_eq!(Objective::ColumnNumbers(4).score(&board), 0, "columns have empty cells");
    assert_eq!(Objective::Numbers(5).score(&board), 0, "no 6 anywhere");
    assert_eq!(Objective::Pair12(2).score(&board), 2, "one 1 and one 2");
    assert_eq!(Objective::Pair56(2).score(&board), 0, "no 6");
    assert_eq!(Objective::Colors(4).score(&board), 4, "one die of each color");
}

#[test]
fn test_score_formula() {
    // 20 cells: 12 dice of the player's secret color, 8 empty, no tokens,
    // no objectives. The score is 12 - 8 = 4.
    let secret = Color::Green;
    let mut board = Vec::new();
    let mut placed = 0;
    for _ in 0..4 {
        let mut row = Vec::new();
        for _ in 0..5 {
            if placed < 12 {
                row.push(die_cell(secret, 1 + (placed % 6) as u8));
                placed += 1;
            } else {
                row.push(empty_cell());
            }
        }
        board.push(row);
    }
    let player = Player {
        tokens: 0,
        board,
        secret,
        templates: Vec::new(),
        active_tool: None,
    };
    assert_eq!(player.calculate_score(&Vec::new()), 12 - 8);
    assert_eq!(player.calculate_score(&Vec::new()), 4);
}

#[test]
fn test_score_counts_tokens_and_objectives() {
    let secret = Color::Red;
    let board = vec![
        vec![
            die_cell(Color::Red, 1),
            die_cell(Color::Yellow, 2),
            die_cell(Color::Green, 3),
            die_cell(Color::Blue, 4),
            die_cell(Color::Purple, 5),
        ],
        vec![empty_cell(); 5],
        vec![empty_cell(); 5],
        vec![empty_cell(); 5],
    ];
    let player = Player {
        tokens: 3,
        board,
        secret,
        templates: Vec::new(),
        active_tool: None,
    };
    // Board: 1 secret die - 15 empty cells = -14; tokens +3; RowColors(6)
    // awards 6 for the full distinct first row.
    let objectives = vec![Objective::RowColors(6)];
    assert_eq!(player.calculate_score(&objectives), -14 + 3 + 6);
}
