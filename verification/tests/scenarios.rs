use connect_four::ConnectFour;
use connect_four::GameError;
use connect_four::Pawn;
use connect_four::Pawn::{Blue, Red};

/// One session-loop step: find the landing row, place, then switch turn.
fn play(game: &mut ConnectFour, col: usize) -> usize {
    let row = game.get_empty_spot(col).unwrap();
    assert_eq!(game.place(row, col), Ok(()));
    game.turn.switch();
    row
}

/// Count the cells of one color over the whole board.
fn count_cells(game: &ConnectFour, p: Pawn) -> usize {
    game.board
        .iter()
        .map(|row| row.iter().filter(|&&cell| cell == p).count())
        .sum()
}

/// Recompute the connection flag from scratch: scan every window of the
/// whole grid in all four directions.
fn full_scan(game: &ConnectFour, p: Pawn) -> bool {
    let b = &game.board;
    for r in 0..6usize {
        for c in 0..7usize {
            if c + 4 <= 7 && (0..4).all(|t| b[r][c + t] == p) {
                return true;
            }
            if r + 4 <= 6 && (0..4).all(|t| b[r + t][c] == p) {
                return true;
            }
            if r + 4 <= 6 && c + 4 <= 7 && (0..4).all(|t| b[r + t][c + t] == p) {
                return true;
            }
            if r + 4 <= 6 && c >= 3 && (0..4).all(|t| b[r + t][c - t] == p) {
                return true;
            }
        }
    }
    false
}

#[test]
fn scenario_vertical_win() {
    let mut game = ConnectFour::new();
    // Red stacks column 0; Blue answers in column 1 each time.
    for _ in 0..3 {
        play(&mut game, 0);
        assert!(!game.is_over());
        play(&mut game, 1);
        assert!(!game.is_over());
    }
    let row = play(&mut game, 0);
    assert_eq!(row, 2);
    assert!(game.is_connected);
    assert!(!game.is_draw);
    assert!(game.is_over());
    assert_eq!(game.winner(), Some(Red));
}

#[test]
fn scenario_horizontal_win() {
    let mut game = ConnectFour::new();
    // Red lays row 5 across columns 0..=3; Blue stacks column 6.
    for col in 0..3usize {
        let row = play(&mut game, col);
        assert_eq!(row, 5);
        assert!(!game.is_over());
        play(&mut game, 6);
        assert!(!game.is_over());
    }
    let row = play(&mut game, 3);
    assert_eq!(row, 5);
    assert!(game.is_connected);
    assert!(game.is_over());
    assert_eq!(game.winner(), Some(Red));
}

#[test]
fn scenario_diagonal_win() {
    let mut game = ConnectFour::new();
    // Red builds the diagonal (5,0), (4,1), (3,2), (2,3); Blue's answers
    // and two extra Red tokens provide the supports underneath.
    let cols = [0usize, 1, 1, 2, 2, 3, 2, 3, 3, 5, 3];
    for (i, &col) in cols.iter().enumerate() {
        let over = i + 1 == cols.len();
        play(&mut game, col);
        assert_eq!(game.is_over(), over);
    }
    assert!(game.is_connected);
    assert!(!game.is_draw);
    assert_eq!(game.winner(), Some(Red));
}

#[test]
fn scenario_near_miss_gap() {
    let mut game = ConnectFour::new();
    // Red holds row 5 at columns 0, 1, 3, 4 with the gap at column 2;
    // Blue stacks column 6.
    for col in [0usize, 6, 1, 6, 3, 6, 4] {
        play(&mut game, col);
    }
    assert!(!game.is_connected);
    assert!(!game.is_draw);
    assert!(!game.is_over());
    assert_eq!(game.winner(), None);
    assert!(!full_scan(&game, Red));
    assert!(!full_scan(&game, Blue));
}

#[test]
fn scenario_full_board_draw() {
    // A full board with no four-in-a-row anywhere, reached by strictly
    // alternating drops.
    let cols = [
        0usize, 1, 0, 0, 2, 0, 0, 0, 2, 1, 1, 2, 1, 1, 4, 1, 4, 2, 2, 3, 2,
        3, 3, 4, 3, 3, 6, 3, 6, 4, 4, 5, 4, 5, 5, 6, 5, 6, 6, 5, 6, 5,
    ];
    let mut game = ConnectFour::new();
    for (i, &col) in cols.iter().enumerate() {
        let over = i + 1 == cols.len();
        play(&mut game, col);
        assert_eq!(game.is_over(), over);
    }
    assert!(game.is_full());
    assert!(!game.is_connected);
    assert!(game.is_draw);
    assert!(game.is_over());
    assert_eq!(game.winner(), None);
    assert!(!full_scan(&game, Red));
    assert!(!full_scan(&game, Blue));
}

#[test]
fn scenario_full_column_rejects() {
    let mut game = ConnectFour::new();
    // Fill column 0 to the top with alternating tokens.
    for _ in 0..6 {
        play(&mut game, 0);
    }
    assert_eq!(game.get_empty_spot(0), None);
    // Every row of the reported-full column is occupied.
    for row in 0..6usize {
        assert!(game.is_set(row, 0));
    }
    assert_eq!(game.drop_row(0), Err(GameError::ColumnFull));
    // A forced placement into the full column is a contract violation.
    assert_eq!(game.place(0, 0), Err(GameError::ContractViolation));
    assert!(!game.is_over());
}

#[test]
fn place_after_game_over_rejected_unchanged() {
    let mut game = ConnectFour::new();
    for col in [0usize, 1, 0, 1, 0, 1, 0] {
        play(&mut game, col);
    }
    assert!(game.is_over());
    let board_before = game.board.clone();
    let moves_before = game.moves_stack.clone();
    let turn_before = game.turn;
    // Any further placement, even into a free cell, must be refused
    // with no state change.
    assert_eq!(game.place(5, 3), Err(GameError::ContractViolation));
    assert_eq!(game.board, board_before);
    assert_eq!(game.moves_stack, moves_before);
    assert_eq!(game.turn, turn_before);
    assert!(game.is_connected);
    assert!(!game.is_draw);
}

#[test]
fn cell_counts_stay_balanced() {
    let mut game = ConnectFour::new();
    for col in [0usize, 1, 0, 0, 2, 0, 0, 0, 2, 1, 1, 2, 1, 1, 4, 1] {
        play(&mut game, col);
        let red = count_cells(&game, Red);
        let blue = count_cells(&game, Blue);
        assert!(blue <= red && red <= blue + 1);
    }
}

#[test]
fn incremental_flag_matches_full_rescan() {
    let mut game = ConnectFour::new();
    for col in [0usize, 1, 0, 1, 2, 2, 3, 3, 0, 4] {
        play(&mut game, col);
        let mover = game.moves_stack.last().unwrap().0;
        assert_eq!(game.is_connected, full_scan(&game, mover));
    }
    // And once a placement wins, the flags still agree.
    play(&mut game, 0);
    assert!(game.is_connected);
    let mover = game.moves_stack.last().unwrap().0;
    assert!(full_scan(&game, mover));
}

#[test]
fn winner_is_last_mover() {
    let mut game = ConnectFour::new();
    for col in [2usize, 3, 2, 3, 2, 3, 2] {
        play(&mut game, col);
    }
    assert!(game.is_connected);
    let last = game.moves_stack.last().unwrap();
    assert_eq!(game.winner(), Some(last.0));
    assert_eq!(last.0, Red);
}
