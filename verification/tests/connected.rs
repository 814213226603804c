use connect_four::ConnectFour;
use connect_four::Pawn;
use connect_four::Pawn::{Red, White};

fn from_board(board: [[Pawn; 7]; 6]) -> ConnectFour {
    ConnectFour {
        board: board.iter().map(|r| r.to_vec()).collect(),
        is_draw: false,
        is_connected: false,
        turn: Red,
        moves_stack: vec![],
    }
}

#[test]
fn test_connected_vertical_pass() {
    let connect_four = from_board([
        [White; 7],
        [White; 7],
        [Red, White, White, White, White, White, White],
        [Red, White, White, White, White, White, White],
        [Red, White, White, White, White, White, White],
        [Red, White, White, White, White, White, White],
    ]);
    assert!(connect_four.is_four_connected(2, 0));
}

#[test]
fn test_connected_vertical_fail() {
    let connect_four = from_board([
        [Red, White, White, White, White, White, White],
        [Red, White, White, White, White, White, White],
        [White, White, White, White, White, White, White],
        [Red, White, White, White, White, White, White],
        [Red, White, White, White, White, White, White],
        [White; 7],
    ]);
    assert!(!connect_four.is_four_connected(4, 0));
}

#[test]
fn test_connected_horizontal_pass() {
    let connect_four = from_board([
        [Red, Red, Red, Red, White, White, White],
        [White; 7],
        [White; 7],
        [White; 7],
        [White; 7],
        [White; 7],
    ]);
    assert!(connect_four.is_four_connected(0, 3));
}

#[test]
fn test_connected_horizontal_fail() {
    let connect_four = from_board([
        [Red, Red, Red, White, Red, White, White],
        [White; 7],
        [White; 7],
        [White; 7],
        [White; 7],
        [White; 7],
    ]);
    assert!(!connect_four.is_four_connected(0, 4));
}

#[test]
fn test_connected_diagonal_top_left_to_bottom_right_pass() {
    let connect_four = from_board([
        [White; 7],
        [White; 7],
        [Red, White, White, White, White, White, White],
        [White, Red, White, White, White, White, White],
        [White, White, Red, White, White, White, White],
        [White, White, White, Red, White, White, White],
    ]);
    assert!(connect_four.is_four_connected(2, 0));
}

#[test]
fn test_connected_diagonal_top_left_to_bottom_right_fail() {
    let connect_four = from_board([
        [White; 7],
        [Red, White, White, White, White, White, White],
        [White, Red, White, White, White, White, White],
        [White, White, White, White, White, White, White],
        [White, White, White, Red, White, White, White],
        [White, White, White, White, Red, White, White],
    ]);
    assert!(!connect_four.is_four_connected(1, 0));
}

#[test]
fn test_connected_diagonal_bottom_left_to_top_right_pass() {
    let connect_four = from_board([
        [White; 7],
        [White; 7],
        [White, White, White, Red, White, White, White],
        [White, White, Red, White, White, White, White],
        [White, Red, White, White, White, White, White],
        [Red, White, White, White, White, White, White],
    ]);
    assert!(connect_four.is_four_connected(5, 0));
}

#[test]
fn test_connected_diagonal_bottom_left_to_top_right_fail() {
    let connect_four = from_board([
        [White; 7],
        [White, White, White, White, Red, White, White],
        [White, White, White, Red, White, White, White],
        [White, White, White, White, White, White, White],
        [White, Red, White, White, White, White, White],
        [Red, White, White, White, White, White, White],
    ]);
    assert!(!connect_four.is_four_connected(5, 0));
}
