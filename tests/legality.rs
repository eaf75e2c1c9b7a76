use reversi::board::{init_field, Masu, Turn};
use reversi::rules::check_putable;

fn opening() -> [[Masu; 8]; 8] {
    let mut field = [[Masu::Empty; 8]; 8];
    init_field(&mut field);
    field
}

#[test]
fn opening_moves_for_black() {
    let field = opening();
    assert!(!check_putable(&field, &(2, 3), &Turn::Black));
    assert!(check_putable(&field, &(2, 4), &Turn::Black));
    assert!(check_putable(&field, &(3, 5), &Turn::Black));
    assert!(check_putable(&field, &(4, 2), &Turn::Black));
    assert!(check_putable(&field, &(5, 3), &Turn::Black));
    assert!(!check_putable(&field, &(0, 0), &Turn::Black));
}

#[test]
fn opening_moves_for_white() {
    let field = opening();
    assert!(check_putable(&field, &(2, 3), &Turn::White));
    assert!(check_putable(&field, &(3, 2), &Turn::White));
    assert!(check_putable(&field, &(4, 5), &Turn::White));
    assert!(check_putable(&field, &(5, 4), &Turn::White));
    assert!(!check_putable(&field, &(2, 4), &Turn::White));
}

#[test]
fn occupied_cell_is_never_legal() {
    let mut field = [[Masu::Empty; 8]; 8];
    field[0][0] = Masu::Black;
    field[0][1] = Masu::White;
    field[0][2] = Masu::Black;
    assert!(!check_putable(&field, &(0, 0), &Turn::Black));
    assert!(!check_putable(&field, &(0, 0), &Turn::White));
    let field = opening();
    assert!(!check_putable(&field, &(3, 3), &Turn::Black));
    assert!(!check_putable(&field, &(3, 4), &Turn::White));
}

#[test]
fn adjacent_own_stone_is_no_bracket() {
    let mut field = [[Masu::Empty; 8]; 8];
    field[5][5] = Masu::Black;
    field[5][6] = Masu::White;
    assert!(!check_putable(&field, &(5, 4), &Turn::Black));
    assert!(check_putable(&field, &(5, 4), &Turn::White));
}

#[test]
fn run_to_the_edge_is_no_bracket() {
    let mut field = [[Masu::Empty; 8]; 8];
    field[7][1] = Masu::White;
    field[7][2] = Masu::White;
    assert!(!check_putable(&field, &(7, 0), &Turn::Black));
    field[7][3] = Masu::Black;
    assert!(check_putable(&field, &(7, 0), &Turn::Black));
}

#[test]
fn gap_breaks_a_bracket() {
    let mut field = [[Masu::Empty; 8]; 8];
    field[1][0] = Masu::White;
    field[3][0] = Masu::Black;
    assert!(!check_putable(&field, &(0, 0), &Turn::Black));
    field[2][0] = Masu::White;
    assert!(check_putable(&field, &(0, 0), &Turn::Black));
}

#[test]
fn long_diagonal_bracket() {
    let mut field = [[Masu::Empty; 8]; 8];
    for k in 1..7 {
        field[7 - k][k] = Masu::Black;
    }
    field[0][7] = Masu::White;
    assert!(check_putable(&field, &(7, 0), &Turn::White));
    assert!(!check_putable(&field, &(7, 0), &Turn::Black));
}
