use reversi::board::{Masu, Turn};
use reversi::game::{command_of_key, input, press, Command, Dir, Game, Key};
use reversi::render::{cell_shade, glyph, turn_label, Shade};

#[test]
fn new_game_state() {
    let g = Game::new();
    assert_eq!(g.cursor, (0, 0));
    assert_eq!(g.turn, Turn::Black);
    assert!(!g.end);
    assert_eq!(g.field[3][3], Masu::Black);
    assert_eq!(g.field[3][4], Masu::White);
}

#[test]
fn place_if_legal_plays_and_passes_turn() {
    let mut g = Game::new();
    g.cursor = (2, 4);
    input(Command::PlaceIfLegal, &mut g);
    assert_eq!(g.field[2][4], Masu::Black);
    assert_eq!(g.field[3][4], Masu::Black);
    assert_eq!(g.field[4][4], Masu::Black);
    assert_eq!(g.field[4][3], Masu::White);
    assert_eq!(g.turn, Turn::White);
}

#[test]
fn place_if_legal_on_illegal_cell_is_noop() {
    let mut g = Game::new();
    g.cursor = (2, 3);
    let field = g.field;
    input(Command::PlaceIfLegal, &mut g);
    assert_eq!(g.field, field);
    assert_eq!(g.turn, Turn::Black);
    input(Command::PlaceIfLegal, &mut g);
    assert_eq!(g.field, field);
    assert_eq!(g.turn, Turn::Black);
    g.cursor = (3, 3);
    input(Command::PlaceIfLegal, &mut g);
    assert_eq!(g.field, field);
    assert_eq!(g.turn, Turn::Black);
}

#[test]
fn toggle_turn_twice_restores() {
    let mut g = Game::new();
    let field = g.field;
    input(Command::ToggleTurn, &mut g);
    assert_eq!(g.turn, Turn::White);
    assert_eq!(g.field, field);
    input(Command::ToggleTurn, &mut g);
    assert_eq!(g.turn, Turn::Black);
}

#[test]
fn force_place_overwrites_and_flips() {
    let mut g = Game::new();
    // A White stone at (2,2) brackets nothing yet; forcing White over the
    // Black stone at (4,4) then closes the run at (3,3).
    g.cursor = (2, 2);
    input(Command::ForcePlace(Turn::White), &mut g);
    assert_eq!(g.field[2][2], Masu::White);
    g.cursor = (4, 4);
    input(Command::ForcePlace(Turn::White), &mut g);
    assert_eq!(g.field[4][4], Masu::White);
    assert_eq!(g.field[3][3], Masu::White);
    assert_eq!(g.turn, Turn::Black);
}

#[test]
fn force_place_on_empty_cell_without_bracket() {
    let mut g = Game::new();
    input(Command::ForcePlace(Turn::Black), &mut g);
    assert_eq!(g.field[0][0], Masu::Black);
    assert_eq!(g.turn, Turn::Black);
}

#[test]
fn clear_empties_cell() {
    let mut g = Game::new();
    g.cursor = (3, 3);
    input(Command::Clear, &mut g);
    assert_eq!(g.field[3][3], Masu::Empty);
    input(Command::Clear, &mut g);
    assert_eq!(g.field[3][3], Masu::Empty);
}

#[test]
fn cursor_moves_and_stays_on_board() {
    let mut g = Game::new();
    input(Command::MoveCursor(Dir::Left), &mut g);
    input(Command::MoveCursor(Dir::Up), &mut g);
    assert_eq!(g.cursor, (0, 0));
    input(Command::MoveCursor(Dir::Right), &mut g);
    assert_eq!(g.cursor, (0, 1));
    input(Command::MoveCursor(Dir::Down), &mut g);
    assert_eq!(g.cursor, (1, 1));
    for _ in 0..10 {
        input(Command::MoveCursor(Dir::Down), &mut g);
        input(Command::MoveCursor(Dir::Right), &mut g);
    }
    assert_eq!(g.cursor, (7, 7));
}

#[test]
fn quit_ends_session() {
    let mut g = Game::new();
    let field = g.field;
    input(Command::Quit, &mut g);
    assert!(g.end);
    assert_eq!(g.field, field);
}

#[test]
fn key_table() {
    assert_eq!(command_of_key(Key::Esc), Some(Command::Quit));
    assert_eq!(command_of_key(Key::Left), Some(Command::MoveCursor(Dir::Left)));
    assert_eq!(command_of_key(Key::Up), Some(Command::MoveCursor(Dir::Up)));
    assert_eq!(command_of_key(Key::Right), Some(Command::MoveCursor(Dir::Right)));
    assert_eq!(command_of_key(Key::Down), Some(Command::MoveCursor(Dir::Down)));
    assert_eq!(command_of_key(Key::Enter), Some(Command::PlaceIfLegal));
    assert_eq!(command_of_key(Key::Backspace), Some(Command::Clear));
    assert_eq!(command_of_key(Key::Char('w')), Some(Command::ForcePlace(Turn::White)));
    assert_eq!(command_of_key(Key::Char('b')), Some(Command::ForcePlace(Turn::Black)));
    assert_eq!(command_of_key(Key::Char('p')), Some(Command::ToggleTurn));
    assert_eq!(command_of_key(Key::Char('x')), None);
    assert_eq!(command_of_key(Key::Other), None);
}

#[test]
fn key_sequence() {
    let mut g = Game::new();
    press(Key::Enter, &mut g);
    assert_eq!(g.field[0][0], Masu::Empty);
    assert_eq!(g.turn, Turn::Black);
    press(Key::Char('p'), &mut g);
    assert_eq!(g.turn, Turn::White);
    press(Key::Char('p'), &mut g);
    assert_eq!(g.turn, Turn::Black);
    press(Key::Right, &mut g);
    assert_eq!(g.cursor, (0, 1));
    press(Key::Down, &mut g);
    assert_eq!(g.cursor, (1, 1));
    press(Key::Left, &mut g);
    assert_eq!(g.cursor, (1, 0));
    press(Key::Up, &mut g);
    assert_eq!(g.cursor, (0, 0));
    press(Key::Char('b'), &mut g);
    assert_eq!(g.field[0][0], Masu::Black);
    press(Key::Backspace, &mut g);
    assert_eq!(g.field[0][0], Masu::Empty);
    press(Key::Char('z'), &mut g);
    assert!(!g.end);
    press(Key::Esc, &mut g);
    assert!(g.end);
}

#[test]
fn render_choices() {
    assert_eq!(cell_shade(0, 0, (0, 0)), Shade::Cursor);
    assert_eq!(cell_shade(0, 0, (1, 0)), Shade::Dark);
    assert_eq!(cell_shade(0, 1, (0, 0)), Shade::Light);
    assert_eq!(cell_shade(7, 7, (0, 0)), Shade::Dark);
    assert_eq!(glyph(Masu::Empty), '\u{3000}');
    assert_eq!(glyph(Masu::Black), '\u{26ab}');
    assert_eq!(glyph(Masu::White), '\u{26aa}');
    assert_eq!(turn_label(Turn::Black), "Black Turn\n");
    assert_eq!(turn_label(Turn::White), "White Turn\n");
}
