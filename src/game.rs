use vstd::prelude::*;
use crate::board::{board_of, init_field, opening, Field, Masu, Turn};
use crate::rules::{auto_reverse, check_putable, legal, reversed, stone};

verus! {

/// A direction in which the cursor moves.
#[derive(Clone, Copy, Debug, PartialEq, Eq, Structural)]
pub enum Dir {
    Left,
    Up,
    Right,
    Down,
}

/// What a player asks of the game.
#[derive(Clone, Copy, Debug, PartialEq, Eq, Structural)]
pub enum Command {
    /// Moves the cursor one cell, staying on the board.
    MoveCursor(Dir),
    /// Puts a stone of the given colour under the cursor, whatever is there,
    /// and turns over what it brackets; neither legality nor turn is checked.
    ForcePlace(Turn),
    /// Plays the side to move under the cursor if that is a legal move, then
    /// passes the turn; does nothing otherwise.
    PlaceIfLegal,
    /// Empties the cell under the cursor.
    Clear,
    /// Hands the turn to the other side.
    ToggleTurn,
    /// Ends the session.
    Quit,
}

/// A key, as read from the terminal.
#[derive(Clone, Copy, Debug, PartialEq, Eq, Structural)]
pub enum Key {
    Esc,
    Left,
    Up,
    Right,
    Down,
    Enter,
    Backspace,
    Char(char),
    Other,
}

/// The whole state of a session: the board, the cursor, the side to move and
/// whether the session is over.
pub struct Game {
    pub field: Field,
    pub cursor: (usize, usize),
    pub turn: Turn,
    pub end: bool,
}

/// The mathematical value of a `Game`.
pub ghost struct GameView {
    pub board: Seq<Seq<Masu>>,
    pub row: int,
    pub col: int,
    pub turn: Turn,
    pub end: bool,
}

impl View for Game {
    type V = GameView;

    open spec fn view(&self) -> GameView {
        GameView {
            board: board_of(self.field),
            row: self.cursor.0 as int,
            col: self.cursor.1 as int,
            turn: self.turn,
            end: self.end,
        }
    }
}

impl Game {
    /// The cursor is on the board.
    pub open spec fn wf(&self) -> bool {
        self.cursor.0 < 8 && self.cursor.1 < 8
    }

    /// A new session: the opening position, the cursor in the top-left
    /// corner, Black to move.
    pub fn new() -> (g: Game)
        ensures
            g.wf(),
            g@ == (GameView { board: opening(), row: 0, col: 0, turn: Turn::Black, end: false }),
    {
        let mut field = [[Masu::Empty; 8]; 8];
        init_field(&mut field);
        Game { field, cursor: (0, 0), turn: Turn::Black, end: false }
    }
}

/// The other side.
pub open spec fn opposite(t: Turn) -> Turn {
    match t {
        Turn::Black => Turn::White,
        Turn::White => Turn::Black,
    }
}

/// `b` with the cell (r, c) set to `v`.
pub open spec fn set_cell(b: Seq<Seq<Masu>>, r: int, c: int, v: Masu) -> Seq<Seq<Masu>> {
    b.update(r, b[r].update(c, v))
}

/// The board after a stone of `color` goes to (r, c) and turns over what it
/// brackets.
pub open spec fn place(b: Seq<Seq<Masu>>, r: int, c: int, color: Masu) -> Seq<Seq<Masu>> {
    reversed(set_cell(b, r, c, color), r, c)
}

/// The state that follows `g` under `cmd`.
pub open spec fn step(cmd: Command, g: GameView) -> GameView {
    match cmd {
        Command::MoveCursor(dir) => match dir {
            Dir::Left => GameView { col: if g.col != 0 { g.col - 1 } else { g.col }, ..g },
            Dir::Up => GameView { row: if g.row != 0 { g.row - 1 } else { g.row }, ..g },
            Dir::Right => GameView { col: if g.col != 7 { g.col + 1 } else { g.col }, ..g },
            Dir::Down => GameView { row: if g.row != 7 { g.row + 1 } else { g.row }, ..g },
        },
        Command::ForcePlace(t) => GameView { board: place(g.board, g.row, g.col, stone(t)), ..g },
        Command::PlaceIfLegal => if legal(g.board, g.row, g.col, stone(g.turn)) {
            GameView {
                board: place(g.board, g.row, g.col, stone(g.turn)),
                turn: opposite(g.turn),
                ..g
            }
        } else {
            g
        },
        Command::Clear => GameView { board: set_cell(g.board, g.row, g.col, Masu::Empty), ..g },
        Command::ToggleTurn => GameView { turn: opposite(g.turn), ..g },
        Command::Quit => GameView { end: true, ..g },
    }
}

/// Writes `v` to the cell under the cursor.
fn set_under_cursor(game: &mut Game, v: Masu)
    requires
        old(game).wf(),
    ensures
        final(game).wf(),
        final(game)@ == (GameView {
            board: set_cell(old(game)@.board, old(game)@.row, old(game)@.col, v),
            ..old(game)@
        }),
{
    let ghost b0 = game@.board;
    game.field[game.cursor.0][game.cursor.1] = v;
    assert(game@.board =~~= set_cell(b0, old(game)@.row, old(game)@.col, v));
}

/// Applies one command to the session.
pub fn input(cmd: Command, game: &mut Game)
    requires
        old(game).wf(),
    ensures
        final(game).wf(),
        final(game)@ == step(cmd, old(game)@),
{
    match cmd {
        Command::MoveCursor(dir) => match dir {
            Dir::Left => {
                if game.cursor.1 != 0 {
                    game.cursor.1 -= 1;
                }
            },
            Dir::Up => {
                if game.cursor.0 != 0 {
                    game.cursor.0 -= 1;
                }
            },
            Dir::Right => {
                if game.cursor.1 != 7 {
                    game.cursor.1 += 1;
                }
            },
            Dir::Down => {
                if game.cursor.0 != 7 {
                    game.cursor.0 += 1;
                }
            },
        },
        Command::ForcePlace(t) => {
            let color = match t {
                Turn::Black => Masu::Black,
                Turn::White => Masu::White,
            };
            set_under_cursor(game, color);
            auto_reverse(&mut game.field, game.cursor);
        },
        Command::PlaceIfLegal => {
            if check_putable(&game.field, &game.cursor, &game.turn) {
                match game.turn {
                    Turn::Black => {
                        set_under_cursor(game, Masu::Black);
                        game.turn = Turn::White;
                    },
                    Turn::White => {
                        set_under_cursor(game, Masu::White);
                        game.turn = Turn::Black;
                    },
                }
                auto_reverse(&mut game.field, game.cursor);
            }
        },
        Command::Clear => {
            set_under_cursor(game, Masu::Empty);
        },
        Command::ToggleTurn => {
            game.turn = match game.turn {
                Turn::Black => Turn::White,
                Turn::White => Turn::Black,
            };
        },
        Command::Quit => {
            game.end = true;
        },
    }
}

/// The command that a key stands for, if any: the arrows move the cursor,
/// `b` and `w` force a black or white stone, Enter plays the side to move,
/// Backspace clears, `p` passes the turn and Esc quits.
pub open spec fn key_command(k: Key) -> Option<Command> {
    match k {
        Key::Esc => Some(Command::Quit),
        Key::Left => Some(Command::MoveCursor(Dir::Left)),
        Key::Up => Some(Command::MoveCursor(Dir::Up)),
        Key::Right => Some(Command::MoveCursor(Dir::Right)),
        Key::Down => Some(Command::MoveCursor(Dir::Down)),
        Key::Enter => Some(Command::PlaceIfLegal),
        Key::Backspace => Some(Command::Clear),
        Key::Char(ch) => if ch == 'w' {
            Some(Command::ForcePlace(Turn::White))
        } else if ch == 'b' {
            Some(Command::ForcePlace(Turn::Black))
        } else if ch == 'p' {
            Some(Command::ToggleTurn)
        } else {
            None
        },
        Key::Other => None,
    }
}

/// Decodes a key into a command; keys without a meaning give `None`.
pub fn command_of_key(k: Key) -> (r: Option<Command>)
    ensures
        r == key_command(k),
{
    match k {
        Key::Esc => Some(Command::Quit),
        Key::Left => Some(Command::MoveCursor(Dir::Left)),
        Key::Up => Some(Command::MoveCursor(Dir::Up)),
        Key::Right => Some(Command::MoveCursor(Dir::Right)),
        Key::Down => Some(Command::MoveCursor(Dir::Down)),
        Key::Enter => Some(Command::PlaceIfLegal),
        Key::Backspace => Some(Command::Clear),
        Key::Char(ch) => {
            if ch == 'w' {
                Some(Command::ForcePlace(Turn::White))
            } else if ch == 'b' {
                Some(Command::ForcePlace(Turn::Black))
            } else if ch == 'p' {
                Some(Command::ToggleTurn)
            } else {
                None
            }
        },
        Key::Other => None,
    }
}

/// Applies the command that `k` stands for; a key without one changes
/// nothing.
pub fn press(k: Key, game: &mut Game)
    requires
        old(game).wf(),
    ensures
        final(game).wf(),
        final(game)@ == match key_command(k) {
            Some(cmd) => step(cmd, old(game)@),
            None => old(game)@,
        },
{
    match command_of_key(k) {
        Some(cmd) => input(cmd, game),
        None => {},
    }
}

} // verus!
