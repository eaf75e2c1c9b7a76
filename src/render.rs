use vstd::prelude::*;
use crate::board::{Masu, Turn};

verus! {

/// The background of a cell on screen.
#[derive(Clone, Copy, Debug, PartialEq, Eq, Structural)]
pub enum Shade {
    /// The cell under the cursor.
    Cursor,
    /// A cell whose row and column add up to an even number.
    Dark,
    /// A cell whose row and column add up to an odd number.
    Light,
}

pub open spec fn shade_of(i: int, j: int, row: int, col: int) -> Shade {
    if i == row && j == col {
        Shade::Cursor
    } else if (i + j) % 2 == 0 {
        Shade::Dark
    } else {
        Shade::Light
    }
}

/// The background of cell (i, j) with the cursor at `cursor`: a checkerboard,
/// with the cursor cell marked.
pub fn cell_shade(i: usize, j: usize, cursor: (usize, usize)) -> (s: Shade)
    requires
        i < 8,
        j < 8,
    ensures
        s == shade_of(i as int, j as int, cursor.0 as int, cursor.1 as int),
{
    if i == cursor.0 && j == cursor.1 {
        Shade::Cursor
    } else if (i + j) % 2 == 0 {
        Shade::Dark
    } else {
        Shade::Light
    }
}

pub open spec fn glyph_of(m: Masu) -> char {
    match m {
        Masu::Empty => '\u{3000}',
        Masu::Black => '\u{26ab}',
        Masu::White => '\u{26aa}',
    }
}

/// The character drawn for a cell: a full-width space, a black circle or a
/// white circle.
pub fn glyph(m: Masu) -> (ch: char)
    ensures
        ch == glyph_of(m),
{
    match m {
        Masu::Empty => '\u{3000}',
        Masu::Black => '\u{26ab}',
        Masu::White => '\u{26aa}',
    }
}

/// The status line under the board.
pub fn turn_label(t: Turn) -> (s: &'static str)
    ensures
        t == Turn::Black ==> s@ == "Black Turn\n"@,
        t == Turn::White ==> s@ == "White Turn\n"@,
{
    match t {
        Turn::Black => "Black Turn\n",
        Turn::White => "White Turn\n",
    }
}

} // verus!
