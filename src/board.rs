use vstd::prelude::*;

verus! {

/// The state of one square of the board.
#[derive(Clone, Copy, Debug, PartialEq, Eq, Structural)]
pub enum Masu {
    Empty,
    Black,
    White,
}

/// The side whose move it is; also the colour of a stone being placed.
#[derive(Clone, Copy, Debug, PartialEq, Eq, Structural)]
pub enum Turn {
    Black,
    White,
}

/// The 8x8 grid, row-major: `field[row][col]`.
pub type Field = [[Masu; 8]; 8];

/// The board as a sequence of rows, each a sequence of cells.
pub open spec fn board_of(f: Field) -> Seq<Seq<Masu>> {
    Seq::new(8, |i: int| f@[i]@)
}

/// The opening position: (3,3) and (4,4) Black, (3,4) and (4,3) White, the
/// rest empty.
pub open spec fn opening_cell(i: int, j: int) -> Masu {
    if (i == 3 && j == 3) || (i == 4 && j == 4) {
        Masu::Black
    } else if (i == 3 && j == 4) || (i == 4 && j == 3) {
        Masu::White
    } else {
        Masu::Empty
    }
}

pub open spec fn opening() -> Seq<Seq<Masu>> {
    Seq::new(8, |i: int| Seq::new(8, |j: int| opening_cell(i, j)))
}

/// Sets up the opening position, clearing every other square.
pub fn init_field(field: &mut Field)
    ensures
        board_of(*final(field)) == opening(),
{
    let mut i: usize = 0;
    while i < 8
        invariant
            i <= 8,
            forall|a: int, b: int|
                0 <= a < i && 0 <= b < 8 ==> #[trigger] field@[a]@[b] == Masu::Empty,
        decreases 8 - i,
    {
        field[i] = [Masu::Empty; 8];
        i += 1;
    }
    field[3][3] = Masu::Black;
    field[4][4] = Masu::Black;
    field[3][4] = Masu::White;
    field[4][3] = Masu::White;
    assert(board_of(*field) =~~= opening());
}

} // verus!
