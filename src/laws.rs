use vstd::prelude::*;
use crate::board::{opening, Masu, Turn};
use crate::game::{opposite, place, set_cell, step, Command, GameView};
use crate::rules::{
    bracket_at, brackets, flipped, flipped_by, in_board, legal, lemma_rays_disjoint, passes, ray_c,
    ray_cell, ray_in, ray_index, ray_r, reversed, stone,
};

verus! {

/// The board is 8x8.
pub open spec fn board_wf(b: Seq<Seq<Masu>>) -> bool {
    b.len() == 8 && forall|i: int| 0 <= i < 8 ==> #[trigger] b[i].len() == 8
}

/// The board is 8x8 and the cursor is on it.
pub open spec fn view_wf(g: GameView) -> bool {
    board_wf(g.board) && in_board(g.row, g.col)
}

/// The opening position holds exactly four stones: Black at (3,3) and
/// (4,4), White at (3,4) and (4,3).
pub proof fn lemma_opening_stones()
    ensures
        opening()[3][3] == Masu::Black,
        opening()[4][4] == Masu::Black,
        opening()[3][4] == Masu::White,
        opening()[4][3] == Masu::White,
        forall|i: int, j: int|
            in_board(i, j) ==> (#[trigger] opening()[i][j] != Masu::Empty <==> (i, j) == (3int, 3int)
                || (i, j) == (4int, 4int) || (i, j) == (3int, 4int) || (i, j) == (4int, 3int)),
        Set::new(|p: (int, int)| in_board(p.0, p.1) && opening()[p.0][p.1] != Masu::Empty)
            =~= set![(3int, 3int), (4int, 4int), (3int, 4int), (4int, 3int)],
        set![(3int, 3int), (4int, 4int), (3int, 4int), (4int, 3int)].len() == 4,
{
    let s = set![(3int, 3int), (4int, 4int), (3int, 4int), (4int, 3int)];
    assert(Set::<(int, int)>::empty().insert((3int, 3int)).len() == 1);
    assert(Set::<(int, int)>::empty().insert((3int, 3int)).insert((4int, 4int)).len() == 2);
    assert(Set::<(int, int)>::empty().insert((3int, 3int)).insert((4int, 4int)).insert(
        (3int, 4int),
    ).len() == 3);
    assert(s.len() == 4);
}

/// An occupied cell is never a legal move, for either colour.
pub proof fn lemma_occupied_not_legal(b: Seq<Seq<Masu>>, r: int, c: int, color: Masu)
    requires
        b[r][c] != Masu::Empty,
    ensures
        !legal(b, r, c, color),
{
}

/// Steps 1 to m-1 along `d` from (r, c) hold stones of the side other than
/// `t`, with no gap, and step `m` holds a stone of `t`.
pub open spec fn opponent_run(b: Seq<Seq<Masu>>, r: int, c: int, d: int, t: Turn, m: int) -> bool {
    &&& 2 <= m
    &&& ray_in(r, c, d, m)
    &&& ray_cell(b, r, c, d, m) == stone(t)
    &&& forall|j: int|
        1 <= j < m ==> ray_in(r, c, d, j) && #[trigger] ray_cell(b, r, c, d, j) == stone(opposite(t))
}

/// On an empty cell, a move is legal exactly when some direction holds one
/// or more of the opponent's stones, with no gap, followed by one of the
/// mover's own stones, all before any empty cell or the edge.
pub proof fn lemma_legal_iff_bracket(b: Seq<Seq<Masu>>, r: int, c: int, t: Turn)
    requires
        b[r][c] == Masu::Empty,
    ensures
        legal(b, r, c, stone(t)) <==> exists|d: int, m: int|
            0 <= d < 8 && #[trigger] opponent_run(b, r, c, d, t, m),
{
    assert forall|d: int, m: int| #[trigger] opponent_run(b, r, c, d, t, m) == bracket_at(b, r, c, d, stone(t), m) by {
        if opponent_run(b, r, c, d, t, m) {
            assert forall|j: int| 1 <= j < m implies #[trigger] passes(b, r, c, d, stone(t), j) by {
                assert(ray_cell(b, r, c, d, j) == stone(opposite(t)));
            }
        }
        if bracket_at(b, r, c, d, stone(t), m) {
            assert forall|j: int| 1 <= j < m implies ray_in(r, c, d, j) && #[trigger] ray_cell(b, r, c, d, j)
                == stone(opposite(t)) by {
                assert(passes(b, r, c, d, stone(t), j));
            }
        }
    }
    if legal(b, r, c, stone(t)) {
        let d = choose|d: int| 0 <= d < 8 && #[trigger] brackets(b, r, c, d, stone(t));
        let m = choose|m: int| #[trigger] bracket_at(b, r, c, d, stone(t), m);
        assert(opponent_run(b, r, c, d, t, m));
    }
    if exists|d: int, m: int| 0 <= d < 8 && #[trigger] opponent_run(b, r, c, d, t, m) {
        let (d, m) = choose|d: int, m: int| 0 <= d < 8 && #[trigger] opponent_run(b, r, c, d, t, m);
        assert(bracket_at(b, r, c, d, stone(t), m));
        assert(brackets(b, r, c, d, stone(t)));
    }
}

/// Placing a stone never turns over a cell that lies at or beyond an empty
/// cell, or at or beyond a stone of the placed colour, along the same
/// direction: the cell `k` steps out keeps its stone when some step `j` with
/// `1 <= j <= k` is empty or holds the placed colour.
pub proof fn lemma_flip_stops(b: Seq<Seq<Masu>>, r: int, c: int, d: int, j: int, k: int)
    requires
        in_board(r, c),
        0 <= d < 8,
        1 <= j <= k,
        ray_in(r, c, d, k),
        ray_cell(b, r, c, d, j) == Masu::Empty || ray_cell(b, r, c, d, j) == b[r][c],
    ensures
        reversed(b, r, c)[ray_r(r, d, k)][ray_c(c, d, k)] == ray_cell(b, r, c, d, k),
{
    let i = ray_r(r, d, k);
    let l = ray_c(c, d, k);
    if flipped(b, r, c, i, l) {
        let e = choose|e: int| 0 <= e < 8 && #[trigger] flipped_by(b, r, c, e, i, l);
        lemma_rays_disjoint(r, c, d, e, k, ray_index(r, c, e, i, l));
        let m = choose|m: int| k < m && #[trigger] bracket_at(b, r, c, d, b[r][c], m);
        assert(passes(b, r, c, d, b[r][c], j));
    }
}

/// A legality-gated placement on a cell where the side to move has no legal
/// move changes nothing, however often it is repeated.
pub proof fn lemma_illegal_place_is_noop(g: GameView)
    requires
        !legal(g.board, g.row, g.col, stone(g.turn)),
    ensures
        step(Command::PlaceIfLegal, g) == g,
        step(Command::PlaceIfLegal, step(Command::PlaceIfLegal, g)) == g,
{
}

/// Passing the turn always hands it to the other side and leaves the rest
/// alone; passing twice gives the state back.
pub proof fn lemma_toggle_twice(g: GameView)
    ensures
        step(Command::ToggleTurn, g).turn == opposite(g.turn),
        step(Command::ToggleTurn, g).turn != g.turn,
        step(Command::ToggleTurn, g).board == g.board,
        step(Command::ToggleTurn, step(Command::ToggleTurn, g)) == g,
{
}

/// A forced placement succeeds on every cell, occupied or not: the stone
/// ends up under the cursor and what it brackets is turned over, with the
/// turn left as it was.
pub proof fn lemma_force_place(g: GameView, t: Turn)
    requires
        view_wf(g),
    ensures
        step(Command::ForcePlace(t), g) == (GameView {
            board: place(g.board, g.row, g.col, stone(t)),
            ..g
        }),
        step(Command::ForcePlace(t), g).board[g.row][g.col] == stone(t),
{
    let b = set_cell(g.board, g.row, g.col, stone(t));
    assert(b[g.row][g.col] == stone(t));
    if flipped(b, g.row, g.col, g.row, g.col) {
        let e = choose|e: int| 0 <= e < 8 && #[trigger] flipped_by(b, g.row, g.col, e, g.row, g.col);
        assert(ray_index(g.row, g.col, e, g.row, g.col) == 0);
    }
}

} // verus!
