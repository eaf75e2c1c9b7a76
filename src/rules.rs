use vstd::prelude::*;
use crate::board::{board_of, Field, Masu, Turn};

verus! {

/// Whether (r, c) lies on the board.
pub open spec fn in_board(r: int, c: int) -> bool {
    0 <= r < 8 && 0 <= c < 8
}

/// Row component of direction `d`, for `d` in 0..8. The eight directions, in
/// order: (-1,-1), (-1,0), (-1,1), (0,-1), (0,1), (1,-1), (1,0), (1,1).
pub open spec fn dir_r(d: int) -> int {
    if d <= 2 {
        -1
    } else if d <= 4 {
        0
    } else {
        1
    }
}

/// Column component of direction `d`, for `d` in 0..8.
pub open spec fn dir_c(d: int) -> int {
    if d == 0 || d == 3 || d == 5 {
        -1
    } else if d == 1 || d == 6 {
        0
    } else {
        1
    }
}

/// Row reached from row `r` after `k` steps along direction `d`.
pub open spec fn ray_r(r: int, d: int, k: int) -> int {
    if dir_r(d) == 1 {
        r + k
    } else if dir_r(d) == -1 {
        r - k
    } else {
        r
    }
}

/// Column reached from column `c` after `k` steps along direction `d`.
pub open spec fn ray_c(c: int, d: int, k: int) -> int {
    if dir_c(d) == 1 {
        c + k
    } else if dir_c(d) == -1 {
        c - k
    } else {
        c
    }
}

pub open spec fn ray_in(r: int, c: int, d: int, k: int) -> bool {
    in_board(ray_r(r, d, k), ray_c(c, d, k))
}

/// The cell `k` steps from (r, c) along direction `d`.
pub open spec fn ray_cell(b: Seq<Seq<Masu>>, r: int, c: int, d: int, k: int) -> Masu {
    b[ray_r(r, d, k)][ray_c(c, d, k)]
}

/// The cell `k` steps along `d` is on the board and holds a stone that is not
/// `color`: a stone that a bracket closed by `color` may pass over.
pub open spec fn passes(b: Seq<Seq<Masu>>, r: int, c: int, d: int, color: Masu, k: int) -> bool {
    &&& ray_in(r, c, d, k)
    &&& ray_cell(b, r, c, d, k) != Masu::Empty
    &&& ray_cell(b, r, c, d, k) != color
}

/// Going `m` steps from (r, c) along `d` passes a run of one or more stones
/// that are neither empty nor `color`, and then lands on a stone of `color`.
pub open spec fn bracket_at(b: Seq<Seq<Masu>>, r: int, c: int, d: int, color: Masu, m: int) -> bool {
    &&& 2 <= m
    &&& ray_in(r, c, d, m)
    &&& ray_cell(b, r, c, d, m) == color
    &&& forall|j: int| 1 <= j < m ==> #[trigger] passes(b, r, c, d, color, j)
}

/// Direction `d` from (r, c) holds a run of the other colour closed by `color`.
pub open spec fn brackets(b: Seq<Seq<Masu>>, r: int, c: int, d: int, color: Masu) -> bool {
    exists|m: int| #[trigger] bracket_at(b, r, c, d, color, m)
}

/// The stone that a side places.
pub open spec fn stone(t: Turn) -> Masu {
    match t {
        Turn::Black => Masu::Black,
        Turn::White => Masu::White,
    }
}

/// Placing `color` at the empty cell (r, c) brackets a run in some direction.
pub open spec fn legal(b: Seq<Seq<Masu>>, r: int, c: int, color: Masu) -> bool {
    &&& b[r][c] == Masu::Empty
    &&& exists|d: int| 0 <= d < 8 && #[trigger] brackets(b, r, c, d, color)
}

/// Step `k` along `d` lies strictly inside a bracket closed by `color`: it
/// is among the stones that a placement of `color` at (r, c) turns over.
pub open spec fn flips_in(b: Seq<Seq<Masu>>, r: int, c: int, d: int, color: Masu, k: int) -> bool {
    1 <= k && exists|m: int| k < m && #[trigger] bracket_at(b, r, c, d, color, m)
}

/// The number of steps from (r, c) to (i, j) along `d`, when (i, j) is on
/// that ray.
pub open spec fn ray_index(r: int, c: int, d: int, i: int, j: int) -> int {
    if dir_r(d) == 1 {
        i - r
    } else if dir_r(d) == -1 {
        r - i
    } else if dir_c(d) == 1 {
        j - c
    } else {
        c - j
    }
}

/// (i, j) lies on the ray from (r, c) along `d`, the start included.
pub open spec fn on_ray(r: int, c: int, d: int, i: int, j: int) -> bool {
    let k = ray_index(r, c, d, i, j);
    0 <= k && ray_r(r, d, k) == i && ray_c(c, d, k) == j
}

/// (i, j) is turned over along direction `d` by the stone at (r, c).
pub open spec fn flipped_by(b: Seq<Seq<Masu>>, r: int, c: int, d: int, i: int, j: int) -> bool {
    on_ray(r, c, d, i, j) && flips_in(b, r, c, d, b[r][c], ray_index(r, c, d, i, j))
}

/// (i, j) is turned over along one of the first `n` directions.
pub open spec fn flipped_before(b: Seq<Seq<Masu>>, r: int, c: int, n: int, i: int, j: int) -> bool {
    exists|d: int| 0 <= d < n && #[trigger] flipped_by(b, r, c, d, i, j)
}

/// (i, j) is turned over by the stone at (r, c): it lies strictly inside a
/// bracket that the stone closes in some direction.
pub open spec fn flipped(b: Seq<Seq<Masu>>, r: int, c: int, i: int, j: int) -> bool {
    b[r][c] != Masu::Empty && flipped_before(b, r, c, 8, i, j)
}

/// The board after the stone at (r, c) turns over every run it brackets.
pub open spec fn reversed(b: Seq<Seq<Masu>>, r: int, c: int) -> Seq<Seq<Masu>> {
    Seq::new(
        8,
        |i: int| Seq::new(8, |j: int| if flipped(b, r, c, i, j) { b[r][c] } else { b[i][j] }),
    )
}

/// Two rays out of one cell meet nowhere but at that cell.
pub proof fn lemma_rays_disjoint(r: int, c: int, d: int, e: int, k: int, l: int)
    requires
        0 <= d < 8,
        0 <= e < 8,
        1 <= k,
        1 <= l,
        ray_r(r, d, k) == ray_r(r, e, l),
        ray_c(c, d, k) == ray_c(c, e, l),
    ensures
        d == e,
        k == l,
{
}

/// A ray holds at most one bracket closed by a given colour.
proof fn lemma_bracket_unique(b: Seq<Seq<Masu>>, r: int, c: int, d: int, color: Masu, m: int, n: int)
    requires
        bracket_at(b, r, c, d, color, m),
        bracket_at(b, r, c, d, color, n),
    ensures
        m == n,
{
    if m < n {
        assert(passes(b, r, c, d, color, m));
    } else if n < m {
        assert(passes(b, r, c, d, color, n));
    }
}

/// Whether a cell flips along `d` depends on the cells of that ray alone.
proof fn lemma_ray_agrees(a: Seq<Seq<Masu>>, b: Seq<Seq<Masu>>, r: int, c: int, d: int, color: Masu)
    requires
        forall|k: int|
            1 <= k && ray_in(r, c, d, k) ==> #[trigger] ray_cell(a, r, c, d, k) == ray_cell(b, r, c, d, k),
    ensures
        forall|k: int| #[trigger] flips_in(a, r, c, d, color, k) == flips_in(b, r, c, d, color, k),
{
    assert forall|j: int| 1 <= j implies #[trigger] passes(a, r, c, d, color, j) == passes(
        b,
        r,
        c,
        d,
        color,
        j,
    ) by {
        if ray_in(r, c, d, j) {
            assert(ray_cell(a, r, c, d, j) == ray_cell(b, r, c, d, j));
        }
    }
    assert forall|m: int| #[trigger] bracket_at(a, r, c, d, color, m) implies bracket_at(b, r, c, d, color, m) by {
        assert(ray_cell(a, r, c, d, m) == ray_cell(b, r, c, d, m));
        assert forall|j: int| 1 <= j < m implies #[trigger] passes(b, r, c, d, color, j) by {
            assert(passes(a, r, c, d, color, j));
        }
    }
    assert forall|m: int| #[trigger] bracket_at(b, r, c, d, color, m) implies bracket_at(a, r, c, d, color, m) by {
        assert(ray_cell(a, r, c, d, m) == ray_cell(b, r, c, d, m));
        assert forall|j: int| 1 <= j < m implies #[trigger] passes(a, r, c, d, color, j) by {
            assert(passes(b, r, c, d, color, j));
        }
    }
    assert forall|k: int| #[trigger] flips_in(a, r, c, d, color, k) == flips_in(b, r, c, d, color, k) by {
        if flips_in(a, r, c, d, color, k) {
            let m = choose|m: int| k < m && #[trigger] bracket_at(a, r, c, d, color, m);
            assert(bracket_at(b, r, c, d, color, m));
        }
        if flips_in(b, r, c, d, color, k) {
            let m = choose|m: int| k < m && #[trigger] bracket_at(b, r, c, d, color, m);
            assert(bracket_at(a, r, c, d, color, m));
        }
    }
}

/// The unit vector of direction `d`, for `d` in 0..8.
fn direction(d: usize) -> (v: (isize, isize))
    requires
        d < 8,
    ensures
        v.0 == dir_r(d as int),
        v.1 == dir_c(d as int),
{
    if d == 0 {
        (-1, -1)
    } else if d == 1 {
        (-1, 0)
    } else if d == 2 {
        (-1, 1)
    } else if d == 3 {
        (0, -1)
    } else if d == 4 {
        (0, 1)
    } else if d == 5 {
        (1, -1)
    } else if d == 6 {
        (1, 0)
    } else {
        (1, 1)
    }
}

/// Scans from `point` along direction `d` and returns the number of steps to
/// the stone of `color` that closes a bracket, or 0 where there is none.
fn bracket_end(field: &Field, point: (usize, usize), d: usize, color: Masu) -> (m: usize)
    requires
        point.0 < 8,
        point.1 < 8,
        d < 8,
        color != Masu::Empty,
    ensures
        m == 0 <==> !brackets(board_of(*field), point.0 as int, point.1 as int, d as int, color),
        m != 0 ==> bracket_at(board_of(*field), point.0 as int, point.1 as int, d as int, color, m as int),
{
    let ghost b = board_of(*field);
    let ghost r = point.0 as int;
    let ghost c = point.1 as int;
    let (dx, dy) = direction(d);
    let mut k: usize = 1;
    let mut x: isize = point.0 as isize + dx;
    let mut y: isize = point.1 as isize + dy;
    loop
        invariant
            1 <= k <= 8,
            x == ray_r(r, d as int, k as int),
            y == ray_c(c, d as int, k as int),
            dx == dir_r(d as int),
            dy == dir_c(d as int),
            d < 8,
            color != Masu::Empty,
            b == board_of(*field),
            r == point.0,
            c == point.1,
            in_board(r, c),
            forall|j: int| 1 <= j < k ==> #[trigger] passes(b, r, c, d as int, color, j),
        decreases 8 - k,
    {
        if x < 0 || x >= 8 || y < 0 || y >= 8 {
            assert forall|m: int| !#[trigger] bracket_at(b, r, c, d as int, color, m) by {
                if bracket_at(b, r, c, d as int, color, m) {
                    if m > k {
                        assert(passes(b, r, c, d as int, color, k as int));
                    } else if m < k {
                        assert(passes(b, r, c, d as int, color, m));
                    }
                }
            }
            return 0;
        }
        let here = field[x as usize][y as usize];
        assert(here == ray_cell(b, r, c, d as int, k as int));
        if here == Masu::Empty {
            assert forall|m: int| !#[trigger] bracket_at(b, r, c, d as int, color, m) by {
                if bracket_at(b, r, c, d as int, color, m) {
                    if m > k {
                        assert(passes(b, r, c, d as int, color, k as int));
                    } else if m < k {
                        assert(passes(b, r, c, d as int, color, m));
                    }
                }
            }
            return 0;
        }
        if here == color {
            if k == 1 {
                assert forall|m: int| !#[trigger] bracket_at(b, r, c, d as int, color, m) by {
                    if bracket_at(b, r, c, d as int, color, m) && m > 1 {
                        assert(passes(b, r, c, d as int, color, 1));
                    }
                }
                return 0;
            }
            assert(bracket_at(b, r, c, d as int, color, k as int));
            return k;
        }
        assert(passes(b, r, c, d as int, color, k as int));
        assert(k < 8);
        k += 1;
        x += dx;
        y += dy;
    }
}

/// Whether `turn` may place a stone at `point`: the cell is empty and some
/// direction holds a run of the opponent's stones closed by one of its own.
pub fn check_putable(field: &Field, point: &(usize, usize), turn: &Turn) -> (r: bool)
    requires
        point.0 < 8,
        point.1 < 8,
    ensures
        r == legal(board_of(*field), point.0 as int, point.1 as int, stone(*turn)),
{
    if field[point.0][point.1] != Masu::Empty {
        return false;
    }
    let check_color = match turn {
        Turn::Black => Masu::Black,
        Turn::White => Masu::White,
    };
    assert(board_of(*field)[point.0 as int][point.1 as int] == Masu::Empty);
    let mut d: usize = 0;
    while d < 8
        invariant
            d <= 8,
            board_of(*field)[point.0 as int][point.1 as int] == Masu::Empty,
            point.0 < 8,
            point.1 < 8,
            check_color == stone(*turn),
            forall|e: int|
                0 <= e < d ==> !#[trigger] brackets(
                    board_of(*field),
                    point.0 as int,
                    point.1 as int,
                    e,
                    check_color,
                ),
        decreases 8 - d,
    {
        if bracket_end(field, *point, d, check_color) != 0 {
            return true;
        }
        d += 1;
    }
    false
}

/// Turns over the run that the stone of `color` at `point` brackets along
/// direction `d`, if there is one.
fn reverse_ray(field: &mut Field, point: (usize, usize), d: usize, color: Masu)
    requires
        point.0 < 8,
        point.1 < 8,
        d < 8,
        color != Masu::Empty,
    ensures
        forall|i: int, j: int|
            in_board(i, j) ==> #[trigger] board_of(*final(field))[i][j] == if on_ray(
                point.0 as int,
                point.1 as int,
                d as int,
                i,
                j,
            ) && flips_in(
                board_of(*old(field)),
                point.0 as int,
                point.1 as int,
                d as int,
                color,
                ray_index(point.0 as int, point.1 as int, d as int, i, j),
            ) {
                color
            } else {
                board_of(*old(field))[i][j]
            },
{
    let ghost b0 = board_of(*field);
    let ghost r = point.0 as int;
    let ghost c = point.1 as int;
    let ghost di = d as int;
    let m = bracket_end(field, point, d, color);
    proof {
        assert forall|k: int| #[trigger] flips_in(b0, r, c, di, color, k) <==> 1 <= k < m by {
            if flips_in(b0, r, c, di, color, k) {
                let n = choose|n: int| k < n && #[trigger] bracket_at(b0, r, c, di, color, n);
                lemma_bracket_unique(b0, r, c, di, color, m as int, n);
            }
            if 1 <= k < m {
                assert(bracket_at(b0, r, c, di, color, m as int));
            }
        }
    }
    if m == 0 {
        return;
    }
    let (dx, dy) = direction(d);
    let mut t: usize = 1;
    let mut x: isize = point.0 as isize + dx;
    let mut y: isize = point.1 as isize + dy;
    while t < m
        invariant
            1 <= t <= m,
            bracket_at(b0, r, c, di, color, m as int),
            x == ray_r(r, di, t as int),
            y == ray_c(c, di, t as int),
            dx == dir_r(di),
            dy == dir_c(di),
            di == d,
            d < 8,
            r == point.0,
            c == point.1,
            in_board(r, c),
            forall|i: int, j: int|
                in_board(i, j) ==> #[trigger] board_of(*field)[i][j] == if on_ray(r, c, di, i, j)
                    && 1 <= ray_index(r, c, di, i, j) < t {
                    color
                } else {
                    b0[i][j]
                },
        decreases m - t,
    {
        assert(passes(b0, r, c, di, color, t as int));
        let ghost prev = board_of(*field);
        field[x as usize][y as usize] = color;
        proof {
            assert forall|i: int, j: int| in_board(i, j) implies #[trigger] board_of(*field)[i][j] == if i
                == x && j == y {
                color
            } else {
                prev[i][j]
            } by {
                if i == x {
                    assert(field@[i]@ == prev[i].update(y as int, color));
                }
            }
            assert(ray_index(r, c, di, x as int, y as int) == t);
        }
        t += 1;
        x += dx;
        y += dy;
    }
}

/// Turns over, in each of the eight directions, the run of opposing stones
/// that the stone at `point` brackets with a stone of its own colour. A
/// direction that meets an empty cell or the edge first is left alone.
pub fn auto_reverse(field: &mut Field, point: (usize, usize))
    requires
        point.0 < 8,
        point.1 < 8,
    ensures
        board_of(*final(field)) == reversed(board_of(*old(field)), point.0 as int, point.1 as int),
{
    let ghost b0 = board_of(*field);
    let ghost r = point.0 as int;
    let ghost c = point.1 as int;
    let color = field[point.0][point.1];
    if color == Masu::Empty {
        assert(board_of(*field) =~~= reversed(b0, r, c));
        return;
    }
    let mut d: usize = 0;
    while d < 8
        invariant
            d <= 8,
            r == point.0,
            c == point.1,
            in_board(r, c),
            color == b0[r][c],
            color != Masu::Empty,
            forall|i: int, j: int|
                in_board(i, j) ==> #[trigger] board_of(*field)[i][j] == if flipped_before(
                    b0,
                    r,
                    c,
                    d as int,
                    i,
                    j,
                ) {
                    color
                } else {
                    b0[i][j]
                },
        decreases 8 - d,
    {
        let ghost f = board_of(*field);
        let ghost di = d as int;
        proof {
            assert forall|k: int| 1 <= k && ray_in(r, c, di, k) implies #[trigger] ray_cell(f, r, c, di, k)
                == ray_cell(b0, r, c, di, k) by {
                let i = ray_r(r, di, k);
                let j = ray_c(c, di, k);
                if flipped_before(b0, r, c, di, i, j) {
                    let e = choose|e: int| 0 <= e < di && #[trigger] flipped_by(b0, r, c, e, i, j);
                    lemma_rays_disjoint(r, c, di, e, k, ray_index(r, c, e, i, j));
                }
            }
            lemma_ray_agrees(f, b0, r, c, di, color);
        }
        reverse_ray(field, point, d, color);
        proof {
            assert forall|i: int, j: int| in_board(i, j) implies #[trigger] flipped_before(b0, r, c, di + 1, i, j)
                == (flipped_before(b0, r, c, di, i, j) || flipped_by(b0, r, c, di, i, j)) by {
                if flipped_before(b0, r, c, di + 1, i, j) {
                    let e = choose|e: int| 0 <= e < di + 1 && #[trigger] flipped_by(b0, r, c, e, i, j);
                    if e < di {
                        assert(flipped_before(b0, r, c, di, i, j));
                    }
                }
                if flipped_before(b0, r, c, di, i, j) {
                    let e = choose|e: int| 0 <= e < di && #[trigger] flipped_by(b0, r, c, e, i, j);
                    assert(flipped_before(b0, r, c, di + 1, i, j));
                }
            }
        }
        d += 1;
    }
    assert(board_of(*field) =~~= reversed(b0, r, c));
}

} // verus!
