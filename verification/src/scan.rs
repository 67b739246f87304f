use vstd::prelude::*;

use crate::Cell;
use crate::GRID_H;
use crate::GRID_W;
use crate::WIN_LENGTH;
use crate::board::Board;
use crate::in_bounds;

verus! {

/// The cell `j` steps from (x, y) along (dx, dy) lies on the board and
/// holds `k`.
pub open spec fn step_ok(b: &Board, k: Cell, x: int, y: int, dx: int, dy: int, j: int) -> bool {
    &&& in_bounds(x + j * dx, y + j * dy)
    &&& b.cell_at(x + j * dx, y + j * dy) == k
}

/// The first `n` cells strictly after (x, y) along (dx, dy) all hold `k`.
pub open spec fn streak_to(b: &Board, k: Cell, x: int, y: int, dx: int, dy: int, n: int) -> bool {
    forall|j: int| 1 <= j <= n ==> #[trigger] step_ok(b, k, x, y, dx, dy, j)
}

/// Steps s, s+1, ..., s+WIN_LENGTH-1 from (x, y) along (dx, dy) all hold
/// `k`: a full-length run whose cells sit at those offsets.
pub open spec fn run_covering(
    b: &Board,
    k: Cell,
    x: int,
    y: int,
    dx: int,
    dy: int,
    s: int,
) -> bool {
    forall|j: int| s <= j < s + WIN_LENGTH ==> #[trigger] step_ok(b, k, x, y, dx, dy, j)
}

/// Along the axis of (dx, dy) there is a run of WIN_LENGTH cells of the
/// kind found at (x, y) that contains (x, y) itself.
pub open spec fn win_in_dir(b: &Board, x: int, y: int, dx: int, dy: int) -> bool {
    exists|s: int|
        1 - WIN_LENGTH <= s <= 0 && #[trigger] run_covering(
            b,
            b.cell_at(x, y),
            x,
            y,
            dx,
            dy,
            s,
        )
}

/// Placing at (x, y) completed a run of WIN_LENGTH cells along one of the
/// four axes: vertical, the two diagonals, or horizontal.
pub open spec fn is_winning_placement(b: &Board, x: int, y: int) -> bool {
    ||| win_in_dir(b, x, y, 0, 1)
    ||| win_in_dir(b, x, y, 1, 1)
    ||| win_in_dir(b, x, y, 1, 0)
    ||| win_in_dir(b, x, y, 1, -1)
}

/// One step from `coord1` by the unit vector `direction`, or None when the
/// step would leave the board. Underflow is ruled out by testing the
/// coordinate against zero before decrementing.
pub fn sum_coordinates(coord1: (usize, usize), direction: (i8, i8)) -> (r: Option<(usize, usize)>)
    requires
        coord1.0 < GRID_W,
        coord1.1 < GRID_H,
        -1 <= direction.0 <= 1,
        -1 <= direction.1 <= 1,
    ensures
        in_bounds(coord1.0 + direction.0, coord1.1 + direction.1) ==> r == Some(
            (
                (coord1.0 + direction.0) as usize,
                (coord1.1 + direction.1) as usize,
            ),
        ),
        !in_bounds(coord1.0 + direction.0, coord1.1 + direction.1) ==> r is None,
{
    let nx: usize = if direction.0 < 0 {
        if coord1.0 == 0 {
            return None;
        }
        coord1.0 - 1
    } else {
        let stepped = coord1.0 + direction.0 as usize;
        if stepped >= GRID_W {
            return None;
        }
        stepped
    };
    let ny: usize = if direction.1 < 0 {
        if coord1.1 == 0 {
            return None;
        }
        coord1.1 - 1
    } else {
        let stepped = coord1.1 + direction.1 as usize;
        if stepped >= GRID_H {
            return None;
        }
        stepped
    };
    Some((nx, ny))
}

/// The same axis walked the other way.
pub fn flip_direction(direction: (i8, i8)) -> (r: (i8, i8))
    requires
        -1 <= direction.0 <= 1,
        -1 <= direction.1 <= 1,
    ensures
        r.0 as int == -(direction.0 as int),
        r.1 as int == -(direction.1 as int),
{
    (direction.0 * -1, direction.1 * -1)
}

proof fn lemma_mul_step(a: int, d: int)
    by (nonlinear_arith)
    ensures
        (a + 1) * d == a * d + d,
{
}

proof fn lemma_mul_unit(a: int, d: int)
    by (nonlinear_arith)
    ensures
        d == 1 ==> a * d == a,
        d == -1 ==> a * d == -a,
        d == 0 ==> a * d == 0,
{
}

/// Stepping j cells against (dx, dy) is stepping -j cells along it.
proof fn lemma_step_flip(b: &Board, k: Cell, x: int, y: int, dx: int, dy: int, j: int)
    ensures
        step_ok(b, k, x, y, -dx, -dy, j) == step_ok(b, k, x, y, dx, dy, -j),
{
    assert(j * -dx == -j * dx) by (nonlinear_arith);
    assert(j * -dy == -j * dy) by (nonlinear_arith);
}

/// The run through (x, y) along the axis of (dx, dy) has WIN_LENGTH cells
/// or more exactly when a full-length run containing (x, y) exists there:
/// `bk` and `fw` are maximal same-kind streaks backward and forward.
proof fn lemma_win_characterization(
    b: &Board,
    k: Cell,
    x: int,
    y: int,
    dx: int,
    dy: int,
    bk: int,
    fw: int,
)
    requires
        b.wf(),
        in_bounds(x, y),
        k == b.cell_at(x, y),
        bk >= 0,
        fw >= 0,
        streak_to(b, k, x, y, -dx, -dy, bk),
        !step_ok(b, k, x, y, -dx, -dy, bk + 1),
        streak_to(b, k, x, y, dx, dy, fw),
        !step_ok(b, k, x, y, dx, dy, fw + 1),
    ensures
        (bk + 1 + fw >= WIN_LENGTH) == win_in_dir(b, x, y, dx, dy),
{
    let wl = WIN_LENGTH as int;
    if bk + 1 + fw >= wl {
        let s = if bk >= wl - 1 { 1 - wl } else { -bk };
        assert forall|j: int| s <= j < s + wl implies step_ok(b, k, x, y, dx, dy, j) by {
            if j < 0 {
                assert(step_ok(b, k, x, y, -dx, -dy, -j));
                lemma_step_flip(b, k, x, y, dx, dy, -j);
            } else if j == 0 {
                assert(0 * dx == 0) by (nonlinear_arith);
                assert(0 * dy == 0) by (nonlinear_arith);
            } else {
                assert(step_ok(b, k, x, y, dx, dy, j));
            }
        }
        assert(run_covering(b, k, x, y, dx, dy, s));
        assert(win_in_dir(b, x, y, dx, dy));
    }
    if win_in_dir(b, x, y, dx, dy) {
        let s = choose|s: int|
            1 - wl <= s <= 0 && #[trigger] run_covering(b, b.cell_at(x, y), x, y, dx, dy, s);
        if bk < -s {
            assert(step_ok(b, k, x, y, dx, dy, -(bk + 1)));
            lemma_step_flip(b, k, x, y, dx, dy, bk + 1);
            assert(false);
        }
        if fw < s + wl - 1 {
            assert(step_ok(b, k, x, y, dx, dy, fw + 1));
            assert(false);
        }
        assert(bk + 1 + fw >= wl);
    }
}

proof fn lemma_covering_same_cells(
    b1: &Board,
    b2: &Board,
    k: Cell,
    x: int,
    y: int,
    dx: int,
    dy: int,
    s: int,
)
    requires
        b1.cells@ == b2.cells@,
        run_covering(b1, k, x, y, dx, dy, s),
    ensures
        run_covering(b2, k, x, y, dx, dy, s),
{
    assert forall|j: int| s <= j < s + WIN_LENGTH implies step_ok(b2, k, x, y, dx, dy, j) by {
        assert(step_ok(b1, k, x, y, dx, dy, j));
    }
}

/// A win is a fact of the grid alone: states with equal cells agree on it.
pub proof fn lemma_win_depends_on_cells(b1: &Board, b2: &Board, x: int, y: int)
    requires
        b1.cells@ == b2.cells@,
    ensures
        is_winning_placement(b1, x, y) == is_winning_placement(b2, x, y),
{
    let k = b1.cell_at(x, y);
    assert(b2.cell_at(x, y) == k);
    assert forall|dx: int, dy: int| #[trigger] win_in_dir(b1, x, y, dx, dy) == win_in_dir(
        b2,
        x,
        y,
        dx,
        dy,
    ) by {
        if win_in_dir(b1, x, y, dx, dy) {
            let s = choose|s: int|
                1 - WIN_LENGTH <= s <= 0 && #[trigger] run_covering(
                    b1,
                    b1.cell_at(x, y),
                    x,
                    y,
                    dx,
                    dy,
                    s,
                );
            lemma_covering_same_cells(b1, b2, k, x, y, dx, dy, s);
            assert(run_covering(b2, b2.cell_at(x, y), x, y, dx, dy, s));
        }
        if win_in_dir(b2, x, y, dx, dy) {
            let s = choose|s: int|
                1 - WIN_LENGTH <= s <= 0 && #[trigger] run_covering(
                    b2,
                    b2.cell_at(x, y),
                    x,
                    y,
                    dx,
                    dy,
                    s,
                );
            lemma_covering_same_cells(b2, b1, k, x, y, dx, dy, s);
            assert(run_covering(b1, b1.cell_at(x, y), x, y, dx, dy, s));
        }
    }
}

impl Board {
    /// How many cells of `kind` follow (x0, y0) consecutively along
    /// (dx, dy), walking until the board's edge or a differing cell.
    fn count_same(&self, x0: usize, y0: usize, dx: i8, dy: i8, kind: Cell) -> (n: u8)
        requires
            self.wf(),
            in_bounds(x0 as int, y0 as int),
            -1 <= dx <= 1,
            -1 <= dy <= 1,
            !(dx == 0 && dy == 0),
        ensures
            n <= GRID_W + GRID_H,
            streak_to(self, kind, x0 as int, y0 as int, dx as int, dy as int, n as int),
            !step_ok(self, kind, x0 as int, y0 as int, dx as int, dy as int, n as int + 1),
    {
        let mut n: u8 = 0;
        let mut cx: usize = x0;
        let mut cy: usize = y0;
        loop
            invariant
                self.wf(),
                in_bounds(x0 as int, y0 as int),
                -1 <= dx <= 1,
                -1 <= dy <= 1,
                !(dx == 0 && dy == 0),
                in_bounds(cx as int, cy as int),
                cx as int == x0 + n * (dx as int),
                cy as int == y0 + n * (dy as int),
                n <= GRID_W + GRID_H,
                streak_to(self, kind, x0 as int, y0 as int, dx as int, dy as int, n as int),
            decreases (if dx < 0 {
                cx as int
            } else {
                GRID_W - cx
            }) * 2 + (if dy < 0 {
                cy as int
            } else {
                GRID_H - cy
            }),
        {
            proof {
                lemma_mul_step(n as int, dx as int);
                lemma_mul_step(n as int, dy as int);
            }
            match sum_coordinates((cx, cy), (dx, dy)) {
                Some(new_pos) => {
                    match self.get(new_pos.0, new_pos.1) {
                        Some(tile) => {
                            if *tile == kind {
                                proof {
                                    lemma_mul_unit(n as int + 1, dx as int);
                                    lemma_mul_unit(n as int + 1, dy as int);
                                    assert(step_ok(
                                        self,
                                        kind,
                                        x0 as int,
                                        y0 as int,
                                        dx as int,
                                        dy as int,
                                        n as int + 1,
                                    ));
                                    assert forall|j: int| 1 <= j <= n as int + 1 implies step_ok(
                                        self,
                                        kind,
                                        x0 as int,
                                        y0 as int,
                                        dx as int,
                                        dy as int,
                                        j,
                                    ) by {}
                                }
                                n = n + 1;
                                cx = new_pos.0;
                                cy = new_pos.1;
                            } else {
                                return n;
                            }
                        },
                        None => {
                            return n;
                        },
                    }
                },
                None => {
                    return n;
                },
            }
        }
    }

    /// Length of the maximal run of `kind` cells through `pos` along the
    /// axis of `dir`: the scan walks `dir` to the run's endpoint, then
    /// counts along the flipped direction.
    fn run_length(&self, pos: (usize, usize), dir: (i8, i8), kind: Cell) -> (n: u8)
        requires
            self.wf(),
            in_bounds(pos.0 as int, pos.1 as int),
            -1 <= dir.0 <= 1,
            -1 <= dir.1 <= 1,
            !(dir.0 == 0 && dir.1 == 0),
            kind == self.cell_at(pos.0 as int, pos.1 as int),
        ensures
            (n >= WIN_LENGTH) == win_in_dir(
                self,
                pos.0 as int,
                pos.1 as int,
                -(dir.0 as int),
                -(dir.1 as int),
            ),
    {
        let back = self.count_same(pos.0, pos.1, dir.0, dir.1, kind);
        let forward_dir = flip_direction(dir);
        let forward = self.count_same(pos.0, pos.1, forward_dir.0, forward_dir.1, kind);
        proof {
            lemma_win_characterization(
                self,
                kind,
                pos.0 as int,
                pos.1 as int,
                -(dir.0 as int),
                -(dir.1 as int),
                back as int,
                forward as int,
            );
        }
        back + 1 + forward
    }

    /// True exactly when the occupied cell at `cursor_pos` sits in a run of
    /// at least WIN_LENGTH same-kind cells along one of the four axes.
    /// Reads the board only; two calls on the same state answer alike.
    pub fn check_win(&self, cursor_pos: (usize, usize)) -> (r: bool)
        requires
            self.wf(),
            in_bounds(cursor_pos.0 as int, cursor_pos.1 as int),
            self.cell_at(cursor_pos.0 as int, cursor_pos.1 as int) != Cell::Empty,
        ensures
            r == is_winning_placement(self, cursor_pos.0 as int, cursor_pos.1 as int),
    {
        let kind: Cell = match self.get(cursor_pos.0, cursor_pos.1) {
            Some(tile) => *tile,
            None => Cell::Empty,  // not reached: the position is on the board
        };
        if self.run_length(cursor_pos, (0, -1), kind) >= WIN_LENGTH {
            return true;
        }
        if self.run_length(cursor_pos, (-1, -1), kind) >= WIN_LENGTH {
            return true;
        }
        if self.run_length(cursor_pos, (-1, 0), kind) >= WIN_LENGTH {
            return true;
        }
        if self.run_length(cursor_pos, (-1, 1), kind) >= WIN_LENGTH {
            return true;
        }
        false
    }
}

} // verus!
