//! The mathematical model of a grid.
use vstd::prelude::*;
use vstd::arithmetic::div_mod::{
    lemma_fundamental_div_mod, lemma_fundamental_div_mod_converse, lemma_mod_add_multiples_vanish,
    lemma_mod_bound,
};
use vstd::arithmetic::mul::lemma_mul_inequality;

verus! {

/// How coordinates outside the grid are resolved.
#[derive(Clone, Copy, Debug, PartialEq, Eq, Structural)]
pub enum WrapMode {
    /// The grid is a torus: coordinates wrap around each edge.
    Wrap,
    /// Coordinates outside the grid name no cell, which counts as dead.
    NoWrap,
}

/// A grid as mathematics sees it: its size, its cells in row-major order
/// (`true` is alive) and its boundary policy.
pub struct GridModel {
    pub width: nat,
    pub height: nat,
    pub cells: Seq<bool>,
    pub wrap: WrapMode,
}

/// 1 for a live cell, 0 for a dead one.
pub open spec fn live(alive: bool) -> int {
    if alive {
        1
    } else {
        0
    }
}

/// The next state of a cell with `neighbors` live neighbors: two keep the
/// current state, three make it alive, any other count makes it dead.
pub open spec fn next_state(current: bool, neighbors: int) -> bool {
    if neighbors == 2 {
        current
    } else if neighbors == 3 {
        true
    } else {
        false
    }
}

/// The decimal digit of `n`, for `n` in 0..=9.
pub open spec fn digit_of(n: int) -> char {
    (n + '0' as int) as char
}

/// `chars` laid out in rows of `width`: a line break stands before each
/// character whose position is a positive multiple of `width`, and nowhere
/// else.
pub open spec fn rows_text(width: nat, chars: Seq<char>) -> Seq<char>
    decreases chars.len(),
{
    if chars.len() == 0 {
        Seq::empty()
    } else {
        let k = chars.len() - 1;
        let head = rows_text(width, chars.take(k));
        let brk = if k > 0 && k % (width as int) == 0 {
            seq!['\n']
        } else {
            Seq::empty()
        };
        head + brk + seq![chars[k]]
    }
}

impl GridModel {
    /// Positive dimensions, a cell count that fits in `isize`, and exactly
    /// `width * height` cells.
    pub open spec fn wf(self) -> bool {
        &&& self.width > 0
        &&& self.height > 0
        &&& self.width * self.height <= isize::MAX
        &&& self.cells.len() == self.width * self.height
    }

    pub open spec fn in_bounds(self, x: int, y: int) -> bool {
        0 <= x < self.width && 0 <= y < self.height
    }

    /// Row-major index of column `x`, row `y`.
    pub open spec fn index_of(self, x: int, y: int) -> int {
        y * self.width + x
    }

    /// Column and row of the linear index `i`.
    pub open spec fn coords_of(self, i: int) -> (int, int) {
        (i % (self.width as int), i / (self.width as int))
    }

    /// The cell that coordinates `(x, y)` stand for under the boundary
    /// policy, if any: wrapped onto the torus, or `None` outside the grid
    /// when clipped.
    pub open spec fn resolve(self, x: int, y: int) -> Option<int> {
        match self.wrap {
            WrapMode::Wrap => Some(
                self.index_of(x % (self.width as int), y % (self.height as int)),
            ),
            WrapMode::NoWrap => if self.in_bounds(x, y) {
                Some(self.index_of(x, y))
            } else {
                None
            },
        }
    }

    /// Whether `(x, y)` resolves to a live cell.
    pub open spec fn alive_at(self, x: int, y: int) -> bool {
        match self.resolve(x, y) {
            Some(i) => self.cells[i],
            None => false,
        }
    }

    /// The number of live cells among the eight around `(x, y)`.
    pub open spec fn live_around(self, x: int, y: int) -> int {
        live(self.alive_at(x - 1, y - 1)) + live(self.alive_at(x, y - 1)) + live(
            self.alive_at(x + 1, y - 1),
        ) + live(self.alive_at(x - 1, y)) + live(self.alive_at(x + 1, y)) + live(
            self.alive_at(x - 1, y + 1),
        ) + live(self.alive_at(x, y + 1)) + live(self.alive_at(x + 1, y + 1))
    }

    /// The number of live neighbors of the cell at linear index `i`.
    pub open spec fn neighbor_count(self, i: int) -> int {
        self.live_around(self.coords_of(i).0, self.coords_of(i).1)
    }

    /// The next generation's cells, each computed from this generation alone.
    pub open spec fn next_cells(self) -> Seq<bool> {
        Seq::new(self.cells.len(), |i: int| next_state(self.cells[i], self.neighbor_count(i)))
    }

    /// The grid one generation later.
    pub open spec fn next(self) -> GridModel {
        GridModel { cells: self.next_cells(), ..self }
    }

    pub open spec fn has_live_cell(self) -> bool {
        exists|i: int| 0 <= i < self.cells.len() && self.cells[i]
    }

    /// The grid drawn with `#` for live and a space for dead cells.
    pub open spec fn text(self) -> Seq<char> {
        rows_text(self.width, self.cells.map_values(|c: bool| crate::cell::glyph_of(c)))
    }

    /// The grid drawn with each cell's live-neighbor count.
    pub open spec fn neighbor_text(self) -> Seq<char> {
        rows_text(
            self.width,
            Seq::new(self.cells.len(), |i: int| digit_of(self.neighbor_count(i))),
        )
    }
}

/// Each side of a well-formed grid is at most its cell count, so both fit
/// in `isize`.
pub proof fn lemma_sides_bounded(g: GridModel)
    requires
        g.wf(),
    ensures
        g.width <= g.width * g.height,
        g.height <= g.width * g.height,
{
    let w = g.width as int;
    let h = g.height as int;
    assert(w <= w * h && h <= w * h) by (nonlinear_arith)
        requires
            w >= 1, h >= 1;
}

/// Every linear index of a grid names an in-bounds position, and that
/// position's row-major index is the index again.
pub proof fn lemma_index_round_trip(g: GridModel, i: int)
    requires
        g.wf(),
        0 <= i < g.width * g.height,
    ensures
        g.in_bounds(g.coords_of(i).0, g.coords_of(i).1),
        g.index_of(g.coords_of(i).0, g.coords_of(i).1) == i,
{
    let w = g.width as int;
    lemma_fundamental_div_mod(i, w);
    lemma_mod_bound(i, w);
    let q = i / w;
    if q >= g.height {
        lemma_mul_inequality(g.height as int, q, w);
        assert(w * q >= w * g.height) by (nonlinear_arith)
            requires
                q >= g.height, w > 0;
    }
    assert(q >= 0) by (nonlinear_arith)
        requires
            i == w * q + i % w, 0 <= i % w < w, i >= 0;
    assert(q * w == w * q) by (nonlinear_arith);
}

/// Every in-bounds position has an index below `width * height`, and that
/// index maps back to the same position.
pub proof fn lemma_coords_round_trip(g: GridModel, x: int, y: int)
    requires
        g.wf(),
        g.in_bounds(x, y),
    ensures
        0 <= g.index_of(x, y) < g.width * g.height,
        g.coords_of(g.index_of(x, y)) == (x, y),
{
    let w = g.width as int;
    let h = g.height as int;
    lemma_fundamental_div_mod_converse(y * w + x, w, y, x);
    assert(0 <= y * w + x < w * h) by (nonlinear_arith)
        requires
            0 <= x < w, 0 <= y < h;
}

/// Under wrap-around every pair of integers resolves to a cell of the grid,
/// and resolution repeats with period `width` across and `height` down.
pub proof fn lemma_wrap_resolves(g: GridModel, x: int, y: int)
    requires
        g.wf(),
        g.wrap == WrapMode::Wrap,
    ensures
        g.resolve(x, y) is Some,
        0 <= g.resolve(x, y)->0 < g.cells.len(),
        g.resolve(x, y) == g.resolve(x + g.width, y),
        g.resolve(x, y) == g.resolve(x, y + g.height),
{
    let w = g.width as int;
    let h = g.height as int;
    lemma_mod_bound(x, w);
    lemma_mod_bound(y, h);
    lemma_coords_round_trip(g, x % w, y % h);
    lemma_mod_add_multiples_vanish(x, w);
    lemma_mod_add_multiples_vanish(y, h);
    assert(w + x == x + w);
    assert(h + y == y + h);
}

/// Without wrap-around, coordinates outside the grid resolve to no cell and
/// coordinates inside it resolve to their row-major index.
pub proof fn lemma_clip_resolves(g: GridModel, x: int, y: int)
    requires
        g.wf(),
        g.wrap == WrapMode::NoWrap,
    ensures
        !g.in_bounds(x, y) ==> g.resolve(x, y) is None,
        g.in_bounds(x, y) ==> g.resolve(x, y) == Some(y * g.width + x),
{
}

/// Every cell has between zero and eight live neighbors.
pub proof fn lemma_neighbor_count_bound(g: GridModel, i: int)
    ensures
        0 <= g.neighbor_count(i) <= 8,
{
}

/// A grid whose cells are all dead has no live cell.
pub proof fn lemma_all_dead_has_no_live_cell(g: GridModel)
    requires
        forall|i: int| 0 <= i < g.cells.len() ==> !g.cells[i],
    ensures
        !g.has_live_cell(),
{
}

/// A grid without live cells stays without live cells.
pub proof fn lemma_dead_grid_stays_dead(g: GridModel)
    requires
        g.wf(),
        !g.has_live_cell(),
    ensures
        !g.next().has_live_cell(),
{
    assert forall|x: int, y: int| !g.alive_at(x, y) by {
        lemma_resolves_inside(g, x, y);
    }
}

/// Whatever the boundary policy, a resolved cell is a cell of the grid.
pub proof fn lemma_resolves_inside(g: GridModel, x: int, y: int)
    requires
        g.wf(),
    ensures
        g.resolve(x, y) matches Some(i) ==> 0 <= i < g.cells.len(),
{
    if g.wrap == WrapMode::Wrap {
        lemma_wrap_resolves(g, x, y);
    } else if g.in_bounds(x, y) {
        lemma_coords_round_trip(g, x, y);
    }
}

/// Two integers at most two apart but not equal have different remainders
/// modulo a modulus of three or more.
proof fn lemma_near_values_differ_mod(a: int, b: int, m: int)
    requires
        m >= 3,
        a != b,
        -2 <= a - b <= 2,
    ensures
        a % m != b % m,
{
    lemma_fundamental_div_mod(a, m);
    lemma_fundamental_div_mod(b, m);
    lemma_mod_bound(a, m);
    lemma_mod_bound(b, m);
    let qa = a / m;
    let qb = b / m;
    if a % m == b % m {
        assert(a - b == m * (qa - qb)) by (nonlinear_arith)
            requires
                a == m * qa + a % m, b == m * qb + b % m, a % m == b % m;
        assert(false) by (nonlinear_arith)
            requires
                a - b == m * (qa - qb), m >= 3, a != b, -2 <= a - b <= 2;
    }
}

/// On a wrapped grid whose only live cell is `k`, a position is alive exactly
/// when it wraps onto the column and row of `k`.
proof fn lemma_alive_at_lone(g: GridModel, k: int, x: int, y: int)
    requires
        g.wf(),
        g.wrap == WrapMode::Wrap,
        0 <= k < g.cells.len(),
        forall|i: int| 0 <= i < g.cells.len() ==> g.cells[i] == (i == k),
    ensures
        g.alive_at(x, y) == (x % (g.width as int) == g.coords_of(k).0 && y % (g.height as int)
            == g.coords_of(k).1),
{
    let w = g.width as int;
    let h = g.height as int;
    lemma_wrap_resolves(g, x, y);
    lemma_mod_bound(x, w);
    lemma_mod_bound(y, h);
    lemma_coords_round_trip(g, x % w, y % h);
    lemma_index_round_trip(g, k);
}

/// On a wrapped grid of at least three by three cells, a single live cell
/// among dead ones dies in the next generation, and so does every other cell:
/// no cell has more than one live neighbor.
pub proof fn lemma_lone_cell_dies(g: GridModel, k: int)
    requires
        g.wf(),
        g.wrap == WrapMode::Wrap,
        g.width >= 3,
        g.height >= 3,
        0 <= k < g.cells.len(),
        forall|i: int| 0 <= i < g.cells.len() ==> g.cells[i] == (i == k),
    ensures
        forall|i: int| 0 <= i < g.cells.len() ==> g.neighbor_count(i) <= 1,
        !g.next().has_live_cell(),
{
    let w = g.width as int;
    let h = g.height as int;
    assert forall|i: int| 0 <= i < g.cells.len() implies g.neighbor_count(i) <= 1 by {
        let x = g.coords_of(i).0;
        let y = g.coords_of(i).1;
        lemma_near_values_differ_mod(x - 1, x, w);
        lemma_near_values_differ_mod(x - 1, x + 1, w);
        lemma_near_values_differ_mod(x, x + 1, w);
        lemma_near_values_differ_mod(y - 1, y, h);
        lemma_near_values_differ_mod(y - 1, y + 1, h);
        lemma_near_values_differ_mod(y, y + 1, h);
        lemma_alive_at_lone(g, k, x - 1, y - 1);
        lemma_alive_at_lone(g, k, x, y - 1);
        lemma_alive_at_lone(g, k, x + 1, y - 1);
        lemma_alive_at_lone(g, k, x - 1, y);
        lemma_alive_at_lone(g, k, x + 1, y);
        lemma_alive_at_lone(g, k, x - 1, y + 1);
        lemma_alive_at_lone(g, k, x, y + 1);
        lemma_alive_at_lone(g, k, x + 1, y + 1);
    }
    assert forall|i: int| 0 <= i < g.cells.len() implies !g.next().cells[i] by {
        assert(g.neighbor_count(i) <= 1);
    }
}

} // verus!
