//! The toroidal grid of cell states.

use vstd::prelude::*;
use vstd::arithmetic::div_mod::{
    lemma_fundamental_div_mod, lemma_mod_bound, lemma_mod_multiples_vanish, lemma_small_mod,
};

verus! {

/// A two-dimensional grid of cells stored as one flat row-major vector.
/// A state of `0` is a dead cell; any positive value is alive, possibly
/// carrying a remaining lifetime. Reads wrap around both edges (the grid is
/// a torus); writes take unwrapped, in-range coordinates.
#[derive(Clone)]
pub struct Board {
    /// Width of the grid, in cells.
    pub cx: i32,
    /// Height of the grid, in cells.
    pub cy: i32,
    /// Cell states in row-major order: cell `(x, y)` lives at `y * cx + x`.
    pub states: Vec<i8>,
}

/// The decay rule of the lifetime variant: subtract `amount` from a cell
/// state, clamped at a floor of `0`.
pub open spec fn decayed(state: int, amount: int) -> int {
    if state - amount >= 0 {
        state - amount
    } else {
        0
    }
}

/// In-range coordinates `(x, y)` and the flat index `y * cx + x` stay inside
/// a state vector of length `cx * cy`.
pub proof fn lemma_flat_index_in_range(cx: int, cy: int, x: int, y: int)
    requires
        0 <= x < cx,
        0 <= y < cy,
    ensures
        0 <= y * cx + x < cx * cy,
{
    assert(0 <= y * cx + x < cx * cy) by (nonlinear_arith)
        requires
            0 <= x < cx,
            0 <= y < cy,
    ;
}

/// Distinct in-range coordinates have distinct flat indices.
pub proof fn lemma_flat_index_injective(cx: int, x1: int, y1: int, x2: int, y2: int)
    requires
        0 <= x1 < cx,
        0 <= x2 < cx,
        x1 != x2 || y1 != y2,
    ensures
        y1 * cx + x1 != y2 * cx + x2,
{
    assert(y1 * cx + x1 != y2 * cx + x2) by (nonlinear_arith)
        requires
            0 <= x1 < cx,
            0 <= x2 < cx,
            x1 != x2 || y1 != y2,
    ;
}

/// For negative `x`, the Euclidean remainder can be computed from the
/// remainder of the non-negative number `-1 - x`.
proof fn lemma_mod_of_negative(x: int, m: int)
    requires
        x < 0,
        0 < m,
    ensures
        x % m == m - 1 - ((-1 - x) % m),
{
    let s = -1 - x;
    let q = s / m;
    let r = s % m;
    lemma_fundamental_div_mod(s, m);
    lemma_mod_bound(s, m);
    assert(m * (-q - 1) == -(m * q) - m) by (nonlinear_arith);
    assert(x == m * (-q - 1) + (m - 1 - r));
    lemma_mod_multiples_vanish(-q - 1, m - 1 - r, m);
    lemma_small_mod((m - 1 - r) as nat, m as nat);
}

/// Wraps an arbitrary coordinate into `[0, m)` by Euclidean remainder, so
/// that probes one past either edge land on the opposite edge.
fn wrap_coord(x: i32, m: i32) -> (r: i32)
    requires
        0 < m,
    ensures
        r == (x as int) % (m as int),
{
    if x >= 0 {
        x % m
    } else {
        let t = (-1 - x) % m;
        proof {
            lemma_mod_of_negative(x as int, m as int);
        }
        m - 1 - t
    }
}

/// Relies on macroquad::rand::rand (quad_rand): a pseudo-random `u32` drawn
/// from a global generator state. The value depends on that state, so nothing
/// is promised of it; the call never panics.
#[verifier::external_body]
fn random_u32() -> u32 {
    macroquad::rand::rand()
}

impl Board {
    /// Structural invariant: positive dimensions whose product fits the index
    /// arithmetic, exactly one state per cell, and no negative state.
    pub open spec fn wf(self) -> bool {
        &&& 0 < self.cx
        &&& 0 < self.cy
        &&& self.cx * self.cy <= i32::MAX
        &&& self.states@.len() == self.cx * self.cy
        &&& forall|i: int| 0 <= i < self.states@.len() ==> 0 <= #[trigger] self.states@[i]
    }

    /// The state of the cell at in-range coordinates.
    pub open spec fn cell(self, x: int, y: int) -> int {
        self.states@[y * self.cx + x] as int
    }

    /// The state of the cell at arbitrary integer coordinates, wrapped
    /// toroidally into the grid.
    pub open spec fn cell_wrapped(self, x: int, y: int) -> int {
        self.cell(x % (self.cx as int), y % (self.cy as int))
    }

    /// Every cell of the grid is dead.
    pub open spec fn all_dead(self) -> bool {
        forall|i: int| 0 <= i < self.states@.len() ==> self.states@[i] == 0
    }

    /// Every cell state is `0` or `1` (no lifetime counter above one).
    pub open spec fn binary(self) -> bool {
        forall|i: int| 0 <= i < self.states@.len() ==> #[trigger] self.states@[i] <= 1
    }

    /// A fresh grid of the given dimensions with every cell dead.
    pub fn new(cx: i32, cy: i32) -> (board: Board)
        requires
            0 < cx,
            0 < cy,
            cx * cy <= i32::MAX,
        ensures
            board.wf(),
            board.cx == cx,
            board.cy == cy,
            board.all_dead(),
    {
        let count = (cx * cy) as usize;
        let mut states: Vec<i8> = Vec::new();
        while states.len() < count
            invariant
                states@.len() <= count,
                forall|i: int| 0 <= i < states@.len() ==> states@[i] == 0,
            decreases count - states@.len(),
        {
            states.push(0);
        }
        Board { cx, cy, states }
    }

    /// The cell state at `(x, y)`, with both coordinates wrapped into the
    /// grid; a probe at column `-1` reads the last column.
    pub fn get_cell_at_position(&self, x: i32, y: i32) -> (state: i8)
        requires
            self.wf(),
        ensures
            state == self.cell_wrapped(x as int, y as int),
            0 <= state,
    {
        let nx = wrap_coord(x, self.cx);
        let ny = wrap_coord(y, self.cy);
        proof {
            lemma_mod_bound(x as int, self.cx as int);
            lemma_mod_bound(y as int, self.cy as int);
            lemma_flat_index_in_range(self.cx as int, self.cy as int, nx as int, ny as int);
        }
        let index = (ny * self.cx + nx) as usize;
        self.states[index]
    }

    /// Overwrites the cell at unwrapped, in-range coordinates `(x, y)`.
    pub fn set_cell_at_position(&mut self, x: i32, y: i32, state: i8)
        requires
            old(self).wf(),
            0 <= x < old(self).cx,
            0 <= y < old(self).cy,
            0 <= state,
        ensures
            final(self).wf(),
            final(self).cx == old(self).cx,
            final(self).cy == old(self).cy,
            final(self).states@ == old(self).states@.update(y * old(self).cx + x, state),
            final(self).cell(x as int, y as int) == state,
            forall|x2: int, y2: int|
                0 <= x2 < old(self).cx && 0 <= y2 < old(self).cy && !(x2 == x && y2 == y)
                    ==> final(self).cell(x2, y2) == old(self).cell(x2, y2),
    {
        proof {
            lemma_flat_index_in_range(self.cx as int, self.cy as int, x as int, y as int);
        }
        let index = (y * self.cx + x) as usize;
        self.states[index] = state;
        proof {
            assert forall|x2: int, y2: int|
                0 <= x2 < self.cx && 0 <= y2 < self.cy && !(x2 == x && y2 == y)
                    implies self.cell(x2, y2) == old(self).cell(x2, y2) by {
                lemma_flat_index_in_range(self.cx as int, self.cy as int, x2, y2);
                lemma_flat_index_injective(self.cx as int, x as int, y as int, x2, y2);
            }
        }
    }

    /// Subtracts `amount` from the cell at unwrapped, in-range coordinates,
    /// clamping the state at a floor of `0` (lifetime decay).
    pub fn lower_cell_lifetime(&mut self, x: i32, y: i32, amount: i8)
        requires
            old(self).wf(),
            0 <= x < old(self).cx,
            0 <= y < old(self).cy,
            0 <= amount,
        ensures
            final(self).wf(),
            final(self).cx == old(self).cx,
            final(self).cy == old(self).cy,
            final(self).cell(x as int, y as int) == decayed(old(self).cell(x as int, y as int), amount as int),
            forall|x2: int, y2: int|
                0 <= x2 < old(self).cx && 0 <= y2 < old(self).cy && !(x2 == x && y2 == y)
                    ==> final(self).cell(x2, y2) == old(self).cell(x2, y2),
    {
        proof {
            lemma_flat_index_in_range(self.cx as int, self.cy as int, x as int, y as int);
        }
        let index = (y * self.cx + x) as usize;
        let current = self.states[index];
        let lowered = if current >= amount {
            current - amount
        } else {
            0
        };
        self.states[index] = lowered;
        proof {
            assert forall|x2: int, y2: int|
                0 <= x2 < self.cx && 0 <= y2 < self.cy && !(x2 == x && y2 == y)
                    implies self.cell(x2, y2) == old(self).cell(x2, y2) by {
                lemma_flat_index_in_range(self.cx as int, self.cy as int, x2, y2);
                lemma_flat_index_injective(self.cx as int, x as int, y as int, x2, y2);
            }
        }
    }

    /// Kills every cell, keeping the dimensions.
    pub fn clear(&mut self)
        requires
            old(self).wf(),
        ensures
            final(self).wf(),
            final(self).cx == old(self).cx,
            final(self).cy == old(self).cy,
            final(self).all_dead(),
    {
        let mut i: usize = 0;
        let end = self.states.len();
        while i < end
            invariant
                end == self.states@.len(),
                self.cx == old(self).cx,
                self.cy == old(self).cy,
                self.wf(),
                i <= end,
                forall|j: int| 0 <= j < i ==> self.states@[j] == 0,
            decreases end - i,
        {
            self.states[i] = 0;
            i = i + 1;
        }
    }

    /// Replaces every cell with an independent coin flip: alive (`1`) when
    /// the pseudo-random draw is even, dead (`0`) otherwise. Whatever is
    /// drawn, the grid ends up boolean.
    pub fn randomize(&mut self)
        requires
            old(self).wf(),
        ensures
            final(self).wf(),
            final(self).cx == old(self).cx,
            final(self).cy == old(self).cy,
            final(self).binary(),
    {
        let mut i: usize = 0;
        let end = self.states.len();
        while i < end
            invariant
                end == self.states@.len(),
                self.cx == old(self).cx,
                self.cy == old(self).cy,
                self.wf(),
                i <= end,
                forall|j: int| 0 <= j < i ==> #[trigger] self.states@[j] <= 1,
            decreases end - i,
        {
            let draw = random_u32();
            let state: i8 = if draw % 2 == 0 {
                1
            } else {
                0
            };
            self.states[i] = state;
            i = i + 1;
        }
    }

    /// A grid whose every in-range cell reads dead is all dead: each state
    /// index is the flat position of exactly one in-range coordinate pair.
    pub proof fn lemma_dead_cells_make_dead_grid(self)
        requires
            self.wf(),
            forall|x: int, y: int|
                0 <= x < self.cx && 0 <= y < self.cy ==> #[trigger] self.cell(x, y) == 0,
        ensures
            self.all_dead(),
    {
        let cx = self.cx as int;
        let cy = self.cy as int;
        assert forall|i: int| 0 <= i < self.states@.len() implies self.states@[i] == 0 by {
            let x = i % cx;
            let y = i / cx;
            lemma_fundamental_div_mod(i, cx);
            lemma_mod_bound(i, cx);
            assert(0 <= y < cy) by (nonlinear_arith)
                requires
                    0 < cx,
                    0 <= i < cx * cy,
                    i == cx * (i / cx) + i % cx,
                    0 <= i % cx < cx,
                    y == i / cx,
            ;
            assert(self.cell(x, y) == 0);
            assert(y * cx + x == i) by (nonlinear_arith)
                requires
                    i == cx * (i / cx) + i % cx,
                    x == i % cx,
                    y == i / cx,
            ;
        }
    }

    /// Wrapping a coordinate by any whole number of grid widths or heights
    /// reads the same cell: the grid is a torus.
    pub proof fn lemma_toroidal_wrap(self, x: int, y: int, k: int)
        requires
            self.wf(),
        ensures
            self.cell_wrapped(x + k * self.cx, y) == self.cell_wrapped(x, y),
            self.cell_wrapped(x, y + k * self.cy) == self.cell_wrapped(x, y),
    {
        lemma_mod_multiples_vanish(k, x, self.cx as int);
        lemma_mod_multiples_vanish(k, y, self.cy as int);
        assert(k * self.cx == (self.cx as int) * k) by (nonlinear_arith);
        assert(k * self.cy == (self.cy as int) * k) by (nonlinear_arith);
    }
}

} // verus!
