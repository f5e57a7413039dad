//! Static grid geometry: the grid-aligned coordinate space, the four travel
//! directions, and wraparound at the screen edges.

use vstd::prelude::*;

verus! {

use vstd::arithmetic::div_mod::{
    lemma_fundamental_div_mod,
    lemma_mod_multiples_basic,
    lemma_mod_add_multiples_vanish,
    lemma_mod_sub_multiples_vanish,
    lemma_sub_mod_noop,
    lemma_small_mod,
    lemma_div_pos_is_pos,
    lemma_div_nonincreasing,
};
use vstd::set_lib::{set_int_range, lemma_int_range, lemma_len_subset};

/// A 2D position in pixel units. While it lies on the grid it is an integer
/// multiple of the cell spacing on both axes.
#[derive(Clone, Copy, PartialEq, Eq, Structural, Debug)]
pub struct GridCoordinate {
    pub x: i32,
    pub y: i32,
}

/// Direction of travel of one snake segment.
#[derive(Clone, Copy, PartialEq, Eq, Structural, Debug)]
pub enum Direction {
    UP,
    DOWN,
    LEFT,
    RIGHT,
}

impl Direction {
    /// Horizontal component of the unit displacement.
    pub open spec fn dx(self) -> int {
        match self {
            Direction::LEFT => -1,
            Direction::RIGHT => 1,
            _ => 0,
        }
    }

    /// Vertical component of the unit displacement; screen y grows downward.
    pub open spec fn dy(self) -> int {
        match self {
            Direction::UP => -1,
            Direction::DOWN => 1,
            _ => 0,
        }
    }

    pub open spec fn opposite(self) -> Direction {
        match self {
            Direction::UP => Direction::DOWN,
            Direction::DOWN => Direction::UP,
            Direction::LEFT => Direction::RIGHT,
            Direction::RIGHT => Direction::LEFT,
        }
    }

    /// Unit displacement vector of this direction.
    pub fn v(&self) -> (r: (i32, i32))
        ensures
            r.0 == self.dx(),
            r.1 == self.dy(),
    {
        match self {
            Direction::UP => (0, -1),
            Direction::DOWN => (0, 1),
            Direction::LEFT => (-1, 0),
            Direction::RIGHT => (1, 0),
        }
    }

    /// The exact opposite direction.
    pub fn opp(&self) -> (r: Direction)
        ensures
            r == self.opposite(),
    {
        match self {
            Direction::UP => Direction::DOWN,
            Direction::DOWN => Direction::UP,
            Direction::LEFT => Direction::RIGHT,
            Direction::RIGHT => Direction::LEFT,
        }
    }
}

/// Wraparound on one axis: a value leaving `[0, dim - spacing]` re-enters
/// from the opposite end of that range.
pub open spec fn wrap_val(v: int, dim: int, spacing: int) -> int {
    if v < 0 {
        dim - spacing
    } else if v > dim - spacing {
        0
    } else {
        v
    }
}

/// Static geometry of the play field, derived once from the screen size and
/// the cell spacing and never mutated.
#[derive(Clone, Copy, PartialEq, Eq, Structural, Debug)]
pub struct Grid {
    pub spacing: i32,
    pub width: i32,
    pub height: i32,
    pub cols: i32,
    pub rows: i32,
}

impl Grid {
    pub open spec fn wf(self) -> bool {
        &&& self.spacing >= 1
        &&& self.width >= self.spacing
        &&& self.height >= self.spacing
        &&& self.width % self.spacing == 0
        &&& self.height % self.spacing == 0
        &&& self.cols == self.width / self.spacing
        &&& self.rows == self.height / self.spacing
    }

    /// A coordinate lies on the grid: within the screen and aligned to the
    /// spacing on both axes.
    pub open spec fn on_grid(self, c: GridCoordinate) -> bool {
        &&& 0 <= c.x < self.width
        &&& 0 <= c.y < self.height
        &&& c.x % self.spacing == 0
        &&& c.y % self.spacing == 0
    }

    /// Pixel coordinate of the cell in column `col`, row `row`.
    pub open spec fn cell_spec(self, col: int, row: int) -> GridCoordinate {
        GridCoordinate { x: (col * self.spacing) as i32, y: (row * self.spacing) as i32 }
    }

    /// One step of a coordinate in direction `d`, wrapping at the edges.
    pub open spec fn step_spec(self, c: GridCoordinate, d: Direction) -> GridCoordinate {
        GridCoordinate {
            x: wrap_val(c.x + d.dx() * self.spacing, self.width as int, self.spacing as int) as i32,
            y: wrap_val(c.y + d.dy() * self.spacing, self.height as int, self.spacing as int) as i32,
        }
    }

    /// Builds the grid geometry. A non-positive spacing, a screen dimension
    /// smaller than one cell, or one that the spacing does not divide evenly
    /// is a fatal configuration error, excluded here.
    pub fn new(spacing: i32, width: i32, height: i32) -> (g: Grid)
        requires
            spacing >= 1,
            width >= spacing,
            height >= spacing,
            width % spacing == 0,
            height % spacing == 0,
        ensures
            g.wf(),
            g.spacing == spacing,
            g.width == width,
            g.height == height,
            g.cols == width / spacing,
            g.rows == height / spacing,
    {
        proof {
            lemma_div_nonincreasing(width as int, spacing as int);
            lemma_div_nonincreasing(height as int, spacing as int);
            lemma_div_pos_is_pos(width as int, spacing as int);
            lemma_div_pos_is_pos(height as int, spacing as int);
        }
        Grid { spacing, width, height, cols: width / spacing, rows: height / spacing }
    }

    /// Pixel coordinate of the cell in column `col`, row `row`.
    pub fn cell_at(&self, col: i32, row: i32) -> (c: GridCoordinate)
        requires
            self.wf(),
            0 <= col < self.cols,
            0 <= row < self.rows,
        ensures
            self.on_grid(c),
            c.x == col * self.spacing,
            c.y == row * self.spacing,
            c == self.cell_spec(col as int, row as int),
    {
        proof {
            lemma_cell_to_coord(self.spacing as int, self.width as int, col as int);
            lemma_cell_to_coord(self.spacing as int, self.height as int, row as int);
        }
        GridCoordinate { x: col * self.spacing, y: row * self.spacing }
    }

    /// Applies one-axis wraparound to a stepped coordinate value.
    fn wrap(&self, v: i32, dim: i32) -> (r: i32)
        requires
            self.wf(),
            self.spacing <= dim,
            -self.spacing <= v <= dim,
        ensures
            r == wrap_val(v as int, dim as int, self.spacing as int),
    {
        let edge = dim - self.spacing;
        if v < 0 {
            edge
        } else if v > edge {
            0
        } else {
            v
        }
    }

    /// Moves a coordinate one cell in direction `d`, wrapping at the edges.
    pub fn step(&self, c: GridCoordinate, d: Direction) -> (r: GridCoordinate)
        requires
            self.wf(),
            self.on_grid(c),
        ensures
            r == self.step_spec(c, d),
            self.on_grid(r),
    {
        proof {
            lemma_aligned_below_dim(self.spacing as int, self.width as int, c.x as int);
            lemma_aligned_below_dim(self.spacing as int, self.height as int, c.y as int);
            lemma_unit_scaled(d.dx(), self.spacing as int);
            lemma_unit_scaled(d.dy(), self.spacing as int);
            lemma_wrap_keeps_grid(
                self.spacing as int,
                self.width as int,
                c.x as int,
                d.dx() * self.spacing as int,
            );
            lemma_wrap_keeps_grid(
                self.spacing as int,
                self.height as int,
                c.y as int,
                d.dy() * self.spacing as int,
            );
        }
        let (dx, dy) = d.v();
        let nx = self.wrap(c.x + dx * self.spacing, self.width);
        let ny = self.wrap(c.y + dy * self.spacing, self.height);
        GridCoordinate { x: nx, y: ny }
    }
}

/// A unit factor scales the spacing to one of three displacements.
proof fn lemma_unit_scaled(u: int, s: int)
    requires
        u == -1 || u == 0 || u == 1,
        s >= 1,
    ensures
        u * s == -s || u * s == 0 || u * s == s,
{
    assert(u * s == -s || u * s == 0 || u * s == s) by (nonlinear_arith)
        requires
            u == -1 || u == 0 || u == 1,
    ;
}

/// Multiples of the spacing stay aligned under one-cell steps.
proof fn lemma_step_aligned(s: int, x: int)
    requires
        s >= 1,
        x % s == 0,
    ensures
        (x + s) % s == 0,
        (x - s) % s == 0,
{
    lemma_mod_add_multiples_vanish(x, s);
    lemma_mod_sub_multiples_vanish(x, s);
}

/// An aligned coordinate strictly inside a screen dimension is at least one
/// cell away from its far edge.
proof fn lemma_aligned_below_dim(s: int, dim: int, x: int)
    requires
        s >= 1,
        dim % s == 0,
        x % s == 0,
        0 <= x < dim,
    ensures
        x <= dim - s,
{
    let q = x / s;
    let qd = dim / s;
    lemma_fundamental_div_mod(x, s);
    lemma_fundamental_div_mod(dim, s);
    assert(q < qd) by (nonlinear_arith)
        requires
            s >= 1,
            x == s * q,
            dim == s * qd,
            x < dim,
    ;
    assert(x <= dim - s) by (nonlinear_arith)
        requires
            s >= 1,
            x == s * q,
            dim == s * qd,
            q < qd,
    ;
}

/// A cell index maps to an aligned coordinate on its axis.
pub proof fn lemma_cell_to_coord(s: int, dim: int, k: int)
    requires
        s >= 1,
        dim >= s,
        dim % s == 0,
        0 <= k < dim / s,
    ensures
        0 <= k * s,
        k * s <= dim - s,
        (k * s) % s == 0,
{
    let qd = dim / s;
    lemma_fundamental_div_mod(dim, s);
    assert(0 <= k * s && k * s <= dim - s) by (nonlinear_arith)
        requires
            s >= 1,
            dim == s * qd,
            0 <= k,
            k < qd,
    ;
    lemma_mod_multiples_basic(k, s);
}

/// Wraparound keeps a one-cell step of an on-axis value on the axis range.
proof fn lemma_wrap_keeps_grid(s: int, dim: int, x: int, delta: int)
    requires
        s >= 1,
        dim >= s,
        dim % s == 0,
        x % s == 0,
        0 <= x <= dim - s,
        delta == -s || delta == 0 || delta == s,
    ensures
        0 <= wrap_val(x + delta, dim, s) <= dim - s,
        wrap_val(x + delta, dim, s) % s == 0,
{
    lemma_step_aligned(s, x);
    lemma_mod_sub_multiples_vanish(dim, s);
    lemma_small_mod(0nat, s as nat);
}

/// Stepping one cell and then one cell back, both with wraparound, returns
/// to the starting value.
proof fn lemma_wrap_inverse(s: int, dim: int, x: int, delta: int)
    requires
        s >= 1,
        dim >= s,
        dim % s == 0,
        x % s == 0,
        0 <= x <= dim - s,
        delta == -s || delta == 0 || delta == s,
    ensures
        wrap_val(wrap_val(x + delta, dim, s) - delta, dim, s) == x,
{
    lemma_wrap_keeps_grid(s, dim, x, delta);
    lemma_step_aligned(s, x);
    lemma_mod_sub_multiples_vanish(dim, s);
    lemma_small_mod(0nat, s as nat);
    if delta == s {
        if x + s > dim - s {
            // between x and the edge there is no room for another cell
            lemma_sub_mod_noop(dim - s, x, s);
            lemma_small_mod((dim - s - x) as nat, s as nat);
        }
    } else if delta == -s {
        if x - s < 0 {
            lemma_small_mod(x as nat, s as nat);
        }
    }
}

/// Stepping in a direction keeps an on-grid coordinate on the grid.
pub proof fn lemma_step_spec_on_grid(g: Grid, c: GridCoordinate, d: Direction)
    requires
        g.wf(),
        g.on_grid(c),
    ensures
        g.on_grid(g.step_spec(c, d)),
{
    let s = g.spacing as int;
    lemma_aligned_below_dim(s, g.width as int, c.x as int);
    lemma_aligned_below_dim(s, g.height as int, c.y as int);
    lemma_unit_scaled(d.dx(), s);
    lemma_unit_scaled(d.dy(), s);
    lemma_wrap_keeps_grid(s, g.width as int, c.x as int, d.dx() * s);
    lemma_wrap_keeps_grid(s, g.height as int, c.y as int, d.dy() * s);
}

/// Stepping one cell and then stepping back in the opposite direction,
/// both with wraparound, returns to the starting coordinate.
pub proof fn lemma_step_back(g: Grid, c: GridCoordinate, d: Direction)
    requires
        g.wf(),
        g.on_grid(c),
    ensures
        g.step_spec(g.step_spec(c, d), d.opposite()) == c,
{
    let s = g.spacing as int;
    lemma_aligned_below_dim(s, g.width as int, c.x as int);
    lemma_aligned_below_dim(s, g.height as int, c.y as int);
    lemma_unit_scaled(d.dx(), s);
    lemma_unit_scaled(d.dy(), s);
    assert(d.opposite().dx() == -d.dx());
    assert(d.opposite().dy() == -d.dy());
    lemma_wrap_keeps_grid(s, g.width as int, c.x as int, d.dx() * s);
    lemma_wrap_keeps_grid(s, g.height as int, c.y as int, d.dy() * s);
    lemma_wrap_inverse(s, g.width as int, c.x as int, d.dx() * s);
    lemma_wrap_inverse(s, g.height as int, c.y as int, d.dy() * s);
}

/// Wraparound law: a segment on an edge cell moving over that edge
/// re-enters from the opposite edge, on each of the four edges; the other
/// axis is unaffected.
pub proof fn lemma_wraparound(g: Grid, c: GridCoordinate)
    requires
        g.wf(),
        g.on_grid(c),
    ensures
        c.x == g.width - g.spacing ==> g.step_spec(c, Direction::RIGHT).x == 0,
        c.x == 0 ==> g.step_spec(c, Direction::LEFT).x == g.width - g.spacing,
        c.y == g.height - g.spacing ==> g.step_spec(c, Direction::DOWN).y == 0,
        c.y == 0 ==> g.step_spec(c, Direction::UP).y == g.height - g.spacing,
        g.step_spec(c, Direction::RIGHT).y == c.y,
        g.step_spec(c, Direction::LEFT).y == c.y,
        g.step_spec(c, Direction::UP).x == c.x,
        g.step_spec(c, Direction::DOWN).x == c.x,
{
    let s = g.spacing as int;
    lemma_aligned_below_dim(s, g.width as int, c.x as int);
    lemma_aligned_below_dim(s, g.height as int, c.y as int);
}

/// Index of a coordinate's cell in row-major order.
pub open spec fn cell_index(g: Grid, c: GridCoordinate) -> int {
    c.x as int / g.spacing as int + (c.y as int / g.spacing as int) * g.cols as int
}

/// The cell index of an on-grid coordinate lies below the cell count.
proof fn lemma_cell_index_range(g: Grid, c: GridCoordinate)
    requires
        g.wf(),
        g.on_grid(c),
    ensures
        0 <= cell_index(g, c) < g.cols as int * g.rows as int,
{
    let s = g.spacing as int;
    let col = c.x as int / s;
    let row = c.y as int / s;
    lemma_axis_cell_range(s, g.width as int, c.x as int);
    lemma_axis_cell_range(s, g.height as int, c.y as int);
    assert(0 <= col + row * (g.cols as int) && col + row * (g.cols as int) < (g.cols as int) * (
    g.rows as int)) by (nonlinear_arith)
        requires
            0 <= col < g.cols as int,
            0 <= row < g.rows as int,
    ;
}

/// The cell column (or row) of an aligned on-axis value is in range, and
/// determines the value.
pub proof fn lemma_axis_cell_range(s: int, dim: int, x: int)
    requires
        s >= 1,
        dim >= s,
        dim % s == 0,
        x % s == 0,
        0 <= x < dim,
    ensures
        0 <= x / s < dim / s,
        x == (x / s) * s,
{
    let q = x / s;
    let qd = dim / s;
    lemma_fundamental_div_mod(x, s);
    lemma_fundamental_div_mod(dim, s);
    assert(0 <= q < qd) by (nonlinear_arith)
        requires
            s >= 1,
            x == s * q,
            dim == s * qd,
            0 <= x < dim,
    ;
}

/// Distinct on-grid coordinates occupy distinct cells.
proof fn lemma_cell_index_injective(g: Grid, c1: GridCoordinate, c2: GridCoordinate)
    requires
        g.wf(),
        g.on_grid(c1),
        g.on_grid(c2),
        c1 != c2,
    ensures
        cell_index(g, c1) != cell_index(g, c2),
{
    let s = g.spacing as int;
    lemma_axis_cell_range(s, g.width as int, c1.x as int);
    lemma_axis_cell_range(s, g.height as int, c1.y as int);
    lemma_axis_cell_range(s, g.width as int, c2.x as int);
    lemma_axis_cell_range(s, g.height as int, c2.y as int);
    let col1 = c1.x as int / s;
    let row1 = c1.y as int / s;
    let col2 = c2.x as int / s;
    let row2 = c2.y as int / s;
    if cell_index(g, c1) == cell_index(g, c2) {
        assert(col1 == col2 && row1 == row2) by (nonlinear_arith)
            requires
                0 <= col1 < g.cols as int,
                0 <= col2 < g.cols as int,
                0 <= row1,
                0 <= row2,
                col1 + row1 * g.cols as int == col2 + row2 * g.cols as int,
        ;
        assert(c1.x == c2.x && c1.y == c2.y);
    }
}

/// A rectangular grid has only `cols * rows` cells: a duplicate-free
/// sequence of on-grid coordinates is never longer than the cell count.
pub proof fn lemma_occupancy_bound(g: Grid, s: Seq<GridCoordinate>)
    requires
        g.wf(),
        s.no_duplicates(),
        forall|i: int| 0 <= i < s.len() ==> g.on_grid(#[trigger] s[i]),
    ensures
        s.len() <= g.cols as int * g.rows as int,
{
    let cells = g.cols as int * g.rows as int;
    let f = |c: GridCoordinate| cell_index(g, c);
    let t = s.map_values(f);
    assert(t.no_duplicates()) by {
        assert forall|i: int, j: int|
            0 <= i < t.len() && 0 <= j < t.len() && i != j implies t[i] != t[j] by {
            lemma_cell_index_injective(g, s[i], s[j]);
        };
    };
    t.unique_seq_to_set();
    assert(t.to_set().subset_of(set_int_range(0, cells))) by {
        assert forall|e: int| t.to_set().contains(e) implies set_int_range(0, cells).contains(
            e,
        ) by {
            let i = choose|i: int| 0 <= i < t.len() && t[i] == e;
            lemma_cell_index_range(g, s[i]);
        };
    };
    lemma_int_range(0, cells);
    lemma_len_subset(t.to_set(), set_int_range(0, cells));
}

} // verus!
