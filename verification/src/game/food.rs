//! Food placement: a single optional grid cell that must never overlap a
//! snake-occupied cell, chosen by rejection sampling.

use vstd::prelude::*;
use crate::game::grid::{Grid, GridCoordinate};

verus! {

use vstd::arithmetic::div_mod::lemma_div_non_zero;
use crate::game::grid::lemma_axis_cell_range;

/// Random placement attempts before falling back to an exhaustive scan.
pub const FOOD_SAMPLE_RETRIES: u32 = 64;

/// Some cell of the grid is not occupied.
pub open spec fn has_free_cell(occupied: Seq<GridCoordinate>, g: Grid) -> bool {
    exists|c: GridCoordinate| g.on_grid(c) && !occupied.contains(c)
}

/// Relies on rand::random_range over `0..n`: a uniform draw from that range,
/// so the result lies in it. The call panics only on an empty range, which
/// the precondition excludes.
#[verifier::external_body]
fn random_below(n: i32) -> (r: i32)
    requires
        1 <= n,
    ensures
        0 <= r < n,
{
    rand::random_range(0..n)
}

/// The snake food: a single optional grid cell, absent only before the
/// first placement.
#[derive(Clone, Copy, Debug)]
pub struct Food {
    pub pos: Option<GridCoordinate>,
}

impl Food {
    /// The food, when present, sits on the grid and away from every
    /// occupied cell.
    pub open spec fn separate_from(self, occupied: Seq<GridCoordinate>, g: Grid) -> bool {
        match self.pos {
            Some(c) => g.on_grid(c) && !occupied.contains(c),
            None => true,
        }
    }

    /// No food placed yet.
    pub fn new() -> (f: Food)
        ensures
            f.pos is None,
    {
        Food { pos: None }
    }

    /// Current position; before the first placement, a sentinel coordinate
    /// off the visible grid, so that it never compares equal to any on-grid
    /// cell.
    pub fn position(&self) -> (c: GridCoordinate)
        ensures
            self.pos matches Some(p) ==> c == p,
            self.pos is None ==> c == (GridCoordinate { x: -1i32, y: -1i32 }),
    {
        match self.pos {
            Some(p) => p,
            None => GridCoordinate { x: -1, y: -1 },
        }
    }

    /// Chooses a random free cell for the food by rejection sampling:
    /// re-rolls while the sampled cell is occupied. After a bounded number
    /// of re-rolls — reached only when the snake covers most of the grid —
    /// it scans the cells in row-major order and takes the first free one,
    /// so that placement terminates even on a nearly full grid. With no
    /// free cell at all, the food is withdrawn.
    pub fn place(&mut self, occupied: &Vec<GridCoordinate>, g: &Grid)
        requires
            g.wf(),
        ensures
            final(self).separate_from(occupied@, *g),
            has_free_cell(occupied@, *g) ==> final(self).pos is Some,
            !has_free_cell(occupied@, *g) ==> final(self).pos is None,
    {
        let mut k: u32 = 0;
        while k < FOOD_SAMPLE_RETRIES
            invariant
                g.wf(),
            decreases FOOD_SAMPLE_RETRIES - k,
        {
            let c = random_cell(g);
            if !contains_coord(occupied, c) {
                self.pos = Some(c);
                return;
            }
            k = k + 1;
        }
        let mut col: i32 = 0;
        while col < g.cols
            invariant
                g.wf(),
                0 <= col <= g.cols,
                forall|cc: int, rr: int|
                    0 <= cc < col && 0 <= rr < g.rows as int ==> occupied@.contains(
                        #[trigger] g.cell_spec(cc, rr),
                    ),
            decreases g.cols - col,
        {
            let mut row: i32 = 0;
            while row < g.rows
                invariant
                    g.wf(),
                    0 <= col < g.cols,
                    0 <= row <= g.rows,
                    forall|cc: int, rr: int|
                        0 <= cc < col && 0 <= rr < g.rows as int ==> occupied@.contains(
                            #[trigger] g.cell_spec(cc, rr),
                        ),
                    forall|rr: int|
                        0 <= rr < row ==> occupied@.contains(#[trigger] g.cell_spec(col as int, rr)),
                decreases g.rows - row,
            {
                let c = g.cell_at(col, row);
                if !contains_coord(occupied, c) {
                    self.pos = Some(c);
                    return;
                }
                row = row + 1;
            }
            col = col + 1;
        }
        proof {
            // every on-grid coordinate is the cell of its column and row
            // indexes, so the completed scan visited it
            assert forall|c: GridCoordinate| g.on_grid(c) implies occupied@.contains(c) by {
                let s = g.spacing as int;
                lemma_axis_cell_range(s, g.width as int, c.x as int);
                lemma_axis_cell_range(s, g.height as int, c.y as int);
                assert(g.cell_spec(c.x as int / s, c.y as int / s) == c);
            };
        }
        self.pos = None;
    }
}

/// Samples a uniformly random cell of the grid.
fn random_cell(g: &Grid) -> (c: GridCoordinate)
    requires
        g.wf(),
    ensures
        g.on_grid(c),
{
    proof {
        lemma_div_non_zero(g.width as int, g.spacing as int);
        lemma_div_non_zero(g.height as int, g.spacing as int);
    }
    let col = random_below(g.cols);
    let row = random_below(g.rows);
    g.cell_at(col, row)
}

/// Whether `cs` holds the coordinate `c`.
fn contains_coord(cs: &Vec<GridCoordinate>, c: GridCoordinate) -> (r: bool)
    ensures
        r == cs@.contains(c),
{
    let mut i: usize = 0;
    while i < cs.len()
        invariant
            i <= cs@.len(),
            forall|j: int| 0 <= j < i ==> cs@[j] != c,
        decreases cs@.len() - i,
    {
        if cs[i] == c {
            return true;
        }
        i += 1;
    }
    false
}

} // verus!
