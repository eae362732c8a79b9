//! The grid of cells and the neighbor counter.
//!
//! A grid is a `Vec<Vec<bool>>` in row-major order: `grid[y][x]` is the cell
//! in row `y` and column `x`, `true` when it is live.

use vstd::prelude::*;

verus! {

/// The mathematical view of a grid: one sequence of cell states per row.
pub open spec fn cells(grid: &Vec<Vec<bool>>) -> Seq<Seq<bool>> {
    Seq::new(grid@.len(), |y: int| grid@[y]@)
}

/// A grid is well formed when it has at least one row, at least one column,
/// and every row has the same width as the first.
pub open spec fn is_grid(g: Seq<Seq<bool>>) -> bool {
    &&& g.len() >= 1
    &&& g[0].len() >= 1
    &&& forall|y: int| 0 <= y < g.len() ==> #[trigger] g[y].len() == g[0].len()
}

/// The number of rows.
pub open spec fn height(g: Seq<Seq<bool>>) -> nat {
    g.len()
}

/// The number of columns, read off the first row.
pub open spec fn width(g: Seq<Seq<bool>>) -> nat {
    g[0].len()
}

/// The grid of the given shape whose cells are all dead.
pub open spec fn dead_grid(width: nat, height: nat) -> Seq<Seq<bool>> {
    Seq::new(height, |y: int| Seq::new(width, |x: int| false))
}

/// Whether `(x, y)` names a cell of `g`.
pub open spec fn on_grid(g: Seq<Seq<bool>>, x: int, y: int) -> bool {
    0 <= y < g.len() && 0 <= x < g[y].len()
}

/// 1 where `(x, y)` is a live cell of `g`, 0 where it is dead or off the grid.
pub open spec fn live_at(g: Seq<Seq<bool>>, x: int, y: int) -> nat {
    if on_grid(g, x, y) && g[y][x] {
        1
    } else {
        0
    }
}

/// 1 where `(x, y)` is a cell of `g`, 0 where it lies off the grid.
pub open spec fn cell_at(g: Seq<Seq<bool>>, x: int, y: int) -> nat {
    if on_grid(g, x, y) {
        1
    } else {
        0
    }
}

/// The number of live cells among the eight positions around `(x, y)`;
/// positions off the grid count as dead, and nothing wraps around.
pub open spec fn neighbours(g: Seq<Seq<bool>>, x: int, y: int) -> nat {
    live_at(g, x - 1, y - 1) + live_at(g, x, y - 1) + live_at(g, x + 1, y - 1)
        + live_at(g, x - 1, y) + live_at(g, x + 1, y)
        + live_at(g, x - 1, y + 1) + live_at(g, x, y + 1) + live_at(g, x + 1, y + 1)
}

/// The number of positions around `(x, y)` that lie on the grid: the cells
/// that can be neighbours of `(x, y)` at all.
pub open spec fn candidates(g: Seq<Seq<bool>>, x: int, y: int) -> nat {
    cell_at(g, x - 1, y - 1) + cell_at(g, x, y - 1) + cell_at(g, x + 1, y - 1)
        + cell_at(g, x - 1, y) + cell_at(g, x + 1, y)
        + cell_at(g, x - 1, y + 1) + cell_at(g, x, y + 1) + cell_at(g, x + 1, y + 1)
}

/// Builds a grid of `height` rows and `width` columns with every cell dead.
pub fn empty_grid(width: usize, height: usize) -> (grid: Vec<Vec<bool>>)
    requires
        width >= 1,
        height >= 1,
    ensures
        cells(&grid) == dead_grid(width as nat, height as nat),
        is_grid(cells(&grid)),
{
    let mut grid: Vec<Vec<bool>> = Vec::new();
    let mut y: usize = 0;
    while y < height
        invariant
            y <= height,
            grid@.len() == y,
            forall|i: int| 0 <= i < y ==> #[trigger] grid@[i]@ == Seq::new(width as nat, |x: int| false),
        decreases height - y,
    {
        let mut row: Vec<bool> = Vec::new();
        let mut x: usize = 0;
        while x < width
            invariant
                x <= width,
                row@ == Seq::new(x as nat, |j: int| false),
            decreases width - x,
        {
            row.push(false);
            x = x + 1;
            assert(row@ =~= Seq::new(x as nat, |j: int| false));
        }
        grid.push(row);
        y = y + 1;
    }
    assert(cells(&grid) =~= dead_grid(width as nat, height as nat));
    grid
}

/// 1 where `(x, y)` is a live cell of the grid, 0 where it is dead or off it.
fn live_cell(grid: &Vec<Vec<bool>>, x: usize, y: usize) -> (n: u8)
    ensures
        n as nat == live_at(cells(grid), x as int, y as int),
        n <= 1,
{
    if y < grid.len() && x < grid[y].len() && grid[y][x] {
        1
    } else {
        0
    }
}

/// Counts the live neighbours of the cell `(x, y)`: the live cells among the
/// up to eight positions around it, without the cell itself and without
/// wrapping at the edges. Positions off the grid count as dead.
pub fn neighbour_count(grid: &Vec<Vec<bool>>, x: usize, y: usize) -> (count: u8)
    requires
        is_grid(cells(grid)),
        x < usize::MAX,
        y < usize::MAX,
    ensures
        count as nat == neighbours(cells(grid), x as int, y as int),
        count <= 8,
{
    let mut count: u8 = 0;
    if y > 0 {
        if x > 0 {
            count += live_cell(grid, x - 1, y - 1);
        }
        count += live_cell(grid, x, y - 1);
        count += live_cell(grid, x + 1, y - 1);
    }
    if x > 0 {
        count += live_cell(grid, x - 1, y);
    }
    count += live_cell(grid, x + 1, y);
    if x > 0 {
        count += live_cell(grid, x - 1, y + 1);
    }
    count += live_cell(grid, x, y + 1);
    count += live_cell(grid, x + 1, y + 1);
    count
}

/// The count never reaches past the candidate positions: a cell has at most
/// as many live neighbours as it has positions around it on the grid, and so
/// at most eight.
pub proof fn lemma_neighbours_within_candidates(g: Seq<Seq<bool>>, x: int, y: int)
    ensures
        neighbours(g, x, y) <= candidates(g, x, y),
        candidates(g, x, y) <= 8,
{
}

/// The state of the cell itself never enters its own count: two grids that
/// differ only at `(x, y)` give `(x, y)` the same number of live neighbours.
pub proof fn lemma_centre_not_counted(g: Seq<Seq<bool>>, x: int, y: int, alive: bool)
    requires
        on_grid(g, x, y),
    ensures
        neighbours(g.update(y, g[y].update(x, alive)), x, y) == neighbours(g, x, y),
{
    let h = g.update(y, g[y].update(x, alive));
    assert forall|i: int, j: int| (i != x || j != y) implies live_at(h, i, j) == live_at(g, i, j) by {
        if j == y {
            assert(h[j] == g[y].update(x, alive));
        }
    }
    assert(live_at(h, x - 1, y - 1) == live_at(g, x - 1, y - 1));
    assert(live_at(h, x, y - 1) == live_at(g, x, y - 1));
    assert(live_at(h, x + 1, y - 1) == live_at(g, x + 1, y - 1));
    assert(live_at(h, x - 1, y) == live_at(g, x - 1, y));
    assert(live_at(h, x + 1, y) == live_at(g, x + 1, y));
    assert(live_at(h, x - 1, y + 1) == live_at(g, x - 1, y + 1));
    assert(live_at(h, x, y + 1) == live_at(g, x, y + 1));
    assert(live_at(h, x + 1, y + 1) == live_at(g, x + 1, y + 1));
}

/// On a square grid of side at least 2, a corner cell has 3 positions around
/// it, a cell on an edge but not in a corner has 5, and an inner cell has 8.
pub proof fn lemma_candidates_by_position(g: Seq<Seq<bool>>, x: int, y: int)
    requires
        is_grid(g),
        height(g) == width(g),
        height(g) >= 2,
        on_grid(g, x, y),
    ensures
        (x == 0 || x == width(g) - 1) && (y == 0 || y == height(g) - 1)
            ==> candidates(g, x, y) == 3,
        (x == 0 || x == width(g) - 1) != (y == 0 || y == height(g) - 1)
            ==> candidates(g, x, y) == 5,
        0 < x < width(g) - 1 && 0 < y < height(g) - 1 ==> candidates(g, x, y) == 8,
{
    assert(g[y - 1].len() == width(g) || y - 1 < 0);
    assert(g[y + 1].len() == width(g) || y + 1 >= height(g));
    assert(g[y].len() == width(g));
}

} // verus!
