//! One generation of the standard rule (born with 3, survives with 2 or 3).

use vstd::prelude::*;

use crate::grid::{cells, height, is_grid, neighbour_count, neighbours, on_grid, width};

verus! {

/// Whether a cell is live in the next generation, given whether it is live
/// now and how many live neighbours it has now.
pub open spec fn next_alive(alive: bool, n: nat) -> bool {
    if alive {
        n == 2 || n == 3
    } else {
        n == 3
    }
}

/// The next generation of `g`: every cell follows the rule, all of them
/// evaluated against `g` itself.
pub open spec fn next_generation(g: Seq<Seq<bool>>) -> Seq<Seq<bool>> {
    Seq::new(
        g.len(),
        |y: int| Seq::new(g[y].len(), |x: int| next_alive(g[y][x], neighbours(g, x, y))),
    )
}

/// Applies the rule to the cell `(x, y)` of `starting_state` and writes the
/// outcome into `grid` where the rule changes the cell; where the rule leaves
/// the cell as it was, `grid` is not touched.
pub fn play_cell_turn(starting_state: &Vec<Vec<bool>>, grid: &mut Vec<Vec<bool>>, x: usize, y: usize)
    requires
        is_grid(cells(starting_state)),
        on_grid(cells(starting_state), x as int, y as int),
        on_grid(cells(old(grid)), x as int, y as int),
    ensures
        ({
            let s = cells(starting_state);
            let g = cells(old(grid));
            let next = next_alive(s[y as int][x as int], neighbours(s, x as int, y as int));
            cells(final(grid)) == g.update(
                y as int,
                g[y as int].update(x as int, if next != s[y as int][x as int] { next } else { g[y as int][x as int] }),
            )
        }),
{
    let alive = starting_state[y][x];
    let rows = starting_state.len();
    let row_width = starting_state[y].len();
    proof {
        assert(cells(starting_state)[y as int] == starting_state@[y as int]@);
        assert(cells(old(grid))[y as int] == old(grid)@[y as int]@);
        assert(x < row_width && y < rows);
    }
    let n = neighbour_count(starting_state, x, y);
    if alive && !(n == 2 || n == 3) {
        grid[y][x] = false;
    } else if !alive && n == 3 {
        grid[y][x] = true;
    }
    proof {
        let g = cells(old(grid));
        let next = next_alive(cells(starting_state)[y as int][x as int], n as nat);
        assert(cells(grid) =~~= g.update(
            y as int,
            g[y as int].update(x as int, if next != alive { next } else { g[y as int][x as int] }),
        ));
    }
}

/// Advances `grid` by one generation and counts the step in `turn`. Every
/// cell is evaluated against a snapshot taken before the first one changes.
pub fn play_turn(turn: &mut u16, grid: &mut Vec<Vec<bool>>)
    requires
        is_grid(cells(old(grid))),
        *old(turn) < u16::MAX,
    ensures
        *final(turn) == *old(turn) + 1,
        cells(final(grid)) == next_generation(cells(old(grid))),
{
    let starting_state: Vec<Vec<bool>> = grid.clone();
    proof {
        assert forall|i: int| 0 <= i < starting_state@.len() implies starting_state@[i]@ == old(grid)@[i]@ by {
            assert(cloned::<Vec<bool>>(old(grid)@[i], starting_state@[i]));
            assert(starting_state@[i]@ =~= old(grid)@[i]@);
        }
        assert(cells(&starting_state) =~= cells(old(grid)));
    }
    let rows = starting_state.len();
    let mut l: usize = 0;
    while l < rows
        invariant
            rows == cells(&starting_state).len(),
            cells(&starting_state) == cells(old(grid)),
            is_grid(cells(&starting_state)),
            l <= rows,
            cells(grid).len() == rows,
            forall|i: int| 0 <= i < rows ==> #[trigger] cells(grid)[i].len() == cells(&starting_state)[i].len(),
            forall|i: int, j: int| on_grid(cells(&starting_state), j, i) ==> #[trigger] cells(grid)[i][j] == if i < l {
                next_generation(cells(&starting_state))[i][j]
            } else {
                cells(&starting_state)[i][j]
            },
        decreases rows - l,
    {
        let cols = starting_state[l].len();
        assert(cells(&starting_state)[l as int].len() == cols);
        let mut c: usize = 0;
        while c < cols
            invariant
                rows == cells(&starting_state).len(),
                cells(&starting_state) == cells(old(grid)),
                is_grid(cells(&starting_state)),
                l < rows,
                c <= cols,
                cols == cells(&starting_state)[l as int].len(),
                cells(grid).len() == rows,
                forall|i: int| 0 <= i < rows ==> #[trigger] cells(grid)[i].len() == cells(&starting_state)[i].len(),
                forall|i: int, j: int| on_grid(cells(&starting_state), j, i) ==> #[trigger] cells(grid)[i][j] == if i < l || (i == l && j < c) {
                    next_generation(cells(&starting_state))[i][j]
                } else {
                    cells(&starting_state)[i][j]
                },
            decreases cols - c,
        {
            play_cell_turn(&starting_state, grid, c, l);
            c = c + 1;
        }
        l = l + 1;
    }
    assert(cells(grid) =~~= next_generation(cells(old(grid))));
    *turn += 1;
}

/// A generation step keeps the grid's shape: the same number of rows, each
/// as wide as before, so a well-formed grid stays well formed.
pub proof fn lemma_generation_keeps_shape(g: Seq<Seq<bool>>)
    ensures
        next_generation(g).len() == g.len(),
        forall|y: int| 0 <= y < g.len() ==> #[trigger] next_generation(g)[y].len() == g[y].len(),
        is_grid(g) ==> is_grid(next_generation(g)) && height(next_generation(g)) == height(g)
            && width(next_generation(g)) == width(g),
{
}

/// The rule cell by cell: a live cell with 2 or 3 live neighbours stays live
/// and with any other count dies; a dead cell with exactly 3 live neighbours
/// comes alive and with any other count stays dead.
pub proof fn lemma_generation_rule(g: Seq<Seq<bool>>, x: int, y: int)
    requires
        on_grid(g, x, y),
    ensures
        g[y][x] && (neighbours(g, x, y) == 2 || neighbours(g, x, y) == 3) ==> next_generation(g)[y][x],
        g[y][x] && !(neighbours(g, x, y) == 2 || neighbours(g, x, y) == 3) ==> !next_generation(g)[y][x],
        !g[y][x] && neighbours(g, x, y) == 3 ==> next_generation(g)[y][x],
        !g[y][x] && neighbours(g, x, y) != 3 ==> !next_generation(g)[y][x],
{
}

} // verus!
