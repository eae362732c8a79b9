//! The two editing modes, one key at a time: resizing the grid and placing
//! cells under a cursor. The loops that read keys live with the caller; each
//! function here takes one key, updates the state and reports whether the key
//! ends the mode.

use vstd::prelude::*;

use crate::grid::{cells, dead_grid, empty_grid, height, is_grid, on_grid, width};

verus! {

/// A key press, decoded into what the editing modes act on.
#[derive(Clone, Copy, Debug, PartialEq, Eq, Structural)]
pub enum Key {
    Up,
    Down,
    Left,
    Right,
    /// Flips the cell under the cursor (the space bar).
    Toggle,
    /// Ends the current mode (the return key).
    Confirm,
    /// Any other key; it changes nothing.
    Other,
}

/// The grid after one key in resize mode: up and left shrink the height and
/// the width by one, but never below one; down and right grow them by one.
/// Every change of shape yields a fresh grid of dead cells.
pub open spec fn resized(g: Seq<Seq<bool>>, key: Key) -> Seq<Seq<bool>> {
    match key {
        Key::Up => if height(g) > 1 {
            dead_grid(width(g), (height(g) - 1) as nat)
        } else {
            g
        },
        Key::Down => dead_grid(width(g), height(g) + 1),
        Key::Left => if width(g) > 1 {
            dead_grid((width(g) - 1) as nat, height(g))
        } else {
            g
        },
        Key::Right => dead_grid(width(g) + 1, height(g)),
        _ => g,
    }
}

/// The cursor `(x, y)` after one key in place mode on a grid of the given
/// shape: one step in the key's direction, or no move where that step would
/// leave the grid.
pub open spec fn moved(cursor: (usize, usize), key: Key, width: nat, height: nat) -> (usize, usize) {
    match key {
        Key::Up => if cursor.1 > 0 {
            (cursor.0, (cursor.1 - 1) as usize)
        } else {
            cursor
        },
        Key::Down => if cursor.1 + 1 < height {
            (cursor.0, (cursor.1 + 1) as usize)
        } else {
            cursor
        },
        Key::Left => if cursor.0 > 0 {
            ((cursor.0 - 1) as usize, cursor.1)
        } else {
            cursor
        },
        Key::Right => if cursor.0 + 1 < width {
            ((cursor.0 + 1) as usize, cursor.1)
        } else {
            cursor
        },
        _ => cursor,
    }
}

/// `g` with the cell `(x, y)` flipped.
pub open spec fn toggled(g: Seq<Seq<bool>>, x: int, y: int) -> Seq<Seq<bool>> {
    g.update(y, g[y].update(x, !g[y][x]))
}

/// The grid after one key in place mode: the toggle key flips the cell under
/// the cursor, every other key leaves the cells alone.
pub open spec fn placed(g: Seq<Seq<bool>>, cursor: (usize, usize), key: Key) -> Seq<Seq<bool>> {
    if key == Key::Toggle {
        toggled(g, cursor.0 as int, cursor.1 as int)
    } else {
        g
    }
}

/// Handles one key in resize mode. Returns whether the key confirms the
/// current size, which ends the mode.
pub fn resize_on_key(grid: &mut Vec<Vec<bool>>, key: Key) -> (done: bool)
    requires
        is_grid(cells(old(grid))),
        height(cells(old(grid))) < usize::MAX,
        width(cells(old(grid))) < usize::MAX,
    ensures
        done == (key == Key::Confirm),
        cells(final(grid)) == resized(cells(old(grid)), key),
        is_grid(cells(final(grid))),
{
    let rows = grid.len();
    let cols = grid[0].len();
    assert(cells(grid)[0] == grid@[0]@);
    match key {
        Key::Confirm => {
            return true;
        },
        Key::Up => {
            if rows > 1 {
                *grid = empty_grid(cols, rows - 1);
            }
        },
        Key::Down => {
            *grid = empty_grid(cols, rows + 1);
        },
        Key::Left => {
            if cols > 1 {
                *grid = empty_grid(cols - 1, rows);
            }
        },
        Key::Right => {
            *grid = empty_grid(cols + 1, rows);
        },
        _ => {},
    }
    false
}

/// Handles one key in place mode: the arrows move the cursor `(x, y)` within
/// the grid, the toggle key flips the cell under it. Returns whether the key
/// confirms the placement, which ends the mode.
pub fn place_on_key(grid: &mut Vec<Vec<bool>>, cursor: &mut (usize, usize), key: Key) -> (done: bool)
    requires
        is_grid(cells(old(grid))),
        on_grid(cells(old(grid)), old(cursor).0 as int, old(cursor).1 as int),
    ensures
        done == (key == Key::Confirm),
        *final(cursor) == moved(*old(cursor), key, width(cells(old(grid))), height(cells(old(grid)))),
        cells(final(grid)) == placed(cells(old(grid)), *old(cursor), key),
        is_grid(cells(final(grid))),
        on_grid(cells(final(grid)), final(cursor).0 as int, final(cursor).1 as int),
{
    let rows = grid.len();
    let cols = grid[0].len();
    let (x, y) = *cursor;
    proof {
        assert(cells(grid)[0] == grid@[0]@);
        assert(cells(grid)[y as int] == grid@[y as int]@);
        assert(cells(grid)[y as int].len() == cols);
    }
    match key {
        Key::Confirm => {
            return true;
        },
        Key::Up => {
            if y > 0 {
                cursor.1 = y - 1;
            }
        },
        Key::Down => {
            if y < rows - 1 {
                cursor.1 = y + 1;
            }
        },
        Key::Left => {
            if x > 0 {
                cursor.0 = x - 1;
            }
        },
        Key::Right => {
            if x < cols - 1 {
                cursor.0 = x + 1;
            }
        },
        Key::Toggle => {
            let alive = grid[y][x];
            grid[y][x] = !alive;
            proof {
                let g = cells(old(grid));
                assert(cells(grid) =~~= toggled(g, x as int, y as int));
                assert forall|i: int| 0 <= i < cells(grid).len() implies #[trigger] cells(grid)[i].len() == cells(grid)[0].len() by {
                    assert(g[i].len() == g[0].len());
                }
            }
        },
        Key::Other => {},
    }
    false
}

/// Shrinking stops at one: on a grid one row high, the up key leaves the grid
/// as it is; on a grid one column wide, so does the left key.
pub proof fn lemma_shrink_stops_at_one(g: Seq<Seq<bool>>)
    requires
        is_grid(g),
    ensures
        height(g) == 1 ==> resized(g, Key::Up) == g && height(resized(g, Key::Up)) == 1,
        width(g) == 1 ==> resized(g, Key::Left) == g && width(resized(g, Key::Left)) == 1,
{
}

/// Every change of size clears the grid: whatever the cells held before,
/// each cell of the resized grid is dead.
pub proof fn lemma_resize_clears(g: Seq<Seq<bool>>, key: Key, x: int, y: int)
    requires
        is_grid(g),
        resized(g, key) != g,
        on_grid(resized(g, key), x, y),
    ensures
        !resized(g, key)[y][x],
{
}

/// Moves that would leave the grid do nothing: left in the first column, up
/// in the first row, right in the last column and down in the last row leave
/// the cursor where it is.
pub proof fn lemma_moves_stop_at_edges(cursor: (usize, usize), width: nat, height: nat)
    requires
        cursor.0 < width,
        cursor.1 < height,
    ensures
        cursor.0 == 0 ==> moved(cursor, Key::Left, width, height) == cursor,
        cursor.1 == 0 ==> moved(cursor, Key::Up, width, height) == cursor,
        cursor.0 + 1 == width ==> moved(cursor, Key::Right, width, height) == cursor,
        cursor.1 + 1 == height ==> moved(cursor, Key::Down, width, height) == cursor,
{
}

/// Toggling flips exactly the cell under the cursor, and toggling the same
/// cell twice gives back the grid as it was.
pub proof fn lemma_toggle(g: Seq<Seq<bool>>, x: int, y: int)
    requires
        on_grid(g, x, y),
    ensures
        toggled(g, x, y).len() == g.len(),
        toggled(g, x, y)[y][x] == !g[y][x],
        forall|i: int, j: int|
            on_grid(g, j, i) && (i != y || j != x) ==> #[trigger] toggled(g, x, y)[i][j] == g[i][j],
        toggled(toggled(g, x, y), x, y) == g,
{
    assert(toggled(toggled(g, x, y), x, y) =~~= g);
}

} // verus!
