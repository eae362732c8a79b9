//! Turns a grid into lines of text, with an optional ruler of column and row
//! indices and an optional cursor.

use vstd::prelude::*;

use crate::grid::{cells, is_grid, width};

verus! {

/// A live cell.
pub const LIVE: char = '\u{25A0}';

/// A dead cell.
pub const DEAD: char = '\u{25A1}';

/// A live cell under the cursor.
pub const CURSOR_LIVE: char = '\u{25CF}';

/// A dead cell under the cursor.
pub const CURSOR_DEAD: char = '\u{25CB}';

/// The width that indices are right-aligned to in the ruler.
pub const INDEX_WIDTH: usize = 3;

/// The mathematical view of rendered text: one sequence of characters per line.
pub open spec fn text(lines: &Vec<Vec<char>>) -> Seq<Seq<char>> {
    Seq::new(lines@.len(), |i: int| lines@[i]@)
}

/// The character of the decimal digit `d`.
pub open spec fn digit_char(d: nat) -> char {
    seq!['0', '1', '2', '3', '4', '5', '6', '7', '8', '9'][d as int]
}

/// The decimal digits of `n`, most significant first, without leading zeros.
pub open spec fn decimal(n: nat) -> Seq<char>
    decreases n,
{
    if n < 10 {
        seq![digit_char(n)]
    } else {
        decimal(n / 10).push(digit_char(n % 10))
    }
}

/// `n` spaces.
pub open spec fn spaces(n: nat) -> Seq<char> {
    Seq::new(n, |i: int| ' ')
}

/// `n` in decimal, right-aligned with spaces to the index width; a number
/// with more digits than that keeps all of them.
pub open spec fn padded(n: nat) -> Seq<char> {
    if decimal(n).len() < INDEX_WIDTH {
        spaces((INDEX_WIDTH - decimal(n).len()) as nat) + decimal(n)
    } else {
        decimal(n)
    }
}

/// Whether the cursor, if there is one, stands on `(x, y)`.
pub open spec fn at_cursor(cursor: Option<(usize, usize)>, x: int, y: int) -> bool {
    match cursor {
        Some(c) => c.0 == x && c.1 == y,
        None => false,
    }
}

/// The glyph of one cell.
pub open spec fn glyph(alive: bool, under_cursor: bool) -> char {
    if under_cursor {
        if alive { CURSOR_LIVE } else { CURSOR_DEAD }
    } else {
        if alive { LIVE } else { DEAD }
    }
}

/// The glyphs of row `y`, one per cell.
pub open spec fn row_glyphs(row: Seq<bool>, y: int, cursor: Option<(usize, usize)>) -> Seq<char> {
    Seq::new(row.len(), |x: int| glyph(row[x], at_cursor(cursor, x, y)))
}

/// The ruler above a grid of the given width: one line per digit position,
/// each column's index written top to bottom, behind a margin as wide as the
/// row indices.
pub open spec fn ruler(width: nat) -> Seq<Seq<char>> {
    Seq::new(
        INDEX_WIDTH as nat,
        |l: int| spaces(INDEX_WIDTH as nat) + Seq::new(width, |c: int| padded(c as nat)[l]),
    )
}

/// The text of grid `g`: one line per row; with the ruler, the ruler comes
/// first and each row starts with its index.
pub open spec fn rendered(g: Seq<Seq<bool>>, show_numbers: bool, cursor: Option<(usize, usize)>) -> Seq<Seq<char>> {
    let rows = Seq::new(
        g.len(),
        |y: int|
            if show_numbers {
                padded(y as nat) + row_glyphs(g[y], y, cursor)
            } else {
                row_glyphs(g[y], y, cursor)
            },
    );
    if show_numbers {
        ruler(width(g)) + rows
    } else {
        rows
    }
}

/// A padded index is never shorter than the index width.
proof fn lemma_padded_len(n: nat)
    ensures
        padded(n).len() >= INDEX_WIDTH,
{
    assert(decimal(n).len() >= 1) by {
        reveal_with_fuel(decimal, 2);
    }
}

/// The character of the decimal digit `d`.
fn digit(d: usize) -> (c: char)
    requires
        d < 10,
    ensures
        c == digit_char(d as nat),
{
    match d {
        0 => '0',
        1 => '1',
        2 => '2',
        3 => '3',
        4 => '4',
        5 => '5',
        6 => '6',
        7 => '7',
        8 => '8',
        _ => '9',
    }
}

/// Appends the decimal digits of `n` to `out`.
fn push_decimal(out: &mut Vec<char>, n: usize)
    ensures
        final(out)@ == old(out)@ + decimal(n as nat),
    decreases n,
{
    if n >= 10 {
        push_decimal(out, n / 10);
    }
    out.push(digit(n % 10));
    proof {
        if n >= 10 {
            assert(final(out)@ =~= old(out)@ + decimal(n as nat));
        } else {
            assert(out@ =~= old(out)@ + decimal(n as nat));
        }
    }
}

/// `n` in decimal, right-aligned to the index width.
fn padded_index(n: usize) -> (r: Vec<char>)
    ensures
        r@ == padded(n as nat),
{
    let mut digits: Vec<char> = Vec::new();
    push_decimal(&mut digits, n);
    assert(digits@ =~= decimal(n as nat));
    let mut out: Vec<char> = Vec::new();
    if digits.len() < INDEX_WIDTH {
        let pad = INDEX_WIDTH - digits.len();
        while out.len() < pad
            invariant
                out.len() <= pad,
                out@ == spaces(out.len() as nat),
            decreases pad - out.len(),
        {
            out.push(' ');
            assert(out@ =~= spaces(out.len() as nat));
        }
    }
    out.append(&mut digits);
    assert(out@ =~= padded(n as nat));
    out
}

/// Renders `grid` as lines of text. With `show_numbers`, a ruler of column
/// indices comes first and each row starts with its index. A cell under the
/// cursor `(x, y)`, if one is given, gets a cursor glyph.
pub fn render_grid(grid: &Vec<Vec<bool>>, show_numbers: bool, cursor: Option<(usize, usize)>) -> (lines: Vec<Vec<char>>)
    requires
        is_grid(cells(grid)),
    ensures
        text(&lines) == rendered(cells(grid), show_numbers, cursor),
{
    let ghost g = cells(grid);
    let ghost expected = rendered(g, show_numbers, cursor);
    let mut lines: Vec<Vec<char>> = Vec::new();
    let ghost first: int = 0;
    if show_numbers {
        let cols = grid[0].len();
        assert(g[0] == grid@[0]@);
        let mut indices: Vec<Vec<char>> = Vec::new();
        let mut c: usize = 0;
        while c < cols
            invariant
                c <= cols,
                indices@.len() == c,
                forall|i: int| 0 <= i < c ==> #[trigger] indices@[i]@ == padded(i as nat),
            decreases cols - c,
        {
            indices.push(padded_index(c));
            c = c + 1;
        }
        let mut l: usize = 0;
        while l < INDEX_WIDTH
            invariant
                cols == width(g),
                indices@.len() == cols,
                forall|i: int| 0 <= i < cols ==> #[trigger] indices@[i]@ == padded(i as nat),
                l <= INDEX_WIDTH,
                text(&lines) == ruler(cols as nat).take(l as int),
            decreases INDEX_WIDTH - l,
        {
            let mut line: Vec<char> = Vec::new();
            let mut k: usize = 0;
            while k < INDEX_WIDTH
                invariant
                    k <= INDEX_WIDTH,
                    line@ == spaces(k as nat),
                decreases INDEX_WIDTH - k,
            {
                line.push(' ');
                k = k + 1;
                assert(line@ =~= spaces(k as nat));
            }
            let mut c: usize = 0;
            while c < cols
                invariant
                    cols == width(g),
                    indices@.len() == cols,
                    forall|i: int| 0 <= i < cols ==> #[trigger] indices@[i]@ == padded(i as nat),
                    l < INDEX_WIDTH,
                    c <= cols,
                    line@ == spaces(INDEX_WIDTH as nat) + Seq::new(c as nat, |i: int| padded(i as nat)[l as int]),
                decreases cols - c,
            {
                proof {
                    lemma_padded_len(c as nat);
                }
                line.push(indices[c][l]);
                c = c + 1;
                assert(line@ =~= spaces(INDEX_WIDTH as nat) + Seq::new(c as nat, |i: int| padded(i as nat)[l as int]));
            }
            assert(line@ =~= ruler(cols as nat)[l as int]);
            let ghost before = text(&lines);
            lines.push(line);
            assert(text(&lines) =~= before.push(ruler(cols as nat)[l as int]));
            l = l + 1;
            assert(text(&lines) =~~= ruler(cols as nat).take(l as int));
        }
        assert(text(&lines) =~~= ruler(cols as nat));
        proof {
            first = INDEX_WIDTH as int;
        }
    }
    let rows = grid.len();
    let mut y: usize = 0;
    while y < rows
        invariant
            g == cells(grid),
            rows == g.len(),
            expected == rendered(g, show_numbers, cursor),
            first == if show_numbers { INDEX_WIDTH as int } else { 0 },
            y <= rows,
            text(&lines) == expected.take(first + y),
            expected.len() == first + rows,
        decreases rows - y,
    {
        let mut line: Vec<char> = if show_numbers {
            padded_index(y)
        } else {
            Vec::new()
        };
        let ghost prefix = line@;
        let row = &grid[y];
        assert(g[y as int] == row@);
        let mut x: usize = 0;
        while x < row.len()
            invariant
                y < rows,
                rows == g.len(),
                g[y as int] == row@,
                x <= row@.len(),
                line@ == prefix + row_glyphs(row@, y as int, cursor).take(x as int),
            decreases row@.len() - x,
        {
            let under = match cursor {
                Some((cx, cy)) => cx == x && cy == y,
                None => false,
            };
            let ch = if under {
                if row[x] { CURSOR_LIVE } else { CURSOR_DEAD }
            } else {
                if row[x] { LIVE } else { DEAD }
            };
            line.push(ch);
            x = x + 1;
            assert(line@ =~= prefix + row_glyphs(row@, y as int, cursor).take(x as int));
        }
        assert(row_glyphs(row@, y as int, cursor).take(x as int) =~= row_glyphs(row@, y as int, cursor));
        proof {
            let body = Seq::new(
                g.len(),
                |i: int|
                    if show_numbers {
                        padded(i as nat) + row_glyphs(g[i], i, cursor)
                    } else {
                        row_glyphs(g[i], i, cursor)
                    },
            );
            if show_numbers {
                assert(expected == ruler(width(g)) + body);
                assert(expected[first + y] == body[y as int]);
            } else {
                assert(expected == body);
            }
            assert(line@ =~= expected[first + y]);
        }
        let ghost k = first + y;
        let ghost before = text(&lines);
        lines.push(line);
        assert(text(&lines) =~= before.push(expected[k]));
        assert(expected.take(k + 1) =~= expected.take(k).push(expected[k]));
        y = y + 1;
    }
    assert(text(&lines) =~~= expected);
    lines
}

} // verus!
