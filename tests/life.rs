use life::editor::{place_on_key, resize_on_key, Key};
use life::grid::{empty_grid, neighbour_count};
use life::render::{render_grid, CURSOR_DEAD, CURSOR_LIVE, DEAD, LIVE};
use life::step::{play_cell_turn, play_turn};

fn grid_with(width: usize, height: usize, live: &[(usize, usize)]) -> Vec<Vec<bool>> {
    let mut grid = empty_grid(width, height);
    for &(x, y) in live {
        grid[y][x] = true;
    }
    grid
}

fn live_cells(grid: &Vec<Vec<bool>>) -> Vec<(usize, usize)> {
    let mut out = Vec::new();
    for (y, row) in grid.iter().enumerate() {
        for (x, &cell) in row.iter().enumerate() {
            if cell {
                out.push((x, y));
            }
        }
    }
    out
}

fn line(s: &str) -> Vec<char> {
    s.chars().collect()
}

#[test]
fn empty_grid_has_shape_and_is_dead() {
    let grid = empty_grid(3, 2);
    assert_eq!(grid.len(), 2);
    assert!(grid.iter().all(|row| row.len() == 3));
    assert!(live_cells(&grid).is_empty());
}

#[test]
fn block_and_blinker_after_one_turn() {
    let mut grid = grid_with(8, 8, &[(6, 2), (7, 2), (6, 3), (7, 3), (3, 6), (4, 6), (5, 6)]);
    let mut turn: u16 = 0;
    play_turn(&mut turn, &mut grid);
    assert_eq!(turn, 1);
    let mut expected = vec![(6, 2), (7, 2), (6, 3), (7, 3), (4, 5), (4, 6), (4, 7)];
    expected.sort_by_key(|&(x, y)| (y, x));
    assert_eq!(live_cells(&grid), expected);
    assert!(!grid[6][3]);
    assert!(!grid[6][5]);
}

#[test]
fn blinker_returns_after_two_turns() {
    let start = grid_with(5, 5, &[(1, 2), (2, 2), (3, 2)]);
    let mut grid = start.clone();
    let mut turn: u16 = 7;
    play_turn(&mut turn, &mut grid);
    assert_eq!(live_cells(&grid), vec![(2, 1), (2, 2), (2, 3)]);
    play_turn(&mut turn, &mut grid);
    assert_eq!(grid, start);
    assert_eq!(turn, 9);
}

#[test]
fn turn_keeps_dimensions() {
    let mut grid = grid_with(5, 3, &[(0, 0), (1, 1), (4, 2)]);
    let mut turn: u16 = 0;
    play_turn(&mut turn, &mut grid);
    assert_eq!(grid.len(), 3);
    assert!(grid.iter().all(|row| row.len() == 5));
}

#[test]
fn rule_survival_death_and_birth() {
    // (1,1) is live with two neighbours, (3,1) live with one, (2,0) dead with three.
    let start = grid_with(5, 3, &[(1, 1), (1, 0), (0, 1), (3, 1)]);
    assert_eq!(neighbour_count(&start, 1, 1), 2);
    assert_eq!(neighbour_count(&start, 3, 1), 0);
    let mut grid = start.clone();
    let mut turn: u16 = 0;
    play_turn(&mut turn, &mut grid);
    assert!(grid[1][1]);
    assert!(!grid[1][3]);
    assert!(grid[0][0]);
}

#[test]
fn overcrowded_cell_dies() {
    let start = grid_with(3, 3, &[(1, 1), (0, 0), (1, 0), (2, 0), (0, 1)]);
    assert_eq!(neighbour_count(&start, 1, 1), 4);
    let mut grid = start.clone();
    play_cell_turn(&start, &mut grid, 1, 1);
    assert!(!grid[1][1]);
}

#[test]
fn cell_turn_writes_only_where_the_rule_changes_the_cell() {
    let start = grid_with(3, 3, &[(0, 0), (1, 0), (2, 0)]);
    let mut grid = start.clone();
    play_cell_turn(&start, &mut grid, 1, 1);
    assert!(grid[1][1]);
    play_cell_turn(&start, &mut grid, 0, 0);
    assert!(!grid[0][0]);
    assert_eq!(live_cells(&grid), vec![(1, 0), (2, 0), (1, 1)]);
}

#[test]
fn full_neighbourhood_counts_eight_not_nine() {
    let grid = grid_with(3, 3, &[(0, 0), (1, 0), (2, 0), (0, 1), (1, 1), (2, 1), (0, 2), (1, 2), (2, 2)]);
    assert_eq!(neighbour_count(&grid, 1, 1), 8);
    let mut without_centre = grid.clone();
    without_centre[1][1] = false;
    assert_eq!(neighbour_count(&without_centre, 1, 1), 8);
}

#[test]
fn edges_do_not_wrap() {
    let grid = grid_with(4, 4, &[(3, 0), (0, 3), (3, 3), (3, 1)]);
    assert_eq!(neighbour_count(&grid, 0, 0), 0);
    let full = grid_with(4, 4, &(0..16).map(|i| (i % 4, i / 4)).collect::<Vec<_>>());
    assert_eq!(neighbour_count(&full, 0, 0), 3);
    assert_eq!(neighbour_count(&full, 3, 3), 3);
    assert_eq!(neighbour_count(&full, 2, 0), 5);
    assert_eq!(neighbour_count(&full, 0, 1), 5);
    assert_eq!(neighbour_count(&full, 1, 2), 8);
}

#[test]
fn single_cell_grid_has_no_neighbours() {
    let grid = grid_with(1, 1, &[(0, 0)]);
    assert_eq!(neighbour_count(&grid, 0, 0), 0);
}

#[test]
fn resize_grows_and_shrinks() {
    let mut grid = empty_grid(3, 2);
    assert!(!resize_on_key(&mut grid, Key::Down));
    assert_eq!((grid.len(), grid[0].len()), (3, 3));
    assert!(!resize_on_key(&mut grid, Key::Right));
    assert_eq!((grid.len(), grid[0].len()), (3, 4));
    assert!(!resize_on_key(&mut grid, Key::Up));
    assert_eq!((grid.len(), grid[0].len()), (2, 4));
    assert!(!resize_on_key(&mut grid, Key::Left));
    assert_eq!((grid.len(), grid[0].len()), (2, 3));
    assert!(!resize_on_key(&mut grid, Key::Toggle));
    assert!(!resize_on_key(&mut grid, Key::Other));
    assert_eq!((grid.len(), grid[0].len()), (2, 3));
    assert!(resize_on_key(&mut grid, Key::Confirm));
    assert_eq!((grid.len(), grid[0].len()), (2, 3));
}

#[test]
fn shrink_stops_at_one() {
    let mut grid = empty_grid(4, 2);
    resize_on_key(&mut grid, Key::Up);
    assert_eq!(grid.len(), 1);
    resize_on_key(&mut grid, Key::Up);
    assert_eq!(grid.len(), 1);
    let mut narrow = empty_grid(1, 3);
    resize_on_key(&mut narrow, Key::Left);
    assert_eq!(narrow[0].len(), 1);
    assert_eq!(narrow.len(), 3);
}

#[test]
fn resize_clears_cells() {
    let mut grid = grid_with(3, 3, &[(0, 0), (2, 2), (1, 1)]);
    resize_on_key(&mut grid, Key::Down);
    assert!(live_cells(&grid).is_empty());
    let mut grid = grid_with(3, 3, &[(0, 0), (2, 2)]);
    resize_on_key(&mut grid, Key::Left);
    assert_eq!((grid.len(), grid[0].len()), (3, 2));
    assert!(live_cells(&grid).is_empty());
}

#[test]
fn cursor_stays_in_corner() {
    let mut grid = empty_grid(3, 3);
    let mut cursor = (0, 0);
    assert!(!place_on_key(&mut grid, &mut cursor, Key::Left));
    assert_eq!(cursor, (0, 0));
    assert!(!place_on_key(&mut grid, &mut cursor, Key::Up));
    assert_eq!(cursor, (0, 0));
}

#[test]
fn cursor_moves_within_bounds() {
    let mut grid = empty_grid(3, 2);
    let mut cursor = (0, 0);
    place_on_key(&mut grid, &mut cursor, Key::Right);
    place_on_key(&mut grid, &mut cursor, Key::Right);
    place_on_key(&mut grid, &mut cursor, Key::Right);
    assert_eq!(cursor, (2, 0));
    place_on_key(&mut grid, &mut cursor, Key::Down);
    place_on_key(&mut grid, &mut cursor, Key::Down);
    assert_eq!(cursor, (2, 1));
    place_on_key(&mut grid, &mut cursor, Key::Left);
    place_on_key(&mut grid, &mut cursor, Key::Up);
    assert_eq!(cursor, (1, 0));
    assert!(place_on_key(&mut grid, &mut cursor, Key::Confirm));
    assert_eq!(cursor, (1, 0));
    assert!(live_cells(&grid).is_empty());
}

#[test]
fn toggle_flips_one_cell_and_twice_restores() {
    let start = grid_with(3, 3, &[(2, 2)]);
    let mut grid = start.clone();
    let mut cursor = (1, 2);
    assert!(!place_on_key(&mut grid, &mut cursor, Key::Toggle));
    assert_eq!(live_cells(&grid), vec![(1, 2), (2, 2)]);
    assert_eq!(cursor, (1, 2));
    place_on_key(&mut grid, &mut cursor, Key::Toggle);
    assert_eq!(grid, start);
}

#[test]
fn render_small_dead_grid() {
    let grid = empty_grid(2, 2);
    let lines = render_grid(&grid, false, None);
    assert_eq!(lines, vec![vec![DEAD, DEAD], vec![DEAD, DEAD]]);
}

#[test]
fn render_glyphs_and_cursor() {
    let grid = grid_with(3, 2, &[(0, 0), (2, 1)]);
    let lines = render_grid(&grid, false, Some((2, 1)));
    assert_eq!(lines, vec![vec![LIVE, DEAD, DEAD], vec![DEAD, DEAD, CURSOR_LIVE]]);
    let lines = render_grid(&grid, false, Some((1, 0)));
    assert_eq!(lines, vec![vec![LIVE, CURSOR_DEAD, DEAD], vec![DEAD, DEAD, LIVE]]);
    assert_eq!(lines[0].iter().collect::<String>(), "\u{25A0}\u{25CB}\u{25A1}");
}

#[test]
fn render_with_ruler() {
    let grid = grid_with(12, 11, &[(2, 1)]);
    let lines = render_grid(&grid, true, None);
    assert_eq!(lines.len(), 14);
    assert_eq!(lines[0], line("               "));
    assert_eq!(lines[1], line("             11"));
    assert_eq!(lines[2], line("   012345678901"));
    let mut row1 = line("  1");
    row1.extend([DEAD, DEAD, LIVE]);
    row1.extend(std::iter::repeat(DEAD).take(9));
    assert_eq!(lines[4], row1);
    assert_eq!(lines[13][..3], line(" 10")[..]);
}

#[test]
fn render_ruler_with_wide_index() {
    let grid = empty_grid(1, 1001);
    let lines = render_grid(&grid, true, None);
    assert_eq!(lines.len(), 1004);
    let mut last = line("1000");
    last.push(DEAD);
    assert_eq!(lines[1003], last);
}

#[test]
fn position_beside_the_grid_counts_the_edge_column() {
    let full = grid_with(3, 3, &(0..9).map(|i| (i % 3, i / 3)).collect::<Vec<_>>());
    assert_eq!(neighbour_count(&full, 3, 1), 3);
    assert_eq!(neighbour_count(&full, 5, 1), 0);
}
