use life::Grid;

fn frame(grid: &Grid) -> String {
    let mut out: Vec<u8> = Vec::new();
    grid.print_to(&mut out);
    String::from_utf8(out).unwrap()
}

fn alive_cells(grid: &Grid) -> Vec<(i32, i32)> {
    let mut cells = Vec::new();
    for y in 0..grid.height() {
        for x in 0..grid.width() {
            if grid.get(x, y) {
                cells.push((x, y));
            }
        }
    }
    cells
}

fn with_cells(width: i32, height: i32, alive: &[(i32, i32)]) -> Grid {
    let mut grid = Grid::new(width, height, true, 0);
    for &(x, y) in alive {
        grid.set(x, y, true);
    }
    grid
}

#[test]
fn new_grid_is_all_dead() {
    let grid = Grid::new(7, 4, false, 1);
    assert_eq!(grid.width(), 7);
    assert_eq!(grid.height(), 4);
    assert!(!grid.ascii());
    for y in 0..4 {
        for x in 0..7 {
            assert!(!grid.get(x, y));
        }
    }
    assert_eq!(frame(&grid), "░░░░░░░\n".repeat(4));
}

#[test]
fn get_outside_the_space_is_dead() {
    let grid = with_cells(2, 2, &[(0, 0), (1, 0), (0, 1), (1, 1)]);
    assert!(!grid.get(-1, 0));
    assert!(!grid.get(2, 0));
    assert!(!grid.get(0, -1));
    assert!(!grid.get(0, 2));
}

#[test]
fn set_changes_one_cell() {
    let mut grid = Grid::new(3, 2, true, 0);
    grid.set(2, 1, true);
    assert_eq!(alive_cells(&grid), vec![(2, 1)]);
    assert_eq!(frame(&grid), "...\n..x\n");
    grid.set(2, 1, false);
    assert_eq!(alive_cells(&grid), vec![]);
}

#[test]
fn randomize_keeps_coverage() {
    let mut grid = Grid::new(70, 30, true, 42);
    grid.randomize();
    assert_eq!(grid.width(), 70);
    assert_eq!(grid.height(), 30);
    let text = frame(&grid);
    let rows: Vec<&str> = text.split_terminator('\n').collect();
    assert_eq!(rows.len(), 30);
    for row in rows {
        assert_eq!(row.len(), 70);
        assert!(row.chars().all(|c| c == 'x' || c == '.'));
    }
}

#[test]
fn randomize_draws_both_values() {
    let mut grid = Grid::new(70, 30, true, 42);
    grid.randomize();
    let alive = alive_cells(&grid).len();
    assert!(alive > 0);
    assert!(alive < 70 * 30);
}

#[test]
fn alive_count_interior_and_bounds() {
    let full = with_cells(3, 3, &[(0, 0), (1, 0), (2, 0), (0, 1), (1, 1), (2, 1), (0, 2), (1, 2), (2, 2)]);
    assert_eq!(full.alive_count(1, 1), 8);
    assert_eq!(full.alive_count(0, 0), 3);
    assert_eq!(full.alive_count(2, 2), 3);
    assert_eq!(full.alive_count(1, 0), 5);
    let empty = Grid::new(3, 3, true, 0);
    assert_eq!(empty.alive_count(1, 1), 0);
}

#[test]
fn alive_count_does_not_wrap() {
    // cells on the far edges would be neighbours of (0, 0) on a torus
    let grid = with_cells(4, 4, &[(3, 0), (0, 3), (3, 3), (3, 1), (1, 3)]);
    assert_eq!(grid.alive_count(0, 0), 0);
    let corner = with_cells(1, 1, &[(0, 0)]);
    assert_eq!(corner.alive_count(0, 0), 0);
}

#[test]
fn next_state_follows_the_rule() {
    // live centre of a 3x3 grid with n live neighbours
    let live = |n: usize| {
        let ring = [(0, 0), (1, 0), (2, 0), (0, 1), (2, 1), (0, 2), (1, 2), (2, 2)];
        let mut cells = vec![(1, 1)];
        cells.extend_from_slice(&ring[..n]);
        with_cells(3, 3, &cells)
    };
    let dead = |n: usize| {
        let ring = [(0, 0), (1, 0), (2, 0), (0, 1), (2, 1), (0, 2), (1, 2), (2, 2)];
        with_cells(3, 3, &ring[..n])
    };
    let expected_live = [false, false, true, true, false, false, false, false, false];
    let expected_dead = [false, false, false, true, false, false, false, false, false];
    for n in 0..=8 {
        assert_eq!(live(n).next_state(1, 1), expected_live[n], "live, {} neighbours", n);
        assert_eq!(dead(n).next_state(1, 1), expected_dead[n], "dead, {} neighbours", n);
    }
}

#[test]
fn dead_cell_with_two_neighbours_stays_dead() {
    let mut grid = with_cells(3, 3, &[(0, 0), (2, 2)]);
    assert_eq!(grid.alive_count(1, 1), 2);
    grid.step();
    assert!(!grid.get(1, 1));
}

#[test]
fn step_is_a_function_of_the_cells() {
    let mut a = Grid::new(20, 10, true, 5);
    a.randomize();
    let mut b = Grid::new(20, 10, false, 99);
    for &(x, y) in &alive_cells(&a) {
        b.set(x, y, true);
    }
    a.step();
    b.step();
    assert_eq!(alive_cells(&a), alive_cells(&b));
    a.step();
    b.step();
    assert_eq!(alive_cells(&a), alive_cells(&b));
}

#[test]
fn block_is_a_still_life() {
    let block = [(2, 2), (3, 2), (2, 3), (3, 3)];
    let mut grid = with_cells(6, 6, &block);
    for (x, y) in block {
        assert_eq!(grid.alive_count(x, y), 3);
    }
    grid.step();
    assert_eq!(alive_cells(&grid), block.to_vec());
    grid.step();
    assert_eq!(alive_cells(&grid), block.to_vec());
}

#[test]
fn blinker_oscillates_with_period_two() {
    let horizontal = vec![(1, 2), (2, 2), (3, 2)];
    let vertical = vec![(2, 1), (2, 2), (2, 3)];
    let mut grid = with_cells(5, 5, &horizontal);
    grid.step();
    assert_eq!(alive_cells(&grid), vertical);
    grid.step();
    assert_eq!(alive_cells(&grid), horizontal);
}

#[test]
fn glyphs_ascii() {
    let mut grid = Grid::new(2, 1, true, 0);
    grid.set(0, 0, true);
    assert_eq!(frame(&grid), "x.\n");
}

#[test]
fn glyphs_block() {
    let mut grid = Grid::new(2, 1, false, 0);
    grid.set(0, 0, true);
    assert_eq!(frame(&grid), "\u{2588}\u{2591}\n");
    let mut out: Vec<u8> = Vec::new();
    grid.print_to(&mut out);
    assert_eq!(out, vec![0xe2, 0x96, 0x88, 0xe2, 0x96, 0x91, b'\n']);
}

#[test]
fn print_to_appends() {
    let grid = with_cells(3, 2, &[(1, 0), (0, 1)]);
    let mut out: Vec<u8> = b"> ".to_vec();
    grid.print_to(&mut out);
    assert_eq!(String::from_utf8(out).unwrap(), "> .x.\nx..\n");
}

#[test]
fn seeded_runs_are_reproducible() {
    let run = |seed: u64| {
        let mut grid = Grid::new(70, 30, true, seed);
        grid.randomize();
        let mut frames = vec![frame(&grid)];
        for _ in 0..5 {
            grid.step();
            frames.push(frame(&grid));
        }
        frames
    };
    assert_eq!(run(2024), run(2024));
    assert_ne!(run(2024)[0], run(2025)[0]);
}

#[test]
fn fill_cells_is_row_major() {
    let mut grid = Grid::new(3, 2, true, 0);
    grid.set(0, 0, true);
    grid.fill_cells(&vec![false, true, false, true, true, false]);
    assert_eq!(alive_cells(&grid), vec![(1, 0), (0, 1), (1, 1)]);
    assert_eq!(frame(&grid), ".x.\nxx.\n");
}

#[test]
fn randomize_with_equal_seeds_gives_equal_cells() {
    let mut a = Grid::new(16, 9, true, 77);
    let mut b = Grid::new(16, 9, false, 77);
    b.set(3, 3, true);
    a.randomize();
    b.randomize();
    assert_eq!(alive_cells(&a), alive_cells(&b));
    a.step();
    b.step();
    assert_eq!(alive_cells(&a), alive_cells(&b));
}
