use game_of_life::grid::{Cell, Universe};

fn blank(width: u32, height: u32) -> Universe {
    let mut u = Universe::new();
    u.set_width(width);
    u.set_height(height);
    u
}

fn input_spaceship() -> Universe {
    let mut universe = blank(6, 6);
    universe.set_cells(&[(1, 2), (2, 3), (3, 1), (3, 2), (3, 3)]);
    universe
}

fn expected_spaceship() -> Universe {
    let mut universe = blank(6, 6);
    universe.set_cells(&[(2, 1), (2, 3), (3, 2), (3, 3), (4, 2)]);
    universe
}

#[test]
fn test_tick() {
    let mut input_universe = input_spaceship();
    let expected_universe = expected_spaceship();
    input_universe.tick();
    assert_eq!(&input_universe.get_cells(), &expected_universe.get_cells());
}

#[test]
fn test_new_deterministic_seed() {
    let u = Universe::new();
    assert_eq!(u.width(), 64);
    assert_eq!(u.height(), 64);
    let cells = u.get_cells();
    assert_eq!(cells.len(), 64 * 64);
    for (i, c) in cells.iter().enumerate() {
        let expected = if i % 2 == 0 || i % 7 == 0 {
            Cell::Alive
        } else {
            Cell::Dead
        };
        assert_eq!(*c, expected);
    }
}

#[test]
fn test_toroidal_wrap_at_origin() {
    // three live neighbors of (0, 0), all reached only through the wrap:
    // (5, 5), (5, 1) and (1, 5) on a 6-by-6 grid
    let mut u = blank(6, 6);
    u.set_cells(&[(5, 5), (5, 1), (1, 5)]);
    u.tick();
    // reproduction: the dead origin has exactly three live neighbors
    assert_eq!(u.get_cells()[0], Cell::Alive);
}

#[test]
fn test_rule_underpopulation() {
    // a live cell with one live neighbor dies
    let mut u = blank(6, 6);
    u.set_cells(&[(2, 2), (2, 3)]);
    u.tick();
    assert_eq!(u.get_cells()[2 * 6 + 2], Cell::Dead);
    assert_eq!(u.get_cells()[2 * 6 + 3], Cell::Dead);
}

#[test]
fn test_rule_survival_two_neighbors() {
    // the middle of a three-cell line survives with two live neighbors
    let mut u = blank(6, 6);
    u.set_cells(&[(2, 1), (2, 2), (2, 3)]);
    u.tick();
    assert_eq!(u.get_cells()[2 * 6 + 2], Cell::Alive);
}

#[test]
fn test_rule_survival_three_neighbors() {
    // every cell of a 2-by-2 block has three live neighbors and survives
    let mut u = blank(6, 6);
    u.set_cells(&[(2, 2), (2, 3), (3, 2), (3, 3)]);
    u.tick();
    assert_eq!(u.get_cells()[2 * 6 + 2], Cell::Alive);
    assert_eq!(u.get_cells()[2 * 6 + 3], Cell::Alive);
    assert_eq!(u.get_cells()[3 * 6 + 2], Cell::Alive);
    assert_eq!(u.get_cells()[3 * 6 + 3], Cell::Alive);
}

#[test]
fn test_rule_overpopulation() {
    // the center of a plus sign has four live neighbors and dies
    let mut u = blank(7, 7);
    u.set_cells(&[(3, 3), (2, 3), (4, 3), (3, 2), (3, 4)]);
    u.tick();
    assert_eq!(u.get_cells()[3 * 7 + 3], Cell::Dead);
}

#[test]
fn test_rule_reproduction() {
    // a dead cell with exactly three live neighbors comes alive
    let mut u = blank(6, 6);
    u.set_cells(&[(2, 1), (2, 3), (3, 2)]);
    u.tick();
    assert_eq!(u.get_cells()[2 * 6 + 2], Cell::Alive);
}

#[test]
fn test_rule_dead_stays_dead() {
    // a dead cell with two live neighbors stays dead
    let mut u = blank(6, 6);
    u.set_cells(&[(2, 1), (2, 3)]);
    u.tick();
    assert_eq!(u.get_cells()[2 * 6 + 2], Cell::Dead);
}

#[test]
fn test_synchronous_update_deterministic() {
    // stepping two identical grids gives bit-identical results
    let mut a = input_spaceship();
    let mut b = input_spaceship();
    a.tick();
    b.tick();
    assert_eq!(a.get_cells(), b.get_cells());
    a.tick();
    b.tick();
    assert_eq!(a.get_cells(), b.get_cells());
}

#[test]
fn test_clear_then_render_all_dead() {
    let mut u = Universe::new();
    u.clear();
    let text = u.render();
    assert_eq!(text.len(), 64 * 65);
    assert!(text.chars().all(|ch| ch == '.' || ch == '\n'));
}

#[test]
fn test_random_preserves_length() {
    let mut u = Universe::new();
    let bits: Vec<bool> = (0..64 * 64).map(|i| i % 3 == 0).collect();
    u.random(&bits);
    assert_eq!(u.get_cells().len(), 64 * 64);
    for (i, c) in u.get_cells().iter().enumerate() {
        let expected = if i % 3 == 0 { Cell::Alive } else { Cell::Dead };
        assert_eq!(*c, expected);
    }
}

#[test]
fn test_get_random_cells_maps_draws() {
    let bits = [true, false, false, true, true, false];
    let cells = Universe::get_random_cells(3, 2, &bits);
    assert_eq!(
        cells,
        vec![
            Cell::Alive,
            Cell::Dead,
            Cell::Dead,
            Cell::Alive,
            Cell::Alive,
            Cell::Dead,
        ]
    );
}

#[test]
fn test_resize_width_resets() {
    let mut u = Universe::new();
    u.set_cells(&[(1, 1)]);
    u.set_width(7);
    assert_eq!(u.width(), 7);
    assert_eq!(u.height(), 64);
    assert_eq!(u.get_cells().len(), 7 * 64);
    assert!(u.get_cells().iter().all(|c| *c == Cell::Dead));
}

#[test]
fn test_resize_height_resets() {
    let mut u = Universe::new();
    u.set_height(5);
    assert_eq!(u.width(), 64);
    assert_eq!(u.height(), 5);
    assert_eq!(u.get_cells().len(), 64 * 5);
    assert!(u.get_cells().iter().all(|c| *c == Cell::Dead));
}

#[test]
fn test_toggle_cell_flips_and_restores() {
    let mut u = blank(4, 4);
    assert_eq!(u.get_cells()[2 * 4 + 3], Cell::Dead);
    u.toggle_cell(2, 3);
    assert_eq!(u.get_cells()[2 * 4 + 3], Cell::Alive);
    u.toggle_cell(2, 3);
    assert_eq!(u.get_cells()[2 * 4 + 3], Cell::Dead);
}

#[test]
fn test_toggle_cell_wraps() {
    // coordinates past the edges wrap toroidally onto the grid
    let mut u = blank(4, 4);
    u.toggle_cell(5, 6);
    assert_eq!(u.get_cells()[1 * 4 + 2], Cell::Alive);
}

#[test]
fn test_render_exact_text() {
    let mut u = blank(3, 2);
    u.set_cells(&[(0, 0), (1, 2)]);
    assert_eq!(u.render(), "*..\n..*\n");
}

#[test]
fn test_render_parse_round_trip() {
    let u = input_spaceship();
    let text = u.render();
    let mut parsed: Vec<Cell> = Vec::new();
    for line in text.lines() {
        for ch in line.chars() {
            parsed.push(if ch == '*' { Cell::Alive } else { Cell::Dead });
        }
    }
    assert_eq!(parsed.as_slice(), u.get_cells());
}

#[test]
fn test_glider_stamp() {
    let mut u = blank(8, 8);
    u.glider(3, 3);
    let expected = [
        (2, 2, Cell::Dead),
        (2, 3, Cell::Alive),
        (2, 4, Cell::Dead),
        (3, 2, Cell::Dead),
        (3, 3, Cell::Dead),
        (3, 4, Cell::Alive),
        (4, 2, Cell::Alive),
        (4, 3, Cell::Alive),
        (4, 4, Cell::Alive),
    ];
    for (r, c, state) in expected {
        assert_eq!(u.get_cells()[r * 8 + c], state);
    }
    // the anchor's block leaves the rest of the grid untouched
    assert_eq!(u.get_cells()[0], Cell::Dead);
}

#[test]
fn test_glider_stamp_wraps_at_origin() {
    // anchored at the corner, the block wraps to the opposite edges
    let mut u = blank(8, 8);
    u.glider(0, 0);
    // the bottom row of the pattern is fully alive: row 1 wrapped
    assert_eq!(u.get_cells()[1 * 8 + 7], Cell::Alive);
    assert_eq!(u.get_cells()[1 * 8 + 0], Cell::Alive);
    assert_eq!(u.get_cells()[1 * 8 + 1], Cell::Alive);
    // the top row holds one live cell in the middle: row 7 wrapped, column 0
    assert_eq!(u.get_cells()[7 * 8 + 0], Cell::Alive);
    assert_eq!(u.get_cells()[7 * 8 + 7], Cell::Dead);
}

#[test]
fn test_pulsar_stamp() {
    let mut u = blank(16, 16);
    u.pulsar(8, 8);
    let alive: usize = u
        .get_cells()
        .iter()
        .filter(|c| **c == Cell::Alive)
        .count();
    // a pulsar holds 48 live cells
    assert_eq!(alive, 48);
    // one vertical bar of three: rows 4..=6 at column 2
    assert_eq!(u.get_cells()[4 * 16 + 2], Cell::Alive);
    assert_eq!(u.get_cells()[5 * 16 + 2], Cell::Alive);
    assert_eq!(u.get_cells()[6 * 16 + 2], Cell::Alive);
    // one horizontal bar of three: row 2 at columns 4..=6
    assert_eq!(u.get_cells()[2 * 16 + 4], Cell::Alive);
    assert_eq!(u.get_cells()[2 * 16 + 5], Cell::Alive);
    assert_eq!(u.get_cells()[2 * 16 + 6], Cell::Alive);
    // the center stays dead
    assert_eq!(u.get_cells()[8 * 16 + 8], Cell::Dead);
}

#[test]
fn test_pulsar_period_three() {
    // the pulsar oscillates with period three on a clear grid
    let mut u = blank(21, 21);
    u.pulsar(10, 10);
    let start: Vec<Cell> = u.get_cells().to_vec();
    u.tick();
    let after_one: Vec<Cell> = u.get_cells().to_vec();
    assert_ne!(start, after_one);
    u.tick();
    u.tick();
    assert_eq!(start.as_slice(), u.get_cells());
}

#[test]
fn test_single_cell_grid_dies() {
    // on a 1-by-1 torus every neighbor position wraps back to the cell
    // itself, so a live cell counts eight live neighbors and dies
    let mut u = blank(1, 1);
    u.toggle_cell(0, 0);
    assert_eq!(u.get_cells(), &[Cell::Alive]);
    u.tick();
    assert_eq!(u.get_cells(), &[Cell::Dead]);
}

#[test]
fn test_set_cells_wraps() {
    // listed coordinates past the edges wrap toroidally onto the grid
    let mut u = blank(4, 4);
    u.set_cells(&[(4, 4), (1, 6)]);
    assert_eq!(u.get_cells()[0], Cell::Alive);
    assert_eq!(u.get_cells()[1 * 4 + 2], Cell::Alive);
    let alive = u.get_cells().iter().filter(|c| **c == Cell::Alive).count();
    assert_eq!(alive, 2);
}

#[test]
fn test_cell_at_wraps() {
    let mut u = blank(6, 6);
    u.set_cells(&[(1, 2)]);
    assert_eq!(u.cell_at(1, 2), Cell::Alive);
    assert_eq!(u.cell_at(0, 0), Cell::Dead);
    // the same cell through one full wrap on each axis
    assert_eq!(u.cell_at(7, 8), Cell::Alive);
}
