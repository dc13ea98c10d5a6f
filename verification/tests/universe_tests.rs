use game_of_life::Universe;
use game_of_life::UniverseCell;
use game_of_life::UniverseGridMode;
use game_of_life::UniversePoint;
use game_of_life::DEFAULT_FREEZE_RATE;
use game_of_life::INITIAL_CORPSE_HEAT;

fn cell_grid(universe: &Universe) -> Vec<UniverseCell> {
    let mut out = Vec::new();
    for row in 0..universe.rows() {
        for column in 0..universe.columns() {
            let (cell, _) = universe.get_cell(row, column);
            out.push(cell);
        }
    }
    out
}

fn set_alive(universe: &mut Universe, positions: &[(usize, usize)]) {
    for &(row, column) in positions {
        universe.set_cell(row, column, UniverseCell::Alive);
    }
}

#[test]
fn new_empty_is_all_dead() {
    let universe = Universe::new_empty(4, 7);
    assert_eq!(universe.rows(), 4);
    assert_eq!(universe.columns(), 7);
    assert_eq!(universe.alive_cells_count(), 0);
    assert_eq!(universe.dead_cells_count(), 28);
    assert_eq!(universe.generations(), 0);
    for row in 0..4 {
        for column in 0..7 {
            let (cell, heat) = universe.get_cell(row, column);
            assert_eq!(cell, UniverseCell::Dead);
            assert_eq!(heat, 0);
        }
    }
}

#[test]
fn all_dead_grid_ticks_to_all_dead() {
    // No spontaneous life on any dimensions.
    for (rows, columns) in [(1, 1), (1, 5), (3, 3), (4, 6)] {
        let mut universe = Universe::new_empty(rows, columns);
        universe.tick();
        assert_eq!(universe.alive_cells_count(), 0);
        universe.tick();
        assert_eq!(universe.alive_cells_count(), 0);
    }
}

#[test]
fn blinker_has_period_two() {
    // A horizontal blinker in the middle of a 5x5 grid, far from the wrap.
    let mut universe = Universe::new_empty(5, 5);
    set_alive(&mut universe, &[(2, 1), (2, 2), (2, 3)]);
    let start = cell_grid(&universe);

    universe.tick();
    let once = cell_grid(&universe);
    assert_ne!(start, once);
    // The blinker flips to a vertical line.
    for row in 0..5 {
        for column in 0..5 {
            let (cell, _) = universe.get_cell(row, column);
            let expected = if column == 2 && (1..=3).contains(&row) {
                UniverseCell::Alive
            } else {
                UniverseCell::Dead
            };
            assert_eq!(cell, expected, "at ({row}, {column}) after one tick");
        }
    }

    universe.tick();
    assert_eq!(cell_grid(&universe), start);
}

#[test]
fn block_is_a_still_life() {
    // A 2x2 block on a 4x4 grid stays a block, exactly.
    let mut universe = Universe::new_empty(4, 4);
    set_alive(&mut universe, &[(1, 1), (1, 2), (2, 1), (2, 2)]);
    let start = cell_grid(&universe);
    universe.tick();
    assert_eq!(cell_grid(&universe), start);
    assert_eq!(universe.alive_cells_count(), 4);
}

#[test]
fn three_by_three_line_wraps_to_full_then_empty() {
    // On a 3x3 torus a vertical line makes every dead cell see exactly 3
    // living neighbours, so one tick fills the grid; with wraparound every
    // cell then sees 8 living neighbours, so the next tick empties it.
    let mut universe = Universe::new_empty(3, 3);
    set_alive(&mut universe, &[(0, 1), (1, 1), (2, 1)]);
    universe.tick();
    assert_eq!(universe.alive_cells_count(), 9);
    universe.tick();
    assert_eq!(universe.alive_cells_count(), 0);
    universe.tick();
    assert_eq!(universe.alive_cells_count(), 0);
}

#[test]
fn neighbor_count_wraps_rows_toroidally() {
    // A cell in the last row is a neighbour of a cell in row 0.
    let mut universe = Universe::new_empty(4, 4);
    universe.set_cell(3, 1, UniverseCell::Alive);
    assert_eq!(universe.cell_living_neighbours_count(0, 1), 1);
    assert_eq!(universe.cell_living_neighbours_count(0, 0), 1);
    assert_eq!(universe.cell_living_neighbours_count(0, 2), 1);
    // Two rows away there is no adjacency.
    assert_eq!(universe.cell_living_neighbours_count(1, 1), 0);
}

#[test]
fn neighbor_count_wraps_columns_toroidally() {
    // A cell in the last column is a neighbour of a cell in column 0.
    let mut universe = Universe::new_empty(4, 4);
    universe.set_cell(1, 3, UniverseCell::Alive);
    assert_eq!(universe.cell_living_neighbours_count(1, 0), 1);
    assert_eq!(universe.cell_living_neighbours_count(0, 0), 1);
    assert_eq!(universe.cell_living_neighbours_count(2, 0), 1);
    assert_eq!(universe.cell_living_neighbours_count(1, 1), 0);
}

#[test]
fn neighbor_count_excludes_self_and_counts_all_eight() {
    let mut universe = Universe::new_empty(5, 5);
    // Ring all eight neighbours of (2, 2) and the cell itself.
    set_alive(
        &mut universe,
        &[
            (1, 1),
            (1, 2),
            (1, 3),
            (2, 1),
            (2, 2),
            (2, 3),
            (3, 1),
            (3, 2),
            (3, 3),
        ],
    );
    assert_eq!(universe.cell_living_neighbours_count(2, 2), 8);
}

#[test]
fn heat_resets_on_death_and_decays_clamped_at_zero() {
    // A lone pair of cells dies immediately: death sets the initial corpse
    // heat; staying dead then cools by the freeze rate until it clamps at 0.
    let mut universe = Universe::new_empty(5, 5);
    set_alive(&mut universe, &[(2, 2), (2, 3)]);
    universe.tick();
    let (cell, heat) = universe.get_cell(2, 2);
    assert_eq!(cell, UniverseCell::Dead);
    assert_eq!(heat, INITIAL_CORPSE_HEAT);
    universe.tick();
    let (_, heat) = universe.get_cell(2, 2);
    assert_eq!(heat, INITIAL_CORPSE_HEAT - DEFAULT_FREEZE_RATE);
    universe.tick();
    let (_, heat) = universe.get_cell(2, 2);
    assert_eq!(heat, INITIAL_CORPSE_HEAT - 2 * DEFAULT_FREEZE_RATE);
    universe.tick();
    let (_, heat) = universe.get_cell(2, 2);
    assert_eq!(heat, 0, "decay clamps at zero, never negative");
    universe.tick();
    let (_, heat) = universe.get_cell(2, 2);
    assert_eq!(heat, 0);
}

#[test]
fn heat_resets_to_zero_on_birth() {
    // The blinker's flip gives freshly born cells heat 0 even though a cell
    // dying in the same tick gets the corpse heat.
    let mut universe = Universe::new_empty(5, 5);
    set_alive(&mut universe, &[(2, 1), (2, 2), (2, 3)]);
    universe.tick();
    let (cell, heat) = universe.get_cell(1, 2);
    assert_eq!(cell, UniverseCell::Alive);
    assert_eq!(heat, 0);
    let (cell, heat) = universe.get_cell(2, 1);
    assert_eq!(cell, UniverseCell::Dead);
    assert_eq!(heat, INITIAL_CORPSE_HEAT);
}

#[test]
fn last_delta_holds_exactly_the_changed_cells() {
    // Blinker flip: corners (2,1) and (2,3) die, (1,2) and (3,2) are born;
    // (2,2) stays alive and must not appear even though nothing else holds
    // heat; unchanged dead cells never appear.
    let mut universe = Universe::new_empty(5, 5);
    set_alive(&mut universe, &[(2, 1), (2, 2), (2, 3)]);
    universe.tick();
    let delta = universe.last_delta();
    let mut changed: Vec<(usize, usize, UniverseCell, u32)> = delta
        .iter()
        .map(|p| (p.row(), p.column(), *p.cell(), p.corpse_heat()))
        .collect();
    changed.sort_by_key(|&(row, column, _, _)| (row, column));
    assert_eq!(
        changed,
        vec![
            (1, 2, UniverseCell::Alive, 0),
            (2, 1, UniverseCell::Dead, INITIAL_CORPSE_HEAT),
            (2, 3, UniverseCell::Dead, INITIAL_CORPSE_HEAT),
            (3, 2, UniverseCell::Alive, 0),
        ]
    );
}

#[test]
fn delta_omits_cells_whose_heat_changed_but_value_did_not() {
    // After the pair dies, the next tick only cools heat: no cell value
    // changes, so the delta is empty.
    let mut universe = Universe::new_empty(5, 5);
    set_alive(&mut universe, &[(2, 2), (2, 3)]);
    universe.tick();
    assert_eq!(universe.last_delta().len(), 2);
    universe.tick();
    let (_, heat) = universe.get_cell(2, 2);
    assert_eq!(heat, INITIAL_CORPSE_HEAT - DEFAULT_FREEZE_RATE);
    assert_eq!(universe.last_delta().len(), 0);
}

#[test]
fn last_delta_before_any_tick_enumerates_every_cell() {
    let universe = Universe::new_empty(3, 2);
    let delta = universe.last_delta();
    assert_eq!(delta.len(), 6);
    let expected: Vec<(usize, usize)> =
        vec![(0, 0), (0, 1), (1, 0), (1, 1), (2, 0), (2, 1)];
    let actual: Vec<(usize, usize)> = delta.iter().map(|p| (p.row(), p.column())).collect();
    assert_eq!(actual, expected);
}

#[test]
fn iter_cells_enumerates_row_major_and_restarts() {
    let mut universe = Universe::new_empty(2, 3);
    universe.set_cell(1, 2, UniverseCell::Alive);
    let first = universe.iter_cells();
    let second = universe.iter_cells();
    assert_eq!(first.len(), 6);
    assert_eq!(first, second);
    assert_eq!(first[5].row(), 1);
    assert_eq!(first[5].column(), 2);
    assert_eq!(*first[5].cell(), UniverseCell::Alive);
    assert_eq!(*first[0].cell(), UniverseCell::Dead);
}

#[test]
fn get_returns_none_out_of_bounds_and_set_cell_overwrites() {
    let mut universe = Universe::new_empty(3, 3);
    assert!(universe.get(3, 0).is_none());
    assert!(universe.get(0, 3).is_none());
    assert!(universe.get(3, 3).is_none());
    let point = universe.get(1, 2).expect("in bounds");
    assert_eq!(point.row(), 1);
    assert_eq!(point.column(), 2);
    assert_eq!(*point.cell(), UniverseCell::Dead);

    universe.set_cell(1, 2, UniverseCell::Alive);
    let point = universe.get(1, 2).expect("in bounds");
    assert_eq!(*point.cell(), UniverseCell::Alive);
    assert_eq!(universe.alive_cells_count(), 1);
}

#[test]
fn set_rejects_out_of_bounds_without_clamping() {
    let mut universe = Universe::new_empty(3, 3);
    assert_eq!(universe.set(5, 0, UniverseCell::Alive), Err(()));
    assert_eq!(universe.set(0, 5, UniverseCell::Alive), Err(()));
    assert_eq!(universe.alive_cells_count(), 0, "a rejected set changes nothing");
    let point = universe.set(0, 0, UniverseCell::Alive).expect("in bounds");
    assert_eq!(point.row(), 0);
    assert_eq!(point.column(), 0);
    assert_eq!(*point.cell(), UniverseCell::Alive);
}

#[test]
fn tick_counts_generations() {
    let mut universe = Universe::new_empty(3, 3);
    assert_eq!(universe.generations(), 0);
    universe.tick();
    universe.tick();
    universe.tick();
    assert_eq!(universe.generations(), 3);
}

#[test]
fn edits_during_pause_feed_the_next_tick_only() {
    // A tick is computed purely from the cells at entry, never from the
    // prior delta: seeding a blinker after an unrelated tick still flips.
    let mut universe = Universe::new_empty(5, 5);
    universe.tick();
    set_alive(&mut universe, &[(2, 1), (2, 2), (2, 3)]);
    universe.tick();
    let (cell, _) = universe.get_cell(1, 2);
    assert_eq!(cell, UniverseCell::Alive);
    let (cell, _) = universe.get_cell(2, 1);
    assert_eq!(cell, UniverseCell::Dead);
}

#[test]
fn seed_from_draws_is_reproducible_and_thresholded() {
    let mut universe = Universe::new_empty(2, 2);
    let draws: Vec<u32> = vec![0, 39, 40, 99];
    universe.seed_from_draws(&draws, 40);
    assert_eq!(*universe.get(0, 0).unwrap().cell(), UniverseCell::Alive);
    assert_eq!(*universe.get(0, 1).unwrap().cell(), UniverseCell::Alive);
    assert_eq!(*universe.get(1, 0).unwrap().cell(), UniverseCell::Dead);
    assert_eq!(*universe.get(1, 1).unwrap().cell(), UniverseCell::Dead);
}

#[test]
fn random_seed_zero_percent_leaves_all_dead() {
    let mut universe = Universe::new_empty(8, 8);
    universe.random_seed(0);
    assert_eq!(universe.alive_cells_count(), 0);
}

#[test]
fn random_seed_hundred_percent_makes_all_alive() {
    // Every thread-local draw lies below 100, so this is certain; it would
    // fail if the random source ever produced a draw of 100 or more.
    let mut universe = Universe::new_empty(8, 8);
    universe.random_seed(100);
    assert_eq!(universe.alive_cells_count(), 64);
}

#[test]
fn new_random_has_sane_dimensions_and_zero_heat() {
    let universe = Universe::new_random(10, 12);
    assert_eq!(universe.rows(), 10);
    assert_eq!(universe.columns(), 12);
    assert_eq!(universe.generations(), 0);
    assert_eq!(
        universe.alive_cells_count() + universe.dead_cells_count(),
        120
    );
    for row in 0..10 {
        for column in 0..12 {
            let (_, heat) = universe.get_cell(row, column);
            assert_eq!(heat, 0);
        }
    }
}

#[test]
fn corpse_freeze_rate_is_tunable() {
    let mut universe = Universe::new_empty(5, 5);
    assert_eq!(universe.corpse_freeze_rate(), DEFAULT_FREEZE_RATE);
    universe.set_corpse_freeze_rate(10);
    assert_eq!(universe.corpse_freeze_rate(), 10);
    // The tuned rate drives the decay.
    set_alive(&mut universe, &[(2, 2), (2, 3)]);
    universe.tick();
    universe.tick();
    let (_, heat) = universe.get_cell(2, 2);
    assert_eq!(heat, INITIAL_CORPSE_HEAT - 10);
}

#[test]
fn duplicate_is_deep_and_independent() {
    let mut universe = Universe::new_empty(3, 3);
    set_alive(&mut universe, &[(1, 1)]);
    let copy = universe.duplicate();
    universe.set_cell(0, 0, UniverseCell::Alive);
    assert_eq!(copy.alive_cells_count(), 1);
    assert_eq!(universe.alive_cells_count(), 2);
    assert_eq!(copy.rows(), 3);
    assert_eq!(copy.generations(), 0);
}

#[test]
fn universe_point_accessors_and_toggle() {
    let mut point = UniversePoint::new(2, 5, UniverseCell::Dead, 42);
    assert_eq!(point.row(), 2);
    assert_eq!(point.column(), 5);
    assert_eq!(*point.cell(), UniverseCell::Dead);
    assert_eq!(point.corpse_heat(), 42);
    point.set_cell(UniverseCell::Alive);
    assert_eq!(*point.cell(), UniverseCell::Alive);

    assert!(UniverseCell::Alive.is_alive());
    assert!(!UniverseCell::Dead.is_alive());
    assert_eq!(UniverseCell::Alive.toggled(), UniverseCell::Dead);
    assert_eq!(UniverseCell::Dead.toggled(), UniverseCell::Alive);
    assert_eq!(UniverseCell::default(), UniverseCell::Dead);
}

#[test]
fn single_row_and_single_column_grids_tick_safely() {
    // Modulus-1 wraparound degenerates onto the same row or column; ticks
    // must stay in bounds and never panic.
    let mut row_universe = Universe::new_empty(1, 6);
    row_universe.set_cell(0, 2, UniverseCell::Alive);
    row_universe.set_cell(0, 3, UniverseCell::Alive);
    row_universe.tick();
    assert_eq!(row_universe.rows(), 1);

    let mut column_universe = Universe::new_empty(6, 1);
    column_universe.set_cell(2, 0, UniverseCell::Alive);
    column_universe.tick();
    assert_eq!(column_universe.columns(), 1);

    let mut unit = Universe::new_empty(1, 1);
    unit.set_cell(0, 0, UniverseCell::Alive);
    // A lone cell on a 1x1 torus is its own eight neighbours: eight living
    // neighbours kill it.
    assert_eq!(unit.cell_living_neighbours_count(0, 0), 8);
    unit.tick();
    assert_eq!(unit.alive_cells_count(), 0);
}

#[test]
fn grid_mode_defaults_to_locked() {
    assert_eq!(UniverseGridMode::default(), UniverseGridMode::Locked);
    assert_ne!(UniverseGridMode::Unlocked, UniverseGridMode::Locked);
}

#[test]
fn default_universe_is_two_hundred_square() {
    let universe = Universe::default();
    assert_eq!(universe.rows(), 200);
    assert_eq!(universe.columns(), 200);
    assert_eq!(universe.generations(), 0);
    assert_eq!(
        universe.alive_cells_count() + universe.dead_cells_count(),
        40000
    );
}
