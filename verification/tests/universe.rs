use game_of_life::universe::Cell::{Alive, Dead};
use game_of_life::universe::{Cell, Universe};

fn from_cells(width: u32, height: u32, cells: &[Cell]) -> Universe {
    let draws: Vec<bool> = cells.iter().map(|cell| *cell == Alive).collect();
    Universe::new(width, height, &draws)
}

fn get_universe() -> Universe {
    from_cells(
        5,
        5,
        &[
            Dead, Dead, Dead, Dead, Dead,
            Alive, Dead, Alive, Dead, Dead,
            Dead, Dead, Alive, Dead, Dead,
            Dead, Dead, Alive, Dead, Dead,
            Dead, Dead, Dead, Dead, Alive,
        ],
    )
}

fn dead_universe(width: u32, height: u32) -> Universe {
    from_cells(width, height, &vec![Dead; (width * height) as usize])
}

#[test]
fn should_fetch_correct_index() {
    let universe = get_universe();
    assert_eq!(universe.get_index(1, 1), 6);
}

#[test]
fn should_count_correct_neighbrs() {
    let univ = get_universe();
    assert_eq!(univ.live_neighbour_count(0, 0), 2);
    assert_eq!(univ.live_neighbour_count(0, 1), 2);
    assert_eq!(univ.live_neighbour_count(0, 2), 1);
    assert_eq!(univ.live_neighbour_count(0, 3), 2);
    assert_eq!(univ.live_neighbour_count(0, 4), 2);
    assert_eq!(univ.live_neighbour_count(1, 0), 0);
    assert_eq!(univ.live_neighbour_count(1, 1), 3);
    assert_eq!(univ.live_neighbour_count(1, 2), 1);
    assert_eq!(univ.live_neighbour_count(1, 3), 2);
    assert_eq!(univ.live_neighbour_count(1, 4), 1);
    assert_eq!(univ.live_neighbour_count(2, 0), 1);
    assert_eq!(univ.live_neighbour_count(2, 1), 4);
    assert_eq!(univ.live_neighbour_count(2, 2), 2);
    assert_eq!(univ.live_neighbour_count(2, 3), 3);
    assert_eq!(univ.live_neighbour_count(2, 4), 1);
    assert_eq!(univ.live_neighbour_count(3, 0), 1);
    assert_eq!(univ.live_neighbour_count(3, 1), 2);
    assert_eq!(univ.live_neighbour_count(3, 2), 1);
    assert_eq!(univ.live_neighbour_count(3, 3), 3);
    assert_eq!(univ.live_neighbour_count(3, 4), 1);
    assert_eq!(univ.live_neighbour_count(4, 0), 1);
    assert_eq!(univ.live_neighbour_count(4, 1), 1);
    assert_eq!(univ.live_neighbour_count(4, 2), 1);
    assert_eq!(univ.live_neighbour_count(4, 3), 2);
    assert_eq!(univ.live_neighbour_count(4, 4), 0);
}

#[test]
fn should_get_correct_next_tick() {
    let mut univ = get_universe();
    univ.tick();
    assert_eq!(
        univ.get_cells(),
        vec![
            Dead, Dead, Dead, Dead, Dead,
            Dead, Alive, Dead, Dead, Dead,
            Dead, Dead, Alive, Alive, Dead,
            Dead, Dead, Dead, Alive, Dead,
            Dead, Dead, Dead, Dead, Dead,
        ]
    );
}

#[test]
fn index_is_row_times_width_plus_column() {
    let universe = dead_universe(7, 3);
    for row in 0..3u32 {
        for column in 0..7u32 {
            assert_eq!(universe.get_index(row, column), (row * 7 + column) as usize);
        }
    }
    assert_eq!(universe.get_index(0, 0), 0);
    assert_eq!(universe.get_index(2, 6), 20);
}

#[test]
fn corner_counts_the_opposite_corner() {
    let mut universe = dead_universe(5, 5);
    universe.set_cells(&[(4, 4)]);
    assert_eq!(universe.live_neighbour_count(0, 0), 1);
    assert_eq!(universe.live_neighbour_count(4, 4), 0);
    assert_eq!(universe.live_neighbour_count(0, 4), 1);
    assert_eq!(universe.live_neighbour_count(4, 0), 1);
    assert_eq!(universe.live_neighbour_count(2, 2), 0);

    let mut other = dead_universe(5, 5);
    other.set_cells(&[(0, 0)]);
    assert_eq!(other.live_neighbour_count(4, 4), 1);
    assert_eq!(other.live_neighbour_count(0, 0), 0);
}

#[test]
fn edges_count_the_opposite_edge() {
    let mut universe = dead_universe(4, 3);
    universe.set_cells(&[(0, 1), (2, 3)]);
    // the last row is above the first, the last column is left of the first
    assert_eq!(universe.live_neighbour_count(2, 1), 1);
    assert_eq!(universe.live_neighbour_count(2, 0), 2);
    assert_eq!(universe.live_neighbour_count(0, 0), 2);
    assert_eq!(universe.live_neighbour_count(1, 0), 2);
    assert_eq!(universe.live_neighbour_count(1, 2), 2);
}

#[test]
fn count_wraps_positions_beyond_the_grid() {
    let universe = get_universe();
    assert_eq!(universe.live_neighbour_count(5, 5), universe.live_neighbour_count(0, 0));
    assert_eq!(universe.live_neighbour_count(6, 11), universe.live_neighbour_count(1, 1));
    // u32::MAX is a multiple of 5
    assert_eq!(universe.live_neighbour_count(u32::MAX, u32::MAX), 2);
    assert_eq!(universe.live_neighbour_count(u32::MAX, 1), universe.live_neighbour_count(0, 1));
}

#[test]
fn full_grid_has_eight_neighbours_everywhere() {
    let universe = from_cells(4, 4, &vec![Alive; 16]);
    for row in 0..4u32 {
        for column in 0..4u32 {
            assert_eq!(universe.live_neighbour_count(row, column), 8);
        }
    }
}

#[test]
fn two_by_two_grid_counts_each_neighbour_as_often_as_it_is_met() {
    let universe = from_cells(2, 2, &[Alive, Dead, Dead, Dead]);
    assert_eq!(universe.live_neighbour_count(0, 0), 0);
    assert_eq!(universe.live_neighbour_count(0, 1), 2);
    assert_eq!(universe.live_neighbour_count(1, 0), 2);
    assert_eq!(universe.live_neighbour_count(1, 1), 4);
}

#[test]
fn single_row_skips_every_pair_of_zero_steps() {
    let universe = from_cells(5, 1, &[Alive, Alive, Alive, Dead, Dead]);
    assert_eq!(universe.live_neighbour_count(0, 1), 7);
    assert_eq!(universe.live_neighbour_count(0, 4), 3);
}

#[test]
fn single_cell_counts_itself_five_times() {
    let mut universe = from_cells(1, 1, &[Alive]);
    assert_eq!(universe.live_neighbour_count(0, 0), 5);
    universe.tick();
    assert_eq!(universe.get_cells(), vec![Dead]);
    assert_eq!(universe.live_neighbour_count(0, 0), 0);
}

#[test]
fn block_is_a_still_life() {
    let mut universe = dead_universe(6, 6);
    universe.set_cells(&[(2, 2), (2, 3), (3, 2), (3, 3)]);
    let before = universe.get_cells().to_vec();
    universe.tick();
    assert_eq!(universe.get_cells(), before);
    universe.tick();
    assert_eq!(universe.get_cells(), before);
}

#[test]
fn block_across_the_edges_is_a_still_life() {
    let mut universe = dead_universe(5, 4);
    universe.set_cells(&[(3, 4), (3, 0), (0, 4), (0, 0)]);
    let before = universe.get_cells().to_vec();
    universe.tick();
    assert_eq!(universe.get_cells(), before);
}

#[test]
fn block_on_three_by_three_is_a_still_life() {
    let mut universe = dead_universe(3, 3);
    universe.set_cells(&[(0, 0), (0, 1), (1, 0), (1, 1)]);
    let before = universe.get_cells().to_vec();
    universe.tick();
    assert_eq!(universe.get_cells(), before);
}

#[test]
fn blinker_turns_and_turns_back() {
    let mut universe = dead_universe(5, 5);
    universe.set_cells(&[(2, 1), (2, 2), (2, 3)]);
    let first = universe.get_cells().to_vec();
    universe.tick();
    let mut upright = dead_universe(5, 5);
    upright.set_cells(&[(1, 2), (2, 2), (3, 2)]);
    assert_eq!(universe.get_cells(), upright.get_cells());
    universe.tick();
    assert_eq!(universe.get_cells(), first);
}

#[test]
fn tick_reads_only_the_generation_before() {
    // a lone pair dies at once; no cell sees a neighbour that was advanced
    let mut universe = dead_universe(4, 4);
    universe.set_cells(&[(1, 1), (1, 2)]);
    universe.tick();
    assert_eq!(universe.get_cells(), vec![Dead; 16]);
}

#[test]
fn resize_resets_state() {
    let mut universe = get_universe();
    universe.tick();
    universe.tick();
    universe.set_width(3);
    assert_eq!(universe.width(), 3);
    assert_eq!(universe.height(), 5);
    assert_eq!(universe.get_cells().len(), 15);
    assert!(universe.get_cells().iter().all(|cell| *cell == Dead));

    let mut other = get_universe();
    other.tick();
    other.set_height(8);
    assert_eq!(other.width(), 5);
    assert_eq!(other.height(), 8);
    assert_eq!(other.get_cells().len(), 40);
    assert!(other.get_cells().iter().all(|cell| *cell == Dead));
}

#[test]
fn resize_of_a_live_grid_leaves_no_live_cell() {
    let mut universe = from_cells(2, 2, &[Alive, Alive, Alive, Alive]);
    universe.set_width(2);
    assert_eq!(universe.get_cells(), vec![Dead; 4]);
    let mut other = from_cells(2, 2, &[Alive, Alive, Alive, Alive]);
    other.set_height(1);
    assert_eq!(other.get_cells(), vec![Dead; 2]);
}

#[test]
fn set_cells_on_a_dead_grid_leaves_exactly_those_alive() {
    let mut universe = dead_universe(4, 3);
    universe.set_cells(&[(0, 0), (1, 2), (2, 3), (1, 2)]);
    assert_eq!(
        universe.get_cells(),
        vec![
            Alive, Dead, Dead, Dead,
            Dead, Dead, Alive, Dead,
            Dead, Dead, Dead, Alive,
        ]
    );
}

#[test]
fn set_cells_never_kills() {
    let mut universe = get_universe();
    universe.set_cells(&[(1, 0), (0, 4)]);
    assert_eq!(
        universe.get_cells(),
        vec![
            Dead, Dead, Dead, Dead, Alive,
            Alive, Dead, Alive, Dead, Dead,
            Dead, Dead, Alive, Dead, Dead,
            Dead, Dead, Alive, Dead, Dead,
            Dead, Dead, Dead, Dead, Alive,
        ]
    );
}

#[test]
fn set_cells_with_nothing_changes_nothing() {
    let mut universe = get_universe();
    let before = universe.get_cells().to_vec();
    universe.set_cells(&[]);
    assert_eq!(universe.get_cells(), before);
}

#[test]
fn tick_keeps_the_size() {
    let mut universe = from_cells(3, 2, &[Alive, Dead, Alive, Dead, Alive, Dead]);
    for _ in 0..5 {
        universe.tick();
        assert_eq!(universe.width(), 3);
        assert_eq!(universe.height(), 2);
        assert_eq!(universe.get_cells().len(), 6);
    }
}

#[test]
fn new_follows_the_draws() {
    let universe = Universe::new(3, 2, &[true, false, false, true, true, false]);
    assert_eq!(universe.width(), 3);
    assert_eq!(universe.height(), 2);
    assert_eq!(universe.get_cells(), vec![Alive, Dead, Dead, Alive, Alive, Dead]);
}

#[test]
fn get_universe_is_sixty_four_by_sixty_four() {
    let draws: Vec<bool> = (0..64 * 64).map(|i| i % 3 == 0).collect();
    let universe = game_of_life::get_universe(&draws);
    assert_eq!(universe.width(), 64);
    assert_eq!(universe.height(), 64);
    assert_eq!(universe.get_cells().len(), 4096);
    for (i, cell) in universe.get_cells().iter().enumerate() {
        assert_eq!(*cell == Alive, i % 3 == 0);
    }
}

#[test]
fn cells_and_get_cells_show_the_same_buffer() {
    let universe = get_universe();
    assert_eq!(universe.cells(), universe.get_cells());
    assert_eq!(universe.cells().len(), 25);
    assert_eq!(universe.cells()[5], Alive);
    assert_eq!(universe.cells()[6], Dead);
}

#[test]
fn render_draws_one_line_per_row() {
    let universe = from_cells(3, 2, &[Alive, Dead, Dead, Dead, Alive, Alive]);
    assert_eq!(universe.render(), "◼◻◻\n◻◼◼\n");
    let before = get_universe();
    assert_eq!(before.render(), "◻◻◻◻◻\n◼◻◼◻◻\n◻◻◼◻◻\n◻◻◼◻◻\n◻◻◻◻◼\n");
}

#[test]
fn render_of_a_single_cell() {
    assert_eq!(from_cells(1, 1, &[Dead]).render(), "\u{25FB}\n");
    assert_eq!(from_cells(1, 1, &[Alive]).render(), "\u{25FC}\n");
}

#[test]
fn rule_for_a_live_cell() {
    let expected = [Dead, Dead, Alive, Alive, Dead, Dead, Dead, Dead, Dead];
    for (count, next) in expected.iter().enumerate() {
        assert_eq!(Alive.next_state(count), *next);
    }
}

#[test]
fn rule_for_a_dead_cell() {
    let expected = [Dead, Dead, Dead, Alive, Dead, Dead, Dead, Dead, Dead];
    for (count, next) in expected.iter().enumerate() {
        assert_eq!(Dead.next_state(count), *next);
    }
}

#[test]
fn cell_counts_as_zero_or_one() {
    assert_eq!(Dead.to_count(), 0);
    assert_eq!(Alive.to_count(), 1);
}
