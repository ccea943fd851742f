use game_of_life::{Cell, Universe, UniverseError};

const D: Cell = Cell::Dead;
const A: Cell = Cell::Alive;

/// A grid of the given size whose living cells are those listed as (row, column).
fn grid(width: u32, height: u32, alive: &[(u32, u32)]) -> Universe {
    let mut cells = vec![D; (width * height) as usize];
    for &(r, c) in alive {
        cells[(r * width + c) as usize] = A;
    }
    Universe::new(width, height, cells).unwrap()
}

fn alive_cells(u: &Universe) -> Vec<(u32, u32)> {
    let mut out = Vec::new();
    for r in 0..u.height() {
        for c in 0..u.width() {
            if u.cells()[u.get_pos(r, c)] == A {
                out.push((r, c));
            }
        }
    }
    out
}

#[test]
fn new_rejects_zero_width() {
    assert_eq!(Universe::new(0, 3, vec![]).err(), Some(UniverseError::ZeroDimension));
}

#[test]
fn new_rejects_zero_height() {
    assert_eq!(Universe::new(3, 0, vec![]).err(), Some(UniverseError::ZeroDimension));
}

#[test]
fn new_rejects_wrong_length() {
    assert_eq!(Universe::new(2, 2, vec![D; 3]).err(), Some(UniverseError::LengthMismatch));
    assert_eq!(Universe::new(2, 2, vec![D; 5]).err(), Some(UniverseError::LengthMismatch));
}

#[test]
fn new_keeps_dimensions_and_cells() {
    let u = Universe::new(3, 2, vec![A, D, D, D, D, A]).unwrap();
    assert_eq!(u.width(), 3);
    assert_eq!(u.height(), 2);
    assert_eq!(u.cells(), &[A, D, D, D, D, A][..]);
}

#[test]
fn get_pos_is_row_major() {
    let u = grid(5, 4, &[]);
    assert_eq!(u.get_pos(0, 0), 0);
    assert_eq!(u.get_pos(0, 4), 4);
    assert_eq!(u.get_pos(1, 0), 5);
    assert_eq!(u.get_pos(3, 2), 17);
    assert_eq!(u.get_pos(3, 4), 19);
}

#[test]
fn cell_values() {
    assert_eq!(D.value(), 0);
    assert_eq!(A.value(), 1);
}

#[test]
fn transition_table() {
    for n in 0..=8u8 {
        let alive_next = if n == 2 || n == 3 { A } else { D };
        let dead_next = if n == 3 { A } else { D };
        assert_eq!(A.next(n), alive_next, "alive with {}", n);
        assert_eq!(D.next(n), dead_next, "dead with {}", n);
    }
}

#[test]
fn neighbor_count_inside() {
    let u = grid(5, 5, &[(1, 1), (1, 2), (1, 3), (2, 1), (3, 3), (2, 2)]);
    assert_eq!(u.live_neighbor_count(2, 2), 5);
    assert_eq!(u.live_neighbor_count(0, 0), 1);
    assert_eq!(u.live_neighbor_count(4, 4), 1);
}

#[test]
fn neighbor_count_all_alive() {
    let u = Universe::new(4, 4, vec![A; 16]).unwrap();
    for r in 0..4 {
        for c in 0..4 {
            assert_eq!(u.live_neighbor_count(r, c), 8);
        }
    }
}

#[test]
fn wraparound_corner_neighbor() {
    let u = grid(3, 3, &[(0, 0), (2, 2)]);
    assert_eq!(u.live_neighbor_count(0, 0), 1);
    assert_eq!(u.live_neighbor_count(2, 2), 1);
}

#[test]
fn wraparound_edges() {
    let u = grid(5, 4, &[(0, 2), (2, 0)]);
    // (3, 2) is below (0, 2) across the bottom edge; (2, 4) is left of (2, 0)
    assert_eq!(u.live_neighbor_count(3, 2), 1);
    assert_eq!(u.live_neighbor_count(2, 4), 1);
    // (3, 1) touches both: (0, 2) across the bottom edge and (2, 0) directly
    assert_eq!(u.live_neighbor_count(3, 1), 2);
    assert_eq!(u.live_neighbor_count(2, 2), 0);
}

#[test]
fn empty_universe_stays_dead() {
    let mut u = grid(4, 3, &[]);
    u.tick();
    assert!(u.cells().iter().all(|&c| c == D));
    assert_eq!(u.cells().len(), 12);
}

#[test]
fn lone_cell_dies() {
    let mut u = grid(5, 5, &[(2, 2)]);
    u.tick();
    assert_eq!(alive_cells(&u), vec![]);
}

#[test]
fn cell_with_one_neighbor_dies() {
    let mut u = grid(5, 5, &[(2, 2), (2, 3)]);
    assert_eq!(u.live_neighbor_count(2, 2), 1);
    u.tick();
    assert_eq!(u.cells()[u.get_pos(2, 2)], D);
    assert_eq!(alive_cells(&u), vec![]);
}

#[test]
fn crowded_cell_dies() {
    let mut u = grid(5, 5, &[(2, 2), (1, 1), (1, 3), (3, 1), (3, 3)]);
    assert_eq!(u.live_neighbor_count(2, 2), 4);
    u.tick();
    assert_eq!(u.cells()[u.get_pos(2, 2)], D);
}

#[test]
fn dead_cell_with_three_neighbors_is_born() {
    let mut u = grid(5, 5, &[(1, 1), (1, 3), (3, 2)]);
    assert_eq!(u.live_neighbor_count(2, 2), 3);
    u.tick();
    assert_eq!(u.cells()[u.get_pos(2, 2)], A);
}

#[test]
fn block_is_still_life() {
    let start = [(1, 1), (1, 2), (2, 1), (2, 2)];
    let mut u = grid(6, 5, &start);
    for _ in 0..5 {
        u.tick();
        assert_eq!(alive_cells(&u), start.to_vec());
    }
}

#[test]
fn block_across_corner_is_still_life() {
    let start = [(0, 0), (0, 3), (3, 0), (3, 3)];
    let mut u = grid(4, 4, &start);
    for _ in 0..3 {
        u.tick();
        assert_eq!(alive_cells(&u), start.to_vec());
    }
}

#[test]
fn blinker_has_period_two() {
    let horizontal = vec![(2, 1), (2, 2), (2, 3)];
    let vertical = vec![(1, 2), (2, 2), (3, 2)];
    let mut u = grid(5, 5, &horizontal);
    u.tick();
    assert_eq!(alive_cells(&u), vertical);
    u.tick();
    assert_eq!(alive_cells(&u), horizontal);
}

#[test]
fn blinker_across_edge() {
    let mut u = grid(4, 4, &[(0, 3), (0, 0), (0, 1)]);
    u.tick();
    assert_eq!(alive_cells(&u), vec![(0, 0), (1, 0), (3, 0)]);
    u.tick();
    assert_eq!(alive_cells(&u), vec![(0, 0), (0, 1), (0, 3)]);
}

#[test]
fn full_row_on_small_torus() {
    let mut u = grid(3, 3, &[(1, 0), (1, 1), (1, 2)]);
    u.tick();
    assert!(u.cells().iter().all(|&c| c == A));
    u.tick();
    assert!(u.cells().iter().all(|&c| c == D));
}

#[test]
fn glider_moves_diagonally() {
    let mut u = grid(6, 6, &[(0, 1), (1, 2), (2, 0), (2, 1), (2, 2)]);
    for _ in 0..4 {
        u.tick();
    }
    assert_eq!(alive_cells(&u), vec![(1, 2), (2, 3), (3, 1), (3, 2), (3, 3)]);
}

#[test]
fn length_kept_over_many_ticks() {
    let mut u = grid(7, 3, &[(0, 0), (1, 1), (1, 2), (2, 6), (0, 5)]);
    for _ in 0..20 {
        u.tick();
        assert_eq!(u.cells().len(), 21);
        assert_eq!(u.width(), 7);
        assert_eq!(u.height(), 3);
    }
}
