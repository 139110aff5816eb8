//! Tests for parameter validation, grid generation and ignition.

use forest_fire::{choose_ignition, initialize, new_random, neighbors4, Cell, FireError, Prob};
use rand::rngs::StdRng;
use rand::SeedableRng;

#[test]
fn prob_accepts_ratios_up_to_one() {
    let p = Prob::new(1, 2).unwrap();
    let q = Prob::new(0, 1).unwrap();
    let r = Prob::new(7, 7).unwrap();
    assert_eq!(p, Prob::new(1, 2).unwrap());
    assert_ne!(p, q);
    assert_ne!(q, r);
}

#[test]
fn prob_rejects_ratio_above_one() {
    assert_eq!(Prob::new(2, 1), Err(FireError::InvalidParameter));
}

#[test]
fn prob_rejects_zero_denominator() {
    assert_eq!(Prob::new(0, 0), Err(FireError::InvalidParameter));
    assert_eq!(Prob::new(3, 0), Err(FireError::InvalidParameter));
}

#[test]
fn new_random_rejects_zero_size() {
    let mut rng = StdRng::seed_from_u64(1);
    let density = Prob::new(1, 2).unwrap();
    let res = new_random(0, density, &mut rng);
    assert!(matches!(res, Err(FireError::InvalidParameter)));
}

#[test]
fn new_random_density_zero_is_all_empty() {
    let mut rng = StdRng::seed_from_u64(2);
    let density = Prob::new(0, 1).unwrap();
    let g = new_random(4, density, &mut rng).unwrap();
    assert_eq!(g.size(), 4);
    for r in 0..4 {
        for c in 0..4 {
            assert_eq!(g.cell_at(r, c), Cell::Empty);
        }
    }
}

#[test]
fn new_random_density_one_is_all_tree() {
    let mut rng = StdRng::seed_from_u64(3);
    let density = Prob::new(1, 1).unwrap();
    let g = new_random(4, density, &mut rng).unwrap();
    assert_eq!(g.size(), 4);
    for r in 0..4 {
        for c in 0..4 {
            assert_eq!(g.cell_at(r, c), Cell::Tree);
        }
    }
}

#[test]
fn new_random_is_deterministic_for_a_seed() {
    let density = Prob::new(1, 2).unwrap();
    let mut rng1 = StdRng::seed_from_u64(42);
    let mut rng2 = StdRng::seed_from_u64(42);
    let g1 = new_random(8, density, &mut rng1).unwrap();
    let g2 = new_random(8, density, &mut rng2).unwrap();
    for r in 0..8 {
        for c in 0..8 {
            assert_eq!(g1.cell_at(r, c), g2.cell_at(r, c));
        }
    }
}

#[test]
fn new_random_mixed_density_has_only_trees_and_empties() {
    let density = Prob::new(1, 2).unwrap();
    let mut rng = StdRng::seed_from_u64(5);
    let g = new_random(6, density, &mut rng).unwrap();
    for r in 0..6 {
        for c in 0..6 {
            let v = g.cell_at(r, c);
            assert!(v == Cell::Tree || v == Cell::Empty);
        }
    }
}

#[test]
fn neighbors4_center() {
    assert_eq!(neighbors4(1, 1, 3), vec![(2, 1), (0, 1), (1, 0), (1, 2)]);
}

#[test]
fn neighbors4_top_left_corner() {
    assert_eq!(neighbors4(0, 0, 3), vec![(1, 0), (0, 1)]);
}

#[test]
fn neighbors4_bottom_right_corner() {
    assert_eq!(neighbors4(2, 2, 3), vec![(1, 2), (2, 1)]);
}

#[test]
fn neighbors4_top_edge() {
    assert_eq!(neighbors4(0, 1, 3), vec![(1, 1), (0, 0), (0, 2)]);
}

#[test]
fn neighbors4_single_cell_grid() {
    assert_eq!(neighbors4(0, 0, 1), vec![]);
}

#[test]
fn choose_ignition_fails_without_fuel() {
    let mut rng = StdRng::seed_from_u64(6);
    let density = Prob::new(0, 1).unwrap();
    let g = new_random(3, density, &mut rng).unwrap();
    assert_eq!(choose_ignition(&g, &mut rng), Err(FireError::NoFuelAvailable));
}

#[test]
fn choose_ignition_picks_a_tree() {
    let mut rng = StdRng::seed_from_u64(7);
    let density = Prob::new(1, 1).unwrap();
    let g = new_random(5, density, &mut rng).unwrap();
    let (r, c) = choose_ignition(&g, &mut rng).unwrap();
    assert!(r < 5 && c < 5);
    assert_eq!(g.cell_at(r, c), Cell::Tree);
}

#[test]
fn choose_ignition_on_single_cell_grid() {
    let mut rng = StdRng::seed_from_u64(8);
    let density = Prob::new(1, 1).unwrap();
    let g = new_random(1, density, &mut rng).unwrap();
    assert_eq!(choose_ignition(&g, &mut rng), Ok((0, 0)));
}

#[test]
fn initialize_rejects_zero_size() {
    let mut rng = StdRng::seed_from_u64(9);
    let density = Prob::new(1, 1).unwrap();
    assert!(matches!(
        initialize(0, density, &mut rng),
        Err(FireError::InvalidParameter)
    ));
}

#[test]
fn initialize_fails_without_fuel() {
    let mut rng = StdRng::seed_from_u64(10);
    let density = Prob::new(0, 1).unwrap();
    assert!(matches!(
        initialize(3, density, &mut rng),
        Err(FireError::NoFuelAvailable)
    ));
}

#[test]
fn initialize_ignites_exactly_one_tree() {
    let mut rng = StdRng::seed_from_u64(11);
    let density = Prob::new(1, 1).unwrap();
    let g = initialize(4, density, &mut rng).unwrap();
    assert!(g.has_burning());
    let mut burning: usize = 0;
    let mut trees: usize = 0;
    for r in 0..4 {
        for c in 0..4 {
            match g.cell_at(r, c) {
                Cell::Burning => burning += 1,
                Cell::Tree => trees += 1,
                other => panic!("unexpected cell state {:?}", other),
            }
        }
    }
    assert_eq!(burning, 1);
    assert_eq!(trees, 15);
}
