use sprite_stack::grid::{to_grid, to_screen, GridConfig, SCALE, WALL_STEP_X, WALL_STEP_Y};

#[test]
fn forward_formula_exact_values() {
    let cfg = GridConfig::standard();
    assert_eq!(cfg.step_x, WALL_STEP_X);
    assert_eq!(cfg.step_y, WALL_STEP_Y);
    assert_eq!(cfg.scale, SCALE);
    // rel = (row -/+ col) * 8 * 4 = 32 per unit
    assert_eq!(to_screen(&cfg, 0, 0, 1, 2), (2, 1));
    assert_eq!(to_screen(&cfg, 1, 0, 5, 5), (5 - 32, 5 - 32));
    assert_eq!(to_screen(&cfg, 0, 1, 5, 5), (5 + 32, 5 - 32));
    assert_eq!(to_screen(&cfg, 2, 1, 5, 5), (5 - 32, 5 - 96));
}

#[test]
fn forward_is_deterministic() {
    let cfg = GridConfig::standard();
    let a = to_screen(&cfg, 3, 4, 10, 10);
    let b = to_screen(&cfg, 3, 4, 10, 10);
    assert_eq!(a, b);
}

#[test]
fn distinct_cells_never_collide() {
    let cfg = GridConfig::standard();
    let mut seen = Vec::new();
    for row in 0..8i64 {
        for col in 0..8i64 {
            let p = to_screen(&cfg, row, col, 8, 8);
            assert!(!seen.contains(&p), "cells collided at {p:?}");
            seen.push(p);
        }
    }
}

#[test]
fn round_trip_recovers_the_cell() {
    let cfg = GridConfig::standard();
    for row in 0..6i64 {
        for col in 0..6i64 {
            let (x, y) = to_screen(&cfg, row, col, 6, 6);
            assert_eq!(to_grid(&cfg, x, y, 6, 6), (row, col));
        }
    }
}

#[test]
fn nearby_points_round_to_the_nearest_cell() {
    let cfg = GridConfig::standard();
    let (x, y) = to_screen(&cfg, 2, 1, 5, 5);
    // One grid unit is 32 texels along each sheared axis; a small nudge must
    // still pick the same cell.
    assert_eq!(to_grid(&cfg, x + 10, y, 5, 5), (2, 1));
    assert_eq!(to_grid(&cfg, x - 10, y + 9, 5, 5), (2, 1));
    assert_eq!(to_grid(&cfg, x, y - 12, 5, 5), (2, 1));
}

#[test]
fn inverse_without_bounds_checking_is_best_effort() {
    let cfg = GridConfig::standard();
    // A far off-map point still yields some cell, just an off-map one.
    let (row, col) = to_grid(&cfg, 5 + 32 * 100, 5 - 32 * 100, 5, 5);
    assert_eq!((row, col), (0, 100));
}
