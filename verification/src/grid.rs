//! Oblique grid transform: logical (row, col) cells to screen coordinates and
//! back.
//!
//! The forward transform shears a grid cell into screen space:
//! `x = max_col - (row - col) * step_x * scale` and
//! `y = max_row - (row + col) * step_y * scale`, where `max_row` is the map's
//! row count and `max_col` the current row's symbol count.  The inverse is
//! used for pointer picking: it recovers the nearest cell from a screen point
//! and is exact on points that the forward transform produced.

use vstd::arithmetic::div_mod::{
    lemma_div_is_ordered, lemma_div_nonincreasing, lemma_div_of0, lemma_div_pos_is_pos,
    lemma_fundamental_div_mod, lemma_fundamental_div_mod_converse,
    lemma_mod_division_less_than_divisor,
};
use vstd::prelude::*;

verus! {

/// Horizontal step between grid columns, in texels.
pub const WALL_STEP_X: i64 = 8;

/// Vertical step between grid rows, in texels.
pub const WALL_STEP_Y: i64 = 8;

/// Uniform world scale applied to every tile.
pub const SCALE: i64 = 4;

/// Holds an `int` that a computation must keep inside the `i64` range.
pub open spec fn fits_i64(n: int) -> bool {
    i64::MIN <= n <= i64::MAX
}

/// Magnitude cap on the inverse transform's inputs, far beyond any screen
/// coordinate, so that the rounding arithmetic cannot overflow.
pub const MAX_COORD: i64 = 0x7fff_ffff;

/// Cap on map extents (rows, and symbols per row) so that the forward
/// transform of every cell fits in `i64`.
pub const MAX_EXTENT: usize = 0x10_0000;

/// Cap on the shear steps and scale, for the same reason.
pub const MAX_STEP: i64 = 1024;

/// The shear parameters of the grid transform, passed explicitly so the
/// transform stays a pure function of its arguments.
#[derive(Clone, Copy, PartialEq, Eq, Structural, Debug)]
pub struct GridConfig {
    pub step_x: i64,
    pub step_y: i64,
    pub scale: i64,
}

impl GridConfig {
    /// A usable configuration: strictly positive steps and scale.
    pub open spec fn wf(self) -> bool {
        &&& 1 <= self.step_x
        &&& 1 <= self.step_y
        &&& 1 <= self.scale
    }

    /// The configuration the shipped tile art is drawn for.
    pub fn standard() -> (c: GridConfig)
        ensures
            c.step_x == WALL_STEP_X,
            c.step_y == WALL_STEP_Y,
            c.scale == SCALE,
            c.wf(),
    {
        GridConfig { step_x: WALL_STEP_X, step_y: WALL_STEP_Y, scale: SCALE }
    }
}

/// Screen X of cell `(row, col)`: the shear moves east for lower columns,
/// anchored at the current row's width.
pub open spec fn spec_to_screen_x(c: GridConfig, row: int, col: int, max_col: int) -> int {
    max_col - (row - col) * c.step_x * c.scale
}

/// Screen Y of cell `(row, col)`, anchored at the map's row count.
pub open spec fn spec_to_screen_y(c: GridConfig, row: int, col: int, max_row: int) -> int {
    max_row - (row + col) * c.step_y * c.scale
}

/// Maps a grid cell to its screen position.  No bounds checking: out-of-range
/// cells simply land off-map, which callers that only pass real map cells
/// never see.
pub fn to_screen(cfg: &GridConfig, row: i64, col: i64, max_row: i64, max_col: i64) -> (p: (
    i64,
    i64,
))
    requires
        fits_i64(row - col),
        fits_i64(row + col),
        fits_i64((row - col) * cfg.step_x),
        fits_i64((row - col) * cfg.step_x * cfg.scale),
        fits_i64((row + col) * cfg.step_y),
        fits_i64((row + col) * cfg.step_y * cfg.scale),
        fits_i64(spec_to_screen_x(*cfg, row as int, col as int, max_col as int)),
        fits_i64(spec_to_screen_y(*cfg, row as int, col as int, max_row as int)),
    ensures
        p.0 == spec_to_screen_x(*cfg, row as int, col as int, max_col as int),
        p.1 == spec_to_screen_y(*cfg, row as int, col as int, max_row as int),
{
    let diff: i64 = row - col;
    let sum: i64 = row + col;
    let rel_x: i64 = diff * cfg.step_x * cfg.scale;
    let rel_y: i64 = sum * cfg.step_y * cfg.scale;
    (max_col - rel_x, max_row - rel_y)
}

/// Under the extent and step caps, every intermediate of the forward
/// transform of an in-bounds cell fits in `i64`.
pub proof fn lemma_screen_fits(cfg: GridConfig, row: int, col: int, max_row: int, max_col: int)
    requires
        cfg.wf(),
        cfg.step_x <= MAX_STEP,
        cfg.step_y <= MAX_STEP,
        cfg.scale <= MAX_STEP,
        0 <= row <= MAX_EXTENT,
        0 <= col <= MAX_EXTENT,
        0 <= max_row <= MAX_EXTENT,
        0 <= max_col <= MAX_EXTENT,
    ensures
        fits_i64(row - col),
        fits_i64(row + col),
        fits_i64((row - col) * cfg.step_x),
        fits_i64((row - col) * cfg.step_x * cfg.scale),
        fits_i64((row + col) * cfg.step_y),
        fits_i64((row + col) * cfg.step_y * cfg.scale),
        fits_i64(spec_to_screen_x(cfg, row, col, max_col)),
        fits_i64(spec_to_screen_y(cfg, row, col, max_row)),
{
    let m = MAX_EXTENT as int;
    let s = MAX_STEP as int;
    let diff = row - col;
    let sum = row + col;
    assert(-(m * s) <= diff * cfg.step_x <= m * s) by (nonlinear_arith)
        requires
            -m <= diff <= m,
            1 <= cfg.step_x <= s,
            0 <= m,
    ;
    assert(-(m * s * s) <= (diff * cfg.step_x) * cfg.scale <= m * s * s) by (nonlinear_arith)
        requires
            -(m * s) <= diff * cfg.step_x <= m * s,
            1 <= cfg.scale <= s,
            0 <= m * s,
    ;
    assert(0 <= sum * cfg.step_y <= 2 * m * s) by (nonlinear_arith)
        requires
            0 <= sum <= 2 * m,
            1 <= cfg.step_y <= s,
            0 <= m,
    ;
    assert(0 <= (sum * cfg.step_y) * cfg.scale <= 2 * m * s * s) by (nonlinear_arith)
        requires
            0 <= sum * cfg.step_y <= 2 * m * s,
            1 <= cfg.scale <= s,
            0 <= m * s,
    ;
    assert(diff * cfg.step_x * cfg.scale == (diff * cfg.step_x) * cfg.scale);
    assert(sum * cfg.step_y * cfg.scale == (sum * cfg.step_y) * cfg.scale);
}

/// No two distinct cells of one extent context share a screen position: the
/// shear is injective whenever the steps and scale are positive.
pub proof fn lemma_to_screen_injective(
    cfg: GridConfig,
    r1: int,
    c1: int,
    r2: int,
    c2: int,
    max_row: int,
    max_col: int,
)
    requires
        cfg.wf(),
        spec_to_screen_x(cfg, r1, c1, max_col) == spec_to_screen_x(cfg, r2, c2, max_col),
        spec_to_screen_y(cfg, r1, c1, max_row) == spec_to_screen_y(cfg, r2, c2, max_row),
    ensures
        r1 == r2,
        c1 == c2,
{
    let sx = cfg.step_x;
    let sy = cfg.step_y;
    let k = cfg.scale;
    assert(r1 - c1 == r2 - c2) by (nonlinear_arith)
        requires
            (r1 - c1) * sx * k == (r2 - c2) * sx * k,
            sx >= 1,
            k >= 1,
    ;
    assert(r1 + c1 == r2 + c2) by (nonlinear_arith)
        requires
            (r1 + c1) * sy * k == (r2 + c2) * sy * k,
            sy >= 1,
            k >= 1,
    ;
}

/// Division rounded to the nearest integer, ties toward positive infinity.
/// `/` on `int` is Euclidean, which is floor division for a positive divisor.
pub open spec fn spec_round_div(n: int, d: int) -> int {
    (2 * n + d) / (2 * d)
}

/// A quotient by a positive divisor stays between the dividend and zero.
proof fn lemma_div_between_dividend_and_zero(n: int, d: int)
    requires
        1 <= d,
    ensures
        n >= 0 ==> 0 <= n / d <= n,
        n < 0 ==> n <= n / d <= 0,
{
    if n >= 0 {
        lemma_div_pos_is_pos(n, d);
        lemma_div_nonincreasing(n, d);
    } else {
        lemma_div_is_ordered(n, 0, d);
        lemma_div_of0(d);
        lemma_fundamental_div_mod(n, d);
        lemma_mod_division_less_than_divisor(n, d);
        let q = n / d;
        let r = n % d;
        if q == 0 {
            assert(n == d * 0 + r);
        } else {
            assert(q <= -1);
            assert(q - n == (-q) * (d - 1) - r) by (nonlinear_arith)
                requires
                    n == d * q + r,
            ;
            assert((-q) * (d - 1) >= d - 1) by (nonlinear_arith)
                requires
                    -q >= 1,
                    d - 1 >= 0,
            ;
        }
    }
}

/// Rounding division recovers the factor from an exact multiple.
proof fn lemma_round_div_exact(m: int, d: int)
    requires
        1 <= d,
    ensures
        spec_round_div(m * d, d) == m,
{
    assert(2 * (m * d) + d == m * (2 * d) + d) by (nonlinear_arith);
    lemma_fundamental_div_mod_converse(2 * (m * d) + d, 2 * d, m, d);
}

/// Divides, rounding to the nearest integer (ties toward positive infinity).
fn round_div(n: i64, d: i64) -> (q: i64)
    requires
        1 <= d,
        fits_i64(2 * n),
        fits_i64(2 * n + d),
        fits_i64(2 * d),
    ensures
        q == spec_round_div(n as int, d as int),
{
    let num: i64 = 2 * n + d;
    let den: i64 = 2 * d;
    proof {
        lemma_div_between_dividend_and_zero(num as int, den as int);
    }
    match num.checked_div_euclid(den) {
        Some(q) => q,
        None => {
            proof {
                assert(false);
            }
            0
        },
    }
}

/// Row of the nearest grid cell to screen point `(x, y)` under the same
/// extent context: the rounded solution of the shear equations.
pub open spec fn spec_to_grid_row(c: GridConfig, x: int, y: int, max_row: int, max_col: int) -> int {
    let diff = spec_round_div(max_col - x, c.step_x * c.scale);
    let sum = spec_round_div(max_row - y, c.step_y * c.scale);
    spec_round_div(sum + diff, 2)
}

/// Column part of the approximate inverse transform.
pub open spec fn spec_to_grid_col(c: GridConfig, x: int, y: int, max_row: int, max_col: int) -> int {
    let diff = spec_round_div(max_col - x, c.step_x * c.scale);
    let sum = spec_round_div(max_row - y, c.step_y * c.scale);
    spec_round_div(sum - diff, 2)
}

/// Maps a screen point back to the nearest grid cell, given the same extent
/// context the forward transform used.  Best-effort pointer picking: on a
/// point that `to_screen` produced the cell comes back exactly
/// ([`lemma_grid_round_trip`]); on any other point the result is the rounded
/// solution of the shear equations, with no bounds checking.
pub fn to_grid(cfg: &GridConfig, x: i64, y: i64, max_row: i64, max_col: i64) -> (cell: (i64, i64))
    requires
        cfg.wf(),
        -MAX_COORD <= max_col - x <= MAX_COORD,
        -MAX_COORD <= max_row - y <= MAX_COORD,
        cfg.step_x * cfg.scale <= MAX_COORD,
        cfg.step_y * cfg.scale <= MAX_COORD,
    ensures
        cell.0 == spec_to_grid_row(*cfg, x as int, y as int, max_row as int, max_col as int),
        cell.1 == spec_to_grid_col(*cfg, x as int, y as int, max_row as int, max_col as int),
{
    let dx: i64 = cfg.step_x * cfg.scale;
    let dy: i64 = cfg.step_y * cfg.scale;
    proof {
        assert(1 <= cfg.step_x * cfg.scale && 1 <= cfg.step_y * cfg.scale) by (nonlinear_arith)
            requires
                1 <= cfg.step_x,
                1 <= cfg.step_y,
                1 <= cfg.scale,
        ;
    }
    let rel_x: i64 = max_col - x;
    let rel_y: i64 = max_row - y;
    let diff: i64 = round_div(rel_x, dx);
    let sum: i64 = round_div(rel_y, dy);
    proof {
        lemma_div_between_dividend_and_zero(2 * rel_x + dx, 2 * dx);
        lemma_div_between_dividend_and_zero(2 * rel_y + dy, 2 * dy);
        assert(-(3 * MAX_COORD) <= diff <= 3 * MAX_COORD);
        assert(-(3 * MAX_COORD) <= sum <= 3 * MAX_COORD);
    }
    let row: i64 = round_div_small(sum, diff);
    let col: i64 = round_div_small(sum, -diff);
    (row, col)
}

/// Rounded halving of `a + b`, for addends whose doubled sum still fits.
fn round_div_small(a: i64, b: i64) -> (q: i64)
    requires
        fits_i64(a + b),
        fits_i64(2 * (a + b)),
        fits_i64(2 * (a + b) + 2),
    ensures
        q == spec_round_div(a + b, 2),
{
    let s: i64 = a + b;
    round_div(s, 2)
}

/// The round trip is exact: feeding a cell's screen position back through the
/// inverse transform, under the same configuration and extent context,
/// returns exactly that cell.
pub proof fn lemma_grid_round_trip(cfg: GridConfig, row: int, col: int, max_row: int, max_col: int)
    requires
        cfg.wf(),
    ensures
        spec_to_grid_row(
            cfg,
            spec_to_screen_x(cfg, row, col, max_col),
            spec_to_screen_y(cfg, row, col, max_row),
            max_row,
            max_col,
        ) == row,
        spec_to_grid_col(
            cfg,
            spec_to_screen_x(cfg, row, col, max_col),
            spec_to_screen_y(cfg, row, col, max_row),
            max_row,
            max_col,
        ) == col,
{
    let dx = cfg.step_x * cfg.scale;
    let dy = cfg.step_y * cfg.scale;
    assert(1 <= dx && 1 <= dy) by (nonlinear_arith)
        requires
            1 <= cfg.step_x,
            1 <= cfg.step_y,
            1 <= cfg.scale,
            dx == cfg.step_x * cfg.scale,
            dy == cfg.step_y * cfg.scale,
    ;
    let x = spec_to_screen_x(cfg, row, col, max_col);
    let y = spec_to_screen_y(cfg, row, col, max_row);
    assert(max_col - x == (row - col) * dx) by (nonlinear_arith)
        requires
            x == max_col - (row - col) * cfg.step_x * cfg.scale,
            dx == cfg.step_x * cfg.scale,
    ;
    assert(max_row - y == (row + col) * dy) by (nonlinear_arith)
        requires
            y == max_row - (row + col) * cfg.step_y * cfg.scale,
            dy == cfg.step_y * cfg.scale,
    ;
    lemma_round_div_exact(row - col, dx);
    lemma_round_div_exact(row + col, dy);
    let diff = spec_round_div(max_col - x, dx);
    let sum = spec_round_div(max_row - y, dy);
    assert(diff == row - col);
    assert(sum == row + col);
    assert(sum + diff == row * 2);
    assert(sum - diff == col * 2);
    lemma_round_div_exact(row, 2);
    lemma_round_div_exact(col, 2);
}

} // verus!
