//! The affine mapping between continuous world space and the discrete
//! pathfinding grid, and the map extent.
//!
//! A cell spans `CELL_MILLI` fixed-point steps (32 world units); the map
//! is `MAP_WIDTH_CELLS` by `MAP_HEIGHT_CELLS` cells centred on the world
//! origin.  Converting a world position rounds each coordinate to the
//! nearest cell, halves rounding away from zero.

use vstd::prelude::*;

verus! {

use vstd::arithmetic::div_mod::lemma_fundamental_div_mod;
use vstd::arithmetic::div_mod::lemma_mod_division_less_than_divisor;
use crate::geometry::Vec2I;
use crate::geometry::in_box;
use crate::geometry::GOAL_LIMIT;
use crate::geometry::POINT_LIMIT;

/// Fixed-point steps per grid cell (32 world units).
pub const CELL_MILLI: i64 = 32_000;

/// Half of `CELL_MILLI`.
pub const HALF_CELL_MILLI: i64 = 16_000;

/// Map extent, in cells.
pub const MAP_WIDTH_CELLS: i64 = 40;

pub const MAP_HEIGHT_CELLS: i64 = 20;

/// Half the map extent, in fixed-point steps.
pub const HALF_MAP_WIDTH_MILLI: i64 = 640_000;

pub const HALF_MAP_HEIGHT_MILLI: i64 = 320_000;

/// Bound on cell coordinates the library works with; wide enough for the
/// cell of any accepted world position, far wider than the map itself.
pub const CELL_LIMIT: i64 = 32_000;

/// A grid cell: a pair of integer cell coordinates.  Derived, never
/// stored outside paths; cells outside the map are representable and are
/// rejected by the occupancy check, not by construction.
#[derive(Clone, Copy, PartialEq, Eq, Structural, Debug, Hash)]
pub struct GridCell {
    pub x: i64,
    pub y: i64,
}

/// Both coordinates of `c` lie in `[-m, m]`.
pub open spec fn cell_in_box(c: GridCell, m: int) -> bool {
    -m <= c.x <= m && -m <= c.y <= m
}

/// Every cell of `p` lies in the box of half-width `m`.
pub open spec fn cells_in_box(p: Seq<GridCell>, m: int) -> bool {
    forall|i: int| 0 <= i < p.len() ==> cell_in_box(#[trigger] p[i], m)
}

/// `a / d`, rounded to the nearest integer with halves away from zero.
pub open spec fn round_half_away(a: int, d: int) -> int {
    if a >= 0 {
        (a + d / 2) / d
    } else {
        -((-a + d / 2) / d)
    }
}

/// Rounding to the nearest multiple of `d` moves a number by at most
/// half of `d`.
pub proof fn lemma_round_half_away(a: int, d: int)
    requires
        0 < d,
        d % 2 == 0,
    ensures
        -(d / 2) <= round_half_away(a, d) * d - a <= d / 2,
{
    let h = d / 2;
    lemma_fundamental_div_mod(d, 2);
    lemma_mod_division_less_than_divisor(d, 2);
    assert(d == 2 * h);
    if a >= 0 {
        let q = (a + h) / d;
        lemma_fundamental_div_mod(a + h, d);
        lemma_mod_division_less_than_divisor(a + h, d);
        assert(a + h == d * q + (a + h) % d);
        assert(d * q == q * d) by (nonlinear_arith);
        assert(round_half_away(a, d) * d == q * d);
        assert(-(d / 2) <= round_half_away(a, d) * d - a <= d / 2);
    } else {
        let q = (-a + h) / d;
        lemma_fundamental_div_mod(-a + h, d);
        lemma_mod_division_less_than_divisor(-a + h, d);
        assert(-a + h == d * q + (-a + h) % d);
        assert(d * q == q * d) by (nonlinear_arith);
        assert(round_half_away(a, d) == -q);
        assert((-q) * d == -(q * d)) by (nonlinear_arith);
        assert(round_half_away(a, d) * d == -(q * d));
        assert(-(d / 2) <= round_half_away(a, d) * d - a <= d / 2);
    }
}

/// The rounded quotient is no larger in magnitude than `c` whenever
/// `|a|` is at most `d * c`.
pub proof fn lemma_round_half_away_bound(a: int, d: int, c: int)
    requires
        0 < d,
        d % 2 == 0,
        0 <= c,
        -(d * c) <= a <= d * c,
    ensures
        -(c + 1) <= round_half_away(a, d) <= c + 1,
{
    lemma_round_half_away(a, d);
    let r = round_half_away(a, d);
    assert(-(d * c) - d / 2 <= r * d <= d * c + d / 2);
    if r > c + 1 {
        assert(r * d >= (c + 2) * d) by (nonlinear_arith)
            requires
                r >= c + 2,
                d > 0,
        ;
        assert((c + 2) * d > d * c + d / 2) by (nonlinear_arith)
            requires
                d > 0,
                d / 2 < 2 * d,
        ;
        assert(false);
    }
    if r < -(c + 1) {
        assert(r * d <= -((c + 2) * d)) by (nonlinear_arith)
            requires
                r <= -(c + 2),
                d > 0,
        ;
        assert((c + 2) * d > d * c + d / 2) by (nonlinear_arith)
            requires
                d > 0,
                d / 2 < 2 * d,
        ;
        assert(false);
    }
}

/// Executable rounding division for bounded operands.
pub fn round_div_i64(a: i64, d: i64) -> (r: i64)
    requires
        0 < d,
        d % 2 == 0,
        -0x2000_0000_0000_0000 < a < 0x2000_0000_0000_0000,
    ensures
        r == round_half_away(a as int, d as int),
{
    if a >= 0 {
        (a + d / 2) / d
    } else {
        proof {
            vstd::arithmetic::div_mod::lemma_div_pos_is_pos((-a + d / 2) as int, d as int);
        }
        -((-a + d / 2) / d)
    }
}

/// The grid cell whose centre is nearest to the world position `p`.
pub open spec fn world_to_grid_spec(p: Vec2I) -> GridCell {
    GridCell {
        x: round_half_away(p.x + HALF_MAP_WIDTH_MILLI, CELL_MILLI as int) as i64,
        y: round_half_away(p.y + HALF_MAP_HEIGHT_MILLI, CELL_MILLI as int) as i64,
    }
}

/// The world position of the corner shared with the affine inverse:
/// cell coordinates scaled back and re-centred.
pub open spec fn grid_to_world_spec(c: GridCell) -> Vec2I {
    Vec2I {
        x: (c.x * CELL_MILLI - HALF_MAP_WIDTH_MILLI) as i64,
        y: (c.y * CELL_MILLI - HALF_MAP_HEIGHT_MILLI) as i64,
    }
}

/// Maps a world position to its grid cell.
pub fn world_to_grid(p: Vec2I) -> (c: GridCell)
    requires
        in_box(p, GOAL_LIMIT as int),
    ensures
        c == world_to_grid_spec(p),
        cell_in_box(c, (CELL_LIMIT - 2) as int),
{
    proof {
        lemma_round_half_away_bound(
            p.x + HALF_MAP_WIDTH_MILLI,
            CELL_MILLI as int,
            31_290,
        );
        lemma_round_half_away_bound(
            p.y + HALF_MAP_HEIGHT_MILLI,
            CELL_MILLI as int,
            31_290,
        );
    }
    let x: i64 = round_div_i64(p.x + HALF_MAP_WIDTH_MILLI, CELL_MILLI);
    let y: i64 = round_div_i64(p.y + HALF_MAP_HEIGHT_MILLI, CELL_MILLI);
    GridCell { x, y }
}

/// Maps a grid cell back to the world position of its centre.
pub fn grid_to_world(c: GridCell) -> (p: Vec2I)
    requires
        cell_in_box(c, CELL_LIMIT as int),
    ensures
        p == grid_to_world_spec(c),
        in_box(p, POINT_LIMIT as int),
{
    let x: i64 = c.x * CELL_MILLI - HALF_MAP_WIDTH_MILLI;
    let y: i64 = c.y * CELL_MILLI - HALF_MAP_HEIGHT_MILLI;
    Vec2I { x, y }
}

/// Mapping a world position to its cell and back moves it by at most
/// half a cell in each axis.
pub proof fn lemma_grid_round_trip(p: Vec2I)
    requires
        in_box(p, GOAL_LIMIT as int),
    ensures
        ({
            let q = grid_to_world_spec(world_to_grid_spec(p));
            -HALF_CELL_MILLI <= q.x - p.x <= HALF_CELL_MILLI && -HALF_CELL_MILLI <= q.y - p.y
                <= HALF_CELL_MILLI
        }),
{
    lemma_round_half_away(p.x + HALF_MAP_WIDTH_MILLI, CELL_MILLI as int);
    lemma_round_half_away(p.y + HALF_MAP_HEIGHT_MILLI, CELL_MILLI as int);
    lemma_round_half_away_bound(p.x + HALF_MAP_WIDTH_MILLI, CELL_MILLI as int, 31_290);
    lemma_round_half_away_bound(p.y + HALF_MAP_HEIGHT_MILLI, CELL_MILLI as int, 31_290);
}

/// The cell lies inside the map extent `[0, 40) x [0, 20)`.
pub open spec fn cell_in_bounds(c: GridCell) -> bool {
    0 <= c.x < MAP_WIDTH_CELLS && 0 <= c.y < MAP_HEIGHT_CELLS
}

/// Executable counterpart of `cell_in_bounds`.
pub fn cell_in_bounds_check(c: GridCell) -> (r: bool)
    ensures
        r == cell_in_bounds(c),
{
    0 <= c.x && c.x < MAP_WIDTH_CELLS && 0 <= c.y && c.y < MAP_HEIGHT_CELLS
}

} // verus!
