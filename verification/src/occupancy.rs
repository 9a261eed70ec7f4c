//! The occupancy oracle: whether a grid cell is blocked, given the
//! current agent positions.
//!
//! A cell is blocked when some other agent stands within the minimum
//! separation distance of the cell's world position, or when the cell
//! lies outside the map.  The querying agent excludes itself by position:
//! any agent standing within a small epsilon of `self_pos` is skipped,
//! so near-coincident agents can mistake each other for themselves; that
//! behaviour is kept as the original rule.  No static terrain enters the
//! oracle: walls are the physics collaborator's business.

use vstd::prelude::*;

verus! {

use crate::geometry::Vec2I;
use crate::geometry::dist_sq;
use crate::geometry::dist_sq_i64;
use crate::geometry::in_box;
use crate::geometry::all_in_box;
use crate::geometry::WORLD_LIMIT;
use crate::grid::GridCell;
use crate::grid::cell_in_box;
use crate::grid::cell_in_bounds;
use crate::grid::cell_in_bounds_check;
use crate::grid::grid_to_world;
use crate::grid::grid_to_world_spec;
use crate::grid::CELL_LIMIT;

/// Minimum spacing between an agent and a cell another agent occupies,
/// in fixed-point steps (48 world units).
pub const MIN_SEPARATION_MILLI: i64 = 48_000;

/// Squared minimum spacing.
pub const MIN_SEPARATION_SQ: i64 = 48_000 * 48_000;

/// Positions closer than this to the querying agent count as the agent
/// itself (1 world unit).
pub const SELF_EPSILON_MILLI: i64 = 1_000;

/// Squared self-exclusion epsilon.
pub const SELF_EPSILON_SQ: i64 = 1_000 * 1_000;

/// The position `other` is taken for the querying agent itself.
pub open spec fn excluded_as_self(self_pos: Option<Vec2I>, other: Vec2I) -> bool {
    match self_pos {
        Some(s) => dist_sq(s, other) < SELF_EPSILON_SQ as int,
        None => false,
    }
}

/// Some agent other than the querying one stands too close to the
/// world position of `cell`.
pub open spec fn cell_crowded(cell: GridCell, others: Seq<Vec2I>, self_pos: Option<Vec2I>) -> bool {
    exists|i: int|
        0 <= i < others.len() && !excluded_as_self(self_pos, #[trigger] others[i]) && dist_sq(
            grid_to_world_spec(cell),
            others[i],
        ) < MIN_SEPARATION_SQ as int
}

/// The occupancy oracle's answer for `cell`.
pub open spec fn blocked_spec(cell: GridCell, others: Seq<Vec2I>, self_pos: Option<Vec2I>) -> bool {
    cell_crowded(cell, others, self_pos) || !cell_in_bounds(cell)
}

/// Whether `grid_pos` is blocked for an agent standing at `self_pos`,
/// given the snapshot of all agent positions.
pub fn is_position_blocked(
    grid_pos: GridCell,
    zombie_positions: &Vec<Vec2I>,
    self_pos: Option<Vec2I>,
) -> (r: bool)
    requires
        cell_in_box(grid_pos, CELL_LIMIT as int),
        all_in_box(zombie_positions@, WORLD_LIMIT as int),
        self_pos matches Some(s) ==> in_box(s, WORLD_LIMIT as int),
    ensures
        r == blocked_spec(grid_pos, zombie_positions@, self_pos),
{
    let world_pos: Vec2I = grid_to_world(grid_pos);
    let n: usize = zombie_positions.len();
    let mut i: usize = 0;
    while i < n
        invariant
            0 <= i <= n,
            n == zombie_positions@.len(),
            cell_in_box(grid_pos, CELL_LIMIT as int),
            all_in_box(zombie_positions@, WORLD_LIMIT as int),
            self_pos matches Some(s) ==> in_box(s, WORLD_LIMIT as int),
            world_pos == grid_to_world_spec(grid_pos),
            in_box(world_pos, crate::geometry::POINT_LIMIT as int),
            forall|j: int|
                0 <= j < i ==> !(!excluded_as_self(self_pos, #[trigger] zombie_positions@[j])
                    && dist_sq(world_pos, zombie_positions@[j]) < MIN_SEPARATION_SQ as int),
        decreases n - i,
    {
        let zp: Vec2I = zombie_positions[i];
        let skip: bool = match self_pos {
            Some(s) => dist_sq_i64(s, zp) < SELF_EPSILON_SQ,
            None => false,
        };
        if !skip {
            if dist_sq_i64(world_pos, zp) < MIN_SEPARATION_SQ {
                return true;
            }
        }
        i = i + 1;
    }
    !cell_in_bounds_check(grid_pos)
}

/// With no other agents present, blocking is exactly the map boundary:
/// every cell inside `[0, 40) x [0, 20)` is free and every cell outside
/// it is blocked.
pub proof fn lemma_blocked_on_empty_map(
    cell: GridCell,
    others: Seq<Vec2I>,
    self_pos: Option<Vec2I>,
)
    requires
        others.len() == 0,
    ensures
        blocked_spec(cell, others, self_pos) <==> !cell_in_bounds(cell),
{
}

} // verus!
