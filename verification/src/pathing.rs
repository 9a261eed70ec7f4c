//! The path planner: shortest-path search over the occupancy grid on
//! the 8-connected neighbourhood, with octile step costs (10 straight,
//! 14 diagonal) and a Manhattan-scaled heuristic.
//!
//! The search itself is the outside crate's `astar`; the graph it
//! searches — which steps exist and what they cost — is defined and
//! verified here, so the trusted surface is the search alone.

use vstd::prelude::*;

verus! {

use crate::geometry::Vec2I;
use crate::geometry::WORLD_LIMIT;
use crate::geometry::GOAL_LIMIT;
use crate::geometry::all_in_box;
use crate::geometry::in_box;
use crate::grid::CELL_LIMIT;
use crate::grid::GridCell;
use crate::grid::cell_in_box;
use crate::grid::world_to_grid;
use crate::grid::world_to_grid_spec;
use crate::occupancy::blocked_spec;
use crate::occupancy::is_position_blocked;

/// Cost of an axis-aligned step.
pub const STRAIGHT_COST: u32 = 10;

/// Cost of a diagonal step (fixed-point approximation of 10·√2).
pub const DIAGONAL_COST: u32 = 14;

/// `b` is one of the eight neighbours of `a`.
pub open spec fn adjacent8(a: GridCell, b: GridCell) -> bool {
    -1 <= b.x - a.x <= 1 && -1 <= b.y - a.y <= 1 && !(b.x == a.x && b.y == a.y)
}

/// The cost of moving between two adjacent cells.
pub open spec fn cost_between(a: GridCell, b: GridCell) -> u32 {
    if a.x != b.x && a.y != b.y {
        DIAGONAL_COST
    } else {
        STRAIGHT_COST
    }
}

/// A single permitted move of the search: an 8-neighbour step onto an
/// unblocked cell.
pub open spec fn step_ok(a: GridCell, b: GridCell, others: Seq<Vec2I>, self_pos: Vec2I) -> bool {
    adjacent8(a, b) && !blocked_spec(b, others, Some(self_pos))
}

/// No cell appears twice in `p`.
pub open spec fn path_no_repeats(p: Seq<GridCell>) -> bool {
    forall|i: int, j: int| 0 <= i < j < p.len() ==> p[i] != p[j]
}

/// A path the planner may return: it starts at `start`, ends at `goal`,
/// and every move is a permitted step.
pub open spec fn valid_path(
    p: Seq<GridCell>,
    start: GridCell,
    goal: GridCell,
    others: Seq<Vec2I>,
    self_pos: Vec2I,
) -> bool {
    p.len() > 0 && p[0] == start && p.last() == goal && (forall|i: int|
        0 <= i < p.len() - 1 ==> step_ok(#[trigger] p[i], p[i + 1], others, self_pos))
}

/// A path that exists is nonempty and pinned at both ends.
pub proof fn lemma_path_endpoints(
    p: Seq<GridCell>,
    start: GridCell,
    goal: GridCell,
    others: Seq<Vec2I>,
    self_pos: Vec2I,
)
    requires
        valid_path(p, start, goal, others, self_pos),
    ensures
        p.len() > 0,
        p[0] == start,
        p[p.len() - 1] == goal,
{
}

/// Every cell of a permitted path is bounded: the cells after the
/// first are unblocked, hence inside the map; the first is the start.
pub proof fn lemma_valid_path_cells(
    p: Seq<GridCell>,
    start: GridCell,
    goal: GridCell,
    others: Seq<Vec2I>,
    self_pos: Vec2I,
)
    requires
        valid_path(p, start, goal, others, self_pos),
        cell_in_box(start, CELL_LIMIT as int),
    ensures
        crate::grid::cells_in_box(p, CELL_LIMIT as int),
{
    assert forall|i: int| 0 <= i < p.len() implies cell_in_box(#[trigger] p[i], CELL_LIMIT as int) by {
        if i > 0 {
            assert(step_ok(p[i - 1], p[i], others, self_pos));
            assert(!blocked_spec(p[i], others, Some(self_pos)));
        }
    }
}

/// The eight neighbour displacements, in a fixed order.
pub open spec fn delta_of(k: int) -> (int, int) {
    if k == 0 {
        (-1, -1)
    } else if k == 1 {
        (-1, 0)
    } else if k == 2 {
        (-1, 1)
    } else if k == 3 {
        (0, -1)
    } else if k == 4 {
        (0, 1)
    } else if k == 5 {
        (1, -1)
    } else if k == 6 {
        (1, 0)
    } else {
        (1, 1)
    }
}

/// The index of a displacement among the eight.
pub open spec fn delta_index(dx: int, dy: int) -> int {
    if dx == -1 && dy == -1 {
        0
    } else if dx == -1 && dy == 0 {
        1
    } else if dx == -1 && dy == 1 {
        2
    } else if dx == 0 && dy == -1 {
        3
    } else if dx == 0 && dy == 1 {
        4
    } else if dx == 1 && dy == -1 {
        5
    } else if dx == 1 && dy == 0 {
        6
    } else {
        7
    }
}

/// The cell displaced from `c` by the `k`-th delta.
pub open spec fn neighbour_of(c: GridCell, k: int) -> GridCell {
    GridCell { x: (c.x + delta_of(k).0) as i64, y: (c.y + delta_of(k).1) as i64 }
}

proof fn lemma_contains_after_push<A>(s: Seq<A>, v: A, x: A)
    ensures
        s.contains(x) ==> s.push(v).contains(x),
        s.push(v).contains(v),
{
    if s.contains(x) {
        let j = choose|j: int| 0 <= j < s.len() && s[j] == x;
        assert(s.push(v)[j] == x);
    }
    assert(s.push(v)[s.len() as int] == v);
}

/// The permitted steps out of `c`, with their costs: exactly the
/// unblocked 8-neighbours, each listed once.
pub fn grid_successors(c: GridCell, positions: &Vec<Vec2I>, self_pos: Vec2I) -> (r: Vec<
    (GridCell, u32),
>)
    requires
        cell_in_box(c, (CELL_LIMIT - 1) as int),
        all_in_box(positions@, WORLD_LIMIT as int),
        in_box(self_pos, WORLD_LIMIT as int),
    ensures
        forall|j: int|
            0 <= j < r@.len() ==> step_ok(c, (#[trigger] r@[j]).0, positions@, self_pos) && r@[j].1
                == cost_between(c, r@[j].0),
        forall|b: GridCell|
            step_ok(c, b, positions@, self_pos) ==> r@.contains((b, cost_between(c, b))),
{
    let mut out: Vec<(GridCell, u32)> = Vec::new();
    let mut k: usize = 0;
    while k < 8
        invariant
            0 <= k <= 8,
            cell_in_box(c, (CELL_LIMIT - 1) as int),
            all_in_box(positions@, WORLD_LIMIT as int),
            in_box(self_pos, WORLD_LIMIT as int),
            forall|j: int|
                0 <= j < out@.len() ==> step_ok(c, (#[trigger] out@[j]).0, positions@, self_pos)
                    && out@[j].1 == cost_between(c, out@[j].0),
            forall|m: int|
                0 <= m < k && !blocked_spec(neighbour_of(c, m), positions@, Some(self_pos))
                    ==> out@.contains((neighbour_of(c, m), cost_between(c, neighbour_of(c, m)))),
        decreases 8 - k,
    {
        let dx: i64 = if k < 3 {
            -1
        } else if k < 5 {
            0
        } else {
            1
        };
        let dy: i64 = if k == 0 || k == 3 || k == 5 {
            -1
        } else if k == 1 || k == 6 {
            0
        } else {
            1
        };
        proof {
            assert((dx as int, dy as int) == delta_of(k as int));
        }
        let nb: GridCell = GridCell { x: c.x + dx, y: c.y + dy };
        if !is_position_blocked(nb, positions, Some(self_pos)) {
            let cost: u32 = if dx != 0 && dy != 0 {
                DIAGONAL_COST
            } else {
                STRAIGHT_COST
            };
            let ghost old_out = out@;
            let entry: (GridCell, u32) = (nb, cost);
            out.push(entry);
            proof {
                assert forall|m: int|
                    0 <= m < k + 1 && !blocked_spec(
                        neighbour_of(c, m),
                        positions@,
                        Some(self_pos),
                    ) implies out@.contains(
                    (neighbour_of(c, m), cost_between(c, neighbour_of(c, m))),
                ) by {
                    if m < k {
                        lemma_contains_after_push(
                            old_out,
                            entry,
                            (neighbour_of(c, m), cost_between(c, neighbour_of(c, m))),
                        );
                    } else {
                        lemma_contains_after_push(old_out, entry, entry);
                    }
                }
            }
        }
        k = k + 1;
    }
    proof {
        assert forall|b: GridCell| step_ok(c, b, positions@, self_pos) implies out@.contains(
            (b, cost_between(c, b)),
        ) by {
            let dx = b.x - c.x;
            let dy = b.y - c.y;
            let m = delta_index(dx, dy);
            assert(neighbour_of(c, m) == b);
        }
    }
    out
}

/// The absolute difference of two bounded cell coordinates.
fn abs_diff_i64(a: i64, b: i64) -> (r: i64)
    requires
        -CELL_LIMIT <= a <= CELL_LIMIT,
        -CELL_LIMIT <= b <= CELL_LIMIT,
    ensures
        r == if a >= b {
            a - b
        } else {
            b - a
        },
{
    if a >= b {
        a - b
    } else {
        b - a
    }
}

/// The heuristic's value: ten times the Manhattan distance to the goal.
pub open spec fn heuristic_spec(c: GridCell, goal: GridCell) -> int {
    10 * ((if c.x >= goal.x {
        c.x - goal.x
    } else {
        goal.x - c.x
    }) + (if c.y >= goal.y {
        c.y - goal.y
    } else {
        goal.y - c.y
    }))
}

/// Manhattan-scaled heuristic used to order the search.
pub fn grid_heuristic(c: GridCell, goal: GridCell) -> (r: u32)
    requires
        cell_in_box(c, CELL_LIMIT as int),
        cell_in_box(goal, CELL_LIMIT as int),
    ensures
        r == heuristic_spec(c, goal),
{
    let m: i64 = abs_diff_i64(c.x, goal.x) + abs_diff_i64(c.y, goal.y);
    (10 * m) as u32
}

/// The goal test: exact cell match.
pub fn is_goal_cell(c: GridCell, goal: GridCell) -> (r: bool)
    ensures
        r == (c == goal),
{
    c.x == goal.x && c.y == goal.y
}

/// Relies on pathfinding's `astar`: fed the verified successor, cost,
/// heuristic and goal functions above, it returns `Some` path that
/// starts at `start`, ends at a cell passing the goal test, moves only
/// along returned successors, and — as the crate documents — never
/// includes a node twice; `None` comes back exactly when no chain of
/// successors reaches the goal.  Nothing is assumed about which of
/// several candidate paths comes back.  The closures only call the
/// verified functions of this module; `grid_successors` keeps every
/// reachable cell inside the bounds its own precondition asks for.
#[verifier::external_body]
fn astar_search(
    start: GridCell,
    goal: GridCell,
    positions: &Vec<Vec2I>,
    self_pos: Vec2I,
) -> (r: Option<Vec<GridCell>>)
    requires
        cell_in_box(start, (CELL_LIMIT - 2) as int),
        cell_in_box(goal, (CELL_LIMIT - 2) as int),
        all_in_box(positions@, WORLD_LIMIT as int),
        in_box(self_pos, WORLD_LIMIT as int),
    ensures
        match r {
            Some(p) => valid_path(p@, start, goal, positions@, self_pos) && path_no_repeats(p@),
            None => !(exists|p: Seq<GridCell>|
                valid_path(p, start, goal, positions@, self_pos)),
        },
{
    pathfinding::prelude::astar(
        &start,
        |c: &GridCell| grid_successors(*c, positions, self_pos),
        |c: &GridCell| grid_heuristic(*c, goal),
        |c: &GridCell| is_goal_cell(*c, goal),
    ).map(|found| found.0)
}

/// Plans a path from the world position `start` to the world position
/// `goal`, treating other agents near a cell as blocking it.  `None` —
/// a normal, recoverable outcome — comes back exactly when no permitted
/// chain of steps joins the two cells.
pub fn find_alternative_path(
    start: Vec2I,
    goal: Vec2I,
    zombie_positions: &Vec<Vec2I>,
    self_pos: Vec2I,
) -> (r: Option<Vec<GridCell>>)
    requires
        in_box(start, WORLD_LIMIT as int),
        in_box(goal, GOAL_LIMIT as int),
        all_in_box(zombie_positions@, WORLD_LIMIT as int),
        in_box(self_pos, WORLD_LIMIT as int),
    ensures
        match r {
            Some(p) => valid_path(
                p@,
                world_to_grid_spec(start),
                world_to_grid_spec(goal),
                zombie_positions@,
                self_pos,
            ) && path_no_repeats(p@),
            None => !(exists|p: Seq<GridCell>|
                valid_path(
                    p,
                    world_to_grid_spec(start),
                    world_to_grid_spec(goal),
                    zombie_positions@,
                    self_pos,
                )),
        },
{
    let start_grid: GridCell = world_to_grid(start);
    let goal_grid: GridCell = world_to_grid(goal);
    astar_search(start_grid, goal_grid, zombie_positions, self_pos)
}

} // verus!
