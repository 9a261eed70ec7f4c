//! The personal-space resolver: a continuous repulsion away from nearby
//! peers, and unique per-agent pursuit offsets that spread agents out
//! around a shared goal.

use vstd::prelude::*;

verus! {

use crate::geometry::Vec2I;
use crate::geometry::MILLI;
use crate::geometry::WORLD_LIMIT;
use crate::geometry::dist_sq;
use crate::geometry::dist_sq_i64;
use crate::geometry::div_trunc;
use crate::geometry::div_trunc_i64;
use crate::geometry::in_box;
use crate::geometry::all_in_box;
use crate::geometry::is_sqrt_floor;
use crate::geometry::lemma_div_trunc_bound;
use crate::geometry::lemma_normalize_bounds;
use crate::geometry::lemma_sqrt_floor_exists;
use crate::geometry::norm_i64;
use crate::geometry::norm_sq;
use crate::geometry::normalize_or_zero;
use crate::geometry::normalize_spec;
use crate::geometry::sqrt_floor;
use crate::geometry::vec_add;
use crate::geometry::vec_sub;
use crate::geometry::vec_sub_i64;
use crate::geometry::zero_vec;
use crate::rng::random_in_range;

/// Radius within which peers repel each other (60 world units).
pub const SEPARATION_RADIUS_MILLI: i64 = 60_000;

/// Squared separation radius.
pub const SEPARATION_RADIUS_SQ: i64 = 60_000 * 60_000;

/// Pursuit offsets are drawn from `[-30, 30)` world units on each axis.
pub const OFFSET_RANGE_MILLI: i64 = 30_000;

/// Two offsets closer than 30 world units count as clashing.
pub const MIN_OFFSET_DISTANCE_SQ: i64 = 30_000 * 30_000;

/// Sampling budget for a unique offset.
pub const MAX_OFFSET_ATTEMPTS: usize = 10;

/// Most agents a snapshot may carry; keeps the force sum bounded.
pub const MAX_AGENTS: usize = 1000;

/// Componentwise bound on one agent's repulsion contribution.
pub const CONTRIBUTION_LIMIT: i64 = 2_000;

/// The repulsion strength at distance `d` (fixed-point steps): full
/// strength 2 at contact, fading linearly to zero at the radius.
pub open spec fn separation_strength(d: int) -> int {
    2 * (MILLI - d / 60)
}

/// The repulsion exerted on an agent at `pos` by a peer at `other`:
/// the unit direction away from the peer, scaled by the fading
/// strength; zero outside the radius or at exact overlap.
pub open spec fn separation_contribution(pos: Vec2I, other: Vec2I) -> Vec2I {
    let dsq = dist_sq(pos, other);
    if 0 < dsq < SEPARATION_RADIUS_SQ as int {
        let u = normalize_spec(vec_sub(pos, other));
        let s = separation_strength(sqrt_floor(dsq));
        Vec2I { x: div_trunc(u.x * s, MILLI as int) as i64, y: div_trunc(u.y * s, MILLI as int) as i64 }
    } else {
        zero_vec()
    }
}

/// The summed repulsion over a snapshot of peer positions.
pub open spec fn separation_spec(pos: Vec2I, others: Seq<Vec2I>) -> Vec2I
    decreases others.len(),
{
    if others.len() == 0 {
        zero_vec()
    } else {
        vec_add(
            separation_spec(pos, others.drop_last()),
            separation_contribution(pos, others.last()),
        )
    }
}

/// One peer's contribution stays inside the contribution box.
pub proof fn lemma_contribution_bound(pos: Vec2I, other: Vec2I)
    requires
        in_box(pos, WORLD_LIMIT as int),
        in_box(other, WORLD_LIMIT as int),
    ensures
        in_box(separation_contribution(pos, other), CONTRIBUTION_LIMIT as int),
{
    let dsq = dist_sq(pos, other);
    if 0 < dsq < SEPARATION_RADIUS_SQ as int {
        let diff = vec_sub(pos, other);
        lemma_normalize_bounds(diff);
        let u = normalize_spec(diff);
        lemma_sqrt_floor_exists(dsq);
        let d = sqrt_floor(dsq);
        assert(is_sqrt_floor(dsq, d));
        assert(d < 60_000) by (nonlinear_arith)
            requires
                is_sqrt_floor(dsq, d),
                dsq < 3_600_000_000,
        ;
        assert(0 <= d / 60 <= 999) by {
            vstd::arithmetic::div_mod::lemma_div_pos_is_pos(d, 60);
            vstd::arithmetic::div_mod::lemma_div_is_ordered(d, 59_999, 60);
        }
        let s = separation_strength(d);
        assert(2 <= s <= 2 * MILLI);
        assert(-(MILLI as int * 2_000) <= u.x * s <= MILLI as int * 2_000 && -(MILLI as int
            * 2_000) <= u.y * s <= MILLI as int * 2_000) by (nonlinear_arith)
            requires
                -(MILLI as int) <= u.x <= MILLI as int,
                -(MILLI as int) <= u.y <= MILLI as int,
                0 <= s <= 2 * MILLI,
                MILLI == 1000,
        ;
        lemma_div_trunc_bound(u.x * s, MILLI as int, 2_000);
        lemma_div_trunc_bound(u.y * s, MILLI as int, 2_000);
    }
}

/// The summed repulsion grows at most linearly in the snapshot size.
pub proof fn lemma_separation_bound(pos: Vec2I, others: Seq<Vec2I>)
    requires
        in_box(pos, WORLD_LIMIT as int),
        all_in_box(others, WORLD_LIMIT as int),
    ensures
        in_box(separation_spec(pos, others), CONTRIBUTION_LIMIT as int * others.len()),
    decreases others.len(),
{
    if others.len() > 0 {
        lemma_separation_bound(pos, others.drop_last());
        lemma_contribution_bound(pos, others.last());
    }
}

/// Sums the repulsion from every peer in the snapshot.  Peers at the
/// agent's own exact position (itself among them) contribute nothing.
pub fn calculate_personal_space_offset(zombie_pos: Vec2I, other_zombies: &Vec<Vec2I>) -> (r: Vec2I)
    requires
        in_box(zombie_pos, WORLD_LIMIT as int),
        all_in_box(other_zombies@, WORLD_LIMIT as int),
        other_zombies@.len() <= MAX_AGENTS as int,
    ensures
        r == separation_spec(zombie_pos, other_zombies@),
        in_box(r, CONTRIBUTION_LIMIT as int * other_zombies@.len()),
{
    let n: usize = other_zombies.len();
    let mut force: Vec2I = Vec2I { x: 0, y: 0 };
    let mut i: usize = 0;
    proof {
        assert(other_zombies@.take(0) =~= Seq::<Vec2I>::empty());
    }
    while i < n
        invariant
            0 <= i <= n,
            n == other_zombies@.len(),
            n <= MAX_AGENTS as int,
            in_box(zombie_pos, WORLD_LIMIT as int),
            all_in_box(other_zombies@, WORLD_LIMIT as int),
            force == separation_spec(zombie_pos, other_zombies@.take(i as int)),
            in_box(force, CONTRIBUTION_LIMIT as int * i),
        decreases n - i,
    {
        let other: Vec2I = other_zombies[i];
        let dsq: i64 = dist_sq_i64(zombie_pos, other);
        let mut repulsion: Vec2I = Vec2I { x: 0, y: 0 };
        if 0 < dsq && dsq < SEPARATION_RADIUS_SQ {
            let diff: Vec2I = vec_sub_i64(zombie_pos, other);
            proof {
                assert(norm_sq(diff) == dist_sq(zombie_pos, other));
            }
            let d: i64 = norm_i64(diff);
            let u: Vec2I = normalize_or_zero(diff);
            let s: i64 = 2 * (MILLI - d / 60);
            proof {
                lemma_contribution_bound(zombie_pos, other);
                assert(0 <= d / 60 <= 999) by {
                    assert(d < 60_000) by (nonlinear_arith)
                        requires
                            is_sqrt_floor(dist_sq(zombie_pos, other), d as int),
                            dist_sq(zombie_pos, other) < 3_600_000_000,
                    ;
                    vstd::arithmetic::div_mod::lemma_div_pos_is_pos(d as int, 60);
                    vstd::arithmetic::div_mod::lemma_div_is_ordered(d as int, 59_999, 60);
                }
                assert(-2_000_000 <= u.x * s <= 2_000_000 && -2_000_000 <= u.y * s <= 2_000_000)
                    by (nonlinear_arith)
                    requires
                        -1000 <= u.x <= 1000,
                        -1000 <= u.y <= 1000,
                        0 <= s <= 2000,
                ;
            }
            let cx: i64 = div_trunc_i64(u.x * s, MILLI);
            let cy: i64 = div_trunc_i64(u.y * s, MILLI);
            repulsion = Vec2I { x: cx, y: cy };
            proof {
                assert(repulsion == separation_contribution(zombie_pos, other));
            }
        } else {
            proof {
                assert(repulsion == separation_contribution(zombie_pos, other));
            }
        }
        proof {
            assert(in_box(repulsion, CONTRIBUTION_LIMIT as int)) by {
                lemma_contribution_bound(zombie_pos, other);
            }
            assert(other_zombies@.take(i + 1).drop_last() =~= other_zombies@.take(i as int));
            assert(other_zombies@.take(i + 1).last() == other_zombies@[i as int]);
        }
        force = Vec2I { x: force.x + repulsion.x, y: force.y + repulsion.y };
        i = i + 1;
    }
    proof {
        assert(other_zombies@.take(n as int) =~= other_zombies@);
    }
    force
}

/// An offset clashes with none of the existing offsets: it keeps more
/// than the minimum distance from each.
pub open spec fn offset_unique(off: Vec2I, existing: Seq<Vec2I>) -> bool {
    forall|i: int|
        0 <= i < existing.len() ==> dist_sq(off, #[trigger] existing[i])
            > MIN_OFFSET_DISTANCE_SQ as int
}

/// Whether `off` keeps clear of every existing offset.
pub fn offset_is_unique(off: Vec2I, existing: &Vec<Vec2I>) -> (r: bool)
    requires
        in_box(off, OFFSET_RANGE_MILLI as int),
        all_in_box(existing@, OFFSET_RANGE_MILLI as int),
    ensures
        r == offset_unique(off, existing@),
{
    let n: usize = existing.len();
    let mut i: usize = 0;
    while i < n
        invariant
            0 <= i <= n,
            n == existing@.len(),
            in_box(off, OFFSET_RANGE_MILLI as int),
            all_in_box(existing@, OFFSET_RANGE_MILLI as int),
            forall|j: int|
                0 <= j < i ==> dist_sq(off, #[trigger] existing@[j]) > MIN_OFFSET_DISTANCE_SQ as int,
        decreases n - i,
    {
        if dist_sq_i64(off, existing[i]) <= MIN_OFFSET_DISTANCE_SQ {
            return false;
        }
        i = i + 1;
    }
    true
}

/// Samples up to `MAX_OFFSET_ATTEMPTS` candidate offsets and returns
/// the first that clashes with no existing offset; a zero offset — the
/// graceful degradation to shared targeting — when the budget runs out.
pub fn generate_unique_target_offset(existing_offsets: &Vec<Vec2I>) -> (r: Vec2I)
    requires
        all_in_box(existing_offsets@, OFFSET_RANGE_MILLI as int),
    ensures
        in_box(r, OFFSET_RANGE_MILLI as int),
        r == zero_vec() || offset_unique(r, existing_offsets@),
{
    let mut attempt: usize = 0;
    while attempt < MAX_OFFSET_ATTEMPTS
        invariant
            all_in_box(existing_offsets@, OFFSET_RANGE_MILLI as int),
        decreases MAX_OFFSET_ATTEMPTS - attempt,
    {
        let x: i64 = random_in_range(-OFFSET_RANGE_MILLI, OFFSET_RANGE_MILLI);
        let y: i64 = random_in_range(-OFFSET_RANGE_MILLI, OFFSET_RANGE_MILLI);
        let candidate: Vec2I = Vec2I { x, y };
        if offset_is_unique(candidate, existing_offsets) {
            return candidate;
        }
        attempt = attempt + 1;
    }
    Vec2I { x: 0, y: 0 }
}

} // verus!
