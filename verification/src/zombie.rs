//! The zombie agent controller: per-tick timer bookkeeping, stuck
//! detection, target-offset refresh, path replanning and movement
//! resolution for each pursuing agent.
//!
//! Each tick works on a consistent snapshot of all agent positions and
//! of all target offsets, gathered once before any agent moves, so the
//! outcome does not depend on the order agents are visited in.  The
//! tick's randomness (stuck-recovery directions, fresh offsets) is
//! confined to two draws whose every outcome the contracts cover.

use vstd::prelude::*;

verus! {

use crate::geometry::Vec2I;
use crate::geometry::MILLI;
use crate::geometry::WORLD_LIMIT;
use crate::geometry::all_in_box;
use crate::geometry::blend_spec;
use crate::geometry::blend_weighted;
use crate::geometry::dist_sq;
use crate::geometry::dist_sq_i64;
use crate::geometry::in_box;
use crate::geometry::normalize_or_zero;
use crate::geometry::normalize_spec;
use crate::geometry::scale_speed;
use crate::geometry::scale_speed_spec;
use crate::geometry::vec_add;
use crate::geometry::vec_add_i64;
use crate::geometry::vec_sub;
use crate::geometry::vec_sub_i64;
use crate::geometry::zero_vec;
use crate::grid::CELL_LIMIT;
use crate::grid::GridCell;
use crate::grid::cells_in_box;
use crate::grid::grid_to_world;
use crate::grid::grid_to_world_spec;
use crate::grid::world_to_grid_spec;
use crate::pathing::find_alternative_path;
use crate::pathing::valid_path;
use crate::personal_space::MAX_AGENTS;
use crate::personal_space::OFFSET_RANGE_MILLI;
use crate::personal_space::calculate_personal_space_offset;
use crate::personal_space::generate_unique_target_offset;
use crate::personal_space::offset_unique;
use crate::personal_space::separation_spec;
use crate::rng::random_in_range;
use crate::timer::MAX_TICK_MS;
use crate::timer::RepeatingTimer;
use crate::timer::tick_spec;
use crate::timer::timer_wf;

/// Movement speed of an agent (80 world units per second).
pub const AGENT_SPEED_MILLI: i64 = 80_000;

/// Initial agent health (100 units).
pub const AGENT_HEALTH_MILLI: i64 = 100_000;

/// Damage per attack (25 units).
pub const AGENT_DAMAGE_MILLI: i64 = 25_000;

/// Seconds between attacks, in milliseconds.
pub const ATTACK_COOLDOWN_MS: u64 = 1_500;

/// Interval of the path replanning timer.
pub const PATH_REPLAN_MS: u64 = 500;

/// Interval of the stuck re-evaluation timer.
pub const STUCK_CHECK_MS: u64 = 2_000;

/// Interval of the target-offset refresh timer.
pub const PERSONAL_SPACE_MS: u64 = 1_000;

/// Squared displacement under which an agent counts as not moving
/// (5 world units).
pub const STUCK_MOVE_EPSILON_SQ: i64 = 5_000 * 5_000;

/// Squared distance at which a waypoint counts as reached (half a
/// cell).
pub const WAYPOINT_RADIUS_SQ: i64 = 16_000 * 16_000;

/// Squared distance beyond which a pathless agent pursues the player
/// directly (50 world units).
pub const DIRECT_PURSUIT_RANGE_SQ: i64 = 50_000 * 50_000;

/// Upper bound accepted for an agent's speed.
pub const MAX_SPEED_MILLI: i64 = 1_000_000;

/// One pursuing agent.  Owns its timers, current path and offset
/// state; it reads other agents only through the shared position
/// snapshot.
pub struct Zombie {
    pub speed: i64,
    pub health: i64,
    pub damage: i64,
    pub attack_cooldown: RepeatingTimer,
    pub path_update_timer: RepeatingTimer,
    pub current_path: Option<Vec<GridCell>>,
    pub current_target_index: usize,
    pub stuck_timer: RepeatingTimer,
    pub last_position: Vec2I,
    pub avoidance_direction: Vec2I,
    pub personal_space_timer: RepeatingTimer,
    pub target_offset: Vec2I,
}

/// The agent invariant: bounded scalars, well-formed timers, a bounded
/// offset and avoidance direction, and a path cursor that never passes
/// the end of the path — reset to zero whenever there is no path.
pub open spec fn zombie_wf(z: Zombie) -> bool {
    &&& 0 < z.speed <= MAX_SPEED_MILLI
    &&& 0 <= z.damage <= 1_000_000_000
    &&& timer_wf(z.attack_cooldown)
    &&& timer_wf(z.path_update_timer)
    &&& timer_wf(z.stuck_timer)
    &&& timer_wf(z.personal_space_timer)
    &&& in_box(z.last_position, WORLD_LIMIT as int)
    &&& in_box(z.avoidance_direction, MILLI as int)
    &&& in_box(z.target_offset, OFFSET_RANGE_MILLI as int)
    &&& match z.current_path {
        Some(p) => z.current_target_index <= p@.len() && cells_in_box(p@, CELL_LIMIT as int),
        None => z.current_target_index == 0,
    }
}

/// The state of a freshly spawned agent standing at `position`: the
/// stock stats, every timer with nothing elapsed, no path, and the
/// zero offset and avoidance of the initial state.
pub open spec fn fresh_zombie(position: Vec2I) -> Zombie {
    Zombie {
        speed: AGENT_SPEED_MILLI,
        health: AGENT_HEALTH_MILLI,
        damage: AGENT_DAMAGE_MILLI,
        attack_cooldown: RepeatingTimer {
            duration_ms: ATTACK_COOLDOWN_MS,
            elapsed_ms: 0,
            fired: false,
        },
        path_update_timer: RepeatingTimer {
            duration_ms: PATH_REPLAN_MS,
            elapsed_ms: 0,
            fired: false,
        },
        current_path: None,
        current_target_index: 0,
        stuck_timer: RepeatingTimer { duration_ms: STUCK_CHECK_MS, elapsed_ms: 0, fired: false },
        last_position: position,
        avoidance_direction: zero_vec(),
        personal_space_timer: RepeatingTimer {
            duration_ms: PERSONAL_SPACE_MS,
            elapsed_ms: 0,
            fired: false,
        },
        target_offset: zero_vec(),
    }
}

impl Zombie {
    /// A freshly spawned agent standing at `position`.
    pub fn new(position: Vec2I) -> (z: Zombie)
        requires
            in_box(position, WORLD_LIMIT as int),
        ensures
            z == fresh_zombie(position),
            zombie_wf(z),
    {
        Zombie {
            speed: AGENT_SPEED_MILLI,
            health: AGENT_HEALTH_MILLI,
            damage: AGENT_DAMAGE_MILLI,
            attack_cooldown: RepeatingTimer::new(ATTACK_COOLDOWN_MS),
            path_update_timer: RepeatingTimer::new(PATH_REPLAN_MS),
            current_path: None,
            current_target_index: 0,
            stuck_timer: RepeatingTimer::new(STUCK_CHECK_MS),
            last_position: position,
            avoidance_direction: Vec2I { x: 0, y: 0 },
            personal_space_timer: RepeatingTimer::new(PERSONAL_SPACE_MS),
            target_offset: Vec2I { x: 0, y: 0 },
        }
    }
}

/// Where and how many agents a level spawns.
pub struct ZombieConfig {
    pub spawn_positions: Vec<Vec2I>,
    pub max_zombies: usize,
}

impl Default for ZombieConfig {
    /// The level's stock configuration: four candidate spawn points,
    /// two agents.
    fn default() -> (c: ZombieConfig)
        ensures
            c.spawn_positions@ == seq![
                (Vec2I { x: -400_000i64, y: 200_000i64 }),
                (Vec2I { x: 400_000i64, y: -200_000i64 }),
                (Vec2I { x: -200_000i64, y: -300_000i64 }),
                (Vec2I { x: 300_000i64, y: 300_000i64 }),
            ],
            c.max_zombies == 2,
            all_in_box(c.spawn_positions@, WORLD_LIMIT as int),
    {
        let mut spawn_positions: Vec<Vec2I> = Vec::new();
        spawn_positions.push(Vec2I { x: -400_000, y: 200_000 });
        spawn_positions.push(Vec2I { x: 400_000, y: -200_000 });
        spawn_positions.push(Vec2I { x: -200_000, y: -300_000 });
        spawn_positions.push(Vec2I { x: 300_000, y: 300_000 });
        proof {
            assert(spawn_positions@ =~= seq![
                (Vec2I { x: -400_000i64, y: 200_000i64 }),
                (Vec2I { x: 400_000i64, y: -200_000i64 }),
                (Vec2I { x: -200_000i64, y: -300_000i64 }),
                (Vec2I { x: 300_000i64, y: 300_000i64 }),
            ]);
        }
        ZombieConfig { spawn_positions, max_zombies: 2 }
    }
}

/// The initial squad of a level: two agents at the stock spawn points,
/// with the position snapshot they start from.
pub fn setup_zombies() -> (r: (Vec<Zombie>, Vec<Vec2I>))
    ensures
        r.0@.len() == 2,
        r.1@.len() == 2,
        squad_wf(r.0@),
        all_in_box(r.1@, WORLD_LIMIT as int),
        r.1@[0] == (Vec2I { x: -400_000i64, y: 200_000i64 }),
        r.1@[1] == (Vec2I { x: 400_000i64, y: -200_000i64 }),
        forall|i: int| 0 <= i < 2 ==> #[trigger] r.0@[i] == fresh_zombie(r.1@[i]),
{
    let first_pos: Vec2I = Vec2I { x: -400_000, y: 200_000 };
    let second_pos: Vec2I = Vec2I { x: 400_000, y: -200_000 };
    let mut zombies: Vec<Zombie> = Vec::new();
    zombies.push(Zombie::new(first_pos));
    zombies.push(Zombie::new(second_pos));
    let mut positions: Vec<Vec2I> = Vec::new();
    positions.push(first_pos);
    positions.push(second_pos);
    (zombies, positions)
}

/// The animation token handed to the rendering collaborator.
#[derive(Clone, Copy, PartialEq, Eq, Structural, Debug)]
pub enum AgentAnimation {
    Moving,
    Idle,
}

/// The token for a velocity: moving when the speed passes a tenth of a
/// world unit per second, idle otherwise.
pub fn update_zombie_animation_direction(velocity: Vec2I) -> (r: AgentAnimation)
    requires
        in_box(velocity, MAX_SPEED_MILLI as int),
    ensures
        r == if crate::geometry::norm_sq(velocity) > 100 * 100 {
            AgentAnimation::Moving
        } else {
            AgentAnimation::Idle
        },
{
    let nsq: i64 = dist_sq_i64(velocity, Vec2I { x: 0, y: 0 });
    if nsq > 100 * 100 {
        AgentAnimation::Moving
    } else {
        AgentAnimation::Idle
    }
}

/// A uniformly random direction, normalized; zero when the draw lands
/// on the origin.
fn random_avoidance_direction() -> (r: Vec2I)
    ensures
        in_box(r, MILLI as int),
        exists|v: Vec2I| in_box(v, MILLI as int) && r == normalize_spec(v),
{
    let x: i64 = random_in_range(-MILLI, MILLI);
    let y: i64 = random_in_range(-MILLI, MILLI);
    let v: Vec2I = Vec2I { x, y };
    let r: Vec2I = normalize_or_zero(v);
    proof {
        assert(in_box(v, MILLI as int) && r == normalize_spec(v));
    }
    r
}

/// The agent after its three per-tick timers advance.
pub open spec fn timers_phase(z: Zombie, dt: u64) -> Zombie {
    Zombie {
        path_update_timer: tick_spec(z.path_update_timer, dt),
        stuck_timer: tick_spec(z.stuck_timer, dt),
        personal_space_timer: tick_spec(z.personal_space_timer, dt),
        ..z
    }
}

/// The agent moved less than the stuck epsilon since the last tick and
/// the (already advanced) stuck timer completed.
pub open spec fn stuck_condition(z: Zombie, self_pos: Vec2I) -> bool {
    dist_sq(self_pos, z.last_position) < STUCK_MOVE_EPSILON_SQ as int && z.stuck_timer.fired
}

/// Stuck re-evaluation: a stuck agent drops its path and takes some
/// random normalized avoidance direction; in either case the position
/// is recorded for the next tick's check.
pub open spec fn stuck_phase_rel(z: Zombie, z2: Zombie, self_pos: Vec2I) -> bool {
    if stuck_condition(z, self_pos) {
        exists|v: Vec2I|
            in_box(v, MILLI as int) && z2 == (Zombie {
                current_path: None,
                current_target_index: 0,
                avoidance_direction: normalize_spec(v),
                last_position: self_pos,
                ..z
            })
    } else {
        z2 == (Zombie { last_position: self_pos, ..z })
    }
}

/// Offset refresh: when the refresh timer completed or the offset still
/// holds its zero initial value, the agent takes some bounded offset
/// that clashes with no offset of the snapshot (or zero when sampling
/// gave up); otherwise it keeps the old one.
pub open spec fn offset_phase_rel(z: Zombie, z2: Zombie, offsets: Seq<Vec2I>) -> bool {
    if z.personal_space_timer.fired || z.target_offset == zero_vec() {
        exists|o: Vec2I|
            in_box(o, OFFSET_RANGE_MILLI as int) && (o == zero_vec() || offset_unique(o, offsets))
                && z2 == (Zombie { target_offset: o, ..z })
    } else {
        z2 == z
    }
}

/// Replanning: when the replan timer completed or no path exists, the
/// planner runs toward the player plus the agent's offset; on success
/// the agent takes the found path with its cursor reset and avoidance
/// cleared, and the planner succeeds exactly when a permitted path
/// exists; otherwise the agent is unchanged.
pub open spec fn replan_phase_rel(
    z: Zombie,
    z2: Zombie,
    self_pos: Vec2I,
    player_pos: Vec2I,
    positions: Seq<Vec2I>,
) -> bool {
    let goal = vec_add(player_pos, z.target_offset);
    let start_cell = world_to_grid_spec(self_pos);
    let goal_cell = world_to_grid_spec(goal);
    if z.path_update_timer.fired || z.current_path is None {
        if exists|p: Seq<GridCell>| valid_path(p, start_cell, goal_cell, positions, self_pos) {
            exists|pv: Vec<GridCell>|
                valid_path(pv@, start_cell, goal_cell, positions, self_pos) && z2 == (Zombie {
                    current_path: Some(pv),
                    current_target_index: 0,
                    avoidance_direction: zero_vec(),
                    ..z
                })
        } else {
            z2 == z
        }
    } else {
        z2 == z
    }
}

/// The steering direction toward `diff`, bent by the active avoidance
/// direction (70/30) and then by the separation force (80/20), each
/// stage renormalized.
pub open spec fn blended_direction(diff: Vec2I, avoidance: Vec2I, sep: Vec2I) -> Vec2I {
    let d0 = normalize_spec(diff);
    let d1 = if avoidance != zero_vec() {
        normalize_spec(blend_spec(d0, 7, avoidance, 3))
    } else {
        d0
    };
    if sep != zero_vec() {
        normalize_spec(blend_spec(d1, 8, sep, 2))
    } else {
        d1
    }
}

/// Movement resolution: the deterministic last step of a tick.  An
/// agent on a path steers toward its current waypoint, advancing the
/// cursor (and dropping avoidance) when the waypoint is within half a
/// cell; an agent past the end of its path stops and clears it; an
/// agent without a path pursues the offset player position directly
/// when the player is far, and stands still when close.  A direction
/// that normalizes to zero yields zero velocity.
pub open spec fn movement_spec(z: Zombie, self_pos: Vec2I, player_pos: Vec2I, sep: Vec2I) -> (
    Zombie,
    Vec2I,
) {
    match z.current_path {
        Some(pv) => {
            if z.current_target_index < pv@.len() {
                let target = grid_to_world_spec(pv@[z.current_target_index as int]);
                let dir = blended_direction(
                    vec_sub(target, self_pos),
                    z.avoidance_direction,
                    sep,
                );
                if dir != zero_vec() {
                    let vel = scale_speed_spec(dir, z.speed as int);
                    if dist_sq(target, self_pos) < WAYPOINT_RADIUS_SQ as int {
                        (
                            Zombie {
                                current_target_index: (z.current_target_index + 1) as usize,
                                avoidance_direction: zero_vec(),
                                ..z
                            },
                            vel,
                        )
                    } else {
                        (z, vel)
                    }
                } else {
                    (z, zero_vec())
                }
            } else {
                (Zombie { current_path: None, current_target_index: 0, ..z }, zero_vec())
            }
        },
        None => {
            if dist_sq(player_pos, self_pos) > DIRECT_PURSUIT_RANGE_SQ as int {
                let dir = blended_direction(
                    vec_sub(vec_add(player_pos, z.target_offset), self_pos),
                    z.avoidance_direction,
                    sep,
                );
                (z, scale_speed_spec(dir, z.speed as int))
            } else {
                (z, zero_vec())
            }
        },
    }
}

/// How one whole tick may transform an agent: timers, stuck check,
/// offset refresh and replanning in order, each random draw covered by
/// its phase relation, then deterministic movement resolution against
/// the snapshot's separation force.
pub open spec fn agent_tick_rel(
    pre: Zombie,
    post: Zombie,
    vel: Vec2I,
    self_pos: Vec2I,
    player_pos: Vec2I,
    positions: Seq<Vec2I>,
    offsets: Seq<Vec2I>,
    dt: u64,
) -> bool {
    exists|z1: Zombie, z2: Zombie, z3: Zombie|
        #![trigger stuck_phase_rel(timers_phase(pre, dt), z1, self_pos), offset_phase_rel(z1, z2, offsets), replan_phase_rel(z2, z3, self_pos, player_pos, positions)]
        stuck_phase_rel(timers_phase(pre, dt), z1, self_pos) && offset_phase_rel(z1, z2, offsets)
            && replan_phase_rel(z2, z3, self_pos, player_pos, positions) && (post, vel)
            == movement_spec(z3, self_pos, player_pos, separation_spec(self_pos, positions))
}

/// A zero-elapsed tick is inert: no timer reports completion, no
/// replanning and no offset refresh occurs, the steering state — path,
/// cursor, offset, avoidance — is untouched, and the velocity is the
/// movement resolution of that unchanged state.  The guards exclude
/// the inputs on which a zero tick still acts: an agent whose offset
/// is exactly zero redraws it (the initial-state signal), an agent
/// without a path replans, and an agent within half a cell of its
/// waypoint advances the cursor.
pub proof fn lemma_zero_dt_tick_is_inert(
    pre: Zombie,
    post: Zombie,
    vel: Vec2I,
    self_pos: Vec2I,
    player_pos: Vec2I,
    positions: Seq<Vec2I>,
    offsets: Seq<Vec2I>,
)
    requires
        zombie_wf(pre),
        in_box(self_pos, WORLD_LIMIT as int),
        agent_tick_rel(pre, post, vel, self_pos, player_pos, positions, offsets, 0),
        pre.current_path matches Some(p) && pre.current_target_index < p@.len() && dist_sq(
            grid_to_world_spec(p@[pre.current_target_index as int]),
            self_pos,
        ) >= WAYPOINT_RADIUS_SQ as int,
        pre.target_offset != zero_vec(),
    ensures
        post == (Zombie {
            path_update_timer: tick_spec(pre.path_update_timer, 0),
            stuck_timer: tick_spec(pre.stuck_timer, 0),
            personal_space_timer: tick_spec(pre.personal_space_timer, 0),
            last_position: self_pos,
            ..pre
        }),
        !post.path_update_timer.fired,
        !post.stuck_timer.fired,
        !post.personal_space_timer.fired,
        post.path_update_timer.elapsed_ms == pre.path_update_timer.elapsed_ms,
        post.stuck_timer.elapsed_ms == pre.stuck_timer.elapsed_ms,
        post.personal_space_timer.elapsed_ms == pre.personal_space_timer.elapsed_ms,
        post.current_path == pre.current_path,
        post.current_target_index == pre.current_target_index,
        post.target_offset == pre.target_offset,
        post.avoidance_direction == pre.avoidance_direction,
        post.attack_cooldown == pre.attack_cooldown,
        vel == movement_spec(post, self_pos, player_pos, separation_spec(self_pos, positions)).1,
        zombie_wf(post),
{
    let zt = timers_phase(pre, 0);
    assert(!zt.path_update_timer.fired && !zt.stuck_timer.fired && !zt.personal_space_timer.fired);
    let (z1, z2, z3) = choose|z1: Zombie, z2: Zombie, z3: Zombie|
        stuck_phase_rel(timers_phase(pre, 0), z1, self_pos) && offset_phase_rel(z1, z2, offsets)
            && replan_phase_rel(z2, z3, self_pos, player_pos, positions) && (post, vel)
            == movement_spec(z3, self_pos, player_pos, separation_spec(self_pos, positions));
    assert(!stuck_condition(zt, self_pos));
    assert(z1 == (Zombie { last_position: self_pos, ..zt }));
    assert(z2 == z1);
    assert(z3 == z2);
    assert(post == z3);
}

/// Zero elapsed time, twice over: against identical positions, a
/// second zero tick resolves to the same velocity as the first and
/// leaves the agent exactly as the first left it.
pub proof fn lemma_zero_dt_velocity_repeats(
    pre: Zombie,
    mid: Zombie,
    vel1: Vec2I,
    post: Zombie,
    vel2: Vec2I,
    self_pos: Vec2I,
    player_pos: Vec2I,
    positions: Seq<Vec2I>,
    offsets: Seq<Vec2I>,
)
    requires
        zombie_wf(pre),
        in_box(self_pos, WORLD_LIMIT as int),
        agent_tick_rel(pre, mid, vel1, self_pos, player_pos, positions, offsets, 0),
        agent_tick_rel(mid, post, vel2, self_pos, player_pos, positions, offsets, 0),
        pre.current_path matches Some(p) && pre.current_target_index < p@.len() && dist_sq(
            grid_to_world_spec(p@[pre.current_target_index as int]),
            self_pos,
        ) >= WAYPOINT_RADIUS_SQ as int,
        pre.target_offset != zero_vec(),
    ensures
        vel2 == vel1,
        post == mid,
{
    lemma_zero_dt_tick_is_inert(pre, mid, vel1, self_pos, player_pos, positions, offsets);
    lemma_zero_dt_tick_is_inert(mid, post, vel2, self_pos, player_pos, positions, offsets);
    assert(tick_spec(mid.path_update_timer, 0) == mid.path_update_timer);
    assert(tick_spec(mid.stuck_timer, 0) == mid.stuck_timer);
    assert(tick_spec(mid.personal_space_timer, 0) == mid.personal_space_timer);
    assert(post == mid);
}

/// Advances the three per-tick timers of an agent.
pub fn tick_agent_timers(z: &mut Zombie, dt: u64)
    requires
        zombie_wf(*old(z)),
        dt <= MAX_TICK_MS,
    ensures
        zombie_wf(*final(z)),
        *final(z) == timers_phase(*old(z), dt),
{
    z.path_update_timer.tick(dt);
    z.stuck_timer.tick(dt);
    z.personal_space_timer.tick(dt);
}

/// Stuck re-evaluation: an agent that barely moved since the last tick
/// while its stuck timer completed drops its path and takes a random
/// avoidance direction; the current position is recorded either way.
pub fn stuck_phase(z: &mut Zombie, self_pos: Vec2I)
    requires
        zombie_wf(*old(z)),
        in_box(self_pos, WORLD_LIMIT as int),
    ensures
        zombie_wf(*final(z)),
        stuck_phase_rel(*old(z), *final(z), self_pos),
{
    let moved_sq: i64 = dist_sq_i64(self_pos, z.last_position);
    let ghost zt = *z;
    let ghost stuck_draw: Vec2I = zero_vec();
    if moved_sq < STUCK_MOVE_EPSILON_SQ && z.stuck_timer.finished() {
        let dir: Vec2I = random_avoidance_direction();
        proof {
            stuck_draw = choose|v: Vec2I| in_box(v, MILLI as int) && dir == normalize_spec(v);
        }
        z.current_path = None;
        z.current_target_index = 0;
        z.avoidance_direction = dir;
    }
    z.last_position = self_pos;
    proof {
        if stuck_condition(zt, self_pos) {
            assert(in_box(stuck_draw, MILLI as int) && *z == (Zombie {
                current_path: None,
                current_target_index: 0,
                avoidance_direction: normalize_spec(stuck_draw),
                last_position: self_pos,
                ..zt
            }));
        }
    }
}

/// Offset refresh: draws a fresh pursuit offset when the refresh timer
/// completed or the offset still holds its zero initial value.
pub fn offset_phase(z: &mut Zombie, existing_offsets: &Vec<Vec2I>)
    requires
        zombie_wf(*old(z)),
        all_in_box(existing_offsets@, OFFSET_RANGE_MILLI as int),
    ensures
        zombie_wf(*final(z)),
        offset_phase_rel(*old(z), *final(z), existing_offsets@),
{
    let ghost z1 = *z;
    if z.personal_space_timer.just_finished() || (z.target_offset.x == 0 && z.target_offset.y
        == 0) {
        z.target_offset = generate_unique_target_offset(existing_offsets);
    }
    proof {
        if z1.personal_space_timer.fired || z1.target_offset == zero_vec() {
            assert(in_box(z.target_offset, OFFSET_RANGE_MILLI as int) && (z.target_offset
                == zero_vec() || offset_unique(z.target_offset, existing_offsets@)) && *z == (
            Zombie { target_offset: z.target_offset, ..z1 }));
        }
    }
}

/// Replanning: when the replan timer completed or no path exists, runs
/// the planner toward the player position plus the agent's offset; a
/// found path replaces the old one with the cursor reset and avoidance
/// cleared, and a failed search leaves the agent as it was.
pub fn replan_phase(z: &mut Zombie, self_pos: Vec2I, player_pos: Vec2I, positions: &Vec<Vec2I>)
    requires
        zombie_wf(*old(z)),
        in_box(self_pos, WORLD_LIMIT as int),
        in_box(player_pos, WORLD_LIMIT as int),
        all_in_box(positions@, WORLD_LIMIT as int),
    ensures
        zombie_wf(*final(z)),
        replan_phase_rel(*old(z), *final(z), self_pos, player_pos, positions@),
{
    let ghost z2 = *z;
    if z.path_update_timer.just_finished() || z.current_path.is_none() {
        let goal: Vec2I = vec_add_i64(player_pos, z.target_offset);
        match find_alternative_path(self_pos, goal, positions, self_pos) {
            Some(path) => {
                proof {
                    crate::pathing::lemma_valid_path_cells(
                        path@,
                        world_to_grid_spec(self_pos),
                        world_to_grid_spec(vec_add(player_pos, z2.target_offset)),
                        positions@,
                        self_pos,
                    );
                }
                z.current_path = Some(path);
                z.current_target_index = 0;
                z.avoidance_direction = Vec2I { x: 0, y: 0 };
            },
            None => {},
        }
    }
}

/// Movement resolution, the deterministic last step of a tick; see
/// `movement_spec` for what each branch does.
pub fn resolve_movement(z: &mut Zombie, self_pos: Vec2I, player_pos: Vec2I, sep: Vec2I) -> (vel:
    Vec2I)
    requires
        zombie_wf(*old(z)),
        in_box(self_pos, WORLD_LIMIT as int),
        in_box(player_pos, WORLD_LIMIT as int),
        in_box(sep, 2_000_000),
    ensures
        zombie_wf(*final(z)),
        (*final(z), vel) == movement_spec(*old(z), self_pos, player_pos, sep),
        in_box(vel, MAX_SPEED_MILLI as int),
{
    let mut vel: Vec2I = Vec2I { x: 0, y: 0 };
    if z.current_path.is_some() {
        let plen: usize = z.current_path.as_ref().unwrap().len();
        if z.current_target_index < plen {
            let cell: GridCell = z.current_path.as_ref().unwrap()[z.current_target_index];
            let target: Vec2I = grid_to_world(cell);
            let diff: Vec2I = vec_sub_i64(target, self_pos);
            let mut dir: Vec2I = normalize_or_zero(diff);
            if !(z.avoidance_direction.x == 0 && z.avoidance_direction.y == 0) {
                dir = normalize_or_zero(blend_weighted(dir, 7, z.avoidance_direction, 3));
            }
            if !(sep.x == 0 && sep.y == 0) {
                dir = normalize_or_zero(blend_weighted(dir, 8, sep, 2));
            }
            proof {
                assert(dir == blended_direction(
                    vec_sub(grid_to_world_spec(cell), self_pos),
                    old(z).avoidance_direction,
                    sep,
                ));
            }
            if !(dir.x == 0 && dir.y == 0) {
                vel = scale_speed(dir, z.speed);
                if dist_sq_i64(target, self_pos) < WAYPOINT_RADIUS_SQ {
                    z.current_target_index = z.current_target_index + 1;
                    z.avoidance_direction = Vec2I { x: 0, y: 0 };
                }
            }
        } else {
            // Path exhausted: stop and clear it.
            z.current_path = None;
            z.current_target_index = 0;
        }
    } else {
        // No path: direct pursuit when the player is far, else stand.
        if dist_sq_i64(player_pos, self_pos) > DIRECT_PURSUIT_RANGE_SQ {
            let goal: Vec2I = vec_add_i64(player_pos, z.target_offset);
            let diff: Vec2I = vec_sub_i64(goal, self_pos);
            let mut dir: Vec2I = normalize_or_zero(diff);
            if !(z.avoidance_direction.x == 0 && z.avoidance_direction.y == 0) {
                dir = normalize_or_zero(blend_weighted(dir, 7, z.avoidance_direction, 3));
            }
            if !(sep.x == 0 && sep.y == 0) {
                dir = normalize_or_zero(blend_weighted(dir, 8, sep, 2));
            }
            vel = scale_speed(dir, z.speed);
        }
    }
    vel
}

/// One agent's whole tick: advances the timers, re-evaluates being
/// stuck, refreshes the target offset, replans when due, and resolves
/// movement, returning the agent's new velocity.  The relation
/// `agent_tick_rel` pins the outcome down to the two random draws.
pub fn agent_tick(
    z: &mut Zombie,
    self_pos: Vec2I,
    player_pos: Vec2I,
    positions: &Vec<Vec2I>,
    existing_offsets: &Vec<Vec2I>,
    dt: u64,
) -> (vel: Vec2I)
    requires
        zombie_wf(*old(z)),
        in_box(self_pos, WORLD_LIMIT as int),
        in_box(player_pos, WORLD_LIMIT as int),
        all_in_box(positions@, WORLD_LIMIT as int),
        positions@.len() <= MAX_AGENTS as int,
        all_in_box(existing_offsets@, OFFSET_RANGE_MILLI as int),
        dt <= MAX_TICK_MS,
    ensures
        zombie_wf(*final(z)),
        agent_tick_rel(
            *old(z),
            *final(z),
            vel,
            self_pos,
            player_pos,
            positions@,
            existing_offsets@,
            dt,
        ),
        in_box(vel, MAX_SPEED_MILLI as int),
{
    tick_agent_timers(z, dt);
    stuck_phase(z, self_pos);
    let ghost z1 = *z;
    offset_phase(z, existing_offsets);
    let ghost z2 = *z;
    let sep: Vec2I = calculate_personal_space_offset(self_pos, positions);
    replan_phase(z, self_pos, player_pos, positions);
    let ghost z3 = *z;
    let vel: Vec2I = resolve_movement(z, self_pos, player_pos, sep);
    proof {
        assert(stuck_phase_rel(timers_phase(*old(z), dt), z1, self_pos));
        assert(offset_phase_rel(z1, z2, existing_offsets@));
        assert(replan_phase_rel(z2, z3, self_pos, player_pos, positions@));
        assert((*z, vel) == movement_spec(z3, self_pos, player_pos, separation_spec(
            self_pos,
            positions@,
        )));
    }
    vel
}

/// The target offsets of a squad, in agent order.
pub open spec fn offsets_of(zs: Seq<Zombie>) -> Seq<Vec2I> {
    zs.map_values(|z: Zombie| z.target_offset)
}

/// Every agent of the squad satisfies the agent invariant.
pub open spec fn squad_wf(zs: Seq<Zombie>) -> bool {
    forall|i: int| 0 <= i < zs.len() ==> zombie_wf(#[trigger] zs[i])
}

/// A snapshot of every agent's current target offset, taken before any
/// agent updates, so each fresh offset is checked against the same set.
pub fn collect_target_offsets(zombies: &Vec<Zombie>) -> (r: Vec<Vec2I>)
    ensures
        r@ == offsets_of(zombies@),
{
    let n: usize = zombies.len();
    let mut r: Vec<Vec2I> = Vec::new();
    let mut i: usize = 0;
    while i < n
        invariant
            0 <= i <= n,
            n == zombies@.len(),
            r@ == offsets_of(zombies@.take(i as int)),
        decreases n - i,
    {
        r.push(zombies[i].target_offset);
        proof {
            assert(r@ =~= offsets_of(zombies@.take(i + 1)));
        }
        i = i + 1;
    }
    proof {
        assert(zombies@.take(n as int) =~= zombies@);
    }
    r
}

/// A well-formed squad carries bounded target offsets.
pub proof fn lemma_squad_offsets_bounded(zs: Seq<Zombie>)
    requires
        squad_wf(zs),
    ensures
        all_in_box(offsets_of(zs), OFFSET_RANGE_MILLI as int),
{
    assert forall|i: int| 0 <= i < offsets_of(zs).len() implies in_box(
        #[trigger] offsets_of(zs)[i],
        OFFSET_RANGE_MILLI as int,
    ) by {
        assert(zombie_wf(zs[i]));
    }
}

/// After any tick an agent's path cursor lies between zero and the
/// length of its path, whenever a path exists.
pub proof fn lemma_cursor_within_path(z: Zombie)
    requires
        zombie_wf(z),
    ensures
        z.current_path matches Some(p) ==> 0 <= z.current_target_index <= p@.len(),
{
}

/// One simulation tick for the whole squad against a consistent
/// snapshot of positions (`positions[i]` is agent `i`'s position, and
/// the same vector doubles as everyone's obstacle snapshot).  Returns
/// the agents' new velocities, or `None` — with nothing changed — when
/// no player is alive, the normal transient during level transitions.
pub fn update_zombie_ai(
    zombies: &mut Vec<Zombie>,
    positions: &Vec<Vec2I>,
    player_pos: Option<Vec2I>,
    dt: u64,
) -> (vels: Option<Vec<Vec2I>>)
    requires
        squad_wf(old(zombies)@),
        old(zombies)@.len() == positions@.len(),
        all_in_box(positions@, WORLD_LIMIT as int),
        positions@.len() <= MAX_AGENTS as int,
        player_pos matches Some(p) ==> in_box(p, WORLD_LIMIT as int),
        dt <= MAX_TICK_MS,
    ensures
        squad_wf(final(zombies)@),
        final(zombies)@.len() == old(zombies)@.len(),
        match player_pos {
            None => final(zombies)@ == old(zombies)@ && vels is None,
            Some(pp) => vels matches Some(vs) && vs@.len() == old(zombies)@.len() && all_in_box(
                vs@,
                MAX_SPEED_MILLI as int,
            ) && (forall|
                i: int,
            |
                0 <= i < old(zombies)@.len() ==> agent_tick_rel(
                    old(zombies)@[i],
                    final(zombies)@[i],
                    vs@[i],
                    positions@[i],
                    pp,
                    positions@,
                    offsets_of(old(zombies)@),
                    dt,
                )),
        },
{
    let pp: Vec2I = match player_pos {
        Some(p) => p,
        None => {
            return None;
        },
    };
    let offsets: Vec<Vec2I> = collect_target_offsets(zombies);
    proof {
        lemma_squad_offsets_bounded(old(zombies)@);
    }
    let n: usize = zombies.len();
    let mut done: Vec<Zombie> = Vec::new();
    let mut vels: Vec<Vec2I> = Vec::new();
    let mut i: usize = 0;
    while i < n
        invariant
            0 <= i <= n,
            n == old(zombies)@.len(),
            n == positions@.len(),
            n <= MAX_AGENTS as int,
            done@.len() == i,
            vels@.len() == i,
            zombies@ =~= old(zombies)@.skip(i as int),
            offsets@ == offsets_of(old(zombies)@),
            all_in_box(offsets@, OFFSET_RANGE_MILLI as int),
            all_in_box(positions@, WORLD_LIMIT as int),
            in_box(pp, WORLD_LIMIT as int),
            dt <= MAX_TICK_MS,
            squad_wf(old(zombies)@),
            squad_wf(done@),
            all_in_box(vels@, MAX_SPEED_MILLI as int),
            forall|j: int|
                0 <= j < i ==> agent_tick_rel(
                    old(zombies)@[j],
                    done@[j],
                    #[trigger] vels@[j],
                    positions@[j],
                    pp,
                    positions@,
                    offsets@,
                    dt,
                ),
        decreases n - i,
    {
        let mut zi: Zombie = zombies.remove(0);
        proof {
            assert(zi == old(zombies)@[i as int]);
            assert(zombie_wf(zi));
        }
        let v: Vec2I = agent_tick(&mut zi, positions[i], pp, positions, &offsets, dt);
        done.push(zi);
        vels.push(v);
        proof {
            assert(old(zombies)@.skip(i as int).remove(0) =~= old(zombies)@.skip(i + 1));
        }
        i = i + 1;
    }
    *zombies = done;
    Some(vels)
}

} // verus!
