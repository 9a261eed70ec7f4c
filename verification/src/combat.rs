//! The combat resolver: cooldown-gated damage to the player's shared
//! health, applied by two independent triggers — per-tick proximity
//! polling and discrete collision-start events.
//!
//! Both triggers gate on the same per-agent attack cooldown and reset
//! it when they fire, so only one of them can land per agent within one
//! cooldown window, whichever detects contact first; that is the whole
//! mechanism against double-counted damage.

use vstd::prelude::*;

verus! {

use crate::geometry::Vec2I;
use crate::geometry::WORLD_LIMIT;
use crate::geometry::all_in_box;
use crate::geometry::dist_sq;
use crate::geometry::dist_sq_i64;
use crate::geometry::in_box;
use crate::timer::MAX_TICK_MS;
use crate::timer::reset_spec;
use crate::timer::tick_spec;
use crate::zombie::Zombie;
use crate::zombie::squad_wf;
use crate::zombie::zombie_wf;

/// Squared distance under which an agent can strike the player
/// (40 world units).
pub const ATTACK_RANGE_SQ: i64 = 40_000 * 40_000;

/// Collision-group bits of the physics collaborator's colliders.
pub const ZOMBIE_COLLISION_GROUP: u32 = 0b0001;

pub const PLAYER_COLLISION_GROUP: u32 = 0b0010;

pub const WALL_COLLISION_GROUP: u32 = 0b0100;

/// The player's shared health pool, clamped to `[0, max]`.
pub struct ThunwaHealth {
    pub current: i64,
    pub max: i64,
}

pub open spec fn health_wf(h: ThunwaHealth) -> bool {
    0 <= h.current <= h.max
}

impl ThunwaHealth {
    /// A full health pool.
    pub fn new(max: i64) -> (h: ThunwaHealth)
        requires
            0 <= max,
        ensures
            h.current == max,
            h.max == max,
            health_wf(h),
    {
        ThunwaHealth { current: max, max }
    }
}

/// Health after one damage application: reduced, floored at zero.
pub open spec fn damage_spec(h: int, dmg: int) -> int {
    if h - dmg >= 0 {
        h - dmg
    } else {
        0
    }
}

/// Applies one hit to the shared health pool.
pub fn apply_damage(health: &mut ThunwaHealth, dmg: i64)
    requires
        health_wf(*old(health)),
        0 <= dmg,
    ensures
        health_wf(*final(health)),
        final(health).current == damage_spec(old(health).current as int, dmg as int),
        final(health).max == old(health).max,
{
    if health.current >= dmg {
        health.current = health.current - dmg;
    } else {
        health.current = 0;
    }
}

/// Damage applications never drive health below zero, however many
/// land and in whatever order: the health floor.
pub proof fn lemma_health_floor(h: int, dmgs: Seq<int>)
    requires
        0 <= h,
        forall|i: int| 0 <= i < dmgs.len() ==> 0 <= #[trigger] dmgs[i],
    ensures
        0 <= apply_damages_spec(h, dmgs),
    decreases dmgs.len(),
{
    if dmgs.len() > 0 {
        lemma_health_floor(h, dmgs.drop_last());
    }
}

/// The health left after a sequence of damage applications.
pub open spec fn apply_damages_spec(h: int, dmgs: Seq<int>) -> int
    decreases dmgs.len(),
{
    if dmgs.len() == 0 {
        h
    } else {
        damage_spec(apply_damages_spec(h, dmgs.drop_last()), dmgs.last())
    }
}

/// One collision participant: the entity it belongs to and the
/// collision-group bits of its collider.
#[derive(Clone, Copy, PartialEq, Eq, Structural, Debug)]
pub struct ColliderRef {
    pub entity: u64,
    pub membership: u32,
}

/// A discrete collision-start event from the physics collaborator.
#[derive(Clone, Copy, PartialEq, Eq, Structural, Debug)]
pub struct CollisionStart {
    pub first: ColliderRef,
    pub second: ColliderRef,
}

/// The live player the resolver works against: its position snapshot
/// and the entity its collider carries.
#[derive(Clone, Copy, PartialEq, Eq, Structural, Debug)]
pub struct PlayerTarget {
    pub position: Vec2I,
    pub id: u64,
}

/// The collider belongs to the agent group.
pub open spec fn is_agent_collider(c: ColliderRef) -> bool {
    c.membership & ZOMBIE_COLLISION_GROUP != 0
}

/// The collider belongs to the player group.
pub open spec fn is_player_collider(c: ColliderRef) -> bool {
    c.membership & PLAYER_COLLISION_GROUP != 0
}

/// The position of the first occurrence of `e` in `ids`.
pub open spec fn first_index_of(ids: Seq<u64>, e: u64) -> int
    decreases ids.len(),
{
    if ids.len() == 0 {
        0
    } else if ids[0] == e {
        0
    } else {
        1 + first_index_of(ids.drop_first(), e)
    }
}

/// The first occurrence really is an occurrence, and nothing before it
/// matches.
pub proof fn lemma_first_index_of(ids: Seq<u64>, e: u64)
    requires
        ids.contains(e),
    ensures
        0 <= first_index_of(ids, e) < ids.len(),
        ids[first_index_of(ids, e)] == e,
        forall|j: int| 0 <= j < first_index_of(ids, e) ==> ids[j] != e,
    decreases ids.len(),
{
    if ids[0] != e {
        assert(ids.drop_first().contains(e)) by {
            let k = choose|k: int| 0 <= k < ids.len() && ids[k] == e;
            assert(ids.drop_first()[k - 1] == e);
        }
        lemma_first_index_of(ids.drop_first(), e);
        assert forall|j: int| 0 <= j < first_index_of(ids, e) implies ids[j] != e by {
            if j > 0 {
                assert(ids.drop_first()[j - 1] == ids[j]);
            }
        }
    }
}

/// Which agent an event names, if the event pairs an agent collider of
/// the squad with the live player's collider, in either order; the
/// first matching agent id wins, as the entity lookup would have it.
pub open spec fn agent_hit_by(ev: CollisionStart, ids: Seq<u64>, player_id: u64) -> Option<int> {
    if is_agent_collider(ev.first) && is_player_collider(ev.second) && ev.second.entity
        == player_id && ids.contains(ev.first.entity) {
        Some(first_index_of(ids, ev.first.entity))
    } else if is_agent_collider(ev.second) && is_player_collider(ev.first) && ev.first.entity
        == player_id && ids.contains(ev.second.entity) {
        Some(first_index_of(ids, ev.second.entity))
    } else {
        None
    }
}

/// Proximity trigger for one agent: the cooldown advances by the tick,
/// and when the agent stands within attack range with its cooldown
/// complete, one hit lands and the cooldown restarts.
pub open spec fn prox_step(z: Zombie, zpos: Vec2I, player: Vec2I, h: int, dt: u64) -> (Zombie, int) {
    let z1 = Zombie { attack_cooldown: tick_spec(z.attack_cooldown, dt), ..z };
    if dist_sq(player, zpos) < ATTACK_RANGE_SQ as int && z1.attack_cooldown.fired {
        (
            Zombie { attack_cooldown: reset_spec(z1.attack_cooldown), ..z1 },
            damage_spec(h, z.damage as int),
        )
    } else {
        (z1, h)
    }
}

/// The proximity trigger folded over the squad, in agent order.
pub open spec fn prox_phase_spec(
    zs: Seq<Zombie>,
    ps: Seq<Vec2I>,
    player: Vec2I,
    h: int,
    dt: u64,
) -> (Seq<Zombie>, int)
    decreases zs.len(),
{
    if zs.len() == 0 {
        (zs, h)
    } else {
        let prefix = prox_phase_spec(zs.drop_last(), ps.drop_last(), player, h, dt);
        let stepped = prox_step(zs.last(), ps.last(), player, prefix.1, dt);
        (prefix.0.push(stepped.0), stepped.1)
    }
}

/// Collision-event trigger for one event: when the event names an
/// agent whose cooldown is complete, one hit lands and that cooldown
/// restarts; the cooldown does not advance here — only the proximity
/// phase ticks it.
pub open spec fn event_step(
    zs: Seq<Zombie>,
    ids: Seq<u64>,
    ev: CollisionStart,
    player_id: u64,
    h: int,
) -> (Seq<Zombie>, int) {
    match agent_hit_by(ev, ids, player_id) {
        Some(i) => {
            if 0 <= i < zs.len() && zs[i].attack_cooldown.fired {
                (
                    zs.update(
                        i,
                        Zombie { attack_cooldown: reset_spec(zs[i].attack_cooldown), ..zs[i] },
                    ),
                    damage_spec(h, zs[i].damage as int),
                )
            } else {
                (zs, h)
            }
        },
        None => (zs, h),
    }
}

/// The collision-event trigger folded over the tick's event feed, in
/// arrival order.
pub open spec fn events_phase_spec(
    zs: Seq<Zombie>,
    ids: Seq<u64>,
    events: Seq<CollisionStart>,
    player_id: u64,
    h: int,
) -> (Seq<Zombie>, int)
    decreases events.len(),
{
    if events.len() == 0 {
        (zs, h)
    } else {
        let prefix = events_phase_spec(zs, ids, events.drop_last(), player_id, h);
        event_step(prefix.0, ids, events.last(), player_id, prefix.1)
    }
}

/// One whole combat tick: the proximity trigger over every agent, then
/// the event trigger over every collision-start event.
pub open spec fn attack_system_spec(
    zs: Seq<Zombie>,
    ids: Seq<u64>,
    ps: Seq<Vec2I>,
    player: Vec2I,
    player_id: u64,
    h: int,
    events: Seq<CollisionStart>,
    dt: u64,
) -> (Seq<Zombie>, int) {
    let prox = prox_phase_spec(zs, ps, player, h, dt);
    events_phase_spec(prox.0, ids, events, player_id, prox.1)
}

/// Remembers the last health value surfaced to the player, so the
/// health readout only changes when the value does.
pub struct PlayerHealthDisplay {
    pub last_health: i64,
}

impl Default for PlayerHealthDisplay {
    /// A display primed with a full default health pool.
    fn default() -> (d: PlayerHealthDisplay)
        ensures
            d.last_health == 100_000,
    {
        PlayerHealthDisplay { last_health: 100_000 }
    }
}

/// Decides whether the health readout should surface: only when the
/// value changed and the player is no longer at full health.  Records
/// the surfaced value.
pub fn update_player_health_display(display: &mut PlayerHealthDisplay, health: &ThunwaHealth) -> (
    show: bool)
    ensures
        show == (health.current != old(display).last_health && health.current < health.max),
        final(display).last_health == if show {
            health.current
        } else {
            old(display).last_health
        },
{
    if health.current != display.last_health && health.current < health.max {
        display.last_health = health.current;
        true
    } else {
        false
    }
}

/// Damage idempotence: when one agent's proximity condition and a
/// collision-start event naming the same agent are both live in a
/// single tick, the player loses exactly one hit of damage, not two —
/// whichever trigger ran first reset the shared cooldown.
pub proof fn lemma_damage_idempotent(
    z: Zombie,
    zpos: Vec2I,
    player: Vec2I,
    player_id: u64,
    aid: u64,
    h: int,
    ev: CollisionStart,
    dt: u64,
)
    requires
        zombie_wf(z),
        0 <= z.damage <= h,
        dist_sq(player, zpos) < ATTACK_RANGE_SQ as int,
        z.attack_cooldown.elapsed_ms + dt >= z.attack_cooldown.duration_ms,
        agent_hit_by(ev, seq![aid], player_id) == Some(0int),
    ensures
        attack_system_spec(
            seq![z],
            seq![aid],
            seq![zpos],
            player,
            player_id,
            h,
            seq![ev],
            dt,
        ).1 == h - z.damage,
{
    let zs = seq![z];
    let ps = seq![zpos];
    assert(zs.drop_last() =~= Seq::<Zombie>::empty());
    assert(ps.drop_last() =~= Seq::<Vec2I>::empty());
    assert(prox_phase_spec(Seq::<Zombie>::empty(), Seq::<Vec2I>::empty(), player, h, dt) == (
        Seq::<Zombie>::empty(),
        h,
    ));
    let stepped = prox_step(z, zpos, player, h, dt);
    assert(stepped.1 == h - z.damage);
    assert(!stepped.0.attack_cooldown.fired);
    let prox = prox_phase_spec(zs, ps, player, h, dt);
    assert(prox.0 =~= seq![stepped.0] && prox.1 == stepped.1);
    let evs = seq![ev];
    assert(evs.drop_last() =~= Seq::<CollisionStart>::empty());
    assert(events_phase_spec(prox.0, seq![aid], Seq::<CollisionStart>::empty(), player_id, prox.1)
        == (prox.0, prox.1));
    assert(event_step(prox.0, seq![aid], ev, player_id, prox.1) == (prox.0, prox.1));
}

/// Cooldown respect within one tick: two collision-start events naming
/// the same agent in a single tick yield exactly one damage application
/// whenever the agent's cooldown completes that tick — the first trigger
/// to land (proximity or the first event) resets it for the rest.
pub proof fn lemma_cooldown_one_application_per_tick(
    z: Zombie,
    zpos: Vec2I,
    player: Vec2I,
    player_id: u64,
    aid: u64,
    h: int,
    ev1: CollisionStart,
    ev2: CollisionStart,
    dt: u64,
)
    requires
        zombie_wf(z),
        0 <= z.damage <= h,
        z.attack_cooldown.elapsed_ms + dt >= z.attack_cooldown.duration_ms,
        agent_hit_by(ev1, seq![aid], player_id) == Some(0int),
        agent_hit_by(ev2, seq![aid], player_id) == Some(0int),
    ensures
        attack_system_spec(
            seq![z],
            seq![aid],
            seq![zpos],
            player,
            player_id,
            h,
            seq![ev1, ev2],
            dt,
        ).1 == h - z.damage,
{
    let zs = seq![z];
    let ps = seq![zpos];
    assert(zs.drop_last() =~= Seq::<Zombie>::empty());
    assert(ps.drop_last() =~= Seq::<Vec2I>::empty());
    assert(prox_phase_spec(Seq::<Zombie>::empty(), Seq::<Vec2I>::empty(), player, h, dt) == (
        Seq::<Zombie>::empty(),
        h,
    ));
    let stepped = prox_step(z, zpos, player, h, dt);
    let prox = prox_phase_spec(zs, ps, player, h, dt);
    assert(prox.0 =~= seq![stepped.0] && prox.1 == stepped.1);
    let evs = seq![ev1, ev2];
    assert(evs.drop_last() =~= seq![ev1]);
    assert(seq![ev1].drop_last() =~= Seq::<CollisionStart>::empty());
    assert(events_phase_spec(prox.0, seq![aid], Seq::<CollisionStart>::empty(), player_id, prox.1)
        == (prox.0, prox.1));
    let after1 = event_step(prox.0, seq![aid], ev1, player_id, prox.1);
    assert(events_phase_spec(prox.0, seq![aid], seq![ev1], player_id, prox.1) == after1);
    if dist_sq(player, zpos) < ATTACK_RANGE_SQ as int {
        // The proximity trigger landed and reset the cooldown: both
        // events find it not yet complete.
        assert(!stepped.0.attack_cooldown.fired);
        assert(after1 == (prox.0, prox.1));
        assert(event_step(after1.0, seq![aid], ev2, player_id, after1.1) == after1);
    } else {
        // The first event landed; the second finds the cooldown reset.
        assert(stepped.0.attack_cooldown.fired);
        assert(after1.1 == h - z.damage);
        assert(!after1.0[0].attack_cooldown.fired);
        assert(event_step(after1.0, seq![aid], ev2, player_id, after1.1) == after1);
    }
}

/// Cooldown respect across ticks: an agent that landed a hit cannot
/// land another while the elapsed time since stays under the cooldown
/// duration, whatever contact the next tick brings.
pub proof fn lemma_cooldown_across_ticks(
    z: Zombie,
    zpos1: Vec2I,
    zpos2: Vec2I,
    player1: Vec2I,
    player2: Vec2I,
    player_id: u64,
    aid: u64,
    h: int,
    ev2: CollisionStart,
    dt1: u64,
    dt2: u64,
)
    requires
        zombie_wf(z),
        0 <= z.damage <= h,
        dist_sq(player1, zpos1) < ATTACK_RANGE_SQ as int,
        z.attack_cooldown.elapsed_ms + dt1 >= z.attack_cooldown.duration_ms,
        dt2 < z.attack_cooldown.duration_ms,
    ensures
        ({
            let first = attack_system_spec(
                seq![z],
                seq![aid],
                seq![zpos1],
                player1,
                player_id,
                h,
                Seq::<CollisionStart>::empty(),
                dt1,
            );
            let second = attack_system_spec(
                first.0,
                seq![aid],
                seq![zpos2],
                player2,
                player_id,
                first.1,
                seq![ev2],
                dt2,
            );
            first.1 == h - z.damage && second.1 == first.1
        }),
{
    let zs = seq![z];
    let ps1 = seq![zpos1];
    assert(zs.drop_last() =~= Seq::<Zombie>::empty());
    assert(ps1.drop_last() =~= Seq::<Vec2I>::empty());
    assert(prox_phase_spec(Seq::<Zombie>::empty(), Seq::<Vec2I>::empty(), player1, h, dt1) == (
        Seq::<Zombie>::empty(),
        h,
    ));
    let stepped = prox_step(z, zpos1, player1, h, dt1);
    let prox = prox_phase_spec(zs, ps1, player1, h, dt1);
    assert(prox.0 =~= seq![stepped.0] && prox.1 == stepped.1);
    let first = attack_system_spec(
        zs,
        seq![aid],
        ps1,
        player1,
        player_id,
        h,
        Seq::<CollisionStart>::empty(),
        dt1,
    );
    assert(first == (prox.0, prox.1));
    assert(first.1 == h - z.damage);
    let z1 = stepped.0;
    assert(z1.attack_cooldown.elapsed_ms == 0 && !z1.attack_cooldown.fired);
    // Tick two: the cooldown cannot complete within the window.
    let ps2 = seq![zpos2];
    assert(first.0.drop_last() =~= Seq::<Zombie>::empty());
    assert(ps2.drop_last() =~= Seq::<Vec2I>::empty());
    assert(prox_phase_spec(Seq::<Zombie>::empty(), Seq::<Vec2I>::empty(), player2, first.1, dt2)
        == (Seq::<Zombie>::empty(), first.1));
    let stepped2 = prox_step(z1, zpos2, player2, first.1, dt2);
    assert(!tick_spec(z1.attack_cooldown, dt2).fired);
    assert(stepped2.1 == first.1 && !stepped2.0.attack_cooldown.fired);
    let prox2 = prox_phase_spec(first.0, ps2, player2, first.1, dt2);
    assert(prox2.0 =~= seq![stepped2.0] && prox2.1 == first.1);
    let evs = seq![ev2];
    assert(evs.drop_last() =~= Seq::<CollisionStart>::empty());
    assert(events_phase_spec(prox2.0, seq![aid], Seq::<CollisionStart>::empty(), player_id, prox2.1)
        == (prox2.0, prox2.1));
    assert(event_step(prox2.0, seq![aid], ev2, player_id, prox2.1) == (prox2.0, prox2.1));
}

/// Whether a collider belongs to the agent group.
pub fn is_agent_collider_check(c: ColliderRef) -> (r: bool)
    ensures
        r == is_agent_collider(c),
{
    c.membership & ZOMBIE_COLLISION_GROUP != 0
}

/// Whether a collider belongs to the player group.
pub fn is_player_collider_check(c: ColliderRef) -> (r: bool)
    ensures
        r == is_player_collider(c),
{
    c.membership & PLAYER_COLLISION_GROUP != 0
}

/// Finds the first agent carrying the entity `e`.
pub fn find_agent_index(ids: &Vec<u64>, e: u64) -> (r: Option<usize>)
    ensures
        match r {
            Some(i) => ids@.contains(e) && i as int == first_index_of(ids@, e) && i < ids@.len(),
            None => !ids@.contains(e),
        },
{
    let n: usize = ids.len();
    let mut i: usize = 0;
    while i < n
        invariant
            0 <= i <= n,
            n == ids@.len(),
            forall|j: int| 0 <= j < i ==> ids@[j] != e,
        decreases n - i,
    {
        if ids[i] == e {
            proof {
                assert(ids@.contains(e));
                lemma_first_index_of(ids@, e);
                let f = first_index_of(ids@, e);
                if f < i as int {
                    assert(ids@[f] != e);
                }
                if f > i as int {
                    assert(ids@[i as int] != e);
                }
            }
            return Some(i);
        }
        i = i + 1;
    }
    proof {
        if ids@.contains(e) {
            let k = choose|k: int| 0 <= k < ids@.len() && ids@[k] == e;
            assert(ids@[k] != e);
        }
    }
    None
}

/// Which agent an event names, as executable code.
fn classify_event(ev: CollisionStart, agent_ids: &Vec<u64>, player_id: u64) -> (r: Option<usize>)
    ensures
        match r {
            Some(i) => agent_hit_by(ev, agent_ids@, player_id) == Some(i as int) && i
                < agent_ids@.len(),
            None => agent_hit_by(ev, agent_ids@, player_id) is None,
        },
{
    if is_agent_collider_check(ev.first) && is_player_collider_check(ev.second) && ev.second.entity
        == player_id {
        match find_agent_index(agent_ids, ev.first.entity) {
            Some(i) => {
                return Some(i);
            },
            None => {},
        }
    }
    if is_agent_collider_check(ev.second) && is_player_collider_check(ev.first) && ev.first.entity
        == player_id {
        match find_agent_index(agent_ids, ev.second.entity) {
            Some(i) => {
                return Some(i);
            },
            None => {},
        }
    }
    None
}

/// One combat tick.  Advances every agent's attack cooldown, applies
/// the proximity trigger agent by agent, then the collision-event
/// trigger event by event, mutating the shared health; the outcome is
/// exactly `attack_system_spec`.  With no live player (`None`) the tick
/// is skipped whole and nothing changes.
pub fn zombie_attack_system(
    zombies: &mut Vec<Zombie>,
    agent_ids: &Vec<u64>,
    positions: &Vec<Vec2I>,
    player: Option<PlayerTarget>,
    health: &mut ThunwaHealth,
    events: &Vec<CollisionStart>,
    dt: u64,
)
    requires
        squad_wf(old(zombies)@),
        old(zombies)@.len() == positions@.len(),
        old(zombies)@.len() == agent_ids@.len(),
        all_in_box(positions@, WORLD_LIMIT as int),
        player matches Some(p) ==> in_box(p.position, WORLD_LIMIT as int),
        health_wf(*old(health)),
        dt <= MAX_TICK_MS,
    ensures
        squad_wf(final(zombies)@),
        health_wf(*final(health)),
        final(health).max == old(health).max,
        final(zombies)@.len() == old(zombies)@.len(),
        match player {
            None => final(zombies)@ == old(zombies)@ && *final(health) == *old(health),
            Some(p) => {
                let outcome = attack_system_spec(
                    old(zombies)@,
                    agent_ids@,
                    positions@,
                    p.position,
                    p.id,
                    old(health).current as int,
                    events@,
                    dt,
                );
                final(zombies)@ == outcome.0 && final(health).current as int == outcome.1
            },
        },
{
    let p: PlayerTarget = match player {
        Some(p) => p,
        None => {
            return ;
        },
    };
    let n: usize = zombies.len();
    // Proximity trigger, agent by agent.
    let mut done: Vec<Zombie> = Vec::new();
    let mut i: usize = 0;
    while i < n
        invariant
            0 <= i <= n,
            n == old(zombies)@.len(),
            n == positions@.len(),
            done@.len() == i,
            zombies@ =~= old(zombies)@.skip(i as int),
            squad_wf(old(zombies)@),
            squad_wf(done@),
            all_in_box(positions@, WORLD_LIMIT as int),
            in_box(p.position, WORLD_LIMIT as int),
            dt <= MAX_TICK_MS,
            health_wf(*health),
            health.max == old(health).max,
            (done@, health.current as int) == prox_phase_spec(
                old(zombies)@.take(i as int),
                positions@.take(i as int),
                p.position,
                old(health).current as int,
                dt,
            ),
        decreases n - i,
    {
        let mut zi: Zombie = zombies.remove(0);
        proof {
            assert(zi == old(zombies)@[i as int]);
            assert(zombie_wf(zi));
        }
        let ghost pre_tick = zi;
        zi.attack_cooldown.tick(dt);
        if dist_sq_i64(p.position, positions[i]) < ATTACK_RANGE_SQ && zi.attack_cooldown.finished()
        {
            apply_damage(health, zi.damage);
            zi.attack_cooldown.reset();
        }
        done.push(zi);
        proof {
            assert(old(zombies)@.skip(i as int).remove(0) =~= old(zombies)@.skip(i + 1));
            assert(old(zombies)@.take(i + 1).drop_last() =~= old(zombies)@.take(i as int));
            assert(positions@.take(i + 1).drop_last() =~= positions@.take(i as int));
            assert(old(zombies)@.take(i + 1).last() == old(zombies)@[i as int]);
            assert(positions@.take(i + 1).last() == positions@[i as int]);
        }
        i = i + 1;
    }
    *zombies = done;
    proof {
        assert(old(zombies)@.take(n as int) =~= old(zombies)@);
        assert(positions@.take(n as int) =~= positions@);
    }
    let ghost zs_mid = zombies@;
    let ghost h_mid = health.current as int;
    // Collision-event trigger, event by event.
    let m: usize = events.len();
    let mut k: usize = 0;
    while k < m
        invariant
            0 <= k <= m,
            m == events@.len(),
            zombies@.len() == n,
            n == agent_ids@.len(),
            squad_wf(zombies@),
            health_wf(*health),
            health.max == old(health).max,
            (zombies@, health.current as int) == events_phase_spec(
                zs_mid,
                agent_ids@,
                events@.take(k as int),
                p.id,
                h_mid,
            ),
        decreases m - k,
    {
        let ev: CollisionStart = events[k];
        let ghost pre = zombies@;
        match classify_event(ev, agent_ids, p.id) {
            Some(idx) => {
                let mut zi: Zombie = zombies.remove(idx);
                if zi.attack_cooldown.finished() {
                    apply_damage(health, zi.damage);
                    zi.attack_cooldown.reset();
                }
                zombies.insert(idx, zi);
                proof {
                    assert(zombies@ =~= pre.update(
                        idx as int,
                        Zombie { attack_cooldown: zi.attack_cooldown, ..pre[idx as int] },
                    ));
                }
            },
            None => {},
        }
        proof {
            assert(events@.take(k + 1).drop_last() =~= events@.take(k as int));
            assert(events@.take(k + 1).last() == events@[k as int]);
        }
        k = k + 1;
    }
    proof {
        assert(events@.take(m as int) =~= events@);
    }
}

} // verus!
