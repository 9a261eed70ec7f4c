use syncopate::combat::{
    apply_damage, update_player_health_display, zombie_attack_system, ColliderRef, CollisionStart,
    PlayerHealthDisplay, PlayerTarget, ThunwaHealth, PLAYER_COLLISION_GROUP,
    ZOMBIE_COLLISION_GROUP,
};
use syncopate::geometry::Vec2I;
use syncopate::zombie::Zombie;

fn agent_collider(entity: u64) -> ColliderRef {
    ColliderRef {
        entity,
        membership: ZOMBIE_COLLISION_GROUP,
    }
}

fn player_collider(entity: u64) -> ColliderRef {
    ColliderRef {
        entity,
        membership: PLAYER_COLLISION_GROUP,
    }
}

#[test]
fn damage_is_subtracted_and_floored_at_zero() {
    let mut h = ThunwaHealth::new(100_000);
    apply_damage(&mut h, 25_000);
    assert_eq!(h.current, 75_000);
    apply_damage(&mut h, 80_000);
    assert_eq!(h.current, 0);
    // Health never goes below zero, however many hits land.
    for _ in 0..10 {
        apply_damage(&mut h, 25_000);
        assert!(h.current >= 0);
    }
    assert_eq!(h.current, 0);
    assert_eq!(h.max, 100_000);
}

#[test]
fn a_close_agent_strikes_when_its_cooldown_completes() {
    let zpos = Vec2I { x: 0, y: 0 };
    let mut zombies = vec![Zombie::new(zpos)];
    let ids = vec![7u64];
    let positions = vec![zpos];
    let player = Some(PlayerTarget {
        position: Vec2I { x: 10_000, y: 0 },
        id: 99,
    });
    let mut health = ThunwaHealth::new(100_000);
    let no_events: Vec<CollisionStart> = Vec::new();
    // The cooldown needs 1.5 seconds before the first strike.
    zombie_attack_system(
        &mut zombies, &ids, &positions, player, &mut health, &no_events, 1_000,
    );
    assert_eq!(health.current, 100_000);
    zombie_attack_system(
        &mut zombies, &ids, &positions, player, &mut health, &no_events, 500,
    );
    assert_eq!(health.current, 75_000);
}

#[test]
fn a_distant_agent_never_strikes() {
    let zpos = Vec2I { x: 0, y: 0 };
    let mut zombies = vec![Zombie::new(zpos)];
    let ids = vec![7u64];
    let positions = vec![zpos];
    let player = Some(PlayerTarget {
        position: Vec2I { x: 41_000, y: 0 },
        id: 99,
    });
    let mut health = ThunwaHealth::new(100_000);
    let no_events: Vec<CollisionStart> = Vec::new();
    zombie_attack_system(
        &mut zombies, &ids, &positions, player, &mut health, &no_events, 1_500,
    );
    assert_eq!(health.current, 100_000);
}

#[test]
fn both_triggers_in_one_tick_cost_one_hit() {
    // Proximity holds and a collision event names the same agent: the
    // player loses 25 units, not 50.
    let zpos = Vec2I { x: 0, y: 0 };
    let mut zombies = vec![Zombie::new(zpos)];
    let ids = vec![7u64];
    let positions = vec![zpos];
    let player = Some(PlayerTarget {
        position: Vec2I { x: 10_000, y: 0 },
        id: 99,
    });
    let mut health = ThunwaHealth::new(100_000);
    let events = vec![CollisionStart {
        first: agent_collider(7),
        second: player_collider(99),
    }];
    zombie_attack_system(
        &mut zombies, &ids, &positions, player, &mut health, &events, 1_500,
    );
    assert_eq!(health.current, 75_000);
}

#[test]
fn two_events_in_one_cooldown_window_cost_one_hit() {
    let zpos = Vec2I { x: 0, y: 0 };
    let mut zombies = vec![Zombie::new(zpos)];
    let ids = vec![7u64];
    let positions = vec![zpos];
    // The player stands out of proximity range; only the events count.
    let player = Some(PlayerTarget {
        position: Vec2I { x: 50_000, y: 0 },
        id: 99,
    });
    let mut health = ThunwaHealth::new(100_000);
    let hit = CollisionStart {
        first: agent_collider(7),
        second: player_collider(99),
    };
    let events = vec![hit, hit];
    zombie_attack_system(
        &mut zombies, &ids, &positions, player, &mut health, &events, 1_500,
    );
    assert_eq!(health.current, 75_000);
    // A second tick within the same window: still only the one hit.
    let events = vec![hit];
    zombie_attack_system(
        &mut zombies, &ids, &positions, player, &mut health, &events, 1_000,
    );
    assert_eq!(health.current, 75_000);
    // Once the window has passed, the next contact lands.
    let events = vec![hit];
    zombie_attack_system(
        &mut zombies, &ids, &positions, player, &mut health, &events, 500,
    );
    assert_eq!(health.current, 50_000);
}

#[test]
fn events_identify_the_agent_in_either_order() {
    let zpos = Vec2I { x: 0, y: 0 };
    let far = Vec2I { x: 500_000, y: 0 };
    let mut zombies = vec![Zombie::new(zpos), Zombie::new(far)];
    let ids = vec![7u64, 8u64];
    let positions = vec![zpos, far];
    let player = Some(PlayerTarget {
        position: Vec2I { x: 200_000, y: 0 },
        id: 99,
    });
    let mut health = ThunwaHealth::new(100_000);
    // Player listed first, the second agent listed second.
    let events = vec![CollisionStart {
        first: player_collider(99),
        second: agent_collider(8),
    }];
    zombie_attack_system(
        &mut zombies, &ids, &positions, player, &mut health, &events, 1_500,
    );
    assert_eq!(health.current, 75_000);
    // Only the named agent's cooldown restarted.
    assert_eq!(zombies[1].attack_cooldown.elapsed_ms, 0);
    assert!(!zombies[1].attack_cooldown.fired);
    assert!(zombies[0].attack_cooldown.fired);
}

#[test]
fn unrelated_events_do_nothing() {
    let zpos = Vec2I { x: 0, y: 0 };
    let mut zombies = vec![Zombie::new(zpos)];
    let ids = vec![7u64];
    let positions = vec![zpos];
    let player = Some(PlayerTarget {
        position: Vec2I { x: 200_000, y: 0 },
        id: 99,
    });
    let mut health = ThunwaHealth::new(100_000);
    let events = vec![
        // Two walls colliding.
        CollisionStart {
            first: ColliderRef { entity: 1, membership: 0b0100 },
            second: ColliderRef { entity: 2, membership: 0b0100 },
        },
        // An unknown agent entity against the player.
        CollisionStart {
            first: agent_collider(42),
            second: player_collider(99),
        },
        // The right agent against some other entity.
        CollisionStart {
            first: agent_collider(7),
            second: player_collider(98),
        },
    ];
    zombie_attack_system(
        &mut zombies, &ids, &positions, player, &mut health, &events, 1_500,
    );
    assert_eq!(health.current, 100_000);
}

#[test]
fn no_player_skips_the_combat_tick() {
    let zpos = Vec2I { x: 0, y: 0 };
    let mut zombies = vec![Zombie::new(zpos)];
    let ids = vec![7u64];
    let positions = vec![zpos];
    let mut health = ThunwaHealth::new(100_000);
    let events = vec![CollisionStart {
        first: agent_collider(7),
        second: player_collider(99),
    }];
    zombie_attack_system(
        &mut zombies, &ids, &positions, None, &mut health, &events, 1_500,
    );
    assert_eq!(health.current, 100_000);
    assert!(!zombies[0].attack_cooldown.fired);
    assert_eq!(zombies[0].attack_cooldown.elapsed_ms, 0);
}

#[test]
fn the_health_readout_surfaces_only_changes_below_full() {
    let mut display = PlayerHealthDisplay::default();
    let full = ThunwaHealth::new(100_000);
    assert!(!update_player_health_display(&mut display, &full));
    let hurt = ThunwaHealth { current: 75_000, max: 100_000 };
    assert!(update_player_health_display(&mut display, &hurt));
    // The same value again is not news.
    assert!(!update_player_health_display(&mut display, &hurt));
    let worse = ThunwaHealth { current: 50_000, max: 100_000 };
    assert!(update_player_health_display(&mut display, &worse));
}
