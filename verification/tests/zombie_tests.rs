use syncopate::geometry::Vec2I;
use syncopate::zombie::{
    agent_tick, setup_zombies, update_zombie_ai, update_zombie_animation_direction,
    AgentAnimation, Zombie, ZombieConfig,
};

#[test]
fn a_fresh_agent_has_the_stock_stats() {
    let z = Zombie::new(Vec2I { x: 0, y: 0 });
    assert_eq!(z.speed, 80_000);
    assert_eq!(z.health, 100_000);
    assert_eq!(z.damage, 25_000);
    assert_eq!(z.attack_cooldown.duration_ms, 1_500);
    assert_eq!(z.path_update_timer.duration_ms, 500);
    assert_eq!(z.stuck_timer.duration_ms, 2_000);
    assert_eq!(z.personal_space_timer.duration_ms, 1_000);
    assert!(z.current_path.is_none());
    assert_eq!(z.current_target_index, 0);
    assert_eq!(z.target_offset, Vec2I { x: 0, y: 0 });
}

#[test]
fn the_level_spawns_two_agents() {
    let config = ZombieConfig::default();
    assert_eq!(config.max_zombies, 2);
    assert_eq!(config.spawn_positions.len(), 4);
    let (zombies, positions) = setup_zombies();
    assert_eq!(zombies.len(), 2);
    assert_eq!(positions[0], Vec2I { x: -400_000, y: 200_000 });
    assert_eq!(positions[1], Vec2I { x: 400_000, y: -200_000 });
}

#[test]
fn animation_tokens_follow_the_speed() {
    assert_eq!(
        update_zombie_animation_direction(Vec2I { x: 0, y: 0 }),
        AgentAnimation::Idle
    );
    assert_eq!(
        update_zombie_animation_direction(Vec2I { x: 100, y: 0 }),
        AgentAnimation::Idle
    );
    assert_eq!(
        update_zombie_animation_direction(Vec2I { x: 101, y: 0 }),
        AgentAnimation::Moving
    );
    assert_eq!(
        update_zombie_animation_direction(Vec2I { x: 56_560, y: 56_560 }),
        AgentAnimation::Moving
    );
}

#[test]
fn zero_time_ticks_change_nothing() {
    // An agent between cell centres, with a path already planned: two
    // further zero-time ticks fire no timer, replan nothing, and
    // resolve to the same velocity and state.
    let self_pos = Vec2I { x: -14_000, y: -14_000 };
    let player = Vec2I { x: 200_000, y: 0 };
    let positions = vec![self_pos];
    let offsets: Vec<Vec2I> = Vec::new();
    let mut z = Zombie::new(self_pos);
    // First zero-time tick: there is no path yet, so the planner runs.
    agent_tick(&mut z, self_pos, player, &positions, &offsets, 0);
    assert!(z.current_path.is_some());
    let v2 = agent_tick(&mut z, self_pos, player, &positions, &offsets, 0);
    let path_snapshot = z.current_path.clone();
    let index_snapshot = z.current_target_index;
    let timers_snapshot = (
        z.path_update_timer,
        z.stuck_timer,
        z.personal_space_timer,
    );
    let offset_snapshot = z.target_offset;
    let avoidance_snapshot = z.avoidance_direction;
    let v3 = agent_tick(&mut z, self_pos, player, &positions, &offsets, 0);
    assert_eq!(v2, v3);
    assert_ne!(v2, Vec2I { x: 0, y: 0 });
    assert_eq!(z.current_path, path_snapshot);
    assert_eq!(z.current_target_index, index_snapshot);
    assert_eq!(
        (z.path_update_timer, z.stuck_timer, z.personal_space_timer),
        timers_snapshot
    );
    assert_eq!(z.target_offset, offset_snapshot);
    assert_eq!(z.avoidance_direction, avoidance_snapshot);
    assert!(!z.path_update_timer.just_finished());
    assert!(!z.stuck_timer.just_finished());
    assert!(!z.personal_space_timer.just_finished());
}

#[test]
fn the_path_cursor_stays_within_the_path() {
    let self_pos = Vec2I { x: 0, y: 0 };
    let player = Vec2I { x: 200_000, y: 0 };
    let positions = vec![self_pos];
    let offsets: Vec<Vec2I> = Vec::new();
    let mut z = Zombie::new(self_pos);
    for _ in 0..20 {
        agent_tick(&mut z, self_pos, player, &positions, &offsets, 16);
        match &z.current_path {
            Some(p) => assert!(z.current_target_index <= p.len()),
            None => assert_eq!(z.current_target_index, 0),
        }
    }
}

#[test]
fn a_stuck_agent_without_a_plan_wanders() {
    // The player stands beyond the map edge, so every plan fails; the
    // agent has not moved for a full stuck interval, so it takes an
    // avoidance direction and pursues directly.
    let self_pos = Vec2I { x: 0, y: 0 };
    let player = Vec2I { x: 2_000_000, y: 0 };
    let positions = vec![self_pos];
    let offsets: Vec<Vec2I> = Vec::new();
    let mut z = Zombie::new(self_pos);
    let v = agent_tick(&mut z, self_pos, player, &positions, &offsets, 2_000);
    assert!(z.current_path.is_none());
    assert_ne!(v, Vec2I { x: 0, y: 0 });
    assert!(v.x.abs() <= 80_000 && v.y.abs() <= 80_000);
}

#[test]
fn no_player_no_work() {
    let (mut zombies, positions) = setup_zombies();
    let before: Vec<Option<Vec<syncopate::grid::GridCell>>> =
        zombies.iter().map(|z| z.current_path.clone()).collect();
    let vels = update_zombie_ai(&mut zombies, &positions, None, 16);
    assert!(vels.is_none());
    for (z, b) in zombies.iter().zip(before.iter()) {
        assert_eq!(&z.current_path, b);
    }
}

#[test]
fn a_tick_yields_one_velocity_per_agent() {
    let (mut zombies, positions) = setup_zombies();
    let player = Some(Vec2I { x: -544_000, y: -256_000 });
    let vels = update_zombie_ai(&mut zombies, &positions, player, 16).expect("player is alive");
    assert_eq!(vels.len(), 2);
    for v in &vels {
        assert!(v.x.abs() <= 80_000 && v.y.abs() <= 80_000);
    }
}
