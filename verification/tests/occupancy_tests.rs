use syncopate::geometry::Vec2I;
use syncopate::grid::GridCell;
use syncopate::occupancy::is_position_blocked;
use syncopate::pathing::find_alternative_path;

#[test]
fn empty_map_blocks_nothing_inside() {
    let none: Vec<Vec2I> = Vec::new();
    for x in 0..40 {
        for y in 0..20 {
            assert!(!is_position_blocked(GridCell { x, y }, &none, None));
        }
    }
}

#[test]
fn outside_the_map_is_always_blocked() {
    let none: Vec<Vec2I> = Vec::new();
    for c in [
        GridCell { x: -1, y: 0 },
        GridCell { x: 40, y: 0 },
        GridCell { x: 0, y: -1 },
        GridCell { x: 0, y: 20 },
        GridCell { x: 100, y: 100 },
    ] {
        assert!(is_position_blocked(c, &none, None));
    }
}

#[test]
fn an_agent_blocks_cells_within_its_spacing() {
    // The cell centre (32, 0) lies 2 units from the agent at (30, 0).
    let others = vec![Vec2I { x: 30_000, y: 0 }];
    assert!(is_position_blocked(GridCell { x: 21, y: 10 }, &others, None));
    // A cell centre 66 units away is free.
    assert!(!is_position_blocked(GridCell { x: 23, y: 10 }, &others, None));
}

#[test]
fn self_position_does_not_block() {
    let self_pos = Vec2I { x: 0, y: 0 };
    let others = vec![self_pos];
    // Without self-exclusion the centre cell would be blocked.
    assert!(is_position_blocked(
        GridCell { x: 20, y: 10 },
        &others,
        None
    ));
    assert!(!is_position_blocked(
        GridCell { x: 20, y: 10 },
        &others,
        Some(self_pos)
    ));
}

#[test]
fn two_close_agents_force_a_detour() {
    // Two agents 30 units apart: each treats the other as an obstacle.
    let a = Vec2I { x: 0, y: 0 };
    let b = Vec2I { x: 30_000, y: 0 };
    let positions = vec![a, b];
    // The cell nearest the other agent is blocked for the first one.
    let b_cell = GridCell { x: 21, y: 10 };
    assert!(is_position_blocked(b_cell, &positions, Some(a)));
    // A path east past the other agent exists but detours around it.
    let goal = Vec2I { x: 96_000, y: 0 };
    let path = find_alternative_path(a, goal, &positions, a).expect("a detour should exist");
    assert_eq!(path[0], GridCell { x: 20, y: 10 });
    assert_eq!(path[path.len() - 1], GridCell { x: 23, y: 10 });
    for c in &path {
        assert_ne!(*c, GridCell { x: 21, y: 10 });
        assert_ne!(*c, GridCell { x: 22, y: 10 });
    }
}
