use syncopate::geometry::Vec2I;
use syncopate::grid::GridCell;
use syncopate::pathing::find_alternative_path;

#[test]
fn straight_run_to_the_player() {
    // Agent at (0, 0), player at (200, 0), empty map: a monotone run of
    // cells from the start cell to the goal cell, 10 per step.
    let start = Vec2I { x: 0, y: 0 };
    let goal = Vec2I { x: 200_000, y: 0 };
    let none: Vec<Vec2I> = Vec::new();
    let path = find_alternative_path(start, goal, &none, start).expect("open ground");
    assert_eq!(path[0], GridCell { x: 20, y: 10 });
    assert_eq!(path[path.len() - 1], GridCell { x: 26, y: 10 });
    assert_eq!(path.len(), 7);
    for i in 0..path.len() - 1 {
        assert_eq!(path[i + 1].x, path[i].x + 1);
        assert_eq!(path[i + 1].y, 10);
    }
}

#[test]
fn trivial_search_when_already_at_the_goal() {
    let p = Vec2I { x: 0, y: 0 };
    let none: Vec<Vec2I> = Vec::new();
    let path = find_alternative_path(p, p, &none, p).expect("already there");
    assert_eq!(path, vec![GridCell { x: 20, y: 10 }]);
}

#[test]
fn a_goal_outside_the_map_is_unreachable() {
    // The goal cell lies past the eastern edge, where every cell is
    // blocked; no path is a normal, recoverable outcome.
    let start = Vec2I { x: 0, y: 0 };
    let goal = Vec2I { x: 2_000_000, y: 0 };
    let none: Vec<Vec2I> = Vec::new();
    assert!(find_alternative_path(start, goal, &none, start).is_none());
}

#[test]
fn paths_move_cell_to_cell() {
    let start = Vec2I { x: -400_000, y: 200_000 };
    let goal = Vec2I { x: 300_000, y: -200_000 };
    let none: Vec<Vec2I> = Vec::new();
    let path = find_alternative_path(start, goal, &none, start).expect("open ground");
    for i in 0..path.len() - 1 {
        let dx = (path[i + 1].x - path[i].x).abs();
        let dy = (path[i + 1].y - path[i].y).abs();
        assert!(dx <= 1 && dy <= 1 && dx + dy >= 1);
    }
    // No cell appears twice.
    for i in 0..path.len() {
        for j in i + 1..path.len() {
            assert_ne!(path[i], path[j]);
        }
    }
}
