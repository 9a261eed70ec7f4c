use syncopate::geometry::Vec2I;
use syncopate::grid::{grid_to_world, world_to_grid, GridCell};

#[test]
fn origin_maps_to_map_centre() {
    let c = world_to_grid(Vec2I { x: 0, y: 0 });
    assert_eq!(c, GridCell { x: 20, y: 10 });
}

#[test]
fn player_start_cell() {
    // 200 world units to the right of the origin: (200 + 640) / 32 = 26.25.
    let c = world_to_grid(Vec2I { x: 200_000, y: 0 });
    assert_eq!(c, GridCell { x: 26, y: 10 });
}

#[test]
fn rounding_is_to_nearest_cell() {
    // (-655 + 640) / 32 is about -0.47: rounds to 0.
    let c = world_to_grid(Vec2I { x: -655_000, y: 0 });
    assert_eq!(c.x, 0);
    // (-656 + 640) / 32 = -0.5 exactly: a half rounds away from zero.
    let c = world_to_grid(Vec2I { x: -656_000, y: 0 });
    assert_eq!(c.x, -1);
}

#[test]
fn grid_to_world_is_the_affine_inverse() {
    assert_eq!(
        grid_to_world(GridCell { x: 20, y: 10 }),
        Vec2I { x: 0, y: 0 }
    );
    assert_eq!(
        grid_to_world(GridCell { x: 0, y: 0 }),
        Vec2I {
            x: -640_000,
            y: -320_000
        }
    );
}

#[test]
fn round_trip_stays_within_half_a_cell() {
    let samples = [
        Vec2I { x: 0, y: 0 },
        Vec2I { x: 1, y: -1 },
        Vec2I { x: 123_456, y: -654_321 },
        Vec2I { x: -639_999, y: 319_999 },
        Vec2I { x: 15_999, y: -16_000 },
        Vec2I {
            x: 999_999_000,
            y: -999_999_000,
        },
    ];
    for p in samples {
        let q = grid_to_world(world_to_grid(p));
        assert!((q.x - p.x).abs() <= 16_000, "x drifted: {:?} -> {:?}", p, q);
        assert!((q.y - p.y).abs() <= 16_000, "y drifted: {:?} -> {:?}", p, q);
    }
}
