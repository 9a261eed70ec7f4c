use syncopate::geometry::Vec2I;
use syncopate::personal_space::{
    calculate_personal_space_offset, generate_unique_target_offset, offset_is_unique,
};

#[test]
fn no_neighbours_no_force() {
    let force = calculate_personal_space_offset(Vec2I { x: 0, y: 0 }, &Vec::new());
    assert_eq!(force, Vec2I { x: 0, y: 0 });
}

#[test]
fn one_neighbour_pushes_away() {
    // A peer 30 units east: direction (-1000, 0), strength 2 * (1000 - 500).
    let force = calculate_personal_space_offset(
        Vec2I { x: 0, y: 0 },
        &vec![Vec2I { x: 30_000, y: 0 }],
    );
    assert_eq!(force, Vec2I { x: -1000, y: 0 });
}

#[test]
fn far_neighbours_and_exact_overlap_contribute_nothing() {
    let force = calculate_personal_space_offset(
        Vec2I { x: 0, y: 0 },
        &vec![Vec2I { x: 60_000, y: 0 }, Vec2I { x: 0, y: 0 }],
    );
    assert_eq!(force, Vec2I { x: 0, y: 0 });
}

#[test]
fn forces_from_several_neighbours_sum() {
    // Two symmetric peers: their pushes cancel.
    let force = calculate_personal_space_offset(
        Vec2I { x: 0, y: 0 },
        &vec![Vec2I { x: 30_000, y: 0 }, Vec2I { x: -30_000, y: 0 }],
    );
    assert_eq!(force, Vec2I { x: 0, y: 0 });
}

#[test]
fn offset_uniqueness_is_a_strict_bound() {
    let off = Vec2I { x: 0, y: 0 };
    assert!(!offset_is_unique(off, &vec![Vec2I { x: 30_000, y: 0 }]));
    assert!(offset_is_unique(off, &vec![Vec2I { x: 30_000, y: 1 }]));
}

#[test]
fn fresh_offsets_stay_in_range_and_clear_of_existing() {
    let existing = vec![Vec2I {
        x: -30_000,
        y: -30_000,
    }];
    for _ in 0..50 {
        let off = generate_unique_target_offset(&existing);
        assert!(off.x.abs() <= 30_000 && off.y.abs() <= 30_000);
        if off != (Vec2I { x: 0, y: 0 }) {
            let dx = off.x - existing[0].x;
            let dy = off.y - existing[0].y;
            assert!(dx * dx + dy * dy > 30_000 * 30_000);
        }
    }
}

#[test]
fn offsets_are_actually_sampled() {
    // With nothing to clash against, the first draw comes straight
    // back; fifty draws collapsing to one value would mean the
    // sampling is broken.
    let empty: Vec<Vec2I> = Vec::new();
    let first = generate_unique_target_offset(&empty);
    let mut saw_another = false;
    for _ in 0..49 {
        let off = generate_unique_target_offset(&empty);
        assert!(off.x.abs() <= 30_000 && off.y.abs() <= 30_000);
        if off != first {
            saw_another = true;
        }
    }
    assert!(saw_another);
}

#[test]
fn exhausted_sampling_degrades_to_a_shared_target() {
    // Five existing offsets cover the whole sampling square: every
    // candidate lands within 30 units of one of them, so the budget
    // runs out and the offset degrades to zero.
    let existing = vec![
        Vec2I { x: 0, y: 0 },
        Vec2I { x: 30_000, y: 30_000 },
        Vec2I { x: 30_000, y: -30_000 },
        Vec2I { x: -30_000, y: 30_000 },
        Vec2I {
            x: -30_000,
            y: -30_000,
        },
    ];
    let off = generate_unique_target_offset(&existing);
    assert_eq!(off, Vec2I { x: 0, y: 0 });
}
