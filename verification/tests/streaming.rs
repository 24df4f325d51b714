//! Streaming and generation behaviour: determinism of the generator, the
//! viewport-to-window derivation, and idempotent revisit of a region.

use shooter_core::camera::{update_visible_space, VisibleSpace};
use shooter_core::geom::Vec2i;
use shooter_core::stars::{
    generate_star_properties, handle_star_despawning, handle_star_spawning, hash,
    run_if_visible_starfield_changed, setup_stars, update_visible_star_field, Star, StarKey,
};

fn key(x: i32, y: i32) -> StarKey {
    StarKey { x, y }
}

#[test]
fn generator_is_deterministic() {
    for &(x, y) in &[(0, 0), (20, 0), (-20, 40), (12345, -9876)] {
        let a = generate_star_properties(key(x, y), 20, 2000);
        let b = generate_star_properties(key(x, y), 20, 2000);
        assert_eq!(a, b);
        assert_eq!(hash(key(x, y)), hash(key(x, y)));
    }
}

#[test]
fn generator_exact_values() {
    assert_eq!(hash(key(0, 0)), 0);
    assert_eq!(generate_star_properties(key(0, 0), 20, 2000), (true, 0, 0, 1000));
    assert_eq!(hash(key(20, 0)), 9606377160520823952);
    assert_eq!(generate_star_properties(key(20, 0), 20, 2000), (false, 1, 15, 1606));
    assert_eq!(generate_star_properties(key(-20, 40), 20, 2000), (false, 8, 2, 1694));
    assert_eq!(generate_star_properties(key(20, -40), 20, 2000), (true, 15, 8, 1349));
}

#[test]
fn scenario_camera_at_origin() {
    let mut vs = VisibleSpace {
        top_left: Vec2i { x: 0, y: 0 },
        bottom_right: Vec2i { x: 0, y: 0 },
    };
    let changed = update_visible_space(
        Vec2i { x: 0, y: 0 },
        Vec2i { x: 320, y: 180 },
        1000,
        &mut vs,
    );
    assert!(changed);
    assert_eq!(vs.top_left, Vec2i { x: -320, y: 180 });
    assert_eq!(vs.bottom_right, Vec2i { x: 320, y: -180 });

    // the streaming window adds the margin on each side, snapped to the grid
    let (mut field, _) = setup_stars();
    update_visible_star_field(&vs, &mut field);
    assert_eq!(field.top_left, Vec2i { x: -360, y: 220 });
    assert_eq!(field.bottom_right, Vec2i { x: 360, y: -220 });
    assert!(run_if_visible_starfield_changed(&field));

    // recomputing from the same inputs changes nothing
    let changed_again = update_visible_space(
        Vec2i { x: 0, y: 0 },
        Vec2i { x: 320, y: 180 },
        1000,
        &mut vs,
    );
    assert!(!changed_again);
    update_visible_star_field(&vs, &mut field);
    assert!(!run_if_visible_starfield_changed(&field));
}

fn sorted_keys(stars: &[Star]) -> Vec<(i32, i32)> {
    let mut ks: Vec<(i32, i32)> = stars.iter().map(|s| (s.key.x, s.key.y)).collect();
    ks.sort();
    ks
}

#[test]
fn window_spawn_contents() {
    let (mut field, mut map) = setup_stars();
    field.top_left = Vec2i { x: -40, y: 40 };
    field.bottom_right = Vec2i { x: 40, y: -40 };
    let spawned = handle_star_spawning(&field, &mut map);
    // exactly the present cells of the 5x5 window, with their generated stars
    assert_eq!(sorted_keys(&spawned), vec![(0, 0), (20, -40)]);
    for s in &spawned {
        if s.key.x == 0 && s.key.y == 0 {
            assert_eq!(s.position, Vec2i { x: 0, y: 0 });
            assert_eq!(s.scale, 1000);
        } else {
            assert_eq!(s.position, Vec2i { x: 35, y: -32 });
            assert_eq!(s.scale, 1349);
        }
    }
    // the ledger now covers every cell: a second pass spawns nothing
    let again = handle_star_spawning(&field, &mut map);
    assert!(again.is_empty());
}

#[test]
fn inverted_window_spawns_nothing() {
    let (mut field, mut map) = setup_stars();
    field.top_left = Vec2i { x: 40, y: -40 };
    field.bottom_right = Vec2i { x: -40, y: 40 };
    let spawned = handle_star_spawning(&field, &mut map);
    assert!(spawned.is_empty());
}

#[test]
fn zero_span_window_spawns_nothing() {
    // equal corners, and a span that is zero on one axis only: no work
    let (mut field, mut map) = setup_stars();
    field.top_left = Vec2i { x: 0, y: 0 };
    field.bottom_right = Vec2i { x: 0, y: 0 };
    assert!(handle_star_spawning(&field, &mut map).is_empty());
    field.top_left = Vec2i { x: -40, y: 20 };
    field.bottom_right = Vec2i { x: 40, y: 20 };
    assert!(handle_star_spawning(&field, &mut map).is_empty());
}

#[test]
fn idempotent_revisit() {
    let (mut field, mut map) = setup_stars();
    field.top_left = Vec2i { x: -40, y: 40 };
    field.bottom_right = Vec2i { x: 40, y: -40 };
    let first = handle_star_spawning(&field, &mut map);
    let mut stars = first.clone();

    // the window moves far away: everything is evicted, the ledger emptied
    let mut far = field;
    far.top_left = Vec2i { x: 1000, y: 1080 };
    far.bottom_right = Vec2i { x: 2000, y: 1000 };
    handle_star_despawning(&far, &mut stars, &mut map);
    assert!(stars.is_empty());

    // re-entering the region reproduces the same set at the same offsets
    let second = handle_star_spawning(&field, &mut map);
    let mut a = first;
    let mut b = second;
    a.sort_by_key(|s| (s.key.x, s.key.y));
    b.sort_by_key(|s| (s.key.x, s.key.y));
    assert_eq!(a, b);
}

#[test]
fn despawn_erases_only_evicted_cells() {
    let (mut field, mut map) = setup_stars();
    field.top_left = Vec2i { x: -40, y: 40 };
    field.bottom_right = Vec2i { x: 40, y: -40 };
    let mut stars = handle_star_spawning(&field, &mut map);

    // shrink the window so that only the star at the origin stays visible
    let mut small = field;
    small.top_left = Vec2i { x: -20, y: 20 };
    small.bottom_right = Vec2i { x: 20, y: -20 };
    handle_star_despawning(&small, &mut stars, &mut map);
    assert_eq!(sorted_keys(&stars), vec![(0, 0)]);

    // the evicted cell was returned to unseen: revisiting respawns it
    let back = handle_star_spawning(&field, &mut map);
    assert_eq!(sorted_keys(&back), vec![(20, -40)]);
}
