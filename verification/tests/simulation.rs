//! Integrator, interpolation, collision and damage behaviour.

use shooter_core::bullet::{handle_bullets, make_bullet, Bullet};
use shooter_core::enemy::{
    apply_despawns, handle_damage, setup_enemies, Collider, Damage, Enemy, Health,
};
use shooter_core::explosion::{handle_explosions, spawn_explosions, ExplosionEvent};
use shooter_core::geom::Vec2i;
use shooter_core::input::{handle_input, setup};
use shooter_core::physics::{
    handle_collisions, hit_test, interpolate, interpolate_position, run_steps, update_positions,
    Position, Velocity,
};
use shooter_core::spaceship::{handle_fire, handle_spaceship_movement, spawn_spaceship, velocity_guard};
use shooter_core::timing::{FixedClock, Timer};

fn vel(x: i64, y: i64) -> Velocity {
    Velocity(Vec2i { x, y })
}

#[test]
fn scenario_one_second_of_motion() {
    // velocity (500, 0), step duration 1/60 s, 60 steps: x advances by
    // exactly 500 units, and `previous` lags `current` by one step
    let mut positions = vec![Position::at(Vec2i { x: 0, y: 0 })];
    let velocities = vec![vel(500, 0)];
    let mut after59 = positions.clone();
    run_steps(&mut after59, &velocities, 59, 1, 60);
    run_steps(&mut positions, &velocities, 60, 1, 60);
    assert_eq!(positions[0].current, Vec2i { x: 500, y: 0 });
    assert_eq!(positions[0].previous, after59[0].current);
    assert_eq!(positions[0].carry, Vec2i { x: 0, y: 0 });
}

#[test]
fn step_independence() {
    // many small frame deltas and few large ones run the same steps and
    // leave the same remainder
    let mut many = FixedClock::new(16);
    let mut few = FixedClock::new(16);
    let mut steps_many: u64 = 0;
    for _ in 0..100 {
        steps_many += many.advance(7);
    }
    let steps_few = few.advance(700);
    assert_eq!(steps_many, steps_few);
    assert_eq!(many.overstep(), few.overstep());

    // and therefore the same positions
    let mut a = vec![Position::at(Vec2i { x: 3, y: -4 })];
    let mut b = a.clone();
    let velocities = vec![vel(123, -45)];
    run_steps(&mut a, &velocities, steps_many, 16, 60);
    run_steps(&mut b, &velocities, steps_few, 16, 60);
    assert_eq!(a, b);

    // grouping the same steps differently changes nothing either
    let mut split = vec![Position::at(Vec2i { x: 3, y: -4 })];
    run_steps(&mut split, &velocities, 17, 16, 60);
    run_steps(&mut split, &velocities, steps_many - 17, 16, 60);
    assert_eq!(split, a);
}

#[test]
fn interpolation_endpoints() {
    let mut p = Position::at(Vec2i { x: 100, y: -60 });
    p.previous = Vec2i { x: 100, y: -60 };
    p.current = Vec2i { x: 160, y: 0 };
    // at overstep zero the transform is `previous`
    assert_eq!(interpolate_position(&p, 0, 60), Vec2i { x: 100, y: -60 });
    // just before the next step it approaches `current`
    assert_eq!(interpolate_position(&p, 59, 60), Vec2i { x: 159, y: -1 });
    // halfway
    assert_eq!(interpolate_position(&p, 30, 60), Vec2i { x: 130, y: -30 });
    // the plural form interpolates every entity
    let ts = interpolate(&vec![p, Position::at(Vec2i { x: 7, y: 8 })], 30, 60);
    assert_eq!(ts, vec![Vec2i { x: 130, y: -30 }, Vec2i { x: 7, y: 8 }]);
}

#[test]
fn update_positions_buffers_previous() {
    let mut positions = vec![Position::at(Vec2i { x: 10, y: 20 })];
    let velocities = vec![vel(-120, 60)];
    update_positions(&mut positions, &velocities, 1, 60);
    assert_eq!(positions[0].previous, Vec2i { x: 10, y: 20 });
    assert_eq!(positions[0].current, Vec2i { x: 8, y: 21 });
    assert_eq!(positions[0].carry, Vec2i { x: 0, y: 0 });
}

#[test]
fn collision_boundary_counts() {
    // distance exactly equal to the radius is a hit: closed boundary
    assert!(hit_test(Vec2i { x: 16, y: 0 }, Vec2i { x: 0, y: 0 }, 16));
    assert!(!hit_test(Vec2i { x: 17, y: 0 }, Vec2i { x: 0, y: 0 }, 16));
    // and symmetric in the two positions
    assert!(hit_test(Vec2i { x: 0, y: 0 }, Vec2i { x: 16, y: 0 }, 16));
}

fn enemy_at(ent: u64, x: i64, y: i64, radius: i64) -> Enemy {
    Enemy {
        ent,
        position: Position::at(Vec2i { x, y }),
        velocity: vel(0, 0),
        health: Health(100),
        collider: Collider(radius),
    }
}

#[test]
fn scenario_projectile_hit() {
    // projectile at (10,0), enemy collider radius 16 at (0,0):
    // distance^2 = 100 <= 256, so the hit registers, the projectile is
    // despawned, and one damage event is emitted
    let bullets = vec![make_bullet(1, Vec2i { x: 10, y: 0 }, Vec2i { x: 0, y: 0 }, 10)];
    let enemies = vec![enemy_at(7, 0, 0, 16)];
    let (despawns, events) = handle_collisions(&bullets, &enemies);
    assert_eq!(despawns, vec![1]);
    assert_eq!(events, vec![Damage(7, 100)]);
}

#[test]
fn projectile_hits_at_most_one_target() {
    // two overlapping enemies: the first in order takes the single hit
    let bullets = vec![make_bullet(1, Vec2i { x: 0, y: 0 }, Vec2i { x: 0, y: 0 }, 10)];
    let enemies = vec![enemy_at(7, 4, 0, 16), enemy_at(8, -4, 0, 16)];
    let (despawns, events) = handle_collisions(&bullets, &enemies);
    assert_eq!(despawns, vec![1]);
    assert_eq!(events, vec![Damage(7, 100)]);
}

#[test]
fn no_double_kill() {
    // two damage events against one target in the same pass: one despawn,
    // exactly one secondary effect
    let mut enemies = vec![enemy_at(7, 5, 6, 16)];
    let events = vec![Damage(7, 80), Damage(7, 80)];
    let (despawns, explosions) = handle_damage(&mut enemies, &events);
    assert_eq!(despawns, vec![7]);
    assert_eq!(explosions.len(), 1);
    assert_eq!(explosions[0].0.current, Vec2i { x: 5, y: 6 });
    assert_eq!(enemies[0].health, Health(-60));
    apply_despawns(&mut enemies, &despawns);
    assert!(enemies.is_empty());
}

#[test]
fn stale_damage_is_ignored() {
    let mut enemies = vec![enemy_at(7, 0, 0, 16)];
    let events = vec![Damage(42, 500)];
    let (despawns, explosions) = handle_damage(&mut enemies, &events);
    assert!(despawns.is_empty());
    assert!(explosions.is_empty());
    assert_eq!(enemies[0].health, Health(100));
}

#[test]
fn enemy_grid_layout() {
    let player = Position::at(Vec2i { x: 100, y: 0 });
    let es = setup_enemies(&player, 1000);
    assert_eq!(es.len(), 100);
    // first row is laid out relative to the player
    assert_eq!(es[0].position.current, Vec2i { x: -220, y: 200 });
    assert_eq!(es[9].position.current, Vec2i { x: 356, y: 200 });
    // later rows restart at the fixed left edge
    assert_eq!(es[10].position.current, Vec2i { x: -320, y: 264 });
    assert_eq!(es[99].position.current, Vec2i { x: 256, y: 776 });
    // entity references are distinct and consecutive
    assert_eq!(es[0].ent, 1000);
    assert_eq!(es[99].ent, 1099);
    assert_eq!(es[0].health, Health(100));
    assert_eq!(es[0].collider, Collider(16));
}

#[test]
fn velocity_guard_clamps_and_brakes() {
    // clamping to the speed cap
    let mut v = vel(900, -900);
    velocity_guard(&mut v, false, 1, 60);
    assert_eq!(v, vel(400, -400));
    // idle braking toward zero, 20 units per 1/60 s at 1200 units/s^2
    velocity_guard(&mut v, true, 1, 60);
    assert_eq!(v, vel(380, -380));
    // braking never crosses zero
    let mut w = vel(5, -5);
    velocity_guard(&mut w, true, 1, 60);
    assert_eq!(w, vel(0, 0));
}

#[test]
fn ship_movement_and_fire() {
    let (mut state, position, mut velocity, _ship, mut gun) = spawn_spaceship(2);
    let mut input = setup();
    assert!(input.idle && !input.shooting);
    handle_input(&mut input, true, false, false, true, true, false);
    assert!(input.up && input.right && input.shooting && !input.idle && !input.boost);

    let (fire_on, boost_on, bullets) = handle_spaceship_movement(
        &position,
        &mut velocity,
        &mut gun,
        &mut state,
        &input,
        1,
        60,
        630,
        500,
    );
    assert!(fire_on && !boost_on);
    // 2500 / 60 = 41 units per second gained on each held axis
    assert_eq!(velocity, vel(41, 41));
    // the gun was ready: two bullets from the two muzzle points
    assert_eq!(bullets.len(), 2);
    assert_eq!(bullets[0].ent, 500);
    assert_eq!(bullets[1].ent, 501);
    assert_eq!(bullets[0].position.current, Vec2i { x: 10, y: 8 });
    assert_eq!(bullets[1].position.current, Vec2i { x: -10, y: 8 });
    // upward ship speed is inherited on top of the base bullet speed
    assert_eq!(bullets[0].velocity.0.y, 441);
    assert_eq!(bullets[1].velocity.0.y, 441);
    // the sideways spread stays within its bounds
    assert!(-40 <= bullets[0].velocity.0.x && bullets[0].velocity.0.x < 40);
    assert!(-40 <= bullets[1].velocity.0.x && bullets[1].velocity.0.x < 40);
    assert!(!state.shot_ready);

    // holding fire again before the cooldown expires spawns nothing
    let (_, _, more) = handle_spaceship_movement(
        &position,
        &mut velocity,
        &mut gun,
        &mut state,
        &input,
        1,
        60,
        630,
        502,
    );
    assert!(more.is_empty());
    // after the cooldown the gun is ready again
    assert!(state.shot_ready);
}

#[test]
fn gun_fire_requires_ready_state() {
    let (mut state, position, velocity, _ship, mut gun) = spawn_spaceship(2);
    state.shot_ready = false;
    let bullets = handle_fire(&mut gun, &position, &velocity, &mut state, 630, 1);
    assert!(bullets.is_empty());
}

#[test]
fn bullets_expire() {
    let mut bullets = vec![
        make_bullet(1, Vec2i { x: 0, y: 0 }, Vec2i { x: 0, y: 440 }, 10),
        make_bullet(2, Vec2i { x: 5, y: 0 }, Vec2i { x: 0, y: 440 }, 30),
    ];
    handle_bullets(&mut bullets, 10);
    assert_eq!(bullets.len(), 1);
    assert_eq!(bullets[0].ent, 2);
    assert_eq!(bullets[0].timer.0.elapsed, 10);
    handle_bullets(&mut bullets, 25);
    assert!(bullets.is_empty());
}

#[test]
fn explosions_animate_and_finish() {
    let events = vec![ExplosionEvent(Position::at(Vec2i { x: 9, y: -9 }))];
    let mut bursts = spawn_explosions(&events, 4);
    assert_eq!(bursts.len(), 1);
    assert_eq!(bursts[0].position, Vec2i { x: 9, y: -9 });
    assert_eq!(bursts[0].atlas_index, 2);
    assert_eq!(bursts[0].scale, 2000);
    // each expiry advances one frame: 2 -> 14 takes 12 expiries
    for expected in 3..=14 {
        handle_explosions(&mut bursts, 4);
        assert_eq!(bursts[0].atlas_index, expected);
    }
    // the expiry after the last frame retires the burst
    handle_explosions(&mut bursts, 4);
    assert!(bursts.is_empty());
}

#[test]
fn timer_repeats_with_leftover() {
    let mut t = Timer::new(10, true);
    assert!(!t.tick(9));
    assert_eq!(t.elapsed, 9);
    assert!(t.tick(3));
    assert_eq!(t.elapsed, 2);
    let mut once = Timer::new(10, false);
    assert!(once.tick(15));
    assert!(!once.tick(5));
}
