//! The player ship: acceleration from intent flags, the velocity guard
//! that caps speed and brakes an idle ship, and firing, which spawns a
//! pair of projectiles with a small random spread.

use crate::bullet::{make_bullet, Bullet};
use crate::geom::{mul_div_floor, Vec2i};
use crate::input::InputState;
use crate::physics::{in_range, Position, Velocity, SPEED_LIMIT, TPS_LIMIT, WORLD_LIMIT};
use crate::rng::draw_in_range;
use crate::timing::{Timer, MAX_DELTA};
use vstd::prelude::*;

verus! {

/// Thrust, world units per second per second.
pub const ACCELERATION: i64 = 2500;

/// Speed cap per axis, world units per second.
pub const MAX_VELOCITY: i64 = 400;

/// The speed an idle ship brakes toward.
pub const ZERO_VELOCITY: i64 = 0;

/// Braking rate of an idle ship, world units per second per second.
pub const IDLE_BREAK_SPEED: i64 = 1200;

/// Base speed of a fired projectile, world units per second.
pub const BULLET_SPEED: i64 = 400;

/// Largest sideways spread of a fired projectile, world units per second.
pub const BULLET_SPREAD: i64 = 40;

/// Marker for the player entity.
#[derive(Clone, Copy, PartialEq, Eq, Structural, Debug)]
pub struct Spaceship {
    pub shot_ready: bool,
}

/// Transient firing state: whether the gun may fire this step.
#[derive(Clone, Copy, PartialEq, Eq, Structural, Debug)]
pub struct SpaceshipState {
    pub shot_ready: bool,
}

/// Marker for the thrust exhaust visual.
#[derive(Clone, Copy, PartialEq, Eq, Structural, Debug)]
pub struct Fire;

/// Marker for the boost exhaust visual.
#[derive(Clone, Copy, PartialEq, Eq, Structural, Debug)]
pub struct BoostFire;

/// The repeating cooldown between shots.
#[derive(Clone, Copy, PartialEq, Eq, Structural, Debug)]
pub struct GunTimer(pub Timer);

/// Initial player state: at the origin, at rest, gun ready.
pub fn spawn_spaceship(gun_period_ticks: u64) -> (r: (
    SpaceshipState,
    Position,
    Velocity,
    Spaceship,
    GunTimer,
))
    requires
        1 <= gun_period_ticks <= MAX_DELTA,
    ensures
        r.0 == (SpaceshipState { shot_ready: true }),
        r.1.current == (Vec2i { x: 0, y: 0 }),
        r.1.previous == (Vec2i { x: 0, y: 0 }),
        r.1.carry == (Vec2i { x: 0, y: 0 }),
        r.2 == (Velocity(Vec2i { x: 0, y: 0 })),
        r.3 == (Spaceship { shot_ready: true }),
        r.4 == (GunTimer(Timer { elapsed: 0, duration: gun_period_ticks, repeating: true })),
{
    (
        SpaceshipState { shot_ready: true },
        Position::at(Vec2i { x: 0, y: 0 }),
        Velocity(Vec2i { x: 0, y: 0 }),
        Spaceship { shot_ready: true },
        GunTimer(Timer::new(gun_period_ticks, true)),
    )
}

/// Clamp one axis into `[-lim, lim]`.
pub open spec fn clamp_spec(x: int, lim: int) -> int {
    if x > lim {
        lim
    } else if x < -lim {
        -lim
    } else {
        x
    }
}

/// Brake one axis toward zero by `amt`, never crossing zero.
pub open spec fn brake_spec(x: int, amt: int) -> int {
    if x < 0 {
        if x + amt > 0 {
            0
        } else {
            x + amt
        }
    } else if x > 0 {
        if x - amt < 0 {
            0
        } else {
            x - amt
        }
    } else {
        x
    }
}

/// The velocity guard: cap both axes at `MAX_VELOCITY`, and while the
/// input is idle, brake both axes toward zero by `IDLE_BREAK_SPEED` per
/// second without overshooting it.
pub fn velocity_guard(velocity: &mut Velocity, idle: bool, delta: u64, tps: u64)
    requires
        1 <= tps <= TPS_LIMIT,
        delta <= 1000 * tps,
        in_range(old(velocity).0, SPEED_LIMIT as int),
    ensures
        ({
            let amt = IDLE_BREAK_SPEED * delta / (tps as int);
            let cx = clamp_spec(old(velocity).0.x as int, MAX_VELOCITY as int);
            let cy = clamp_spec(old(velocity).0.y as int, MAX_VELOCITY as int);
            &&& final(velocity).0.x == if idle {
                brake_spec(cx, amt)
            } else {
                cx
            }
            &&& final(velocity).0.y == if idle {
                brake_spec(cy, amt)
            } else {
                cy
            }
        }),
        in_range(final(velocity).0, MAX_VELOCITY as int),
{
    if velocity.0.y > MAX_VELOCITY {
        velocity.0.y = MAX_VELOCITY;
    }
    if velocity.0.y < -MAX_VELOCITY {
        velocity.0.y = -MAX_VELOCITY;
    }
    if velocity.0.x > MAX_VELOCITY {
        velocity.0.x = MAX_VELOCITY;
    }
    if velocity.0.x < -MAX_VELOCITY {
        velocity.0.x = -MAX_VELOCITY;
    }

    if idle {
        let amt = mul_div_floor(IDLE_BREAK_SPEED, delta, tps);
        let mut new_velocity = velocity.0;
        if new_velocity.x < ZERO_VELOCITY {
            new_velocity.x = new_velocity.x + amt;
            if new_velocity.x > ZERO_VELOCITY {
                new_velocity.x = ZERO_VELOCITY;
            }
        } else if new_velocity.x > ZERO_VELOCITY {
            new_velocity.x = new_velocity.x - amt;
            if new_velocity.x < ZERO_VELOCITY {
                new_velocity.x = ZERO_VELOCITY;
            }
        }
        if new_velocity.y < ZERO_VELOCITY {
            new_velocity.y = new_velocity.y + amt;
            if new_velocity.y > ZERO_VELOCITY {
                new_velocity.y = ZERO_VELOCITY;
            }
        } else if new_velocity.y > ZERO_VELOCITY {
            new_velocity.y = new_velocity.y - amt;
            if new_velocity.y < ZERO_VELOCITY {
                new_velocity.y = ZERO_VELOCITY;
            }
        }
        velocity.0 = new_velocity;
    }
}

/// Fire a pair of projectiles if the gun is ready: reset the cooldown,
/// draw a sideways spread for each barrel, and spawn one bullet at each
/// side of the muzzle, inheriting any upward ship speed.  The gun is then
/// not ready until the cooldown next expires.
pub fn handle_fire(
    gun_timer: &mut GunTimer,
    position: &Position,
    velocity: &Velocity,
    state: &mut SpaceshipState,
    bullet_lifetime_ticks: u64,
    next_ent: u64,
) -> (bullets: Vec<Bullet>)
    requires
        in_range(position.current, WORLD_LIMIT as int),
        in_range(velocity.0, 2 * SPEED_LIMIT as int),
        1 <= bullet_lifetime_ticks <= MAX_DELTA,
        next_ent <= u64::MAX - 2,
    ensures
        old(state).shot_ready ==> {
            let muzzle_speed = BULLET_SPEED + if velocity.0.y > 0 {
                velocity.0.y as int
            } else {
                0
            };
            &&& bullets@.len() == 2
            &&& final(gun_timer).0 == (Timer { elapsed: 0, ..old(gun_timer).0 })
            &&& !final(state).shot_ready
            &&& bullets@[0].ent == next_ent
            &&& bullets@[1].ent == next_ent + 1
            &&& bullets@[0].position.current == (Vec2i {
                x: (position.current.x + 10) as i64,
                y: (position.current.y + 8) as i64,
            })
            &&& bullets@[1].position.current == (Vec2i {
                x: (position.current.x - 10) as i64,
                y: (position.current.y + 8) as i64,
            })
            &&& bullets@[0].position.previous == bullets@[0].position.current
            &&& bullets@[1].position.previous == bullets@[1].position.current
            &&& bullets@[0].velocity.0.y == muzzle_speed
            &&& bullets@[1].velocity.0.y == muzzle_speed
            &&& -BULLET_SPREAD <= bullets@[0].velocity.0.x < BULLET_SPREAD
            &&& -BULLET_SPREAD <= bullets@[1].velocity.0.x < BULLET_SPREAD
            &&& bullets@[0].timer.0 == (Timer {
                elapsed: 0,
                duration: bullet_lifetime_ticks,
                repeating: false,
            })
            &&& bullets@[1].timer.0 == bullets@[0].timer.0
        },
        !old(state).shot_ready ==> {
            &&& bullets@.len() == 0
            &&& *final(gun_timer) == *old(gun_timer)
            &&& *final(state) == *old(state)
        },
{
    let mut bullets: Vec<Bullet> = Vec::new();
    if state.shot_ready {
        gun_timer.0.reset();
        let x_right = draw_in_range(-BULLET_SPREAD, BULLET_SPREAD);
        let x_left = draw_in_range(-BULLET_SPREAD, BULLET_SPREAD);
        let vy = velocity.0.y;
        let bullet_velocity = BULLET_SPEED + if vy > 0 {
            vy
        } else {
            0
        };
        let right_muzzle = Vec2i { x: position.current.x + 10, y: position.current.y + 8 };
        let left_muzzle = Vec2i { x: position.current.x - 10, y: position.current.y + 8 };
        bullets.push(
            make_bullet(
                next_ent,
                right_muzzle,
                Vec2i { x: x_right, y: bullet_velocity },
                bullet_lifetime_ticks,
            ),
        );
        bullets.push(
            make_bullet(
                next_ent + 1,
                left_muzzle,
                Vec2i { x: x_left, y: bullet_velocity },
                bullet_lifetime_ticks,
            ),
        );
        state.shot_ready = false;
    }
    bullets
}

/// Per-step ship update.  The exhaust visuals follow the intent flags;
/// thrust accelerates the ship by `ACCELERATION` per second on each held
/// direction; holding fire spawns projectiles through the gun; and when
/// the cooldown expires the gun becomes ready again.
pub fn handle_spaceship_movement(
    position: &Position,
    velocity: &mut Velocity,
    gun_timer: &mut GunTimer,
    state: &mut SpaceshipState,
    input: &InputState,
    delta: u64,
    tps: u64,
    bullet_lifetime_ticks: u64,
    next_ent: u64,
) -> (r: (bool, bool, Vec<Bullet>))
    requires
        1 <= tps <= TPS_LIMIT,
        delta <= 1000 * tps,
        in_range(position.current, WORLD_LIMIT as int),
        in_range(old(velocity).0, SPEED_LIMIT as int),
        old(gun_timer).0.wf(),
        old(gun_timer).0.repeating,
        1 <= bullet_lifetime_ticks <= MAX_DELTA,
        next_ent <= u64::MAX - 2,
    ensures
        r.0 == (input.up && !input.boost),
        r.1 == (input.up && input.boost),
        ({
            let accel = ACCELERATION * delta / (tps as int);
            &&& final(velocity).0.x == old(velocity).0.x + (if input.right {
                accel
            } else {
                0
            }) - (if input.left {
                accel
            } else {
                0
            })
            &&& final(velocity).0.y == old(velocity).0.y + (if input.up {
                accel
            } else {
                0
            }) - (if input.down {
                accel
            } else {
                0
            })
        }),
        r.2@.len() == if input.shooting && old(state).shot_ready {
            2int
        } else {
            0int
        },
        forall|i: int| 0 <= i < r.2@.len() ==> {
            &&& (#[trigger] r.2@[i]).ent == next_ent + i
            &&& r.2@[i].position.previous == r.2@[i].position.current
            &&& r.2@[i].position.current == (Vec2i {
                x: (position.current.x + if i == 0 { 10int } else { -10int }) as i64,
                y: (position.current.y + 8) as i64,
            })
            &&& -BULLET_SPREAD <= r.2@[i].velocity.0.x < BULLET_SPREAD
            &&& r.2@[i].velocity.0.y == BULLET_SPEED + (if final(velocity).0.y > 0 {
                final(velocity).0.y as int
            } else {
                0
            })
            &&& r.2@[i].timer_wf()
        },
        ({
            let ticked = if input.shooting && old(state).shot_ready {
                Timer { elapsed: 0, ..old(gun_timer).0 }
            } else {
                old(gun_timer).0
            };
            let fired = ticked.elapsed + delta >= ticked.duration;
            &&& final(gun_timer).0.elapsed == (ticked.elapsed + delta) % (
            ticked.duration as int)
            &&& final(gun_timer).0.duration == old(gun_timer).0.duration
            &&& final(gun_timer).0.repeating
            &&& final(state).shot_ready == (fired || (old(state).shot_ready && !input.shooting))
        }),
{
    let fire_visible = input.up && !input.boost;
    let boost_fire_visible = input.up && input.boost;

    let accel = mul_div_floor(ACCELERATION, delta, tps);
    if input.up {
        velocity.0.y = velocity.0.y + accel;
    }
    if input.down {
        velocity.0.y = velocity.0.y - accel;
    }
    if input.right {
        velocity.0.x = velocity.0.x + accel;
    }
    if input.left {
        velocity.0.x = velocity.0.x - accel;
    }

    let bullets: Vec<Bullet> = if input.shooting {
        handle_fire(gun_timer, position, velocity, state, bullet_lifetime_ticks, next_ent)
    } else {
        Vec::new()
    };

    let fired = gun_timer.0.tick(delta);
    if fired {
        state.shot_ready = true;
    }
    (fire_visible, boost_fire_visible, bullets)
}

} // verus!
