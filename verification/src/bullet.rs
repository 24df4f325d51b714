//! Projectiles: their per-entity state and the lifetime pass that retires
//! a bullet when its one-shot timer runs out.

use crate::geom::Vec2i;
use crate::physics::{Position, Velocity};
use crate::timing::{Timer, MAX_DELTA};
use vstd::prelude::*;

verus! {

/// A bullet's one-shot lifetime timer.
#[derive(Clone, Copy, PartialEq, Eq, Structural, Debug)]
pub struct BulletTimer(pub Timer);

/// A live projectile.
#[derive(Clone, Copy, PartialEq, Eq, Structural, Debug)]
pub struct Bullet {
    /// Entity reference, unique among live entities; despawn requests and
    /// damage events carry it.
    pub ent: u64,
    pub position: Position,
    pub velocity: Velocity,
    pub timer: BulletTimer,
}

impl Bullet {
    /// The lifetime timer is a well-formed one-shot timer.
    pub open spec fn timer_wf(self) -> bool {
        &&& self.timer.0.wf()
        &&& !self.timer.0.repeating
    }
}

/// Whether the bullet's lifetime runs out within the next `delta` ticks.
pub open spec fn bullet_expires(b: Bullet, delta: int) -> bool {
    b.timer.0.elapsed < b.timer.0.duration && b.timer.0.elapsed + delta >= b.timer.0.duration
}

/// The bullet with its lifetime timer advanced by `delta` ticks.
pub open spec fn tick_bullet_spec(b: Bullet, delta: int) -> Bullet {
    Bullet {
        timer: BulletTimer(
            Timer {
                elapsed: if b.timer.0.elapsed + delta >= b.timer.0.duration {
                    b.timer.0.duration
                } else {
                    (b.timer.0.elapsed + delta) as u64
                },
                ..b.timer.0
            },
        ),
        ..b
    }
}

/// The bullets still alive after `delta` ticks, in their original order,
/// timers advanced.
pub open spec fn surviving_bullets(bs: Seq<Bullet>, delta: int) -> Seq<Bullet>
    decreases bs.len(),
{
    if bs.len() == 0 {
        Seq::empty()
    } else if bullet_expires(bs[0], delta) {
        surviving_bullets(bs.drop_first(), delta)
    } else {
        seq![tick_bullet_spec(bs[0], delta)] + surviving_bullets(bs.drop_first(), delta)
    }
}

/// Advance every bullet's lifetime by `delta` ticks and drop the ones whose
/// timer just ran out.
pub fn handle_bullets(bullets: &mut Vec<Bullet>, delta: u64)
    requires
        delta <= MAX_DELTA,
        forall|i: int| 0 <= i < old(bullets)@.len() ==> (#[trigger] old(bullets)@[i]).timer_wf(),
    ensures
        final(bullets)@ == surviving_bullets(old(bullets)@, delta as int),
{
    let ghost orig = bullets@;
    let mut kept: Vec<Bullet> = Vec::new();
    let n = bullets.len();
    let mut i: usize = 0;
    proof {
        assert(orig.skip(0) =~= orig);
        assert(kept@ + surviving_bullets(orig, delta as int) =~= surviving_bullets(
            orig,
            delta as int,
        ));
    }
    while i < n
        invariant
            n == orig.len(),
            bullets@ == orig,
            0 <= i <= n,
            forall|j: int| 0 <= j < orig.len() ==> (#[trigger] orig[j]).timer_wf(),
            delta <= MAX_DELTA,
            surviving_bullets(orig, delta as int) == kept@ + surviving_bullets(
                orig.skip(i as int),
                delta as int,
            ),
        decreases n - i,
    {
        proof {
            assert(orig.skip(i as int).drop_first() =~= orig.skip(i as int + 1));
            assert(orig.skip(i as int)[0] == orig[i as int]);
        }
        let ghost kept_before = kept@;
        let mut b = bullets[i];
        let fired = b.timer.0.tick(delta);
        if !fired {
            kept.push(b);
        }
        proof {
            let rest = surviving_bullets(orig.skip(i as int + 1), delta as int);
            if bullet_expires(orig[i as int], delta as int) {
                assert(fired);
            } else {
                assert(b == tick_bullet_spec(orig[i as int], delta as int));
                assert(kept@ =~= kept_before + seq![b]);
                assert((kept_before + seq![b]) + rest =~= kept_before + (seq![b] + rest));
            }
        }
        i += 1;
    }
    proof {
        assert(orig.skip(n as int) =~= Seq::<Bullet>::empty());
        assert(kept@ + surviving_bullets(orig.skip(n as int), delta as int) =~= kept@);
    }
    *bullets = kept;
}

/// Build a bullet at spawn: both position buffers hold the muzzle point and
/// the lifetime timer starts fresh.
pub fn make_bullet(ent: u64, at: Vec2i, velocity: Vec2i, lifetime_ticks: u64) -> (b: Bullet)
    requires
        1 <= lifetime_ticks <= MAX_DELTA,
    ensures
        b.ent == ent,
        b.position.current == at,
        b.position.previous == at,
        b.position.carry.x == 0,
        b.position.carry.y == 0,
        b.velocity.0 == velocity,
        b.timer == (BulletTimer(
            Timer { elapsed: 0, duration: lifetime_ticks, repeating: false },
        )),
        b.timer_wf(),
{
    Bullet {
        ent,
        position: Position::at(at),
        velocity: Velocity(velocity),
        timer: BulletTimer(Timer::new(lifetime_ticks, false)),
    }
}

} // verus!
