//! The secondary-effect event emitted when a damageable entity dies, and
//! the frame stepping of the resulting burst animation.

use crate::geom::Vec2i;
use crate::physics::Position;
use crate::timing::{Timer, MAX_DELTA};
use vstd::prelude::*;

verus! {

/// Emitted exactly once when an entity's health crosses zero; carries the
/// entity's last kinematic state so the effect plays at its position.
#[derive(Clone, Copy, PartialEq, Eq, Structural, Debug)]
pub struct ExplosionEvent(pub Position);

/// The repeating timer driving the burst animation's frame rate.
#[derive(Clone, Copy, PartialEq, Eq, Structural, Debug)]
pub struct AnimationTimer(pub Timer);

/// First frame of the burst animation in its sprite sheet.
pub const EXPLOSION_FIRST_FRAME: usize = 2;

/// Last frame of the burst animation in its sprite sheet.
pub const EXPLOSION_LAST_FRAME: usize = 14;

/// Visual scale of a burst, milli-units.
pub const EXPLOSION_SCALE: i64 = 2000;

/// A playing burst animation.
#[derive(Clone, Copy, PartialEq, Eq, Structural, Debug)]
pub struct Explosion {
    /// Where the burst plays: the dead entity's last position.
    pub position: Vec2i,
    /// Current frame of the sprite sheet.
    pub atlas_index: usize,
    /// Visual scale, milli-units.
    pub scale: i64,
    pub timer: AnimationTimer,
}

impl Explosion {
    pub open spec fn wf(self) -> bool {
        &&& self.timer.0.wf()
        &&& self.timer.0.repeating
        &&& EXPLOSION_FIRST_FRAME <= self.atlas_index <= EXPLOSION_LAST_FRAME
    }
}

/// Turn this pass's death events into playing bursts, one per event, each
/// at its entity's last position and starting at the first frame.
pub fn spawn_explosions(events: &Vec<ExplosionEvent>, frame_ticks: u64) -> (r: Vec<Explosion>)
    requires
        1 <= frame_ticks <= MAX_DELTA,
    ensures
        r@.len() == events@.len(),
        forall|i: int| 0 <= i < events@.len() ==> #[trigger] r@[i] == (Explosion {
            position: events@[i].0.current,
            atlas_index: EXPLOSION_FIRST_FRAME,
            scale: EXPLOSION_SCALE,
            timer: AnimationTimer(Timer { elapsed: 0, duration: frame_ticks, repeating: true }),
        }),
{
    let mut r: Vec<Explosion> = Vec::new();
    let n = events.len();
    let mut i: usize = 0;
    while i < n
        invariant
            n == events@.len(),
            0 <= i <= n,
            1 <= frame_ticks <= MAX_DELTA,
            r@.len() == i,
            forall|j: int| 0 <= j < i ==> #[trigger] r@[j] == (Explosion {
                position: events@[j].0.current,
                atlas_index: EXPLOSION_FIRST_FRAME,
                scale: EXPLOSION_SCALE,
                timer: AnimationTimer(
                    Timer { elapsed: 0, duration: frame_ticks, repeating: true },
                ),
            }),
        decreases n - i,
    {
        let ev = events[i];
        r.push(
            Explosion {
                position: ev.0.current,
                atlas_index: EXPLOSION_FIRST_FRAME,
                scale: EXPLOSION_SCALE,
                timer: AnimationTimer(Timer::new(frame_ticks, true)),
            },
        );
        i += 1;
    }
    r
}

/// One burst after `delta` ticks: on each frame-timer expiry it shows the
/// next frame, and past the last frame it is finished.  The result is the
/// advanced burst, or nothing when it finished.
pub open spec fn step_explosion(e: Explosion, delta: int) -> Option<Explosion> {
    let fired = e.timer.0.elapsed + delta >= e.timer.0.duration;
    let ticked = AnimationTimer(
        Timer {
            elapsed: ((e.timer.0.elapsed + delta) % (e.timer.0.duration as int)) as u64,
            ..e.timer.0
        },
    );
    if fired {
        if e.atlas_index < EXPLOSION_LAST_FRAME {
            Option::Some(Explosion { atlas_index: (e.atlas_index + 1) as usize, timer: ticked, ..e })
        } else {
            Option::None
        }
    } else {
        Option::Some(Explosion { timer: ticked, ..e })
    }
}

/// The bursts still playing after `delta` ticks, in order, advanced.
pub open spec fn stepped_explosions(es: Seq<Explosion>, delta: int) -> Seq<Explosion>
    decreases es.len(),
{
    if es.len() == 0 {
        Seq::empty()
    } else {
        match step_explosion(es[0], delta) {
            Option::Some(e) => seq![e] + stepped_explosions(es.drop_first(), delta),
            Option::None => stepped_explosions(es.drop_first(), delta),
        }
    }
}

/// Advance every playing burst by `delta` ticks, dropping the ones that
/// played their last frame.
pub fn handle_explosions(explosions: &mut Vec<Explosion>, delta: u64)
    requires
        delta <= MAX_DELTA,
        forall|i: int| 0 <= i < old(explosions)@.len() ==> (#[trigger] old(explosions)@[i]).wf(),
    ensures
        final(explosions)@ == stepped_explosions(old(explosions)@, delta as int),
        forall|i: int| 0 <= i < final(explosions)@.len() ==> (#[trigger] final(explosions)@[i]).wf(),
{
    let ghost orig = explosions@;
    let mut kept: Vec<Explosion> = Vec::new();
    let n = explosions.len();
    let mut i: usize = 0;
    proof {
        assert(orig.skip(0) =~= orig);
        assert(kept@ + stepped_explosions(orig, delta as int) =~= stepped_explosions(
            orig,
            delta as int,
        ));
    }
    while i < n
        invariant
            n == orig.len(),
            explosions@ == orig,
            0 <= i <= n,
            delta <= MAX_DELTA,
            forall|j: int| 0 <= j < orig.len() ==> (#[trigger] orig[j]).wf(),
            forall|j: int| 0 <= j < kept@.len() ==> (#[trigger] kept@[j]).wf(),
            stepped_explosions(orig, delta as int) == kept@ + stepped_explosions(
                orig.skip(i as int),
                delta as int,
            ),
        decreases n - i,
    {
        proof {
            assert(orig.skip(i as int).drop_first() =~= orig.skip(i as int + 1));
            assert(orig.skip(i as int)[0] == orig[i as int]);
        }
        let ghost kept_before = kept@;
        let mut e = explosions[i];
        let fired = e.timer.0.tick(delta);
        let mut done: bool = false;
        if fired {
            if e.atlas_index < EXPLOSION_LAST_FRAME {
                e.atlas_index = e.atlas_index + 1;
            } else {
                done = true;
            }
        }
        if !done {
            kept.push(e);
        }
        proof {
            let rest = stepped_explosions(orig.skip(i as int + 1), delta as int);
            if !done {
                assert(step_explosion(orig[i as int], delta as int) == Option::Some(e));
                assert(kept@ =~= kept_before + seq![e]);
                assert((kept_before + seq![e]) + rest =~= kept_before + (seq![e] + rest));
            } else {
                assert(step_explosion(orig[i as int], delta as int) is None);
            }
        }
        i += 1;
    }
    proof {
        assert(orig.skip(n as int) =~= Seq::<Explosion>::empty());
        assert(kept@ + stepped_explosions(orig.skip(n as int), delta as int) =~= kept@);
    }
    *explosions = kept;
}

} // verus!
