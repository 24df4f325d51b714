//! Kinematic state and the fixed-step integrator with decoupled render
//! interpolation, plus the per-step projectile/enemy collision pass.
//!
//! Positions carry a per-axis sub-unit residue (`carry`) with denominator
//! `ticks_per_second`, so advancing a constant velocity over whole seconds
//! is exact: after `k` steps, `tps * moved + carry == k * v * step_ticks`.

use crate::bullet::Bullet;
use crate::enemy::{Collider, Damage, Enemy};
use crate::geom::{floor_div, floor_mod, Vec2i};
use vstd::arithmetic::div_mod::lemma_basic_div;
use vstd::arithmetic::div_mod::lemma_div_is_ordered;
use vstd::arithmetic::div_mod::lemma_div_multiples_vanish;
use vstd::arithmetic::div_mod::lemma_div_multiples_vanish_fancy;
use vstd::arithmetic::div_mod::lemma_div_pos_is_pos;
use vstd::arithmetic::div_mod::lemma_fundamental_div_mod;
use vstd::arithmetic::div_mod::lemma_fundamental_div_mod_converse;
use vstd::arithmetic::div_mod::lemma_mod_bound;
use vstd::pervasive::VecAdditionalExecFns;
use vstd::prelude::*;

verus! {

/// Coordinates handed to the simulation stay within this bound.
pub const WORLD_LIMIT: i64 = 1_000_000_000_000_000;

/// Hard per-step coordinate bound: a catch-up pass of at most `STEPS_LIMIT`
/// steps starting inside `WORLD_LIMIT` stays inside this.
pub const POS_LIMIT: i64 = 2_000_000_000_000_000;

/// Velocity components stay within this bound, in world units per second.
pub const SPEED_LIMIT: i64 = 1_000_000_000;

/// Largest tick rate, in ticks per second.
pub const TPS_LIMIT: u64 = 1_000_000_000;

/// Most simulation steps one catch-up pass may run.
pub const STEPS_LIMIT: u64 = 1_000_000;

/// Largest collider radius.
pub const RADIUS_LIMIT: i64 = 1_000_000_000;

/// Damage dealt by one projectile hit.
pub const HIT_DAMAGE: i64 = 100;

/// World units per second, per axis.
#[derive(Clone, Copy, PartialEq, Eq, Structural, Debug)]
pub struct Velocity(pub Vec2i);

/// The double-buffered kinematic state of one entity.  `previous` always
/// holds `current` as of the prior simulation step; only the integrator
/// writes either.  `carry` is the sub-unit residue of the fixed-point
/// integration, with denominator `ticks_per_second`.
#[derive(Clone, Copy, PartialEq, Eq, Structural, Debug)]
pub struct Position {
    pub current: Vec2i,
    pub previous: Vec2i,
    pub carry: Vec2i,
}

/// Both components of `v` lie in `[-lim, lim]`.
pub open spec fn in_range(v: Vec2i, lim: int) -> bool {
    &&& -lim <= v.x <= lim
    &&& -lim <= v.y <= lim
}

impl Position {
    /// The carries are valid residues for tick rate `tps`.
    pub open spec fn carry_wf(self, tps: int) -> bool {
        &&& 0 <= self.carry.x < tps
        &&& 0 <= self.carry.y < tps
    }

    /// State at spawn: both buffers hold the spawn point.
    pub fn at(p: Vec2i) -> (r: Position)
        ensures
            r.current == p,
            r.previous == p,
            r.carry.x == 0,
            r.carry.y == 0,
    {
        Position { current: p, previous: p, carry: Vec2i { x: 0, y: 0 } }
    }
}

/// One axis of one integration step: position advances by the whole-unit
/// part of `v * step + carry` over `tps`, the rest stays as the carry.
pub open spec fn axis_pos(c: int, carry: int, v: int, step: int, tps: int) -> int {
    c + (v * step + carry) / tps
}

/// The residue left on one axis after one integration step.
pub open spec fn axis_carry(carry: int, v: int, step: int, tps: int) -> int {
    (v * step + carry) % tps
}

/// The state after one integration step of `step` ticks at `tps` ticks per
/// second.
pub open spec fn step_position_spec(p: Position, v: Velocity, step: int, tps: int) -> Position {
    Position {
        previous: p.current,
        current: Vec2i {
            x: axis_pos(p.current.x as int, p.carry.x as int, v.0.x as int, step, tps) as i64,
            y: axis_pos(p.current.y as int, p.carry.y as int, v.0.y as int, step, tps) as i64,
        },
        carry: Vec2i {
            x: axis_carry(p.carry.x as int, v.0.x as int, step, tps) as i64,
            y: axis_carry(p.carry.y as int, v.0.y as int, step, tps) as i64,
        },
    }
}

/// One step moves an axis by at most `|v|`, in the direction of `v`.
pub proof fn lemma_axis_quotient_bounds(v: int, step: int, carry: int, tps: int)
    requires
        1 <= step <= tps,
        0 <= carry < tps,
    ensures
        v >= 0 ==> 0 <= (v * step + carry) / tps <= v,
        v < 0 ==> v <= (v * step + carry) / tps <= 0,
        0 <= (v * step + carry) % tps < tps,
{
    let t = v * step + carry;
    if v >= 0 {
        assert(0 <= t && t <= tps * v + (tps - 1)) by (nonlinear_arith)
            requires
                v >= 0,
                1 <= step <= tps,
                0 <= carry < tps,
                t == v * step + carry,
        ;
        lemma_div_pos_is_pos(t, tps);
        lemma_div_is_ordered(t, tps * v + (tps - 1), tps);
        lemma_div_multiples_vanish_fancy(v, tps - 1, tps);
    } else {
        assert(tps * v <= t && t <= tps - 1) by (nonlinear_arith)
            requires
                v < 0,
                1 <= step <= tps,
                0 <= carry < tps,
                t == v * step + carry,
        ;
        lemma_div_is_ordered(tps * v, t, tps);
        lemma_div_multiples_vanish(v, tps);
        if t >= 0 {
            lemma_basic_div(t, tps);
        } else {
            lemma_div_is_ordered(t, 0, tps);
            vstd::arithmetic::div_mod::lemma_div_of0(tps);
        }
    }
    lemma_mod_bound(t, tps);
}

/// Advance one entity by one simulation step: copy `current` into
/// `previous`, then move `current` by `velocity * step_duration`, keeping
/// the sub-unit residue in the carry.
pub fn step_position(p: &mut Position, v: Velocity, step_ticks: u64, tps: u64)
    requires
        1 <= step_ticks <= tps <= TPS_LIMIT,
        old(p).carry_wf(tps as int),
        in_range(old(p).current, POS_LIMIT as int),
        in_range(v.0, SPEED_LIMIT as int),
    ensures
        *final(p) == step_position_spec(*old(p), v, step_ticks as int, tps as int),
        final(p).carry_wf(tps as int),
        final(p).previous == old(p).current,
        -SPEED_LIMIT <= final(p).current.x - old(p).current.x <= SPEED_LIMIT,
        -SPEED_LIMIT <= final(p).current.y - old(p).current.y <= SPEED_LIMIT,
{
    proof {
        lemma_axis_quotient_bounds(
            v.0.x as int,
            step_ticks as int,
            old(p).carry.x as int,
            tps as int,
        );
        lemma_axis_quotient_bounds(
            v.0.y as int,
            step_ticks as int,
            old(p).carry.y as int,
            tps as int,
        );
        assert(-1_000_000_000_000_000_000 <= v.0.x * (step_ticks as int)
            <= 1_000_000_000_000_000_000) by (nonlinear_arith)
            requires
                -SPEED_LIMIT <= v.0.x <= SPEED_LIMIT,
                0 <= step_ticks <= TPS_LIMIT,
        ;
        assert(-1_000_000_000_000_000_000 <= v.0.y * (step_ticks as int)
            <= 1_000_000_000_000_000_000) by (nonlinear_arith)
            requires
                -SPEED_LIMIT <= v.0.y <= SPEED_LIMIT,
                0 <= step_ticks <= TPS_LIMIT,
        ;
    }
    let s = step_ticks as i64;
    let t = tps as i64;
    let tx: i64 = v.0.x * s + p.carry.x;
    let ty: i64 = v.0.y * s + p.carry.y;
    let qx = floor_div(tx, t);
    let qy = floor_div(ty, t);
    let rx = floor_mod(tx, t);
    let ry = floor_mod(ty, t);
    p.previous = p.current;
    p.current = Vec2i { x: p.current.x + qx, y: p.current.y + qy };
    p.carry = Vec2i { x: rx, y: ry };
}

/// Advance every entity with a position and a velocity by one simulation
/// step.  The step order among entities does not matter: each entity's new
/// state depends on its own old state alone.
pub fn update_positions(
    positions: &mut Vec<Position>,
    velocities: &Vec<Velocity>,
    step_ticks: u64,
    tps: u64,
)
    requires
        old(positions)@.len() == velocities@.len(),
        1 <= step_ticks <= tps <= TPS_LIMIT,
        forall|i: int| 0 <= i < old(positions)@.len() ==> {
            &&& (#[trigger] old(positions)@[i]).carry_wf(tps as int)
            &&& in_range(old(positions)@[i].current, POS_LIMIT as int)
            &&& in_range(velocities@[i].0, SPEED_LIMIT as int)
        },
    ensures
        final(positions)@.len() == old(positions)@.len(),
        forall|i: int| 0 <= i < old(positions)@.len() ==> #[trigger] final(positions)@[i]
            == step_position_spec(
            old(positions)@[i],
            velocities@[i],
            step_ticks as int,
            tps as int,
        ),
{
    let ghost orig = positions@;
    let n = positions.len();
    let mut i: usize = 0;
    while i < n
        invariant
            n == orig.len(),
            velocities@.len() == orig.len(),
            positions@.len() == orig.len(),
            0 <= i <= n,
            1 <= step_ticks <= tps <= TPS_LIMIT,
            forall|j: int| 0 <= j < orig.len() ==> {
                &&& (#[trigger] orig[j]).carry_wf(tps as int)
                &&& in_range(orig[j].current, POS_LIMIT as int)
                &&& in_range(velocities@[j].0, SPEED_LIMIT as int)
            },
            forall|j: int| i <= j < orig.len() ==> #[trigger] positions@[j] == orig[j],
            forall|j: int| 0 <= j < i ==> #[trigger] positions@[j] == step_position_spec(
                orig[j],
                velocities@[j],
                step_ticks as int,
                tps as int,
            ),
        decreases n - i,
    {
        let mut p = positions[i];
        step_position(&mut p, velocities[i], step_ticks, tps);
        positions.set(i, p);
        i += 1;
    }
}

/// The state after `n` whole simulation steps.
pub open spec fn iter_steps(p: Position, v: Velocity, n: nat, step: int, tps: int) -> Position
    decreases n,
{
    if n == 0 {
        p
    } else {
        step_position_spec(iter_steps(p, v, (n - 1) as nat, step, tps), v, step, tps)
    }
}

/// Iterated steps keep the carries valid and move each axis by at most
/// `SPEED_LIMIT` per step.
pub proof fn lemma_iter_steps_props(p: Position, v: Velocity, n: nat, step: int, tps: int)
    requires
        1 <= step <= tps <= TPS_LIMIT,
        p.carry_wf(tps),
        in_range(p.current, WORLD_LIMIT as int),
        in_range(v.0, SPEED_LIMIT as int),
        n <= STEPS_LIMIT,
    ensures
        iter_steps(p, v, n, step, tps).carry_wf(tps),
        in_range(iter_steps(p, v, n, step, tps).current, WORLD_LIMIT + n * SPEED_LIMIT),
    decreases n,
{
    if n > 0 {
        lemma_iter_steps_props(p, v, (n - 1) as nat, step, tps);
        let prev = iter_steps(p, v, (n - 1) as nat, step, tps);
        lemma_axis_quotient_bounds(v.0.x as int, step, prev.carry.x as int, tps);
        lemma_axis_quotient_bounds(v.0.y as int, step, prev.carry.y as int, tps);
        assert(WORLD_LIMIT + n * SPEED_LIMIT <= POS_LIMIT + SPEED_LIMIT) by (nonlinear_arith)
            requires
                n <= STEPS_LIMIT,
        ;
        assert(WORLD_LIMIT + (n - 1) * SPEED_LIMIT + SPEED_LIMIT == WORLD_LIMIT + n
            * SPEED_LIMIT) by (nonlinear_arith);
    }
}

/// Run `n_steps` whole simulation steps over every entity, as the
/// accumulator demands after a slow frame.
pub fn run_steps(
    positions: &mut Vec<Position>,
    velocities: &Vec<Velocity>,
    n_steps: u64,
    step_ticks: u64,
    tps: u64,
)
    requires
        old(positions)@.len() == velocities@.len(),
        n_steps <= STEPS_LIMIT,
        1 <= step_ticks <= tps <= TPS_LIMIT,
        forall|i: int| 0 <= i < old(positions)@.len() ==> {
            &&& (#[trigger] old(positions)@[i]).carry_wf(tps as int)
            &&& in_range(old(positions)@[i].current, WORLD_LIMIT as int)
            &&& in_range(velocities@[i].0, SPEED_LIMIT as int)
        },
    ensures
        final(positions)@.len() == old(positions)@.len(),
        forall|i: int| 0 <= i < old(positions)@.len() ==> #[trigger] final(positions)@[i]
            == iter_steps(
            old(positions)@[i],
            velocities@[i],
            n_steps as nat,
            step_ticks as int,
            tps as int,
        ),
{
    let ghost orig = positions@;
    let mut k: u64 = 0;
    while k < n_steps
        invariant
            orig.len() == velocities@.len(),
            positions@.len() == orig.len(),
            0 <= k <= n_steps,
            n_steps <= STEPS_LIMIT,
            1 <= step_ticks <= tps <= TPS_LIMIT,
            forall|i: int| 0 <= i < orig.len() ==> {
                &&& (#[trigger] orig[i]).carry_wf(tps as int)
                &&& in_range(orig[i].current, WORLD_LIMIT as int)
                &&& in_range(velocities@[i].0, SPEED_LIMIT as int)
            },
            forall|i: int| 0 <= i < orig.len() ==> #[trigger] positions@[i] == iter_steps(
                orig[i],
                velocities@[i],
                k as nat,
                step_ticks as int,
                tps as int,
            ),
        decreases n_steps - k,
    {
        proof {
            assert forall|i: int| 0 <= i < orig.len() implies {
                &&& (#[trigger] positions@[i]).carry_wf(tps as int)
                &&& in_range(positions@[i].current, POS_LIMIT as int)
            } by {
                lemma_iter_steps_props(
                    orig[i],
                    velocities@[i],
                    k as nat,
                    step_ticks as int,
                    tps as int,
                );
                assert(WORLD_LIMIT + k * SPEED_LIMIT <= POS_LIMIT) by (nonlinear_arith)
                    requires
                        0 <= k <= STEPS_LIMIT,
                ;
            }
        }
        update_positions(positions, velocities, step_ticks, tps);
        k += 1;
    }
}

/// Step grouping is unobservable: running `n1` whole steps and then `n2`
/// more leaves every entity exactly where running `n1 + n2` at once does.
/// However the frames group the catch-up steps, the resulting kinematic
/// state is the same.
pub proof fn lemma_iter_steps_compose(
    p: Position,
    v: Velocity,
    n1: nat,
    n2: nat,
    step: int,
    tps: int,
)
    ensures
        iter_steps(iter_steps(p, v, n1, step, tps), v, n2, step, tps) == iter_steps(
            p,
            v,
            n1 + n2,
            step,
            tps,
        ),
    decreases n2,
{
    if n2 > 0 {
        lemma_iter_steps_compose(p, v, n1, (n2 - 1) as nat, step, tps);
    }
}

/// Drift-free integration: over `n` steps at constant velocity, the exact
/// relation `tps * moved + carry == carry0 + n * v * step` holds on each
/// axis — integrating at `v` units per second for a whole second moves the
/// entity by exactly `v` units, however the second is cut into steps.
pub proof fn lemma_constant_velocity_progress(p: Position, v: Velocity, n: nat, step: int, tps: int)
    requires
        1 <= step <= tps <= TPS_LIMIT,
        p.carry_wf(tps),
        in_range(p.current, WORLD_LIMIT as int),
        in_range(v.0, SPEED_LIMIT as int),
        n <= STEPS_LIMIT,
    ensures
        tps * (iter_steps(p, v, n, step, tps).current.x - p.current.x) + iter_steps(
            p,
            v,
            n,
            step,
            tps,
        ).carry.x == p.carry.x + n * (v.0.x * step),
        tps * (iter_steps(p, v, n, step, tps).current.y - p.current.y) + iter_steps(
            p,
            v,
            n,
            step,
            tps,
        ).carry.y == p.carry.y + n * (v.0.y * step),
    decreases n,
{
    if n == 0 {
        assert(iter_steps(p, v, n, step, tps) == p);
        assert(n * (v.0.x * step) == 0) by (nonlinear_arith)
            requires
                n == 0,
        ;
        assert(n * (v.0.y * step) == 0) by (nonlinear_arith)
            requires
                n == 0,
        ;
        assert(tps * (p.current.x - p.current.x) == 0) by (nonlinear_arith);
        assert(tps * (p.current.y - p.current.y) == 0) by (nonlinear_arith);
    } else {
        lemma_constant_velocity_progress(p, v, (n - 1) as nat, step, tps);
        lemma_iter_steps_props(p, v, (n - 1) as nat, step, tps);
        let prev = iter_steps(p, v, (n - 1) as nat, step, tps);
        let cur = iter_steps(p, v, n, step, tps);
        lemma_axis_quotient_bounds(v.0.x as int, step, prev.carry.x as int, tps);
        lemma_axis_quotient_bounds(v.0.y as int, step, prev.carry.y as int, tps);
        assert(WORLD_LIMIT + (n - 1) * SPEED_LIMIT + SPEED_LIMIT <= POS_LIMIT
            + SPEED_LIMIT) by (nonlinear_arith)
            requires
                n <= STEPS_LIMIT,
        ;
        let tx = v.0.x * step + prev.carry.x;
        let ty = v.0.y * step + prev.carry.y;
        lemma_fundamental_div_mod(tx, tps);
        lemma_fundamental_div_mod(ty, tps);
        assert(cur.current.x == prev.current.x + tx / tps);
        assert(cur.carry.x == tx % tps);
        assert(tps * (cur.current.x - p.current.x) + cur.carry.x == tps * (prev.current.x
            - p.current.x) + (tps * (tx / tps) + tx % tps)) by (nonlinear_arith)
            requires
                cur.current.x == prev.current.x + tx / tps,
                cur.carry.x == tx % tps,
        ;
        assert(cur.current.y == prev.current.y + ty / tps);
        assert(cur.carry.y == ty % tps);
        assert(tps * (cur.current.y - p.current.y) + cur.carry.y == tps * (prev.current.y
            - p.current.y) + (tps * (ty / tps) + ty % tps)) by (nonlinear_arith)
            requires
                cur.current.y == prev.current.y + ty / tps,
                cur.carry.y == ty % tps,
        ;
        assert(n * (v.0.x * step) == (n - 1) * (v.0.x * step) + v.0.x * step) by (nonlinear_arith);
        assert(n * (v.0.y * step) == (n - 1) * (v.0.y * step) + v.0.y * step) by (nonlinear_arith);
        assert(tps * (prev.current.x - p.current.x) + prev.carry.x == p.carry.x + ((n - 1) as nat)
            * (v.0.x * step));
        assert(tx == tps * (tx / tps) + tx % tps);
        assert(tps * (cur.current.x - p.current.x) + cur.carry.x == p.carry.x + n * (v.0.x * step));
        assert(tps * (prev.current.y - p.current.y) + prev.carry.y == p.carry.y + ((n - 1) as nat)
            * (v.0.y * step));
        assert(ty == tps * (ty / tps) + ty % tps);
        assert(tps * (cur.current.y - p.current.y) + cur.carry.y == p.carry.y + n * (v.0.y * step));
    }
}

/// The blend of one axis at overstep `acc / step`: the floor of
/// `prev + (cur - prev) * acc / step`.
pub open spec fn lerp(prevv: int, curv: int, acc: int, step: int) -> int {
    prevv + (curv - prevv) * acc / step
}

/// One axis of the render blend.
fn lerp_axis(prevv: i64, curv: i64, acc: u64, step: u64) -> (r: i64)
    requires
        1 <= step,
        acc < step,
        -POS_LIMIT <= prevv <= POS_LIMIT,
        -POS_LIMIT <= curv <= POS_LIMIT,
    ensures
        r == lerp(prevv as int, curv as int, acc as int, step as int),
{
    let d: i64 = curv - prevv;
    prevv + crate::geom::mul_div_floor(d, acc, step)
}

/// The visual transform of one entity at the given overstep: `previous`
/// blended toward `current` by `acc / step`.  Never mutates the position.
pub fn interpolate_position(p: &Position, acc: u64, step_ticks: u64) -> (t: Vec2i)
    requires
        1 <= step_ticks,
        acc < step_ticks,
        in_range(p.current, POS_LIMIT as int),
        in_range(p.previous, POS_LIMIT as int),
    ensures
        t.x == lerp(p.previous.x as int, p.current.x as int, acc as int, step_ticks as int),
        t.y == lerp(p.previous.y as int, p.current.y as int, acc as int, step_ticks as int),
{
    Vec2i {
        x: lerp_axis(p.previous.x, p.current.x, acc, step_ticks),
        y: lerp_axis(p.previous.y, p.current.y, acc, step_ticks),
    }
}

/// Render interpolation over all entities: each visual transform is the
/// blend of that entity's previous and current position at the clock's
/// overstep.  Positions themselves are read, never written.
pub fn interpolate(positions: &Vec<Position>, acc: u64, step_ticks: u64) -> (ts: Vec<Vec2i>)
    requires
        1 <= step_ticks,
        acc < step_ticks,
        forall|i: int| 0 <= i < positions@.len() ==> {
            &&& in_range((#[trigger] positions@[i]).current, POS_LIMIT as int)
            &&& in_range(positions@[i].previous, POS_LIMIT as int)
        },
    ensures
        ts@.len() == positions@.len(),
        forall|i: int| 0 <= i < positions@.len() ==> {
            &&& (#[trigger] ts@[i]).x == lerp(
                positions@[i].previous.x as int,
                positions@[i].current.x as int,
                acc as int,
                step_ticks as int,
            )
            &&& ts@[i].y == lerp(
                positions@[i].previous.y as int,
                positions@[i].current.y as int,
                acc as int,
                step_ticks as int,
            )
        },
{
    let mut ts: Vec<Vec2i> = Vec::new();
    let n = positions.len();
    let mut i: usize = 0;
    while i < n
        invariant
            n == positions@.len(),
            0 <= i <= n,
            ts@.len() == i,
            1 <= step_ticks,
            acc < step_ticks,
            forall|j: int| 0 <= j < positions@.len() ==> {
                &&& in_range((#[trigger] positions@[j]).current, POS_LIMIT as int)
                &&& in_range(positions@[j].previous, POS_LIMIT as int)
            },
            forall|j: int| 0 <= j < i ==> {
                &&& (#[trigger] ts@[j]).x == lerp(
                    positions@[j].previous.x as int,
                    positions@[j].current.x as int,
                    acc as int,
                    step_ticks as int,
                )
                &&& ts@[j].y == lerp(
                    positions@[j].previous.y as int,
                    positions@[j].current.y as int,
                    acc as int,
                    step_ticks as int,
                )
            },
        decreases n - i,
    {
        let t = interpolate_position(&positions[i], acc, step_ticks);
        ts.push(t);
        i += 1;
    }
    ts
}

/// The interpolated transform starts at `previous`, reaches `current` at a
/// full step of overstep, and always lies between the two.
pub proof fn lemma_interpolation_bounds(prevv: int, curv: int, acc: int, step: int)
    requires
        1 <= step,
        0 <= acc <= step,
    ensures
        acc == 0 ==> lerp(prevv, curv, acc, step) == prevv,
        acc == step ==> lerp(prevv, curv, acc, step) == curv,
        prevv <= curv ==> prevv <= lerp(prevv, curv, acc, step) <= curv,
        curv <= prevv ==> curv <= lerp(prevv, curv, acc, step) <= prevv,
{
    let d = curv - prevv;
    if acc == 0 {
        assert(d * 0 == 0) by (nonlinear_arith);
        vstd::arithmetic::div_mod::lemma_div_of0(step);
    }
    if acc == step {
        assert(d * step == step * d) by (nonlinear_arith);
        lemma_div_multiples_vanish(d, step);
    }
    if d >= 0 {
        assert(0 <= d * acc && d * acc <= step * d) by (nonlinear_arith)
            requires
                0 <= d,
                0 <= acc <= step,
        ;
        lemma_div_pos_is_pos(d * acc, step);
        lemma_div_is_ordered(d * acc, step * d, step);
        lemma_div_multiples_vanish(d, step);
    } else {
        assert(step * d <= d * acc && d * acc <= 0) by (nonlinear_arith)
            requires
                d < 0,
                0 <= acc <= step,
        ;
        lemma_div_is_ordered(step * d, d * acc, step);
        lemma_div_multiples_vanish(d, step);
        lemma_div_is_ordered(d * acc, 0, step);
        vstd::arithmetic::div_mod::lemma_div_of0(step);
    }
}

/// A projectile point at `bp` is in contact with a circular collider of
/// the given radius centred at `ep`: squared distance at most squared
/// radius, the boundary counting as a hit.
pub open spec fn hits(bp: Vec2i, ep: Vec2i, radius: int) -> bool {
    (bp.x - ep.x) * (bp.x - ep.x) + (bp.y - ep.y) * (bp.y - ep.y) <= radius * radius
}

/// Squared-distance proximity test, exact over wide intermediates.
pub fn hit_test(bp: Vec2i, ep: Vec2i, radius: i64) -> (h: bool)
    requires
        in_range(bp, POS_LIMIT as int),
        in_range(ep, POS_LIMIT as int),
        0 <= radius <= RADIUS_LIMIT,
    ensures
        h == hits(bp, ep, radius as int),
{
    let dx: i64 = bp.x - ep.x;
    let dy: i64 = bp.y - ep.y;
    proof {
        assert((dx as int) * (dx as int) + (dy as int) * (dy as int)
            < 0x1000_0000_0000_0000_0000_0000_0000_0000 && 0 <= (dx as int) * (dx as int)
            && 0 <= (dy as int) * (dy as int)) by (nonlinear_arith)
            requires
                -4 * POS_LIMIT <= dx <= 4 * POS_LIMIT,
                -4 * POS_LIMIT <= dy <= 4 * POS_LIMIT,
        ;
        assert(0 <= (radius as int) * (radius as int)
            < 0x1000_0000_0000_0000_0000_0000_0000_0000) by (nonlinear_arith)
            requires
                0 <= radius <= RADIUS_LIMIT,
        ;
    }
    let d2: i128 = (dx as i128) * (dx as i128) + (dy as i128) * (dy as i128);
    let r2: i128 = (radius as i128) * (radius as i128);
    d2 <= r2
}

/// Contact is symmetric: the two entities are within range of each other
/// regardless of which one carries the collider.
pub proof fn lemma_hit_symmetric(a: Vec2i, b: Vec2i, radius: int)
    ensures
        hits(a, b, radius) == hits(b, a, radius),
{
    assert((a.x - b.x) * (a.x - b.x) == (b.x - a.x) * (b.x - a.x)) by (nonlinear_arith);
    assert((a.y - b.y) * (a.y - b.y) == (b.y - a.y) * (b.y - a.y)) by (nonlinear_arith);
}

/// The boundary is closed: distance exactly equal to the radius counts as
/// a collision.
pub proof fn lemma_boundary_hit(a: Vec2i, b: Vec2i, radius: int)
    requires
        (a.x - b.x) * (a.x - b.x) + (a.y - b.y) * (a.y - b.y) == radius * radius,
    ensures
        hits(a, b, radius),
{
}

/// The damage event a bullet deals this step: against the first enemy, in
/// order, whose collider it touches, or nothing.
pub open spec fn first_damage(b: Bullet, es: Seq<Enemy>) -> Option<Damage>
    decreases es.len(),
{
    if es.len() == 0 {
        Option::None
    } else if hits(b.position.current, es[0].position.current, es[0].collider.0 as int) {
        Option::Some(Damage(es[0].ent, HIT_DAMAGE))
    } else {
        first_damage(b, es.drop_first())
    }
}

/// The outcome of one collision pass: the entity references of the bullets
/// to despawn, and the damage events to emit, both in bullet order.  A
/// bullet deals damage to at most one target per step.
pub open spec fn collide(bs: Seq<Bullet>, es: Seq<Enemy>) -> (Seq<u64>, Seq<Damage>)
    decreases bs.len(),
{
    if bs.len() == 0 {
        (Seq::empty(), Seq::empty())
    } else {
        let rest = collide(bs.drop_first(), es);
        match first_damage(bs[0], es) {
            Option::None => rest,
            Option::Some(d) => (seq![bs[0].ent] + rest.0, seq![d] + rest.1),
        }
    }
}

/// Find the first enemy, in order, whose collider the bullet touches.
fn find_first_hit(b: &Bullet, enemies: &Vec<Enemy>) -> (r: Option<Damage>)
    requires
        in_range(b.position.current, POS_LIMIT as int),
        forall|j: int| 0 <= j < enemies@.len() ==> {
            &&& in_range((#[trigger] enemies@[j]).position.current, POS_LIMIT as int)
            &&& 0 <= enemies@[j].collider.0 <= RADIUS_LIMIT
        },
    ensures
        r == first_damage(*b, enemies@),
{
    let n = enemies.len();
    let mut j: usize = 0;
    proof {
        assert(enemies@.skip(0) =~= enemies@);
    }
    while j < n
        invariant
            n == enemies@.len(),
            0 <= j <= n,
            in_range(b.position.current, POS_LIMIT as int),
            forall|k: int| 0 <= k < enemies@.len() ==> {
                &&& in_range((#[trigger] enemies@[k]).position.current, POS_LIMIT as int)
                &&& 0 <= enemies@[k].collider.0 <= RADIUS_LIMIT
            },
            first_damage(*b, enemies@) == first_damage(*b, enemies@.skip(j as int)),
        decreases n - j,
    {
        proof {
            assert(enemies@.skip(j as int).drop_first() =~= enemies@.skip(j as int + 1));
            assert(enemies@.skip(j as int)[0] == enemies@[j as int]);
        }
        let e = &enemies[j];
        if hit_test(b.position.current, e.position.current, e.collider.0) {
            return Option::Some(Damage(e.ent, HIT_DAMAGE));
        }
        j += 1;
    }
    proof {
        assert(enemies@.skip(n as int) =~= Seq::<Enemy>::empty());
    }
    Option::None
}

/// The per-step collision pass: test every projectile against every
/// damageable entity's collider.  A projectile that touches one is marked
/// for despawn and a damage event is emitted against the first enemy it
/// touches; damage is resolved separately, never applied here.
pub fn handle_collisions(bullets: &Vec<Bullet>, enemies: &Vec<Enemy>) -> (r: (Vec<u64>, Vec<Damage>))
    requires
        forall|i: int| 0 <= i < bullets@.len() ==> in_range(
            (#[trigger] bullets@[i]).position.current,
            POS_LIMIT as int,
        ),
        forall|j: int| 0 <= j < enemies@.len() ==> {
            &&& in_range((#[trigger] enemies@[j]).position.current, POS_LIMIT as int)
            &&& 0 <= enemies@[j].collider.0 <= RADIUS_LIMIT
        },
    ensures
        (r.0@, r.1@) == collide(bullets@, enemies@),
{
    let mut despawns: Vec<u64> = Vec::new();
    let mut events: Vec<Damage> = Vec::new();
    let n = bullets.len();
    let mut i: usize = 0;
    proof {
        assert(bullets@.skip(0) =~= bullets@);
        assert(despawns@ + collide(bullets@, enemies@).0 =~= collide(bullets@, enemies@).0);
        assert(events@ + collide(bullets@, enemies@).1 =~= collide(bullets@, enemies@).1);
    }
    while i < n
        invariant
            n == bullets@.len(),
            0 <= i <= n,
            forall|k: int| 0 <= k < bullets@.len() ==> in_range(
                (#[trigger] bullets@[k]).position.current,
                POS_LIMIT as int,
            ),
            forall|k: int| 0 <= k < enemies@.len() ==> {
                &&& in_range((#[trigger] enemies@[k]).position.current, POS_LIMIT as int)
                &&& 0 <= enemies@[k].collider.0 <= RADIUS_LIMIT
            },
            collide(bullets@, enemies@).0 == despawns@ + collide(
                bullets@.skip(i as int),
                enemies@,
            ).0,
            collide(bullets@, enemies@).1 == events@ + collide(bullets@.skip(i as int), enemies@).1,
        decreases n - i,
    {
        proof {
            assert(bullets@.skip(i as int).drop_first() =~= bullets@.skip(i as int + 1));
            assert(bullets@.skip(i as int)[0] == bullets@[i as int]);
        }
        let ghost desp_before = despawns@;
        let ghost evs_before = events@;
        let b = &bullets[i];
        let hit = find_first_hit(b, enemies);
        match hit {
            Option::Some(d) => {
                despawns.push(b.ent);
                events.push(d);
                proof {
                    let rest = collide(bullets@.skip(i as int + 1), enemies@);
                    assert((desp_before + seq![bullets@[i as int].ent]) + rest.0 =~= desp_before
                        + (seq![bullets@[i as int].ent] + rest.0));
                    assert((evs_before + seq![d]) + rest.1 =~= evs_before + (seq![d] + rest.1));
                    assert(despawns@ =~= desp_before + seq![bullets@[i as int].ent]);
                    assert(events@ =~= evs_before + seq![d]);
                }
            },
            Option::None => {},
        }
        i += 1;
    }
    proof {
        assert(bullets@.skip(n as int) =~= Seq::<Bullet>::empty());
        assert(despawns@ + collide(bullets@.skip(n as int), enemies@).0 =~= despawns@);
        assert(events@ + collide(bullets@.skip(n as int), enemies@).1 =~= events@);
    }
    (despawns, events)
}

} // verus!
