//! Damageable entities: enemy state, the grid that enemies start in, and
//! the damage-resolution pass with its deduplicated despawns.

use crate::explosion::ExplosionEvent;
use crate::geom::Vec2i;
use crate::physics::{in_range, Position, Velocity, WORLD_LIMIT};
use vstd::prelude::*;

verus! {

/// Hit points of a damageable entity; the entity dies at zero or below.
#[derive(Clone, Copy, PartialEq, Eq, Structural, Debug)]
pub struct Health(pub i64);

/// A damage event: deduct `amount` from the health of the entity `target`.
/// Transient, consumed once per resolution pass.
#[derive(Clone, Copy, PartialEq, Eq, Structural, Debug)]
pub struct Damage(pub u64, pub i64);

/// A circular collider: the proximity radius used against projectiles.
#[derive(Clone, Copy, PartialEq, Eq, Structural, Debug)]
pub struct Collider(pub i64);

/// A live enemy.
#[derive(Clone, Copy, PartialEq, Eq, Structural, Debug)]
pub struct Enemy {
    /// Entity reference, unique among live entities.
    pub ent: u64,
    pub position: Position,
    pub velocity: Velocity,
    pub health: Health,
    pub collider: Collider,
}

/// Enemies laid out per grid row and column.
pub const ENEMIES_AMOUNT: u64 = 10;

/// Grid spacing between spawned enemies, in world units.
pub const ENEMY_SPACING: i64 = 64;

/// Hit points an enemy starts with.
pub const ENEMY_HEALTH: i64 = 100;

/// Collider radius of a spawned enemy.
pub const ENEMY_RADIUS: i64 = 16;

/// Health magnitudes the resolver operates on stay within this bound.
pub const HEALTH_LIMIT: i64 = 1_000_000_000_000_000;

/// Largest damage amount of a single event.
pub const DAMAGE_LIMIT: i64 = 1_000_000_000;

/// Most damage events one resolution pass may consume.
pub const EVENTS_LIMIT: u64 = 1_000_000;

/// Where the enemy at index `idx` of the grid starts.  The first row is
/// laid out relative to the player; later rows restart at the fixed left
/// edge of the grid.
pub open spec fn enemy_spawn_point(player: Position, idx: int) -> Vec2i {
    let row = idx / (ENEMIES_AMOUNT as int);
    let col = idx % (ENEMIES_AMOUNT as int);
    Vec2i {
        x: ((if row == 0 {
            player.current.x as int
        } else {
            0
        }) - (ENEMIES_AMOUNT as int) * ENEMY_SPACING / 2 + ENEMY_SPACING * col) as i64,
        y: (player.current.y + 200 + ENEMY_SPACING * row) as i64,
    }
}

/// The enemy record spawned at grid index `idx`.
pub open spec fn spawned_enemy(player: Position, first_ent: u64, idx: int) -> Enemy {
    let at = enemy_spawn_point(player, idx);
    Enemy {
        ent: (first_ent + idx) as u64,
        position: Position { current: at, previous: at, carry: Vec2i { x: 0, y: 0 } },
        velocity: Velocity(Vec2i { x: 0, y: 0 }),
        health: Health(ENEMY_HEALTH),
        collider: Collider(ENEMY_RADIUS),
    }
}

/// Spawn the enemy grid: `ENEMIES_AMOUNT` rows of `ENEMIES_AMOUNT` enemies,
/// spaced `ENEMY_SPACING` apart, starting above the player.  Entity
/// references are `first_ent`, `first_ent + 1`, … in spawn order, so they
/// are distinct.
pub fn setup_enemies(player: &Position, first_ent: u64) -> (es: Vec<Enemy>)
    requires
        in_range(player.current, WORLD_LIMIT as int),
        first_ent <= u64::MAX - ENEMIES_AMOUNT * ENEMIES_AMOUNT,
    ensures
        es@.len() == ENEMIES_AMOUNT * ENEMIES_AMOUNT,
        forall|i: int| 0 <= i < es@.len() ==> #[trigger] es@[i] == spawned_enemy(
            *player,
            first_ent,
            i,
        ),
{
    let mut es: Vec<Enemy> = Vec::new();
    let left: i64 = 0 - (ENEMIES_AMOUNT as i64) * ENEMY_SPACING / 2;
    let mut row: u64 = 0;
    while row < ENEMIES_AMOUNT
        invariant
            0 <= row <= ENEMIES_AMOUNT,
            es@.len() == row * ENEMIES_AMOUNT,
            in_range(player.current, WORLD_LIMIT as int),
            first_ent <= u64::MAX - ENEMIES_AMOUNT * ENEMIES_AMOUNT,
            left == -(ENEMIES_AMOUNT as int) * ENEMY_SPACING / 2,
            forall|i: int| 0 <= i < es@.len() ==> #[trigger] es@[i] == spawned_enemy(
                *player,
                first_ent,
                i,
            ),
        decreases ENEMIES_AMOUNT - row,
    {
        let mut col: u64 = 0;
        while col < ENEMIES_AMOUNT
            invariant
                0 <= row < ENEMIES_AMOUNT,
                0 <= col <= ENEMIES_AMOUNT,
                es@.len() == row * ENEMIES_AMOUNT + col,
                in_range(player.current, WORLD_LIMIT as int),
                first_ent <= u64::MAX - ENEMIES_AMOUNT * ENEMIES_AMOUNT,
                left == -(ENEMIES_AMOUNT as int) * ENEMY_SPACING / 2,
                forall|i: int| 0 <= i < es@.len() ==> #[trigger] es@[i] == spawned_enemy(
                    *player,
                    first_ent,
                    i,
                ),
            decreases ENEMIES_AMOUNT - col,
        {
            let idx: u64 = row * ENEMIES_AMOUNT + col;
            let x: i64 = if row == 0 {
                player.current.x + left + ENEMY_SPACING * (col as i64)
            } else {
                left + ENEMY_SPACING * (col as i64)
            };
            let y: i64 = player.current.y + 200 + ENEMY_SPACING * (row as i64);
            let at = Vec2i { x, y };
            let e = Enemy {
                ent: first_ent + idx,
                position: Position::at(at),
                velocity: Velocity(Vec2i { x: 0, y: 0 }),
                health: Health(ENEMY_HEALTH),
                collider: Collider(ENEMY_RADIUS),
            };
            es.push(e);
            proof {
                vstd::arithmetic::div_mod::lemma_fundamental_div_mod_converse(
                    idx as int,
                    ENEMIES_AMOUNT as int,
                    row as int,
                    col as int,
                );
                assert(e == spawned_enemy(*player, first_ent, idx as int));
            }
            col += 1;
        }
        row += 1;
    }
    es
}

/// The enemies with every entity named `target` damaged by `amount`.
pub open spec fn dec_health(es: Seq<Enemy>, target: u64, amount: int) -> Seq<Enemy> {
    es.map_values(
        |e: Enemy|
            if e.ent == target {
                Enemy { health: Health((e.health.0 - amount) as i64), ..e }
            } else {
                e
            },
    )
}

/// The first enemy, in order, with the given entity reference.
pub open spec fn find_enemy(es: Seq<Enemy>, ent: u64) -> Option<Enemy>
    decreases es.len(),
{
    if es.len() == 0 {
        Option::None
    } else if es[0].ent == ent {
        Option::Some(es[0])
    } else {
        find_enemy(es.drop_first(), ent)
    }
}

/// When no enemy carries the reference, the search says so.
pub proof fn lemma_find_enemy_none(es: Seq<Enemy>, ent: u64)
    requires
        find_enemy(es, ent) is None,
    ensures
        forall|k: int| 0 <= k < es.len() ==> (#[trigger] es[k]).ent != ent,
    decreases es.len(),
{
    if es.len() > 0 {
        lemma_find_enemy_none(es.drop_first(), ent);
        assert forall|k: int| 0 <= k < es.len() implies (#[trigger] es[k]).ent != ent by {
            if k > 0 {
                assert(es.drop_first()[k - 1] == es[k]);
            }
        }
    }
}

/// One damage event applied to the resolver state: the target's health
/// drops; if it crosses zero and the target is not already scheduled, the
/// despawn is scheduled and the secondary effect is emitted, exactly once.
pub open spec fn damage_step(
    es: Seq<Enemy>,
    desp: Seq<u64>,
    expl: Seq<ExplosionEvent>,
    ev: Damage,
) -> (Seq<Enemy>, Seq<u64>, Seq<ExplosionEvent>) {
    match find_enemy(es, ev.0) {
        Option::None => (es, desp, expl),
        Option::Some(e) => {
            let es2 = dec_health(es, ev.0, ev.1 as int);
            if e.health.0 - ev.1 <= 0 && !desp.contains(ev.0) {
                (es2, desp.push(ev.0), expl.push(ExplosionEvent(e.position)))
            } else {
                (es2, desp, expl)
            }
        },
    }
}

/// The resolver state after consuming the events in order.
pub open spec fn run_damage(
    es: Seq<Enemy>,
    desp: Seq<u64>,
    expl: Seq<ExplosionEvent>,
    evs: Seq<Damage>,
) -> (Seq<Enemy>, Seq<u64>, Seq<ExplosionEvent>)
    decreases evs.len(),
{
    if evs.len() == 0 {
        (es, desp, expl)
    } else {
        let st = damage_step(es, desp, expl, evs[0]);
        run_damage(st.0, st.1, st.2, evs.drop_first())
    }
}

/// Membership test among scheduled despawns.
fn contains_ent(v: &Vec<u64>, x: u64) -> (r: bool)
    ensures
        r == v@.contains(x),
{
    let n = v.len();
    let mut i: usize = 0;
    while i < n
        invariant
            n == v@.len(),
            0 <= i <= n,
            forall|k: int| 0 <= k < i ==> v@[k] != x,
        decreases n - i,
    {
        if v[i] == x {
            return true;
        }
        i += 1;
    }
    false
}

/// The damage-resolution pass.  Events are consumed in emission order; each
/// deducts its amount from its target's health (a stale reference to an
/// absent target is ignored).  A target whose health crosses zero is
/// scheduled for despawn and triggers one secondary-effect event, exactly
/// once per pass, however many events hit it: the despawn schedule doubles
/// as the deduplicating set.
pub fn handle_damage(enemies: &mut Vec<Enemy>, events: &Vec<Damage>) -> (r: (
    Vec<u64>,
    Vec<ExplosionEvent>,
))
    requires
        events@.len() <= EVENTS_LIMIT,
        forall|i: int| 0 <= i < events@.len() ==> 0 <= (#[trigger] events@[i]).1 <= DAMAGE_LIMIT,
        forall|k: int| 0 <= k < old(enemies)@.len() ==> -HEALTH_LIMIT <= (#[trigger] old(
            enemies,
        )@[k]).health.0 <= HEALTH_LIMIT,
    ensures
        final(enemies)@ == run_damage(old(enemies)@, Seq::empty(), Seq::empty(), events@).0,
        r.0@ == run_damage(old(enemies)@, Seq::empty(), Seq::empty(), events@).1,
        r.1@ == run_damage(old(enemies)@, Seq::empty(), Seq::empty(), events@).2,
{
    let ghost orig = enemies@;
    let mut desp: Vec<u64> = Vec::new();
    let mut expl: Vec<ExplosionEvent> = Vec::new();
    let ne = events.len();
    let mut i: usize = 0;
    proof {
        assert(events@.skip(0) =~= events@);
    }
    while i < ne
        invariant
            ne == events@.len(),
            0 <= i <= ne,
            ne <= EVENTS_LIMIT,
            forall|k: int| 0 <= k < events@.len() ==> 0 <= (#[trigger] events@[k]).1
                <= DAMAGE_LIMIT,
            forall|k: int| 0 <= k < enemies@.len() ==> -HEALTH_LIMIT - (i as int) * DAMAGE_LIMIT
                <= (#[trigger] enemies@[k]).health.0 <= HEALTH_LIMIT,
            run_damage(orig, Seq::empty(), Seq::empty(), events@) == run_damage(
                enemies@,
                desp@,
                expl@,
                events@.skip(i as int),
            ),
        decreases ne - i,
    {
        proof {
            assert(events@.skip(i as int).drop_first() =~= events@.skip(i as int + 1));
            assert(events@.skip(i as int)[0] == events@[i as int]);
            assert((i as int) * DAMAGE_LIMIT + DAMAGE_LIMIT == (i as int + 1)
                * DAMAGE_LIMIT) by (nonlinear_arith);
            assert(0 <= (i as int) * DAMAGE_LIMIT <= EVENTS_LIMIT * DAMAGE_LIMIT) by (nonlinear_arith)
                requires
                    0 <= i <= EVENTS_LIMIT,
            ;
        }
        let ev = events[i];
        let ghost before = enemies@;
        let ghost desp_before = desp@;
        let ghost expl_before = expl@;

        // find the target and deduct the damage
        let mut first: Option<Enemy> = Option::None;
        let nes = enemies.len();
        let mut j: usize = 0;
        proof {
            assert(before.skip(0) =~= before);
        }
        while j < nes
            invariant
                nes == before.len(),
                enemies@.len() == before.len(),
                0 <= j <= nes,
                0 <= ev.1 <= DAMAGE_LIMIT,
                forall|k: int| 0 <= k < before.len() ==> -HEALTH_LIMIT - (i as int) * DAMAGE_LIMIT
                    <= (#[trigger] before[k]).health.0 <= HEALTH_LIMIT,
                0 <= (i as int) * DAMAGE_LIMIT <= EVENTS_LIMIT * DAMAGE_LIMIT,
                forall|k: int| j <= k < before.len() ==> #[trigger] enemies@[k] == before[k],
                forall|k: int| 0 <= k < j ==> #[trigger] enemies@[k] == (if before[k].ent == ev.0 {
                    Enemy {
                        health: Health((before[k].health.0 - ev.1) as i64),
                        ..before[k]
                    }
                } else {
                    before[k]
                }),
                find_enemy(before, ev.0) == (match first {
                    Option::Some(e) => Option::Some(e),
                    Option::None => find_enemy(before.skip(j as int), ev.0),
                }),
                match first {
                    Option::Some(e) => -HEALTH_LIMIT - (i as int) * DAMAGE_LIMIT <= e.health.0
                        <= HEALTH_LIMIT,
                    Option::None => true,
                },
            decreases nes - j,
        {
            proof {
                assert(before.skip(j as int).drop_first() =~= before.skip(j as int + 1));
                assert(before.skip(j as int)[0] == before[j as int]);
            }
            let e = enemies[j];
            if e.ent == ev.0 {
                if first.is_none() {
                    first = Option::Some(e);
                }
                let e2 = Enemy { health: Health(e.health.0 - ev.1), ..e };
                enemies.set(j, e2);
            }
            j += 1;
        }
        proof {
            assert(before.skip(nes as int) =~= Seq::<Enemy>::empty());
            assert(enemies@ =~= dec_health(before, ev.0, ev.1 as int));
            assert(first == find_enemy(before, ev.0));
        }

        // schedule the despawn and the secondary effect, at most once
        match first {
            Option::Some(e) => {
                let nh = e.health.0 - ev.1;
                if nh <= 0 && !contains_ent(&desp, ev.0) {
                    desp.push(ev.0);
                    expl.push(ExplosionEvent(e.position));
                }
            },
            Option::None => {
                proof {
                    lemma_find_enemy_none(before, ev.0);
                    assert(enemies@ =~= before);
                }
            },
        }
        proof {
            let st = damage_step(before, desp_before, expl_before, ev);
            assert(st.0 == enemies@ && st.1 == desp@ && st.2 == expl@);
        }
        i += 1;
    }
    proof {
        assert(events@.skip(ne as int) =~= Seq::<Damage>::empty());
    }
    (desp, expl)
}

/// No double kill: however many events in one pass drive the same target
/// below zero, the pass schedules that target's despawn at most once and
/// emits exactly one secondary effect per scheduled despawn.
pub proof fn lemma_no_double_kill(
    es: Seq<Enemy>,
    desp: Seq<u64>,
    expl: Seq<ExplosionEvent>,
    evs: Seq<Damage>,
)
    requires
        desp.no_duplicates(),
        expl.len() == desp.len(),
    ensures
        run_damage(es, desp, expl, evs).1.no_duplicates(),
        run_damage(es, desp, expl, evs).2.len() == run_damage(es, desp, expl, evs).1.len(),
    decreases evs.len(),
{
    if evs.len() > 0 {
        let st = damage_step(es, desp, expl, evs[0]);
        assert(st.1.no_duplicates() && st.2.len() == st.1.len()) by {
            match find_enemy(es, evs[0].0) {
                Option::None => {},
                Option::Some(e) => {
                    if e.health.0 - evs[0].1 <= 0 && !desp.contains(evs[0].0) {
                        assert forall|a: int, b: int|
                            0 <= a < b < st.1.len() implies st.1[a] != st.1[b] by {
                            if b == st.1.len() - 1 {
                                assert(desp[a] != evs[0].0);
                            }
                        }
                    }
                },
            }
        }
        lemma_no_double_kill(st.0, st.1, st.2, evs.drop_first());
    }
}

/// The enemies left after the scheduled despawns are applied, in order.
pub open spec fn without_ents(es: Seq<Enemy>, dead: Seq<u64>) -> Seq<Enemy>
    decreases es.len(),
{
    if es.len() == 0 {
        Seq::empty()
    } else if dead.contains(es[0].ent) {
        without_ents(es.drop_first(), dead)
    } else {
        seq![es[0]] + without_ents(es.drop_first(), dead)
    }
}

/// Apply a despawn schedule: remove every enemy whose entity reference is
/// scheduled, keeping the others in order.
pub fn apply_despawns(enemies: &mut Vec<Enemy>, dead: &Vec<u64>)
    ensures
        final(enemies)@ == without_ents(old(enemies)@, dead@),
{
    let ghost orig = enemies@;
    let mut kept: Vec<Enemy> = Vec::new();
    let n = enemies.len();
    let mut i: usize = 0;
    proof {
        assert(orig.skip(0) =~= orig);
        assert(kept@ + without_ents(orig, dead@) =~= without_ents(orig, dead@));
    }
    while i < n
        invariant
            n == orig.len(),
            enemies@ == orig,
            0 <= i <= n,
            without_ents(orig, dead@) == kept@ + without_ents(orig.skip(i as int), dead@),
        decreases n - i,
    {
        proof {
            assert(orig.skip(i as int).drop_first() =~= orig.skip(i as int + 1));
            assert(orig.skip(i as int)[0] == orig[i as int]);
        }
        let ghost kept_before = kept@;
        let e = enemies[i];
        if !contains_ent(dead, e.ent) {
            kept.push(e);
            proof {
                let rest = without_ents(orig.skip(i as int + 1), dead@);
                assert(kept@ =~= kept_before + seq![e]);
                assert((kept_before + seq![e]) + rest =~= kept_before + (seq![e] + rest));
            }
        }
        i += 1;
    }
    proof {
        assert(orig.skip(n as int) =~= Seq::<Enemy>::empty());
        assert(kept@ + without_ents(orig.skip(n as int), dead@) =~= kept@);
    }
    *enemies = kept;
}

} // verus!
