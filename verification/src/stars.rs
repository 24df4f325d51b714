//! The streamed starfield: a chunk grid over world space, a fixed-seed
//! deterministic generator deciding which cells hold a star and where, a
//! materialization ledger so each covered cell is evaluated at most once,
//! and the incremental spawn / despawn passes driven by the visible
//! region.
//!
//! Determinism is load-bearing here: the generator is a pure function of
//! the cell coordinates, so leaving a region and returning rebuilds it
//! identically.

use crate::camera::VisibleSpace;
use crate::geom::{mul_div_floor, round_mult, round_mult_spec, Vec2i};
use vstd::prelude::*;

verus! {

/// Cell size of the chunk grid, world units.
pub const STARS_DENSITY: i64 = 20;

/// Margin added around the visible region to form the streaming window.
pub const VISIBLE_SPACE_MARGINS: i64 = 40;

/// Largest star scale, milli-units.
pub const STAR_MAX_SCALE: i64 = 2000;

/// A chunk coordinate: the world position of its cell corner.
#[derive(Clone, Copy, PartialEq, Eq, Structural, Debug)]
pub struct StarKey {
    pub x: i32,
    pub y: i32,
}

/// A materialized background star.
#[derive(Clone, Copy, PartialEq, Eq, Structural, Debug)]
pub struct Star {
    /// Back-reference to the cell it came from, used only to erase the
    /// ledger entry when the star is despawned.
    pub key: StarKey,
    /// World position: the cell corner plus the generated offset.
    pub position: Vec2i,
    /// Visual scale, milli-units.
    pub scale: i64,
}

/// The streaming window, snapped to the grid and expanded by the margin;
/// `changed` says whether the last recomputation altered it.
#[derive(Clone, Copy, PartialEq, Eq, Structural, Debug)]
pub struct VisibleStarField {
    pub top_left: Vec2i,
    pub bottom_right: Vec2i,
    pub changed: bool,
}

/// The materialization ledger: which cells have been evaluated while
/// covered by the streaming window.
pub struct StarMap {
    keys: Vec<StarKey>,
}

impl StarMap {
    /// Whether the cell has been evaluated.
    pub closed spec fn contains_key(self, k: StarKey) -> bool {
        self.keys@.contains(k)
    }

    pub fn new() -> (m: StarMap)
        ensures
            forall|k: StarKey| !m.contains_key(k),
    {
        StarMap { keys: Vec::new() }
    }

    pub fn contains(&self, k: StarKey) -> (r: bool)
        ensures
            r == self.contains_key(k),
    {
        let n = self.keys.len();
        let mut i: usize = 0;
        while i < n
            invariant
                n == self.keys@.len(),
                0 <= i <= n,
                forall|j: int| 0 <= j < i ==> self.keys@[j] != k,
            decreases n - i,
        {
            let e = self.keys[i];
            if e.x == k.x && e.y == k.y {
                return true;
            }
            i += 1;
        }
        false
    }

    /// Record that a cell has been evaluated.
    pub fn insert(&mut self, k: StarKey)
        ensures
            forall|q: StarKey| final(self).contains_key(q) == (old(self).contains_key(q) || q
                == k),
    {
        self.keys.push(k);
        proof {
            let pre = old(self).keys@;
            assert(self.keys@ =~= pre.push(k));
            assert forall|q: StarKey|
                self.contains_key(q) == (old(self).contains_key(q) || q == k) by {
                if q == k {
                    assert(self.keys@[pre.len() as int] == k);
                }
                if old(self).contains_key(q) {
                    let j = choose|j: int| 0 <= j < pre.len() && pre[j] == q;
                    assert(self.keys@[j] == q);
                }
                if self.contains_key(q) && q != k {
                    let j = choose|j: int| 0 <= j < self.keys@.len() && self.keys@[j] == q;
                    assert(j < pre.len());
                    assert(pre[j] == q);
                }
            }
        }
    }

    /// Erase a cell's entry, returning it to the unseen state.
    pub fn remove(&mut self, k: StarKey)
        ensures
            forall|q: StarKey| final(self).contains_key(q) == (old(self).contains_key(q) && q
                != k),
    {
        let n = self.keys.len();
        let mut kept: Vec<StarKey> = Vec::new();
        let mut i: usize = 0;
        while i < n
            invariant
                n == self.keys@.len(),
                0 <= i <= n,
                forall|q: StarKey| kept@.contains(q) == (self.keys@.subrange(0, i as int).contains(
                    q,
                ) && q != k),
            decreases n - i,
        {
            let e = self.keys[i];
            let ghost kept_before = kept@;
            let pushed = !(e.x == k.x && e.y == k.y);
            if pushed {
                kept.push(e);
            }
            proof {
                let pre = self.keys@.subrange(0, i as int);
                let post = self.keys@.subrange(0, i as int + 1);
                assert(post =~= pre.push(e));
                assert forall|q: StarKey| kept@.contains(q) == (post.contains(q) && q != k) by {
                    if kept@.contains(q) {
                        let j = choose|j: int| 0 <= j < kept@.len() && kept@[j] == q;
                        if j < kept_before.len() {
                            assert(kept_before[j] == q);
                            assert(kept_before.contains(q));
                            assert(pre.contains(q) && q != k);
                            let j2 = choose|j2: int| 0 <= j2 < pre.len() && pre[j2] == q;
                            assert(post[j2] == q);
                        } else {
                            assert(q == e);
                            assert(post[pre.len() as int] == e);
                        }
                    }
                    if post.contains(q) && q != k {
                        let j = choose|j: int| 0 <= j < post.len() && post[j] == q;
                        if j < pre.len() {
                            assert(pre[j] == q);
                            assert(pre.contains(q));
                            assert(kept_before.contains(q));
                            let j2 = choose|j2: int|
                                0 <= j2 < kept_before.len() && kept_before[j2] == q;
                            assert(kept@[j2] == q);
                        } else {
                            assert(q == e);
                            assert(pushed);
                            assert(kept@[kept_before.len() as int] == e);
                        }
                    }
                }
            }
            i += 1;
        }
        proof {
            assert(self.keys@.subrange(0, n as int) =~= self.keys@);
        }
        self.keys = kept;
    }
}

/// The fixed-seed 64-bit mixer over a cell coordinate.  A language-default
/// hasher would reseed per process; reproducibility across runs is a
/// correctness requirement here, so the mixing constants are fixed.
#[verifier::opaque]
pub open spec fn spec_hash(key: StarKey) -> u64 {
    let z = ((key.x as u32 as u64) << 32) | (key.y as u32 as u64);
    let a = z ^ (z >> 30);
    let b = ((a * 0xBF58_476D_1CE4_E5B9) % 0x1_0000_0000_0000_0000) as u64;
    let c = b ^ (b >> 27);
    let d = ((c * 0x94D0_49BB_1331_11EB) % 0x1_0000_0000_0000_0000) as u64;
    d ^ (d >> 31)
}

/// Mix a cell coordinate into a stable, well-distributed 64-bit value.
pub fn hash(key: StarKey) -> (h: u64)
    ensures
        h == spec_hash(key),
{
    proof {
        reveal(spec_hash);
    }
    let z: u64 = ((key.x as u32 as u64) << 32) | (key.y as u32 as u64);
    let a: u64 = z ^ (z >> 30);
    proof {
        assert((a as int) * 0xBF58_476D_1CE4_E5B9 < 0x1_0000_0000_0000_0000_0000_0000_0000_0000
            && 0 <= (a as int) * 0xBF58_476D_1CE4_E5B9) by (nonlinear_arith)
            requires
                0 <= a < 0x1_0000_0000_0000_0000,
        ;
    }
    let b: u64 = (((a as u128) * 0xBF58_476D_1CE4_E5B9u128) % 0x1_0000_0000_0000_0000u128) as u64;
    let c: u64 = b ^ (b >> 27);
    proof {
        assert((c as int) * 0x94D0_49BB_1331_11EB < 0x1_0000_0000_0000_0000_0000_0000_0000_0000
            && 0 <= (c as int) * 0x94D0_49BB_1331_11EB) by (nonlinear_arith)
            requires
                0 <= c < 0x1_0000_0000_0000_0000,
        ;
    }
    let d: u64 = (((c as u128) * 0x94D0_49BB_1331_11EBu128) % 0x1_0000_0000_0000_0000u128) as u64;
    d ^ (d >> 31)
}

/// What the generator decides for a cell: presence, the in-cell offset of
/// the star on each axis, and its visual scale in milli-units.  The low
/// six decimal digits of the hash decide presence alone; three further,
/// pairwise disjoint four-digit slices place and scale the star, so
/// presence does not correlate with placement.
#[verifier::opaque]
pub open spec fn star_properties(key: StarKey, max_offset: int, max_scale: int) -> (
    bool,
    int,
    int,
    int,
) {
    let h = spec_hash(key);
    (
        (h % 1_000_000) < 100_000,
        max_offset * ((h as int / 1_000_000) % 10_000) / 10_000,
        max_offset * ((h as int / 10_000_000_000) % 10_000) / 10_000,
        1000 + (max_scale - 1000) * ((h as int / 100_000_000_000_000) % 10_000) / 10_000,
    )
}

/// Decide a cell: a pure, deterministic function of the coordinate alone,
/// identical across visits and across runs of the same build.
pub fn generate_star_properties(key: StarKey, max_offset: i64, max_scale: i64) -> (r: (
    bool,
    i64,
    i64,
    i64,
))
    requires
        0 <= max_offset <= 1_000_000,
        1000 <= max_scale <= 1_000_000,
    ensures
        r.0 == star_properties(key, max_offset as int, max_scale as int).0,
        r.1 == star_properties(key, max_offset as int, max_scale as int).1,
        r.2 == star_properties(key, max_offset as int, max_scale as int).2,
        r.3 == star_properties(key, max_offset as int, max_scale as int).3,
        0 <= r.1 <= max_offset,
        0 <= r.2 <= max_offset,
        1000 <= r.3 <= max_scale,
{
    proof {
        reveal(star_properties);
    }
    let h = hash(key);
    let n0: u64 = h % 1_000_000;
    let n1: u64 = (h / 1_000_000) % 10_000;
    let n2: u64 = (h / 10_000_000_000) % 10_000;
    let n3: u64 = (h / 100_000_000_000_000) % 10_000;
    let present = n0 < 100_000;
    let x_offset = mul_div_floor(max_offset, n1, 10_000);
    let y_offset = mul_div_floor(max_offset, n2, 10_000);
    let scale = 1000 + mul_div_floor(max_scale - 1000, n3, 10_000);
    (present, x_offset, y_offset, scale)
}

/// The star a present cell materializes as: anchored at the cell corner,
/// displaced by the generated offset, at the generated scale.
pub open spec fn star_of(key: StarKey) -> Star {
    let props = star_properties(key, STARS_DENSITY as int, STAR_MAX_SCALE as int);
    Star {
        key,
        position: Vec2i { x: (key.x + props.1) as i64, y: (key.y + props.2) as i64 },
        scale: props.3 as i64,
    }
}

/// A cell is present when the generator says so.
pub open spec fn cell_present(key: StarKey) -> bool {
    star_properties(key, STARS_DENSITY as int, STAR_MAX_SCALE as int).0
}

/// Initial streaming state: an empty window and an empty ledger.
pub fn setup_stars() -> (r: (VisibleStarField, StarMap))
    ensures
        r.0 == (VisibleStarField {
            top_left: Vec2i { x: 0, y: 0 },
            bottom_right: Vec2i { x: 0, y: 0 },
            changed: false,
        }),
        forall|k: StarKey| !r.1.contains_key(k),
{
    (
        VisibleStarField {
            top_left: Vec2i { x: 0, y: 0 },
            bottom_right: Vec2i { x: 0, y: 0 },
            changed: false,
        },
        StarMap::new(),
    )
}

/// Snap the visible region to the chunk grid and expand it by the margin,
/// writing the window only when it changed; the flag gates the streaming
/// passes so an unchanged frame does no scan.
pub fn update_visible_star_field(visible_space: &VisibleSpace, field: &mut VisibleStarField)
    requires
        -2_000_000_000_000_000 <= visible_space.top_left.x <= 2_000_000_000_000_000,
        -2_000_000_000_000_000 <= visible_space.top_left.y <= 2_000_000_000_000_000,
        -2_000_000_000_000_000 <= visible_space.bottom_right.x <= 2_000_000_000_000_000,
        -2_000_000_000_000_000 <= visible_space.bottom_right.y <= 2_000_000_000_000_000,
    ensures
        final(field).top_left.x == round_mult_spec(
            visible_space.top_left.x as int,
            STARS_DENSITY as int,
        ) - VISIBLE_SPACE_MARGINS,
        final(field).top_left.y == round_mult_spec(
            visible_space.top_left.y as int,
            STARS_DENSITY as int,
        ) + VISIBLE_SPACE_MARGINS,
        final(field).bottom_right.x == round_mult_spec(
            visible_space.bottom_right.x as int,
            STARS_DENSITY as int,
        ) + VISIBLE_SPACE_MARGINS,
        final(field).bottom_right.y == round_mult_spec(
            visible_space.bottom_right.y as int,
            STARS_DENSITY as int,
        ) - VISIBLE_SPACE_MARGINS,
        final(field).changed == (old(field).top_left != final(field).top_left || old(
            field,
        ).bottom_right != final(field).bottom_right),
{
    let tlx = round_mult(visible_space.top_left.x, STARS_DENSITY) - VISIBLE_SPACE_MARGINS;
    let tly = round_mult(visible_space.top_left.y, STARS_DENSITY) + VISIBLE_SPACE_MARGINS;
    let brx = round_mult(visible_space.bottom_right.x, STARS_DENSITY) + VISIBLE_SPACE_MARGINS;
    let bry = round_mult(visible_space.bottom_right.y, STARS_DENSITY) - VISIBLE_SPACE_MARGINS;
    let top_left = Vec2i { x: tlx, y: tly };
    let bottom_right = Vec2i { x: brx, y: bry };
    let changed = field.top_left != top_left || field.bottom_right != bottom_right;
    field.top_left = top_left;
    field.bottom_right = bottom_right;
    field.changed = changed;
}

/// Whether the streaming passes have work this frame.
pub fn run_if_visible_starfield_changed(field: &VisibleStarField) -> (r: bool)
    ensures
        r == field.changed,
{
    field.changed
}

/// The grid cells the streaming window must have materialized: lattice
/// points of stride `STARS_DENSITY` anchored at the window's top-left
/// corner.  Empty when the window's span is zero or inverted on either
/// axis.
pub open spec fn in_window(field: VisibleStarField, x: int, y: int) -> bool {
    &&& field.top_left.x < field.bottom_right.x
    &&& field.bottom_right.y < field.top_left.y
    &&& field.top_left.x <= x <= field.bottom_right.x
    &&& field.bottom_right.y <= y <= field.top_left.y
    &&& (x - field.top_left.x) % (STARS_DENSITY as int) == 0
    &&& (field.top_left.y - y) % (STARS_DENSITY as int) == 0
}

/// Two lattice points of the same stride-`m` lattice cannot be closer
/// than one stride.
proof fn lemma_aligned_unique(base: int, a: int, b: int, m: int)
    requires
        1 <= m,
        (a - base) % m == 0,
        (b - base) % m == 0,
        a <= b < a + m,
    ensures
        a == b,
{
    vstd::arithmetic::div_mod::lemma_sub_mod_noop(b - base, a - base, m);
    vstd::arithmetic::div_mod::lemma_small_mod(0nat, m as nat);
    vstd::arithmetic::div_mod::lemma_small_mod((b - a) as nat, m as nat);
}

/// Evaluate one window row: every cell of row `y` not yet in the ledger is
/// recorded, and each fresh, present cell appends its generated star.
#[verifier::rlimit(100)]
fn scan_row(field: &VisibleStarField, map: &mut StarMap, spawned: &mut Vec<Star>, y: i64)
    requires
        -2_000_000_000 <= field.top_left.x <= 2_000_000_000,
        -2_000_000_000 <= field.top_left.y <= 2_000_000_000,
        -2_000_000_000 <= field.bottom_right.x <= 2_000_000_000,
        -2_000_000_000 <= field.bottom_right.y <= 2_000_000_000,
        field.top_left.x < field.bottom_right.x,
        field.bottom_right.y < field.top_left.y,
        field.bottom_right.y <= y <= field.top_left.y,
        (field.top_left.y - y) % (STARS_DENSITY as int) == 0,
    ensures
        forall|q: StarKey| final(map).contains_key(q) == (old(map).contains_key(q) || (in_window(
            *field,
            q.x as int,
            q.y as int,
        ) && q.y == y)),
        final(spawned)@.len() >= old(spawned)@.len(),
        forall|i: int| 0 <= i < old(spawned)@.len() ==> #[trigger] final(spawned)@[i] == old(
            spawned,
        )@[i],
        forall|i: int| old(spawned)@.len() <= i < final(spawned)@.len() ==> {
            &&& in_window(
                *field,
                (#[trigger] final(spawned)@[i]).key.x as int,
                final(spawned)@[i].key.y as int,
            )
            &&& final(spawned)@[i].key.y == y
            &&& !old(map).contains_key(final(spawned)@[i].key)
            &&& cell_present(final(spawned)@[i].key)
            &&& final(spawned)@[i] == star_of(final(spawned)@[i].key)
            &&& final(map).contains_key(final(spawned)@[i].key)
        },
        forall|q: StarKey|
            (in_window(*field, q.x as int, q.y as int) && q.y == y && !old(map).contains_key(q)
                && cell_present(q)) ==> exists|i: int|
                old(spawned)@.len() <= i < final(spawned)@.len() && (#[trigger] final(spawned)@[i]).key == q,
        forall|i: int, j: int|
            old(spawned)@.len() <= i < j < final(spawned)@.len() ==> (#[trigger] final(spawned)@[i]).key != (#[trigger] final(spawned)@[j]).key,
{
    let ghost f = *field;
    let ghost n0 = old(spawned)@.len() as int;
    let mut x: i64 = field.top_left.x;
    while x <= field.bottom_right.x
        invariant
            f == *field,
            -2_000_000_000 <= f.top_left.x <= 2_000_000_000,
            -2_000_000_000 <= f.top_left.y <= 2_000_000_000,
            -2_000_000_000 <= f.bottom_right.x <= 2_000_000_000,
            -2_000_000_000 <= f.bottom_right.y <= 2_000_000_000,
            f.top_left.x < f.bottom_right.x,
            f.bottom_right.y < f.top_left.y,
            f.bottom_right.y <= y <= f.top_left.y,
            (f.top_left.y - y) % (STARS_DENSITY as int) == 0,
            f.top_left.x <= x,
            x <= f.bottom_right.x + (STARS_DENSITY as int),
            (x - f.top_left.x) % (STARS_DENSITY as int) == 0,
            n0 == old(spawned)@.len(),
            spawned@.len() >= n0,
            forall|i: int| 0 <= i < n0 ==> #[trigger] spawned@[i] == old(spawned)@[i],
            forall|q: StarKey| map.contains_key(q) == (old(map).contains_key(q) || (in_window(
                f,
                q.x as int,
                q.y as int,
            ) && q.y == y && q.x < x)),
            forall|i: int| n0 <= i < spawned@.len() ==> {
                &&& in_window(f, (#[trigger] spawned@[i]).key.x as int, spawned@[i].key.y as int)
                &&& spawned@[i].key.y == y
                &&& spawned@[i].key.x < x
                &&& !old(map).contains_key(spawned@[i].key)
                &&& cell_present(spawned@[i].key)
                &&& spawned@[i] == star_of(spawned@[i].key)
                &&& map.contains_key(spawned@[i].key)
            },
            forall|q: StarKey|
                (in_window(f, q.x as int, q.y as int) && q.y == y && q.x < x && !old(
                    map,
                ).contains_key(q) && cell_present(q)) ==> exists|i: int|
                    n0 <= i < spawned@.len() && (#[trigger] spawned@[i]).key == q,
            forall|i: int, j: int|
                n0 <= i < j < spawned@.len() ==> (#[trigger] spawned@[i]).key != (
                #[trigger] spawned@[j]).key,
        decreases f.bottom_right.x + STARS_DENSITY - x,
    {
        let key = StarKey { x: x as i32, y: y as i32 };
        let ghost spawned0 = spawned@;
        let ghost map_pre = *map;
        proof {
            assert(in_window(f, x as int, y as int));
            assert(map.contains_key(key) == old(map).contains_key(key));
        }
        let mut pushed: bool = false;
        if !map.contains(key) {
            map.insert(key);
            let props = generate_star_properties(key, STARS_DENSITY, STAR_MAX_SCALE);
            if props.0 {
                let star = Star {
                    key,
                    position: Vec2i { x: (key.x as i64) + props.1, y: (key.y as i64) + props.2 },
                    scale: props.3,
                };
                proof {
                    assert(star == star_of(key));
                }
                spawned.push(star);
                pushed = true;
            }
        }
        proof {
            // the only window cell of this row in [x, x + stride) is this one
            assert forall|q: StarKey|
                (in_window(f, q.x as int, q.y as int) && q.y == y && x <= q.x < x
                    + STARS_DENSITY) implies q == key by {
                lemma_aligned_unique(
                    f.top_left.x as int,
                    x as int,
                    q.x as int,
                    STARS_DENSITY as int,
                );
            }
            if pushed {
                assert(spawned@ =~= spawned0.push(star_of(key)));
                assert(spawned@[spawned0.len() as int].key == key);
            }
            assert forall|q: StarKey|
                (in_window(f, q.x as int, q.y as int) && q.y == y && q.x < x + STARS_DENSITY
                    && !old(map).contains_key(q) && cell_present(q)) implies exists|i: int|
                    n0 <= i < spawned@.len() && (#[trigger] spawned@[i]).key == q by {
                if q.x < x {
                    let j = choose|j: int|
                        n0 <= j < spawned0.len() && (#[trigger] spawned0[j]).key == q;
                    assert(spawned@[j].key == q);
                } else {
                    assert(q == key);
                    assert(!map_pre.contains_key(key));
                    assert(pushed);
                    assert(spawned@[spawned0.len() as int].key == q);
                }
            }
        }
        x += STARS_DENSITY;
    }
    proof {
        assert forall|q: StarKey|
            (in_window(f, q.x as int, q.y as int) && q.y == y) implies q.x < x by {}
    }
}

/// The incremental spawn pass.  Walks the streaming window row-major from
/// the top-left corner in cell-size strides; every cell not yet in the
/// ledger is evaluated once and recorded whether or not a star is present,
/// and each fresh, present cell materializes its generated star.  A window
/// with zero or inverted span does no work.
#[verifier::rlimit(100)]
pub fn handle_star_spawning(field: &VisibleStarField, map: &mut StarMap) -> (spawned: Vec<Star>)
    requires
        -2_000_000_000 <= field.top_left.x <= 2_000_000_000,
        -2_000_000_000 <= field.top_left.y <= 2_000_000_000,
        -2_000_000_000 <= field.bottom_right.x <= 2_000_000_000,
        -2_000_000_000 <= field.bottom_right.y <= 2_000_000_000,
    ensures
        // the ledger holds exactly its old entries plus every window cell
        forall|q: StarKey| final(map).contains_key(q) == (old(map).contains_key(q) || in_window(
            *field,
            q.x as int,
            q.y as int,
        )),
        // everything spawned is a fresh, present window cell's generated star
        forall|i: int| 0 <= i < spawned@.len() ==> {
            &&& in_window(*field, (#[trigger] spawned@[i]).key.x as int, spawned@[i].key.y as int)
            &&& !old(map).contains_key(spawned@[i].key)
            &&& cell_present(spawned@[i].key)
            &&& spawned@[i] == star_of(spawned@[i].key)
        },
        // every fresh, present window cell got its star, exactly once
        forall|q: StarKey|
            (in_window(*field, q.x as int, q.y as int) && !old(map).contains_key(q)
                && cell_present(q)) ==> exists|i: int|
                0 <= i < spawned@.len() && (#[trigger] spawned@[i]).key == q,
        forall|i: int, j: int|
            0 <= i < j < spawned@.len() ==> (#[trigger] spawned@[i]).key != (
            #[trigger] spawned@[j]).key,
{
    let mut spawned: Vec<Star> = Vec::new();
    if field.top_left.x >= field.bottom_right.x || field.top_left.y <= field.bottom_right.y {
        return spawned;
    }
    let ghost f = *field;
    let ghost map0 = *old(map);
    let mut y: i64 = field.top_left.y;
    while y >= field.bottom_right.y
        invariant
            f == *field,
            map0 == *old(map),
            -2_000_000_000 <= f.top_left.x <= 2_000_000_000,
            -2_000_000_000 <= f.top_left.y <= 2_000_000_000,
            -2_000_000_000 <= f.bottom_right.x <= 2_000_000_000,
            -2_000_000_000 <= f.bottom_right.y <= 2_000_000_000,
            f.top_left.x < f.bottom_right.x,
            f.bottom_right.y < f.top_left.y,
            y <= f.top_left.y,
            f.bottom_right.y - (STARS_DENSITY as int) <= y,
            (f.top_left.y - y) % (STARS_DENSITY as int) == 0,
            forall|q: StarKey| map.contains_key(q) == (map0.contains_key(q) || (in_window(
                f,
                q.x as int,
                q.y as int,
            ) && q.y > y)),
            forall|i: int| 0 <= i < spawned@.len() ==> {
                &&& in_window(f, (#[trigger] spawned@[i]).key.x as int, spawned@[i].key.y as int)
                &&& spawned@[i].key.y > y
                &&& !map0.contains_key(spawned@[i].key)
                &&& cell_present(spawned@[i].key)
                &&& spawned@[i] == star_of(spawned@[i].key)
                &&& map.contains_key(spawned@[i].key)
            },
            forall|q: StarKey|
                (in_window(f, q.x as int, q.y as int) && q.y > y && !map0.contains_key(q)
                    && cell_present(q)) ==> exists|i: int|
                    0 <= i < spawned@.len() && (#[trigger] spawned@[i]).key == q,
            forall|i: int, j: int|
                0 <= i < j < spawned@.len() ==> (#[trigger] spawned@[i]).key != (
                #[trigger] spawned@[j]).key,
        decreases y + STARS_DENSITY - f.bottom_right.y,
    {
        let ghost spawned_row0 = spawned@;
        let ghost map_row0 = *map;
        scan_row(field, map, &mut spawned, y);
        proof {
            // rows already done stay done, this row is now done, and no
            // window row lies strictly between this row and the next
            assert forall|q: StarKey|
                map.contains_key(q) == (map0.contains_key(q) || (in_window(
                    f,
                    q.x as int,
                    q.y as int,
                ) && q.y > y - STARS_DENSITY)) by {
                assert(map_row0.contains_key(q) == (map0.contains_key(q) || (in_window(
                    f,
                    q.x as int,
                    q.y as int,
                ) && q.y > y)));
                assert(map.contains_key(q) == (map_row0.contains_key(q) || (in_window(
                    f,
                    q.x as int,
                    q.y as int,
                ) && q.y == y)));
                if in_window(f, q.x as int, q.y as int) && y - STARS_DENSITY < (q.y as int)
                    < y {
                    lemma_aligned_unique(
                        0,
                        f.top_left.y - y,
                        f.top_left.y - q.y,
                        STARS_DENSITY as int,
                    );
                }
            }
            // new stars of this row are distinct from all earlier ones:
            // earlier keys were already in the ledger when the row began
            assert forall|i: int, j: int|
                0 <= i < j < spawned@.len() implies (#[trigger] spawned@[i]).key != (
                #[trigger] spawned@[j]).key by {
                if i < spawned_row0.len() && j >= spawned_row0.len() {
                    assert(map_row0.contains_key(spawned@[i].key));
                    assert(!map_row0.contains_key(spawned@[j].key));
                }
            }
            // coverage carries over: earlier rows from before, this row from
            // the scan
            assert forall|q: StarKey|
                (in_window(f, q.x as int, q.y as int) && q.y > y - STARS_DENSITY && !map0
                    .contains_key(q) && cell_present(q)) implies exists|i: int|
                    0 <= i < spawned@.len() && (#[trigger] spawned@[i]).key == q by {
                if q.y > y {
                    let j = choose|j: int|
                        0 <= j < spawned_row0.len() && (#[trigger] spawned_row0[j]).key == q;
                    assert(spawned@[j].key == q);
                } else {
                    if (q.y as int) < y {
                        lemma_aligned_unique(
                            0,
                            f.top_left.y - y,
                            f.top_left.y - q.y,
                            STARS_DENSITY as int,
                        );
                    }
                    assert(q.y == y);
                    assert(map_row0.contains_key(q) == map0.contains_key(q));
                    let j = choose|j: int|
                        spawned_row0.len() <= j < spawned@.len() && (#[trigger] spawned@[j]).key
                            == q;
                }
            }
        }
        y -= STARS_DENSITY;
    }
    spawned
}

/// A star whose render position lies outside the current window bounds.
pub open spec fn star_outside(s: Star, f: VisibleStarField) -> bool {
    ||| s.position.x < f.top_left.x
    ||| s.position.x > f.bottom_right.x
    ||| s.position.y > f.top_left.y
    ||| s.position.y < f.bottom_right.y
}

/// The stars still inside the window, in their original order.
pub open spec fn kept_stars(ss: Seq<Star>, f: VisibleStarField) -> Seq<Star>
    decreases ss.len(),
{
    if ss.len() == 0 {
        Seq::empty()
    } else if star_outside(ss[0], f) {
        kept_stars(ss.drop_first(), f)
    } else {
        seq![ss[0]] + kept_stars(ss.drop_first(), f)
    }
}

/// The eviction pass: despawn every materialized star whose render
/// position fell outside the window, and erase its ledger entry so the
/// cell returns to the unseen state and can be re-evaluated identically
/// if revisited.
pub fn handle_star_despawning(field: &VisibleStarField, stars: &mut Vec<Star>, map: &mut StarMap)
    ensures
        final(stars)@ == kept_stars(old(stars)@, *field),
        forall|q: StarKey| final(map).contains_key(q) == (old(map).contains_key(q) && !(
        exists|i: int|
            0 <= i < old(stars)@.len() && star_outside(#[trigger] old(stars)@[i], *field) && old(
                stars,
            )@[i].key == q)),
{
    let ghost f = *field;
    let ghost orig = stars@;
    let mut kept: Vec<Star> = Vec::new();
    let n = stars.len();
    let mut i: usize = 0;
    proof {
        assert(orig.skip(0) =~= orig);
        assert(kept@ + kept_stars(orig, f) =~= kept_stars(orig, f));
    }
    while i < n
        invariant
            f == *field,
            n == orig.len(),
            stars@ == orig,
            0 <= i <= n,
            kept_stars(orig, f) == kept@ + kept_stars(orig.skip(i as int), f),
            forall|q: StarKey| map.contains_key(q) == (old(map).contains_key(q) && !(
            exists|j: int|
                0 <= j < i && star_outside(#[trigger] orig[j], f) && orig[j].key == q)),
        decreases n - i,
    {
        proof {
            assert(orig.skip(i as int).drop_first() =~= orig.skip(i as int + 1));
            assert(orig.skip(i as int)[0] == orig[i as int]);
        }
        let ghost kept_before = kept@;
        let ghost map_before = *map;
        let s = stars[i];
        let outside = s.position.x < field.top_left.x || s.position.x > field.bottom_right.x
            || s.position.y > field.top_left.y || s.position.y < field.bottom_right.y;
        if outside {
            map.remove(s.key);
        } else {
            kept.push(s);
            proof {
                let rest = kept_stars(orig.skip(i as int + 1), f);
                assert(kept@ =~= kept_before + seq![s]);
                assert((kept_before + seq![s]) + rest =~= kept_before + (seq![s] + rest));
            }
        }
        proof {
            assert forall|q: StarKey|
                map.contains_key(q) == (old(map).contains_key(q) && !(exists|j: int|
                    0 <= j < i + 1 && star_outside(#[trigger] orig[j], f) && orig[j].key
                        == q)) by {
                if exists|j: int|
                    0 <= j < i && star_outside(#[trigger] orig[j], f) && orig[j].key == q {
                    let j = choose|j: int|
                        0 <= j < i && star_outside(#[trigger] orig[j], f) && orig[j].key == q;
                    assert(star_outside(orig[j], f) && orig[j].key == q);
                }
            }
        }
        i += 1;
    }
    proof {
        assert(orig.skip(n as int) =~= Seq::<Star>::empty());
        assert(kept@ + kept_stars(orig.skip(n as int), f) =~= kept@);
    }
    *stars = kept;
}

/// Idempotent revisit: whether a pass materializes a cell depends only on
/// the window and on the ledger's entries for window cells.  After an
/// eviction cleared a region's entries, re-entering the region therefore
/// spawns exactly the cells the first visit spawned, and — the generator
/// being a pure function of the coordinate — each with the same star.
pub proof fn lemma_idempotent_revisit(
    f: VisibleStarField,
    ledger_a: spec_fn(StarKey) -> bool,
    ledger_b: spec_fn(StarKey) -> bool,
    k: StarKey,
)
    requires
        in_window(f, k.x as int, k.y as int) ==> ledger_a(k) == ledger_b(k),
    ensures
        (in_window(f, k.x as int, k.y as int) && !ledger_a(k) && cell_present(k)) == (in_window(
            f,
            k.x as int,
            k.y as int,
        ) && !ledger_b(k) && cell_present(k)),
{
}

} // verus!