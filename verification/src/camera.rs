//! Camera state: zoom easing with shake on boost, the follow rule that
//! trails the ship, and the viewport tracker that derives the visible
//! world-space region from the camera transform and zoom.

use crate::geom::{mul_div_floor, Vec2i};
use crate::input::InputState;
use crate::physics::{in_range, Position, TPS_LIMIT, WORLD_LIMIT};
use crate::rng::draw_in_range;
use crate::timing::{Timer, MAX_DELTA};
use vstd::prelude::*;

verus! {

/// Zoom scales are in milli-units: 1000 is 1.0.
pub const ZOOM_LIMIT: i64 = 1_000_000;

/// Half-extent components of the projection stay within this bound.
pub const EXTENT_LIMIT: i64 = 1_000_000;

/// Marker for the camera entity.
#[derive(Clone, Copy, PartialEq, Eq, Structural, Debug)]
pub struct Camera;

/// Tunables and transient state of the camera.
#[derive(Clone, Copy, PartialEq, Eq, Structural, Debug)]
pub struct CameraData {
    /// The zoom the easing is heading for, milli-units.
    pub target_scale: i64,
    /// Easing speed, milli-units per second.
    pub zoom_speed: i64,
    /// Configured travel speed, world units per second.
    pub move_speed: i64,
    /// Whether the camera is shaking this frame.
    pub shake: bool,
    /// Repeating timer gating shake displacements.
    pub shake_timer: Timer,
    pub max_zoom: i64,
    pub min_zoom: i64,
}

impl CameraData {
    pub open spec fn wf(self) -> bool {
        &&& self.shake_timer.wf()
        &&& self.shake_timer.repeating
        &&& 0 <= self.min_zoom <= self.max_zoom <= ZOOM_LIMIT
        &&& 0 <= self.zoom_speed <= ZOOM_LIMIT
        &&& 0 <= self.target_scale <= ZOOM_LIMIT
    }
}

/// The rectangle of world space the camera shows, recomputed every frame
/// and rewritten only when its value actually changes.
#[derive(Clone, Copy, PartialEq, Eq, Structural, Debug)]
pub struct VisibleSpace {
    pub top_left: Vec2i,
    pub bottom_right: Vec2i,
}

/// Initial camera state: zoomed to 0.9, easing at 0.75 per second, shake
/// off, and an empty visible region.
pub fn spawn_camera(shake_period_ticks: u64) -> (r: (CameraData, Position, VisibleSpace))
    requires
        1 <= shake_period_ticks <= MAX_DELTA,
    ensures
        r.0 == (CameraData {
            target_scale: 900,
            zoom_speed: 750,
            move_speed: 500,
            shake: false,
            shake_timer: Timer { elapsed: 0, duration: shake_period_ticks, repeating: true },
            max_zoom: 1500,
            min_zoom: 900,
        }),
        r.0.wf(),
        r.1.current == (Vec2i { x: 0, y: 0 }),
        r.1.previous == (Vec2i { x: 0, y: 0 }),
        r.1.carry == (Vec2i { x: 0, y: 0 }),
        r.2 == (VisibleSpace {
            top_left: Vec2i { x: 0, y: 0 },
            bottom_right: Vec2i { x: 0, y: 0 },
        }),
{
    let data = CameraData {
        target_scale: 900,
        zoom_speed: 750,
        move_speed: 500,
        shake: false,
        shake_timer: Timer::new(shake_period_ticks, true),
        max_zoom: 1500,
        min_zoom: 900,
    };
    let pos = Position::at(Vec2i { x: 0, y: 0 });
    let visible = VisibleSpace {
        top_left: Vec2i { x: 0, y: 0 },
        bottom_right: Vec2i { x: 0, y: 0 },
    };
    (data, pos, visible)
}

/// One frame of zoom easing toward `target`: move by `speed * delta / tps`
/// in the target's direction, clamping at the configured bound the target
/// sits on.
pub open spec fn zoom_step_spec(
    scale: int,
    target: int,
    speed: int,
    delta: int,
    tps: int,
    min_zoom: int,
    max_zoom: int,
) -> int {
    if scale == target {
        scale
    } else {
        let amt = speed * delta / tps;
        let moved = if target > scale {
            scale + amt
        } else {
            scale - amt
        };
        if target == min_zoom && moved < min_zoom {
            min_zoom
        } else if target == max_zoom && moved > max_zoom {
            max_zoom
        } else {
            moved
        }
    }
}

/// Per-frame camera update.  Boost retargets the zoom to its far bound and
/// turns shake on; the zoom eases toward the target read at frame entry;
/// while shaking, each expiry of the shake timer displaces the camera by a
/// small bounded random offset, buffering the old position for
/// interpolation.
pub fn move_camera(
    scale: &mut i64,
    data: &mut CameraData,
    pos: &mut Position,
    input: &InputState,
    delta: u64,
    tps: u64,
)
    requires
        1 <= tps <= TPS_LIMIT,
        delta <= 1000 * tps,
        old(data).wf(),
        -2_000_000_000 <= *old(scale) <= 2_000_000_000,
        in_range(old(pos).current, WORLD_LIMIT as int),
    ensures
        final(data).wf(),
        final(data).target_scale == if input.boost {
            old(data).max_zoom
        } else {
            old(data).min_zoom
        },
        final(data).shake == input.boost,
        final(data).min_zoom == old(data).min_zoom,
        final(data).max_zoom == old(data).max_zoom,
        final(data).zoom_speed == old(data).zoom_speed,
        final(data).move_speed == old(data).move_speed,
        *final(scale) == zoom_step_spec(
            *old(scale) as int,
            old(data).target_scale as int,
            old(data).zoom_speed as int,
            delta as int,
            tps as int,
            old(data).min_zoom as int,
            old(data).max_zoom as int,
        ),
        -3_000_000_000 <= *final(scale) <= 3_000_000_000,
        input.boost ==> {
            &&& final(data).shake_timer.duration == old(data).shake_timer.duration
            &&& final(data).shake_timer.repeating
            &&& final(data).shake_timer.elapsed == (old(data).shake_timer.elapsed + delta) % (
            old(data).shake_timer.duration as int)
            &&& if old(data).shake_timer.elapsed + delta >= old(data).shake_timer.duration {
                &&& final(pos).previous == old(pos).current
                &&& final(pos).carry == old(pos).carry
                &&& -7 <= final(pos).current.x - old(pos).current.x < 7
                &&& -20 <= final(pos).current.y - old(pos).current.y < 20
            } else {
                *final(pos) == *old(pos)
            }
        },
        !input.boost ==> {
            &&& final(data).shake_timer == old(data).shake_timer
            &&& *final(pos) == *old(pos)
        },
{
    let target = data.target_scale;
    if input.boost {
        data.target_scale = data.max_zoom;
        data.shake = true;
    } else {
        data.target_scale = data.min_zoom;
        data.shake = false;
    }

    // ease the zoom toward the target read at frame entry
    if *scale != target {
        let amt = mul_div_floor(data.zoom_speed, delta, tps);
        if target > *scale {
            *scale = *scale + amt;
        } else {
            *scale = *scale - amt;
        }
        if target == data.min_zoom && *scale < data.min_zoom {
            *scale = data.min_zoom;
        } else if target == data.max_zoom && *scale > data.max_zoom {
            *scale = data.max_zoom;
        }
    }

    // shake: bounded random displacement on each timer expiry
    if data.shake {
        let fired = data.shake_timer.tick(delta);
        if fired {
            let dx = draw_in_range(-7, 7);
            let dy = draw_in_range(-20, 20);
            pos.previous = pos.current;
            pos.current = Vec2i { x: pos.current.x + dx, y: pos.current.y + dy };
        }
    }
}

/// The camera trails the player: each frame it moves toward the player at
/// four gap-lengths per second, plus a constant upward drift, buffering
/// its old position for interpolation.
pub fn camera_follow(cam: &mut Position, player: &Position, delta: u64, tps: u64)
    requires
        1 <= tps <= TPS_LIMIT,
        delta <= 250 * tps,
        in_range(old(cam).current, WORLD_LIMIT as int),
        in_range(player.current, WORLD_LIMIT as int),
    ensures
        final(cam).previous == old(cam).current,
        final(cam).carry == old(cam).carry,
        final(cam).current.x == old(cam).current.x + (player.current.x - old(cam).current.x) * (4
            * delta) / (tps as int),
        final(cam).current.y == old(cam).current.y + (player.current.y - old(cam).current.y) * (4
            * delta) / (tps as int) + 5,
{
    let dx: i64 = player.current.x - cam.current.x;
    let dy: i64 = player.current.y - cam.current.y;
    let mx = mul_div_floor(dx, 4 * delta, tps);
    let my = mul_div_floor(dy, 4 * delta, tps);
    cam.previous = cam.current;
    cam.current = Vec2i { x: cam.current.x + mx, y: cam.current.y + my + 5 };
}

/// The region the camera shows: `center ± half_extent * scale` on each
/// axis, with the y axis pointing up.
pub open spec fn visible_space_spec(cam: Vec2i, half: Vec2i, scale: int) -> VisibleSpace {
    let hx = half.x * scale / 1000;
    let hy = half.y * scale / 1000;
    VisibleSpace {
        top_left: Vec2i { x: (cam.x - hx) as i64, y: (cam.y + hy) as i64 },
        bottom_right: Vec2i { x: (cam.x + hx) as i64, y: (cam.y - hy) as i64 },
    }
}

/// Recompute the visible region from the interpolated camera position and
/// zoom, writing it only when the value actually changed, so downstream
/// consumers can react to changes instead of rescanning every frame.
pub fn update_visible_space(
    cam: Vec2i,
    half_extents: Vec2i,
    scale: i64,
    visible: &mut VisibleSpace,
) -> (changed: bool)
    requires
        in_range(cam, WORLD_LIMIT as int),
        0 <= half_extents.x <= EXTENT_LIMIT,
        0 <= half_extents.y <= EXTENT_LIMIT,
        0 <= scale <= ZOOM_LIMIT,
    ensures
        *final(visible) == visible_space_spec(cam, half_extents, scale as int),
        changed == (*old(visible) != visible_space_spec(cam, half_extents, scale as int)),
{
    let hx = mul_div_floor(half_extents.x, scale as u64, 1000);
    let hy = mul_div_floor(half_extents.y, scale as u64, 1000);
    let top_left = Vec2i { x: cam.x - hx, y: cam.y + hy };
    let bottom_right = Vec2i { x: cam.x + hx, y: cam.y - hy };
    let changed = visible.top_left != top_left || visible.bottom_right != bottom_right;
    if changed {
        visible.top_left = top_left;
        visible.bottom_right = bottom_right;
    }
    changed
}

} // verus!
