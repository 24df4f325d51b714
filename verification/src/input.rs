//! The per-frame snapshot of directional and action intent that the
//! simulation consumes; an outside collaborator refreshes it from the
//! keyboard once per frame.

use vstd::prelude::*;

verus! {

/// Boolean intent flags, read-only to the core within a tick.
#[derive(Clone, Copy, PartialEq, Eq, Structural, Debug)]
pub struct InputState {
    pub up: bool,
    pub down: bool,
    pub left: bool,
    pub right: bool,
    pub idle: bool,
    pub shooting: bool,
    pub boost: bool,
}

/// The state before any key was seen: idle, nothing pressed.
pub fn setup() -> (s: InputState)
    ensures
        s == (InputState {
            up: false,
            down: false,
            left: false,
            right: false,
            idle: true,
            shooting: false,
            boost: false,
        }),
{
    InputState {
        up: false,
        down: false,
        left: false,
        right: false,
        idle: true,
        shooting: false,
        boost: false,
    }
}

/// Derive the intent flags from the pressed keys: the four directions map
/// one to one, idle means no direction is held, and boost is thrust with
/// the modifier held.
pub fn handle_input(
    state: &mut InputState,
    key_up: bool,
    key_down: bool,
    key_left: bool,
    key_right: bool,
    key_fire: bool,
    key_boost: bool,
)
    ensures
        final(state).up == key_up,
        final(state).down == key_down,
        final(state).left == key_left,
        final(state).right == key_right,
        final(state).idle == (!key_up && !key_down && !key_left && !key_right),
        final(state).shooting == key_fire,
        final(state).boost == (key_up && key_boost),
{
    state.up = key_up;
    state.down = key_down;
    state.left = key_left;
    state.right = key_right;
    state.idle = !key_up && !key_down && !key_left && !key_right;
    state.shooting = key_fire;
    state.boost = key_up && key_boost;
}

} // verus!
