use vstd::prelude::*;

verus! {

/// The keys that steer the camera; every other key is `Other`.
#[derive(Debug, Clone, Copy, PartialEq, Eq, Structural)]
pub enum MoveKey {
    KeyW,
    KeyS,
    KeyA,
    KeyD,
    Space,
    ShiftLeft,
    Other,
}

/// Which directions the camera is currently moving in.
#[derive(Debug, Clone, Copy, PartialEq, Eq, Structural)]
pub struct MovementState {
    pub moving_forward: bool,
    pub moving_backward: bool,
    pub moving_left: bool,
    pub moving_right: bool,
    pub moving_up: bool,
    pub moving_down: bool,
}

/// The movement state after `key` went down (`pressed`) or up: W, S, A, D,
/// Space and left Shift drive forward, backward, left, right, up and down.
pub open spec fn apply_key(s: MovementState, key: MoveKey, pressed: bool) -> MovementState {
    match key {
        MoveKey::KeyW => MovementState { moving_forward: pressed, ..s },
        MoveKey::KeyS => MovementState { moving_backward: pressed, ..s },
        MoveKey::KeyA => MovementState { moving_left: pressed, ..s },
        MoveKey::KeyD => MovementState { moving_right: pressed, ..s },
        MoveKey::Space => MovementState { moving_up: pressed, ..s },
        MoveKey::ShiftLeft => MovementState { moving_down: pressed, ..s },
        MoveKey::Other => s,
    }
}

/// The flag that `key` drives, if any.
pub open spec fn key_flag(s: MovementState, key: MoveKey) -> Option<bool> {
    match key {
        MoveKey::KeyW => Some(s.moving_forward),
        MoveKey::KeyS => Some(s.moving_backward),
        MoveKey::KeyA => Some(s.moving_left),
        MoveKey::KeyD => Some(s.moving_right),
        MoveKey::Space => Some(s.moving_up),
        MoveKey::ShiftLeft => Some(s.moving_down),
        MoveKey::Other => None,
    }
}

impl MovementState {
    /// At rest: no direction is active.
    pub fn new() -> (s: Self)
        ensures
            !s.moving_forward && !s.moving_backward && !s.moving_left && !s.moving_right
                && !s.moving_up && !s.moving_down,
    {
        MovementState {
            moving_forward: false,
            moving_backward: false,
            moving_left: false,
            moving_right: false,
            moving_up: false,
            moving_down: false,
        }
    }

    /// Records that `key` went down (`pressed`) or up.
    pub fn process_keyboard(&mut self, key: MoveKey, pressed: bool)
        ensures
            *final(self) == apply_key(*old(self), key, pressed),
    {
        match key {
            MoveKey::KeyW => self.moving_forward = pressed,
            MoveKey::KeyS => self.moving_backward = pressed,
            MoveKey::KeyA => self.moving_left = pressed,
            MoveKey::KeyD => self.moving_right = pressed,
            MoveKey::Space => self.moving_up = pressed,
            MoveKey::ShiftLeft => self.moving_down = pressed,
            MoveKey::Other => {},
        }
    }
}

/// A key drives exactly its own flag: pressing sets it, releasing clears it,
/// and the other flags keep their values; a press followed by a release
/// leaves the state as a release alone would.
pub proof fn key_press_release(s: MovementState, key: MoveKey)
    ensures
        key_flag(s, key) is Some ==> key_flag(apply_key(s, key, true), key) == Some(true),
        key_flag(s, key) is Some ==> key_flag(apply_key(s, key, false), key) == Some(false),
        forall|other: MoveKey|
            other != key && key_flag(s, other) is Some ==> #[trigger] key_flag(apply_key(s, key, true), other)
                == key_flag(s, other),
        apply_key(apply_key(s, key, true), key, false) == apply_key(s, key, false),
{
}

} // verus!
