use wgpu_3d_viewer::camera::{MoveKey, MovementState};

fn flag(state: &MovementState, name: &str) -> bool {
    match name {
        "moving_forward" => state.moving_forward,
        "moving_backward" => state.moving_backward,
        "moving_left" => state.moving_left,
        "moving_right" => state.moving_right,
        "moving_up" => state.moving_up,
        "moving_down" => state.moving_down,
        _ => unreachable!(),
    }
}

#[test]
fn test_keyboard_input() {
    let mut camera = MovementState::new();

    let test_cases = [
        (MoveKey::KeyW, "moving_forward"),
        (MoveKey::KeyS, "moving_backward"),
        (MoveKey::KeyA, "moving_left"),
        (MoveKey::KeyD, "moving_right"),
        (MoveKey::Space, "moving_up"),
        (MoveKey::ShiftLeft, "moving_down"),
    ];

    for (key, flag_name) in test_cases {
        camera.process_keyboard(key, true);
        assert!(flag(&camera, flag_name), "Key {:?} did not set {} flag", key, flag_name);

        camera.process_keyboard(key, false);
        assert!(!flag(&camera, flag_name), "Key {:?} did not clear {} flag", key, flag_name);
    }
}

#[test]
fn movement_starts_at_rest() {
    let s = MovementState::new();
    assert!(!s.moving_forward && !s.moving_backward && !s.moving_left);
    assert!(!s.moving_right && !s.moving_up && !s.moving_down);
}

#[test]
fn key_touches_only_its_flag() {
    let mut s = MovementState::new();
    s.process_keyboard(MoveKey::KeyA, true);
    s.process_keyboard(MoveKey::Space, true);
    assert!(s.moving_left && s.moving_up);
    assert!(!s.moving_forward && !s.moving_backward && !s.moving_right && !s.moving_down);
    s.process_keyboard(MoveKey::KeyA, false);
    assert!(!s.moving_left && s.moving_up);
    let before = s;
    s.process_keyboard(MoveKey::Other, true);
    assert_eq!(s, before);
}
