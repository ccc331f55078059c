use good_web_game::input::input_handler::{InputHandler, MouseButton, QuadMouseButton};

#[test]
fn quad_buttons_map_to_library_buttons() {
    assert_eq!(MouseButton::from(QuadMouseButton::Left), MouseButton::Left);
    assert_eq!(MouseButton::from(QuadMouseButton::Right), MouseButton::Right);
    assert_eq!(MouseButton::from(QuadMouseButton::Middle), MouseButton::Middle);
    assert_eq!(MouseButton::from(QuadMouseButton::Unknown), MouseButton::Button4);
}

#[test]
fn key_down_is_held_and_pressed_this_frame() {
    let mut h = InputHandler::new();
    assert!(!h.is_key_pressed("KeyW"));
    assert!(!h.is_key_down("KeyW"));
    h.handle_key_down("KeyW".to_string());
    assert!(h.is_key_pressed("KeyW"));
    assert!(h.is_key_down("KeyW"));
    assert!(!h.is_key_pressed("KeyS"));
}

#[test]
fn end_of_frame_forgets_presses_but_not_held_keys() {
    let mut h = InputHandler::new();
    h.handle_key_down("KeyW".to_string());
    h.handle_end_frame();
    assert!(h.is_key_pressed("KeyW"));
    assert!(!h.is_key_down("KeyW"));
}

#[test]
fn key_tap_within_a_frame() {
    let mut h = InputHandler::new();
    h.handle_key_down("Space".to_string());
    h.handle_key_up("Space".to_string());
    assert!(!h.is_key_pressed("Space"));
    assert!(h.is_key_down("Space"));
}

#[test]
fn repeated_key_down_keeps_one_entry() {
    let mut h = InputHandler::new();
    h.handle_key_down("KeyA".to_string());
    h.handle_key_down("KeyA".to_string());
    h.handle_key_up("KeyA".to_string());
    assert!(!h.is_key_pressed("KeyA"));
}

#[test]
fn mouse_buttons_down_and_up() {
    let mut h = InputHandler::new();
    assert!(!h.is_mouse_key_down(&MouseButton::Left));
    h.handle_mouse_down(QuadMouseButton::Left);
    h.handle_mouse_down(QuadMouseButton::Unknown);
    assert!(h.is_mouse_key_down(&MouseButton::Left));
    assert!(h.is_mouse_key_down(&MouseButton::Button4));
    assert!(!h.is_mouse_key_down(&MouseButton::Right));
    h.handle_mouse_down(QuadMouseButton::Left);
    h.handle_mouse_up(QuadMouseButton::Left);
    assert!(!h.is_mouse_key_down(&MouseButton::Left));
    assert!(h.is_mouse_key_down(&MouseButton::Button4));
    h.handle_mouse_up(QuadMouseButton::Right);
    assert!(h.is_mouse_key_down(&MouseButton::Button4));
}
