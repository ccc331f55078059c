use good_web_game::event::keycode::KeyCode;
use good_web_game::event::ErrorOrigin;

#[test]
fn browser_codes_name_their_keys() {
    assert_eq!(KeyCode::from_code("KeyA"), KeyCode::A);
    assert_eq!(KeyCode::from_code("Digit1"), KeyCode::Key1);
    assert_eq!(KeyCode::from_code("Digit0"), KeyCode::Key0);
    assert_eq!(KeyCode::from_code("Escape"), KeyCode::Escape);
    assert_eq!(KeyCode::from_code("F12"), KeyCode::F12);
    assert_eq!(KeyCode::from_code("ArrowUp"), KeyCode::Up);
    assert_eq!(KeyCode::from_code("Enter"), KeyCode::Return);
    assert_eq!(KeyCode::from_code("Space"), KeyCode::Space);
    assert_eq!(KeyCode::from_code("Numpad0"), KeyCode::Numpad0);
    assert_eq!(KeyCode::from_code("ShiftLeft"), KeyCode::LShift);
    assert_eq!(KeyCode::from_code("Paste"), KeyCode::Paste);
}

#[test]
fn unknown_codes_are_unlabeled() {
    assert_eq!(KeyCode::from_code("Nope"), KeyCode::Unlabeled);
    assert_eq!(KeyCode::from_code(""), KeyCode::Unlabeled);
    assert_eq!(KeyCode::from_code("keya"), KeyCode::Unlabeled);
    assert_eq!(KeyCode::from_code("KeyAA"), KeyCode::Unlabeled);
}

#[test]
fn default_is_prevented_for_scrolling_and_escape_keys() {
    assert!(KeyCode::Space.prevent_default());
    assert!(KeyCode::PageUp.prevent_default());
    assert!(KeyCode::PageDown.prevent_default());
    assert!(KeyCode::Escape.prevent_default());
    assert!(!KeyCode::A.prevent_default());
    assert!(!KeyCode::Up.prevent_default());
    assert!(!KeyCode::Unlabeled.prevent_default());
}

#[test]
fn error_origins_differ() {
    assert_ne!(ErrorOrigin::Update, ErrorOrigin::Draw);
    assert_eq!(ErrorOrigin::Draw, ErrorOrigin::Draw);
}
