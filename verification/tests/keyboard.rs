use good_web_game::input::keyboard::{
    KeyCode, KeyMods, KeyboardContext, ALT_BIT, CTRL_BIT, LOGO_BIT, SHIFT_BIT,
};

#[test]
fn keymods_bits_and_set_operations() {
    assert_eq!(KeyMods::empty().bits(), 0);
    assert_eq!(KeyMods::shift().bits(), SHIFT_BIT);
    assert_eq!(KeyMods::ctrl().bits(), CTRL_BIT);
    assert_eq!(KeyMods::alt().bits(), ALT_BIT);
    assert_eq!(KeyMods::logo().bits(), LOGO_BIT);
    assert!(KeyMods::empty().is_empty());
    assert!(!KeyMods::shift().is_empty());

    let shift_ctrl = KeyMods::shift().union(KeyMods::ctrl());
    assert_eq!(shift_ctrl.bits(), 0b0011);
    assert!(shift_ctrl.contains(KeyMods::shift()));
    assert!(shift_ctrl.contains(KeyMods::ctrl()));
    assert!(!shift_ctrl.contains(KeyMods::alt()));
    assert!(shift_ctrl.contains(KeyMods::empty()));
    assert_eq!(shift_ctrl.difference(KeyMods::shift()), KeyMods::ctrl());
    assert_eq!(KeyMods::ctrl().difference(KeyMods::shift()), KeyMods::ctrl());
}

#[test]
fn keymods_from_flags_sets_one_bit_per_flag() {
    assert_eq!(KeyMods::from_flags(false, false, false, false), KeyMods::empty());
    assert_eq!(KeyMods::from_flags(true, false, false, false), KeyMods::shift());
    assert_eq!(KeyMods::from_flags(false, true, false, false), KeyMods::ctrl());
    assert_eq!(KeyMods::from_flags(false, false, true, false), KeyMods::alt());
    assert_eq!(KeyMods::from_flags(false, false, false, true), KeyMods::logo());
    assert_eq!(KeyMods::from_flags(true, true, true, true).bits(), 0b1111);
}

#[test]
fn new_keyboard_has_nothing_pressed() {
    let kc = KeyboardContext::new();
    assert!(!kc.is_key_pressed(KeyCode::A));
    assert!(kc.pressed_keys().is_empty());
    assert!(!kc.is_key_repeated());
    assert_eq!(kc.active_mods(), KeyMods::empty());
}

#[test]
fn pressing_and_releasing_keys() {
    let mut kc = KeyboardContext::new();
    kc.set_key(KeyCode::A, true);
    kc.set_key(KeyCode::B, true);
    assert!(kc.is_key_pressed(KeyCode::A));
    assert!(kc.is_key_pressed(KeyCode::B));
    assert!(!kc.is_key_pressed(KeyCode::C));
    assert_eq!(kc.pressed_keys().len(), 2);
    kc.set_key(KeyCode::A, false);
    assert!(!kc.is_key_pressed(KeyCode::A));
    assert!(kc.is_key_pressed(KeyCode::B));
    assert_eq!(kc.pressed_keys(), &[KeyCode::B]);
    // releasing a key that is not held changes nothing in the set
    kc.set_key(KeyCode::C, false);
    assert_eq!(kc.pressed_keys(), &[KeyCode::B]);
}

#[test]
fn a_held_key_is_pressed_once() {
    let mut kc = KeyboardContext::new();
    kc.set_key(KeyCode::Space, true);
    kc.set_key(KeyCode::Space, true);
    assert_eq!(kc.pressed_keys(), &[KeyCode::Space]);
}

#[test]
fn key_repeat_is_the_same_key_twice_in_a_row() {
    let mut kc = KeyboardContext::new();
    kc.set_key(KeyCode::A, true);
    assert!(!kc.is_key_repeated());
    kc.set_key(KeyCode::A, true);
    assert!(kc.is_key_repeated());
    kc.set_key(KeyCode::B, true);
    assert!(!kc.is_key_repeated());
    kc.set_key(KeyCode::B, false);
    assert!(!kc.is_key_repeated());
}

#[test]
fn modifier_keys_set_and_clear_their_bits() {
    let mut kc = KeyboardContext::new();
    kc.set_key(KeyCode::LeftShift, true);
    assert!(kc.is_mod_active(KeyMods::shift()));
    assert!(!kc.is_mod_active(KeyMods::ctrl()));
    kc.set_key(KeyCode::RightControl, true);
    assert!(kc.is_mod_active(KeyMods::shift().union(KeyMods::ctrl())));
    assert_eq!(kc.active_mods().bits(), SHIFT_BIT | CTRL_BIT);
    // releasing the other shift key clears the shift bit as well
    kc.set_key(KeyCode::RightShift, false);
    assert!(!kc.is_mod_active(KeyMods::shift()));
    assert!(kc.is_mod_active(KeyMods::ctrl()));
    kc.set_key(KeyCode::LeftAlt, true);
    kc.set_key(KeyCode::LeftSuper, true);
    assert_eq!(kc.active_mods().bits(), CTRL_BIT | ALT_BIT | LOGO_BIT);
    // an ordinary key leaves the modifiers alone
    kc.set_key(KeyCode::Escape, true);
    assert_eq!(kc.active_mods().bits(), CTRL_BIT | ALT_BIT | LOGO_BIT);
    assert!(kc.is_mod_active(KeyMods::empty()));
}
