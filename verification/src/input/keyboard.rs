//! Tracks held down keyboard keys, active keyboard modifiers, and whether the
//! system is sending repeat keystrokes.

use vstd::prelude::*;

use crate::seq_set::{lemma_insert_present, lemma_push_fresh, lemma_remove_absent, lemma_remove_at};

verus! {

/// A physical key, as the windowing layer reports it.
#[derive(Debug, Copy, Clone, PartialEq, Eq, Structural, Hash)]
pub enum KeyCode {
    Space,
    Apostrophe,
    Comma,
    Minus,
    Period,
    Slash,
    Key0,
    Key1,
    Key2,
    Key3,
    Key4,
    Key5,
    Key6,
    Key7,
    Key8,
    Key9,
    Semicolon,
    Equal,
    A,
    B,
    C,
    D,
    E,
    F,
    G,
    H,
    I,
    J,
    K,
    L,
    M,
    N,
    O,
    P,
    Q,
    R,
    S,
    T,
    U,
    V,
    W,
    X,
    Y,
    Z,
    LeftBracket,
    Backslash,
    RightBracket,
    GraveAccent,
    World1,
    World2,
    Escape,
    Enter,
    Tab,
    Backspace,
    Insert,
    Delete,
    Right,
    Left,
    Down,
    Up,
    PageUp,
    PageDown,
    Home,
    End,
    CapsLock,
    ScrollLock,
    NumLock,
    PrintScreen,
    Pause,
    F1,
    F2,
    F3,
    F4,
    F5,
    F6,
    F7,
    F8,
    F9,
    F10,
    F11,
    F12,
    F13,
    F14,
    F15,
    F16,
    F17,
    F18,
    F19,
    F20,
    F21,
    F22,
    F23,
    F24,
    F25,
    Kp0,
    Kp1,
    Kp2,
    Kp3,
    Kp4,
    Kp5,
    Kp6,
    Kp7,
    Kp8,
    Kp9,
    KpDecimal,
    KpDivide,
    KpMultiply,
    KpSubtract,
    KpAdd,
    KpEnter,
    KpEqual,
    LeftShift,
    LeftControl,
    LeftAlt,
    LeftSuper,
    RightShift,
    RightControl,
    RightAlt,
    RightSuper,
    Menu,
    Unknown,
}

/// Bitflags describing the state of keyboard modifiers, such as `Control` or `Shift`.
#[derive(Debug, Copy, Clone, PartialEq, Eq, Structural, Hash)]
pub struct KeyMods {
    bits: u8,
}

/// The bit of the Shift modifier.
pub const SHIFT_BIT: u8 = 0b0000_0001;
/// The bit of the Control modifier.
pub const CTRL_BIT: u8 = 0b0000_0010;
/// The bit of the Alt modifier.
pub const ALT_BIT: u8 = 0b0000_0100;
/// The bit of the Win/Cmd/equivalent modifier.
pub const LOGO_BIT: u8 = 0b0000_1000;

impl View for KeyMods {
    type V = u8;

    closed spec fn view(&self) -> u8 {
        self.bits
    }
}

impl KeyMods {
    /// No modifiers.
    pub fn empty() -> (m: KeyMods)
        ensures
            m@ == 0,
    {
        KeyMods { bits: 0 }
    }

    /// Left or right Shift key.
    pub fn shift() -> (m: KeyMods)
        ensures
            m@ == SHIFT_BIT,
    {
        KeyMods { bits: SHIFT_BIT }
    }

    /// Left or right Control key.
    pub fn ctrl() -> (m: KeyMods)
        ensures
            m@ == CTRL_BIT,
    {
        KeyMods { bits: CTRL_BIT }
    }

    /// Left or right Alt key.
    pub fn alt() -> (m: KeyMods)
        ensures
            m@ == ALT_BIT,
    {
        KeyMods { bits: ALT_BIT }
    }

    /// Left or right Win/Cmd/equivalent key.
    pub fn logo() -> (m: KeyMods)
        ensures
            m@ == LOGO_BIT,
    {
        KeyMods { bits: LOGO_BIT }
    }

    /// The raw bits.
    pub fn bits(&self) -> (b: u8)
        ensures
            b == self@,
    {
        self.bits
    }

    /// Whether no modifier is set.
    pub fn is_empty(&self) -> (b: bool)
        ensures
            b == (self@ == 0),
    {
        self.bits == 0
    }

    /// Whether every modifier of `other` is set in `self`.
    pub fn contains(&self, other: KeyMods) -> (b: bool)
        ensures
            b == (self@ & other@ == other@),
    {
        self.bits & other.bits == other.bits
    }

    /// The modifiers set in either.
    pub fn union(self, other: KeyMods) -> (m: KeyMods)
        ensures
            m@ == self@ | other@,
    {
        KeyMods { bits: self.bits | other.bits }
    }

    /// The modifiers of `self` that are not set in `other`.
    pub fn difference(self, other: KeyMods) -> (m: KeyMods)
        ensures
            m@ == self@ & !other@,
    {
        KeyMods { bits: self.bits & !other.bits }
    }

    /// Builds the modifier set from one flag per modifier, as the windowing
    /// layer reports them.
    pub fn from_flags(shift: bool, ctrl: bool, alt: bool, logo: bool) -> (m: KeyMods)
        ensures
            (m@ & SHIFT_BIT == SHIFT_BIT) == shift,
            (m@ & CTRL_BIT == CTRL_BIT) == ctrl,
            (m@ & ALT_BIT == ALT_BIT) == alt,
            (m@ & LOGO_BIT == LOGO_BIT) == logo,
            m@ & 0xf0 == 0,
    {
        let s: u8 = if shift { SHIFT_BIT } else { 0 };
        let c: u8 = if ctrl { CTRL_BIT } else { 0 };
        let a: u8 = if alt { ALT_BIT } else { 0 };
        let l: u8 = if logo { LOGO_BIT } else { 0 };
        let bits: u8 = s | c | a | l;
        assert(
            (bits & 1u8 == 1u8) == shift && (bits & 2u8 == 2u8) == ctrl && (bits & 4u8 == 4u8) == alt
                && (bits & 8u8 == 8u8) == logo && bits & 0xf0u8 == 0u8
        ) by (bit_vector)
            requires
                bits == s | c | a | l,
                s == (if shift { 1u8 } else { 0u8 }),
                c == (if ctrl { 2u8 } else { 0u8 }),
                a == (if alt { 4u8 } else { 0u8 }),
                l == (if logo { 8u8 } else { 0u8 }),
        ;
        KeyMods { bits }
    }
}


/// The modifier bit that a key stands for, or 0 for a key that is no modifier.
pub open spec fn modifier_bit(key: KeyCode) -> u8 {
    match key {
        KeyCode::LeftShift | KeyCode::RightShift => SHIFT_BIT,
        KeyCode::LeftControl | KeyCode::RightControl => CTRL_BIT,
        KeyCode::LeftAlt | KeyCode::RightAlt => ALT_BIT,
        KeyCode::LeftSuper | KeyCode::RightSuper => LOGO_BIT,
        _ => 0,
    }
}

/// The modifiers after `key` was pressed or released: a modifier key sets its
/// bit when pressed and clears it when released (either side clears it).
pub open spec fn next_mods(mods: u8, key: KeyCode, pressed: bool) -> u8 {
    if pressed {
        mods | modifier_bit(key)
    } else {
        mods & !modifier_bit(key)
    }
}

/// Tracks held down keyboard keys, active keyboard modifiers,
/// and figures out if the system is sending repeat keystrokes.
#[derive(Clone, Debug)]
pub struct KeyboardContext {
    active_modifiers: KeyMods,
    /// The keys that are held down, each once.
    pressed_keys_set: Vec<KeyCode>,
    // These two are necessary for tracking key-repeat.
    last_pressed: Option<KeyCode>,
    current_pressed: Option<KeyCode>,
}

impl KeyboardContext {
    /// The keys that are held down.
    pub closed spec fn pressed(&self) -> Set<KeyCode> {
        self.pressed_keys_set@.to_set()
    }

    /// The active modifier bits.
    pub closed spec fn mods(&self) -> u8 {
        self.active_modifiers@
    }

    /// The key pressed before the current one, as of the last key press.
    pub closed spec fn last(&self) -> Option<KeyCode> {
        self.last_pressed
    }

    /// The key pressed most recently, or `None` after a release.
    pub closed spec fn current(&self) -> Option<KeyCode> {
        self.current_pressed
    }

    pub closed spec fn wf(&self) -> bool {
        self.pressed_keys_set@.no_duplicates()
    }

    /// Whether the last keystroke repeats the one before it.
    pub open spec fn repeated(&self) -> bool {
        self.last() is Some && self.last() == self.current()
    }

    /// `post` is `pre` after `key` was pressed (`pressed`) or released.
    pub open spec fn key_step(pre: Self, post: Self, key: KeyCode, pressed: bool) -> bool {
        &&& post.wf()
        &&& post.pressed() == if pressed { pre.pressed().insert(key) } else { pre.pressed().remove(key) }
        &&& post.last() == if pressed { pre.current() } else { pre.last() }
        &&& post.current() == if pressed { Some(key) } else { None::<KeyCode> }
        &&& post.mods() == next_mods(pre.mods(), key, pressed)
    }

    /// No key held, no modifier active.
    pub fn new() -> (kc: Self)
        ensures
            kc.wf(),
            kc.pressed() == Set::<KeyCode>::empty(),
            kc.mods() == 0,
            kc.last() is None,
            kc.current() is None,
    {
        let kc = KeyboardContext {
            active_modifiers: KeyMods::empty(),
            pressed_keys_set: Vec::new(),
            last_pressed: None,
            current_pressed: None,
        };
        assert(kc.pressed_keys_set@.to_set() =~= Set::<KeyCode>::empty());
        kc
    }

    /// Records that `key` was pressed (`pressed`) or released.
    pub fn set_key(&mut self, key: KeyCode, pressed: bool)
        requires
            old(self).wf(),
        ensures
            Self::key_step(*old(self), *final(self), key, pressed),
    {
        let ghost old_keys = self.pressed_keys_set@;
        let mut i: usize = 0;
        let n = self.pressed_keys_set.len();
        while i < n
            invariant
                n == self.pressed_keys_set@.len(),
                self.pressed_keys_set@ == old_keys,
                i <= n,
                forall|j: int| 0 <= j < i ==> self.pressed_keys_set@[j] != key,
            ensures
                i <= n,
                self.pressed_keys_set@ == old_keys,
                forall|j: int| 0 <= j < i ==> self.pressed_keys_set@[j] != key,
                i < n ==> self.pressed_keys_set@[i as int] == key,
            decreases n - i,
        {
            if self.pressed_keys_set[i] == key {
                break;
            }
            i = i + 1;
        }
        if pressed {
            if i == n {
                proof {
                    lemma_push_fresh(old_keys, key);
                }
                self.pressed_keys_set.push(key);
            } else {
                proof {
                    lemma_insert_present(old_keys, i as int);
                }
            }
            self.last_pressed = self.current_pressed;
            self.current_pressed = Some(key);
        } else {
            if i < n {
                proof {
                    lemma_remove_at(old_keys, i as int);
                }
                self.pressed_keys_set.remove(i);
            } else {
                proof {
                    lemma_remove_absent(old_keys, key);
                }
            }
            self.current_pressed = None;
        }
        self.set_key_modifier(key, pressed);
    }

    /// Takes a modifier key code and alters the active modifiers.
    fn set_key_modifier(&mut self, key: KeyCode, pressed: bool)
        ensures
            final(self).mods() == next_mods(old(self).mods(), key, pressed),
            final(self).pressed_keys_set == old(self).pressed_keys_set,
            final(self).last_pressed == old(self).last_pressed,
            final(self).current_pressed == old(self).current_pressed,
    {
        let flag = match key {
            KeyCode::LeftShift | KeyCode::RightShift => KeyMods::shift(),
            KeyCode::LeftControl | KeyCode::RightControl => KeyMods::ctrl(),
            KeyCode::LeftAlt | KeyCode::RightAlt => KeyMods::alt(),
            KeyCode::LeftSuper | KeyCode::RightSuper => KeyMods::logo(),
            _ => KeyMods::empty(),
        };
        if pressed {
            self.active_modifiers = self.active_modifiers.union(flag);
        } else {
            self.active_modifiers = self.active_modifiers.difference(flag);
        }
    }

    /// Checks if a key is currently pressed down.
    pub fn is_key_pressed(&self, key: KeyCode) -> (b: bool)
        requires
            self.wf(),
        ensures
            b == self.pressed().contains(key),
    {
        let mut i: usize = 0;
        while i < self.pressed_keys_set.len()
            invariant
                i <= self.pressed_keys_set@.len(),
                forall|j: int| 0 <= j < i ==> self.pressed_keys_set@[j] != key,
            decreases self.pressed_keys_set@.len() - i,
        {
            if self.pressed_keys_set[i] == key {
                assert(self.pressed_keys_set@.to_set().contains(key));
                return true;
            }
            i = i + 1;
        }
        false
    }

    /// Checks if the last keystroke sent by the system is repeated, like when
    /// a key is held down for a period of time.
    pub fn is_key_repeated(&self) -> (b: bool)
        ensures
            b == self.repeated(),
    {
        match (self.last_pressed, self.current_pressed) {
            (Some(last), Some(current)) => last == current,
            _ => false,
        }
    }

    /// The keys that are held down, each once, in no particular order.
    pub fn pressed_keys(&self) -> (keys: &[KeyCode])
        requires
            self.wf(),
        ensures
            keys@.to_set() == self.pressed(),
            keys@.no_duplicates(),
    {
        self.pressed_keys_set.as_slice()
    }

    /// The active keyboard modifiers.
    pub fn active_mods(&self) -> (m: KeyMods)
        ensures
            m@ == self.mods(),
    {
        self.active_modifiers
    }

    /// Checks if a keyboard modifier (or several) is active.
    pub fn is_mod_active(&self, keymods: KeyMods) -> (b: bool)
        ensures
            b == (self.mods() & keymods@ == keymods@),
    {
        self.active_modifiers.contains(keymods)
    }
}


/// Pressing the same key twice in a row makes the second keystroke a repeat.
pub proof fn law_press_twice_repeats(
    a: KeyboardContext,
    b: KeyboardContext,
    c: KeyboardContext,
    key: KeyCode,
)
    requires
        KeyboardContext::key_step(a, b, key, true),
        KeyboardContext::key_step(b, c, key, true),
    ensures
        c.repeated(),
{
}

/// After a key is released, no keystroke counts as repeated.
pub proof fn law_release_ends_repeat(a: KeyboardContext, b: KeyboardContext, key: KeyCode)
    requires
        KeyboardContext::key_step(a, b, key, false),
    ensures
        !b.repeated(),
{
}

/// Pressing a key other than the one pressed just before is no repeat.
pub proof fn law_other_key_is_no_repeat(
    a: KeyboardContext,
    b: KeyboardContext,
    c: KeyboardContext,
    first: KeyCode,
    second: KeyCode,
)
    requires
        first != second,
        KeyboardContext::key_step(a, b, first, true),
        KeyboardContext::key_step(b, c, second, true),
    ensures
        !c.repeated(),
{
}

/// Pressing and then releasing a key leaves it up and every other key as it was.
pub proof fn law_press_then_release(
    a: KeyboardContext,
    b: KeyboardContext,
    c: KeyboardContext,
    key: KeyCode,
)
    requires
        KeyboardContext::key_step(a, b, key, true),
        KeyboardContext::key_step(b, c, key, false),
    ensures
        c.pressed() == a.pressed().remove(key),
        !c.pressed().contains(key),
{
    assert(c.pressed() =~= a.pressed().remove(key));
}

/// Pressing a modifier key activates its modifier; releasing a key of that
/// modifier deactivates it; any other key leaves the modifiers alone.
pub proof fn law_modifier_keys(a: KeyboardContext, b: KeyboardContext, key: KeyCode, pressed: bool)
    requires
        KeyboardContext::key_step(a, b, key, pressed),
    ensures
        modifier_bit(key) != 0 && pressed ==> b.mods() & modifier_bit(key) == modifier_bit(key),
        modifier_bit(key) != 0 && !pressed ==> b.mods() & modifier_bit(key) == 0,
        modifier_bit(key) == 0 ==> b.mods() == a.mods(),
        forall|bit: u8| bit != modifier_bit(key) && (bit == SHIFT_BIT || bit == CTRL_BIT || bit == ALT_BIT || bit == LOGO_BIT)
            ==> (#[trigger] (b.mods() & bit) == bit) == (a.mods() & bit == bit),
{
    let m = a.mods();
    let k = modifier_bit(key);
    assert(k == 0 || k == 1 || k == 2 || k == 4 || k == 8);
    assert((m | k) & k == k) by (bit_vector);
    assert((m & !k) & k == 0) by (bit_vector);
    assert(m | 0 == m && m & !0u8 == m) by (bit_vector);
    assert forall|bit: u8| bit != k && (bit == 1 || bit == 2 || bit == 4 || bit == 8)
        implies (#[trigger] (b.mods() & bit) == bit) == (m & bit == bit) by {
        assert(((m | k) & bit == bit) == (m & bit == bit) && ((m & !k) & bit == bit) == (m & bit == bit)) by (bit_vector)
            requires
                bit != k,
                k == 0 || k == 1 || k == 2 || k == 4 || k == 8,
                bit == 1 || bit == 2 || bit == 4 || bit == 8;
    }
}

/// The keys that stand for a modifier, each with the bit of that modifier:
/// both Shift keys for Shift, both Control keys for Ctrl, both Alt keys for
/// Alt and both Super keys for Logo. Pressing one sets its modifier, releasing
/// one clears it, and every other key leaves the modifiers as they are.
pub proof fn law_modifier_keys_by_side(a: KeyboardContext, b: KeyboardContext, key: KeyCode, pressed: bool)
    requires
        KeyboardContext::key_step(a, b, key, pressed),
    ensures
        (key == KeyCode::LeftShift || key == KeyCode::RightShift) ==> (b.mods() & SHIFT_BIT
            == if pressed { SHIFT_BIT } else { 0 }),
        (key == KeyCode::LeftControl || key == KeyCode::RightControl) ==> (b.mods() & CTRL_BIT
            == if pressed { CTRL_BIT } else { 0 }),
        (key == KeyCode::LeftAlt || key == KeyCode::RightAlt) ==> (b.mods() & ALT_BIT
            == if pressed { ALT_BIT } else { 0 }),
        (key == KeyCode::LeftSuper || key == KeyCode::RightSuper) ==> (b.mods() & LOGO_BIT
            == if pressed { LOGO_BIT } else { 0 }),
        !(key == KeyCode::LeftShift || key == KeyCode::RightShift || key == KeyCode::LeftControl
            || key == KeyCode::RightControl || key == KeyCode::LeftAlt || key == KeyCode::RightAlt
            || key == KeyCode::LeftSuper || key == KeyCode::RightSuper) ==> b.mods() == a.mods(),
{
    let m = a.mods();
    assert((m | 1u8) & 1u8 == 1u8 && (m & !1u8) & 1u8 == 0u8) by (bit_vector);
    assert((m | 2u8) & 2u8 == 2u8 && (m & !2u8) & 2u8 == 0u8) by (bit_vector);
    assert((m | 4u8) & 4u8 == 4u8 && (m & !4u8) & 4u8 == 0u8) by (bit_vector);
    assert((m | 8u8) & 8u8 == 8u8 && (m & !8u8) & 8u8 == 0u8) by (bit_vector);
    assert(m | 0u8 == m && m & !0u8 == m) by (bit_vector);
}

} // verus!
