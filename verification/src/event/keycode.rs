//! Browser key codes (`KeyboardEvent.code`) and the key each one stands for.

use vstd::prelude::*;
use vstd::string::StringSliceAdditionalSpecFns;
use vstd::utf8::encode_utf8_decode_utf8;

use crate::decimal::digit_char;

verus! {

/// A key, as the browser names it.
#[derive(Clone, Copy, PartialEq, Eq, Structural, Debug)]
pub enum KeyCode {
    Key1,
    Key2,
    Key3,
    Key4,
    Key5,
    Key6,
    Key7,
    Key8,
    Key9,
    Key0,
    A,
    B,
    C,
    D,
    E,
    F,
    G,
    H,
    I,
    J,
    K,
    L,
    M,
    N,
    O,
    P,
    Q,
    R,
    S,
    T,
    U,
    V,
    W,
    X,
    Y,
    Z,
    Escape,
    F1,
    F2,
    F3,
    F4,
    F5,
    F6,
    F7,
    F8,
    F9,
    F10,
    F11,
    F12,
    F13,
    F14,
    F15,
    F16,
    F17,
    F18,
    F19,
    F20,
    F21,
    F22,
    F23,
    F24,
    Snapshot,
    Scroll,
    Pause,
    Insert,
    Home,
    Delete,
    End,
    PageDown,
    PageUp,
    Left,
    Up,
    Right,
    Down,
    Back,
    Return,
    Space,
    Compose,
    Caret,
    Numlock,
    Numpad0,
    Numpad1,
    Numpad2,
    Numpad3,
    Numpad4,
    Numpad5,
    Numpad6,
    Numpad7,
    Numpad8,
    Numpad9,
    AbntC1,
    AbntC2,
    Add,
    Apostrophe,
    Apps,
    At,
    Ax,
    Backslash,
    Calculator,
    Capital,
    Colon,
    Comma,
    Convert,
    Decimal,
    Divide,
    Equals,
    Grave,
    Kana,
    Kanji,
    LAlt,
    LBracket,
    LControl,
    LShift,
    LWin,
    Mail,
    MediaSelect,
    MediaStop,
    Minus,
    Multiply,
    Mute,
    MyComputer,
    NavigateForward,
    NavigateBackward,
    NextTrack,
    NoConvert,
    NumpadComma,
    NumpadEnter,
    NumpadEquals,
    OEM102,
    Period,
    PlayPause,
    Power,
    PrevTrack,
    RAlt,
    RBracket,
    RControl,
    RShift,
    RWin,
    Semicolon,
    Slash,
    Sleep,
    Stop,
    Subtract,
    Sysrq,
    Tab,
    Underline,
    Unlabeled,
    VolumeDown,
    VolumeUp,
    Wake,
    WebBack,
    WebFavorites,
    WebForward,
    WebHome,
    WebRefresh,
    WebSearch,
    WebStop,
    Yen,
    Copy,
    Paste,
    Cut,
}

/// The number of browser codes that stand for a key.
pub const CODE_COUNT: usize = 146;

/// The browser code and key of each entry of the code table.
pub open spec fn code_entry(i: usize) -> (&'static str, KeyCode) {
    match i {
        0 => ("Digit1", KeyCode::Key1),
        1 => ("Digit2", KeyCode::Key2),
        2 => ("Digit3", KeyCode::Key3),
        3 => ("Digit4", KeyCode::Key4),
        4 => ("Digit5", KeyCode::Key5),
        5 => ("Digit6", KeyCode::Key6),
        6 => ("Digit7", KeyCode::Key7),
        7 => ("Digit8", KeyCode::Key8),
        8 => ("Digit9", KeyCode::Key9),
        9 => ("Digit0", KeyCode::Key0),
        10 => ("KeyA", KeyCode::A),
        11 => ("KeyB", KeyCode::B),
        12 => ("KeyC", KeyCode::C),
        13 => ("KeyD", KeyCode::D),
        14 => ("KeyE", KeyCode::E),
        15 => ("KeyF", KeyCode::F),
        16 => ("KeyG", KeyCode::G),
        17 => ("KeyH", KeyCode::H),
        18 => ("KeyI", KeyCode::I),
        19 => ("KeyJ", KeyCode::J),
        20 => ("KeyK", KeyCode::K),
        21 => ("KeyL", KeyCode::L),
        22 => ("KeyM", KeyCode::M),
        23 => ("KeyN", KeyCode::N),
        24 => ("KeyO", KeyCode::O),
        25 => ("KeyP", KeyCode::P),
        26 => ("KeyQ", KeyCode::Q),
        27 => ("KeyR", KeyCode::R),
        28 => ("KeyS", KeyCode::S),
        29 => ("KeyT", KeyCode::T),
        30 => ("KeyU", KeyCode::U),
        31 => ("KeyV", KeyCode::V),
        32 => ("KeyW", KeyCode::W),
        33 => ("KeyX", KeyCode::X),
        34 => ("KeyY", KeyCode::Y),
        35 => ("KeyZ", KeyCode::Z),
        36 => ("Escape", KeyCode::Escape),
        37 => ("F1", KeyCode::F1),
        38 => ("F2", KeyCode::F2),
        39 => ("F3", KeyCode::F3),
        40 => ("F4", KeyCode::F4),
        41 => ("F5", KeyCode::F5),
        42 => ("F6", KeyCode::F6),
        43 => ("F7", KeyCode::F7),
        44 => ("F8", KeyCode::F8),
        45 => ("F9", KeyCode::F9),
        46 => ("F10", KeyCode::F10),
        47 => ("F11", KeyCode::F11),
        48 => ("F12", KeyCode::F12),
        49 => ("F13", KeyCode::F13),
        50 => ("F14", KeyCode::F14),
        51 => ("F15", KeyCode::F15),
        52 => ("F16", KeyCode::F16),
        53 => ("F17", KeyCode::F17),
        54 => ("F18", KeyCode::F18),
        55 => ("F19", KeyCode::F19),
        56 => ("F20", KeyCode::F20),
        57 => ("F21", KeyCode::F21),
        58 => ("F22", KeyCode::F22),
        59 => ("F23", KeyCode::F23),
        60 => ("F24", KeyCode::F24),
        61 => ("PrintScreen", KeyCode::Snapshot),
        62 => ("ScrollLock", KeyCode::Scroll),
        63 => ("Pause", KeyCode::Pause),
        64 => ("Insert", KeyCode::Insert),
        65 => ("Home", KeyCode::Home),
        66 => ("Delete", KeyCode::Delete),
        67 => ("End", KeyCode::End),
        68 => ("PageDown", KeyCode::PageDown),
        69 => ("PageUp", KeyCode::PageUp),
        70 => ("ArrowLeft", KeyCode::Left),
        71 => ("ArrowUp", KeyCode::Up),
        72 => ("ArrowRight", KeyCode::Right),
        73 => ("ArrowDown", KeyCode::Down),
        74 => ("Backspace", KeyCode::Back),
        75 => ("Enter", KeyCode::Return),
        76 => ("Space", KeyCode::Space),
        77 => ("NumLock", KeyCode::Numlock),
        78 => ("Numpad0", KeyCode::Numpad0),
        79 => ("Numpad1", KeyCode::Numpad1),
        80 => ("Numpad2", KeyCode::Numpad2),
        81 => ("Numpad3", KeyCode::Numpad3),
        82 => ("Numpad4", KeyCode::Numpad4),
        83 => ("Numpad5", KeyCode::Numpad5),
        84 => ("Numpad6", KeyCode::Numpad6),
        85 => ("Numpad7", KeyCode::Numpad7),
        86 => ("Numpad8", KeyCode::Numpad8),
        87 => ("Numpad9", KeyCode::Numpad9),
        88 => ("NumpadAdd", KeyCode::Add),
        89 => ("Quote", KeyCode::Apostrophe),
        90 => ("Backslash", KeyCode::Backslash),
        91 => ("Comma", KeyCode::Comma),
        92 => ("Convert", KeyCode::Convert),
        93 => ("NumpadDecimal", KeyCode::Decimal),
        94 => ("NumpadDivide", KeyCode::Divide),
        95 => ("Equal", KeyCode::Equals),
        96 => ("Backquote", KeyCode::Grave),
        97 => ("KanaMode", KeyCode::Kana),
        98 => ("AltLeft", KeyCode::LAlt),
        99 => ("BracketLeft", KeyCode::LBracket),
        100 => ("ControlLeft", KeyCode::LControl),
        101 => ("ShiftLeft", KeyCode::LShift),
        102 => ("MetaLeft", KeyCode::LWin),
        103 => ("OSLeft", KeyCode::LWin),
        104 => ("LaunchMail", KeyCode::Mail),
        105 => ("LaunchMediaPlayer", KeyCode::MediaSelect),
        106 => ("MediaSelect", KeyCode::MediaSelect),
        107 => ("MediaStop", KeyCode::MediaStop),
        108 => ("Minus", KeyCode::Minus),
        109 => ("NumpadMultiply", KeyCode::Multiply),
        110 => ("AudioVolumeMute", KeyCode::Mute),
        111 => ("MediaTrackNext", KeyCode::NextTrack),
        112 => ("NonConvert", KeyCode::NoConvert),
        113 => ("NumpadComma", KeyCode::NumpadComma),
        114 => ("NumpadEnter", KeyCode::NumpadEnter),
        115 => ("NumpadEqual", KeyCode::NumpadEquals),
        116 => ("Period", KeyCode::Period),
        117 => ("MediaPlayPause", KeyCode::PlayPause),
        118 => ("Power", KeyCode::Power),
        119 => ("MediaTrackPrevious", KeyCode::PrevTrack),
        120 => ("AltRight", KeyCode::RAlt),
        121 => ("BracketRight", KeyCode::RBracket),
        122 => ("ControlRight", KeyCode::RControl),
        123 => ("ShiftRight", KeyCode::RShift),
        124 => ("MetaRight", KeyCode::RWin),
        125 => ("OSRight", KeyCode::RWin),
        126 => ("Semicolon", KeyCode::Semicolon),
        127 => ("Slash", KeyCode::Slash),
        128 => ("Sleep", KeyCode::Sleep),
        129 => ("NumpadSubtract", KeyCode::Subtract),
        130 => ("Tab", KeyCode::Tab),
        131 => ("IntlRo", KeyCode::Underline),
        132 => ("AudioVolumeDown", KeyCode::VolumeDown),
        133 => ("AudioVolumeUp", KeyCode::VolumeUp),
        134 => ("WakeUp", KeyCode::Wake),
        135 => ("BrowserBack", KeyCode::WebBack),
        136 => ("BrowserFavorites", KeyCode::WebFavorites),
        137 => ("BrowserForward", KeyCode::WebForward),
        138 => ("BrowserHome", KeyCode::WebHome),
        139 => ("BrowserRefresh", KeyCode::WebRefresh),
        140 => ("BrowserSearch", KeyCode::WebSearch),
        141 => ("BrowserStop", KeyCode::WebStop),
        142 => ("IntlYen", KeyCode::Yen),
        143 => ("Copy", KeyCode::Copy),
        144 => ("Paste", KeyCode::Paste),
        145 => ("Cut", KeyCode::Cut),
        _ => ("", KeyCode::Unlabeled),
    }
}

/// The first entry of the code table whose code is `code`.
pub open spec fn code_index(code: Seq<char>) -> Option<usize> {
    if exists|i: usize| i < CODE_COUNT && (#[trigger] code_entry(i)).0@ == code {
        Some(choose|i: usize| {
            &&& i < CODE_COUNT
            &&& (#[trigger] code_entry(i)).0@ == code
            &&& forall|j: usize| j < i ==> (#[trigger] code_entry(j)).0@ != code
        })
    } else {
        None
    }
}

/// The key of a browser code; codes that the table does not know stand for
/// `Unlabeled`.
pub open spec fn key_of_code(code: Seq<char>) -> KeyCode {
    match code_index(code) {
        Some(i) => code_entry(i).1,
        None => KeyCode::Unlabeled,
    }
}

/// A first entry with a code exists wherever some entry has it.
proof fn lemma_first_code(code: Seq<char>, i: usize)
    requires
        i < CODE_COUNT,
        code_entry(i).0@ == code,
    ensures
        exists|k: usize|
            k <= i && (#[trigger] code_entry(k)).0@ == code && forall|j: usize|
                j < k ==> (#[trigger] code_entry(j)).0@ != code,
    decreases i,
{
    if exists|j: usize| j < i && (#[trigger] code_entry(j)).0@ == code {
        let j = choose|j: usize| j < i && (#[trigger] code_entry(j)).0@ == code;
        lemma_first_code(code, j);
    } else {
        assert(forall|j: usize| j < i ==> (#[trigger] code_entry(j)).0@ != code);
    }
}

/// Whether the browser code `code` names the key `key`: each key with the
/// codes that stand for it, as the browser's code names spell them.
pub open spec fn names_key(code: Seq<char>, key: KeyCode) -> bool {
    match key {
        KeyCode::Key1 => code == "Digit1"@,
        KeyCode::Key2 => code == "Digit2"@,
        KeyCode::Key3 => code == "Digit3"@,
        KeyCode::Key4 => code == "Digit4"@,
        KeyCode::Key5 => code == "Digit5"@,
        KeyCode::Key6 => code == "Digit6"@,
        KeyCode::Key7 => code == "Digit7"@,
        KeyCode::Key8 => code == "Digit8"@,
        KeyCode::Key9 => code == "Digit9"@,
        KeyCode::Key0 => code == "Digit0"@,
        KeyCode::A => code == "KeyA"@,
        KeyCode::B => code == "KeyB"@,
        KeyCode::C => code == "KeyC"@,
        KeyCode::D => code == "KeyD"@,
        KeyCode::E => code == "KeyE"@,
        KeyCode::F => code == "KeyF"@,
        KeyCode::G => code == "KeyG"@,
        KeyCode::H => code == "KeyH"@,
        KeyCode::I => code == "KeyI"@,
        KeyCode::J => code == "KeyJ"@,
        KeyCode::K => code == "KeyK"@,
        KeyCode::L => code == "KeyL"@,
        KeyCode::M => code == "KeyM"@,
        KeyCode::N => code == "KeyN"@,
        KeyCode::O => code == "KeyO"@,
        KeyCode::P => code == "KeyP"@,
        KeyCode::Q => code == "KeyQ"@,
        KeyCode::R => code == "KeyR"@,
        KeyCode::S => code == "KeyS"@,
        KeyCode::T => code == "KeyT"@,
        KeyCode::U => code == "KeyU"@,
        KeyCode::V => code == "KeyV"@,
        KeyCode::W => code == "KeyW"@,
        KeyCode::X => code == "KeyX"@,
        KeyCode::Y => code == "KeyY"@,
        KeyCode::Z => code == "KeyZ"@,
        KeyCode::Escape => code == "Escape"@,
        KeyCode::F1 => code == "F1"@,
        KeyCode::F2 => code == "F2"@,
        KeyCode::F3 => code == "F3"@,
        KeyCode::F4 => code == "F4"@,
        KeyCode::F5 => code == "F5"@,
        KeyCode::F6 => code == "F6"@,
        KeyCode::F7 => code == "F7"@,
        KeyCode::F8 => code == "F8"@,
        KeyCode::F9 => code == "F9"@,
        KeyCode::F10 => code == "F10"@,
        KeyCode::F11 => code == "F11"@,
        KeyCode::F12 => code == "F12"@,
        KeyCode::F13 => code == "F13"@,
        KeyCode::F14 => code == "F14"@,
        KeyCode::F15 => code == "F15"@,
        KeyCode::F16 => code == "F16"@,
        KeyCode::F17 => code == "F17"@,
        KeyCode::F18 => code == "F18"@,
        KeyCode::F19 => code == "F19"@,
        KeyCode::F20 => code == "F20"@,
        KeyCode::F21 => code == "F21"@,
        KeyCode::F22 => code == "F22"@,
        KeyCode::F23 => code == "F23"@,
        KeyCode::F24 => code == "F24"@,
        KeyCode::Snapshot => code == "PrintScreen"@,
        KeyCode::Scroll => code == "ScrollLock"@,
        KeyCode::Pause => code == "Pause"@,
        KeyCode::Insert => code == "Insert"@,
        KeyCode::Home => code == "Home"@,
        KeyCode::Delete => code == "Delete"@,
        KeyCode::End => code == "End"@,
        KeyCode::PageDown => code == "PageDown"@,
        KeyCode::PageUp => code == "PageUp"@,
        KeyCode::Left => code == "ArrowLeft"@,
        KeyCode::Up => code == "ArrowUp"@,
        KeyCode::Right => code == "ArrowRight"@,
        KeyCode::Down => code == "ArrowDown"@,
        KeyCode::Back => code == "Backspace"@,
        KeyCode::Return => code == "Enter"@,
        KeyCode::Space => code == "Space"@,
        KeyCode::Numlock => code == "NumLock"@,
        KeyCode::Numpad0 => code == "Numpad0"@,
        KeyCode::Numpad1 => code == "Numpad1"@,
        KeyCode::Numpad2 => code == "Numpad2"@,
        KeyCode::Numpad3 => code == "Numpad3"@,
        KeyCode::Numpad4 => code == "Numpad4"@,
        KeyCode::Numpad5 => code == "Numpad5"@,
        KeyCode::Numpad6 => code == "Numpad6"@,
        KeyCode::Numpad7 => code == "Numpad7"@,
        KeyCode::Numpad8 => code == "Numpad8"@,
        KeyCode::Numpad9 => code == "Numpad9"@,
        KeyCode::Add => code == "NumpadAdd"@,
        KeyCode::Apostrophe => code == "Quote"@,
        KeyCode::Backslash => code == "Backslash"@,
        KeyCode::Comma => code == "Comma"@,
        KeyCode::Convert => code == "Convert"@,
        KeyCode::Decimal => code == "NumpadDecimal"@,
        KeyCode::Divide => code == "NumpadDivide"@,
        KeyCode::Equals => code == "Equal"@,
        KeyCode::Grave => code == "Backquote"@,
        KeyCode::Kana => code == "KanaMode"@,
        KeyCode::LAlt => code == "AltLeft"@,
        KeyCode::LBracket => code == "BracketLeft"@,
        KeyCode::LControl => code == "ControlLeft"@,
        KeyCode::LShift => code == "ShiftLeft"@,
        KeyCode::LWin => code == "MetaLeft"@ || code == "OSLeft"@,
        KeyCode::Mail => code == "LaunchMail"@,
        KeyCode::MediaSelect => code == "LaunchMediaPlayer"@ || code == "MediaSelect"@,
        KeyCode::MediaStop => code == "MediaStop"@,
        KeyCode::Minus => code == "Minus"@,
        KeyCode::Multiply => code == "NumpadMultiply"@,
        KeyCode::Mute => code == "AudioVolumeMute"@,
        KeyCode::NextTrack => code == "MediaTrackNext"@,
        KeyCode::NoConvert => code == "NonConvert"@,
        KeyCode::NumpadComma => code == "NumpadComma"@,
        KeyCode::NumpadEnter => code == "NumpadEnter"@,
        KeyCode::NumpadEquals => code == "NumpadEqual"@,
        KeyCode::Period => code == "Period"@,
        KeyCode::PlayPause => code == "MediaPlayPause"@,
        KeyCode::Power => code == "Power"@,
        KeyCode::PrevTrack => code == "MediaTrackPrevious"@,
        KeyCode::RAlt => code == "AltRight"@,
        KeyCode::RBracket => code == "BracketRight"@,
        KeyCode::RControl => code == "ControlRight"@,
        KeyCode::RShift => code == "ShiftRight"@,
        KeyCode::RWin => code == "MetaRight"@ || code == "OSRight"@,
        KeyCode::Semicolon => code == "Semicolon"@,
        KeyCode::Slash => code == "Slash"@,
        KeyCode::Sleep => code == "Sleep"@,
        KeyCode::Subtract => code == "NumpadSubtract"@,
        KeyCode::Tab => code == "Tab"@,
        KeyCode::Underline => code == "IntlRo"@,
        KeyCode::VolumeDown => code == "AudioVolumeDown"@,
        KeyCode::VolumeUp => code == "AudioVolumeUp"@,
        KeyCode::Wake => code == "WakeUp"@,
        KeyCode::WebBack => code == "BrowserBack"@,
        KeyCode::WebFavorites => code == "BrowserFavorites"@,
        KeyCode::WebForward => code == "BrowserForward"@,
        KeyCode::WebHome => code == "BrowserHome"@,
        KeyCode::WebRefresh => code == "BrowserRefresh"@,
        KeyCode::WebSearch => code == "BrowserSearch"@,
        KeyCode::WebStop => code == "BrowserStop"@,
        KeyCode::Yen => code == "IntlYen"@,
        KeyCode::Copy => code == "Copy"@,
        KeyCode::Paste => code == "Paste"@,
        KeyCode::Cut => code == "Cut"@,
        _ => false,
    }
}

/// Every entry of the code table pairs a code with the key that the code
/// names.
pub proof fn law_code_table_names_its_keys()
    ensures
        forall|i: usize| i < CODE_COUNT ==> names_key((#[trigger] code_entry(i)).0@, code_entry(i).1),
{
    assert forall|i: usize| i < CODE_COUNT implies names_key((#[trigger] code_entry(i)).0@, code_entry(i).1) by {}
}

/// The key that a browser code is translated to is the key the code names:
/// whatever code `from_code` recognizes, the code names the key it gives.
pub proof fn law_code_names_its_key(code: Seq<char>)
    ensures
        key_of_code(code) != KeyCode::Unlabeled ==> names_key(code, key_of_code(code)),
{
    law_code_table_names_its_keys();
    if exists|i: usize| i < CODE_COUNT && (#[trigger] code_entry(i)).0@ == code {
        let w = choose|i: usize| i < CODE_COUNT && (#[trigger] code_entry(i)).0@ == code;
        lemma_first_code(code, w);
        let i = code_index(code)->0;
        assert(i < CODE_COUNT && code_entry(i).0@ == code);
    }
}

/// The key of a digit `n < 10` of the main keyboard.
pub open spec fn digit_key(n: nat) -> KeyCode {
    if n == 0 {
        KeyCode::Key0
    } else if n == 1 {
        KeyCode::Key1
    } else if n == 2 {
        KeyCode::Key2
    } else if n == 3 {
        KeyCode::Key3
    } else if n == 4 {
        KeyCode::Key4
    } else if n == 5 {
        KeyCode::Key5
    } else if n == 6 {
        KeyCode::Key6
    } else if n == 7 {
        KeyCode::Key7
    } else if n == 8 {
        KeyCode::Key8
    } else if n == 9 {
        KeyCode::Key9
    } else {
        KeyCode::Unlabeled
    }
}

/// A code found in the table at `i`, and nowhere before, stands for the key
/// of entry `i`.
proof fn lemma_found_at(code: Seq<char>, i: usize)
    requires
        i < CODE_COUNT,
        code_entry(i).0@ == code,
        forall|j: usize| j < i ==> (#[trigger] code_entry(j)).0@ != code,
    ensures
        key_of_code(code) == code_entry(i).1,
{
    let k = code_index(code)->0;
    assert(k < CODE_COUNT && code_entry(k).0@ == code && forall|j: usize| j < k ==> (#[trigger] code_entry(j)).0@ != code);
    if k < i {
        assert(code_entry(k).0@ != code);
    } else if k > i {
        assert(code_entry(i).0@ != code);
    }
}

/// The browser code `Digit<n>` of each digit `n` is translated to the key of
/// that digit.
pub proof fn law_digit_codes(n: nat)
    requires
        n < 10,
    ensures
        key_of_code("Digit"@ + seq![digit_char(n)]) == digit_key(n),
{
    reveal_strlit("Digit");
    reveal_strlit("Digit0");
    reveal_strlit("Digit1");
    reveal_strlit("Digit2");
    reveal_strlit("Digit3");
    reveal_strlit("Digit4");
    reveal_strlit("Digit5");
    reveal_strlit("Digit6");
    reveal_strlit("Digit7");
    reveal_strlit("Digit8");
    reveal_strlit("Digit9");
    let code = "Digit"@ + seq![digit_char(n)];
    let i: usize = if n == 0 { 9 } else { (n - 1) as usize };
    assert(code_entry(i).0@ =~= code);
    assert forall|j: usize| j < i implies (#[trigger] code_entry(j)).0@ != code by {
        assert(code_entry(j).0@[5] != code[5]);
    }
    lemma_found_at(code, i);
}

/// The `n`-th letter of the alphabet, for `n < 26`.
pub open spec fn letter_char(n: nat) -> char {
    if n == 0 {
        'A'
    } else if n == 1 {
        'B'
    } else if n == 2 {
        'C'
    } else if n == 3 {
        'D'
    } else if n == 4 {
        'E'
    } else if n == 5 {
        'F'
    } else if n == 6 {
        'G'
    } else if n == 7 {
        'H'
    } else if n == 8 {
        'I'
    } else if n == 9 {
        'J'
    } else if n == 10 {
        'K'
    } else if n == 11 {
        'L'
    } else if n == 12 {
        'M'
    } else if n == 13 {
        'N'
    } else if n == 14 {
        'O'
    } else if n == 15 {
        'P'
    } else if n == 16 {
        'Q'
    } else if n == 17 {
        'R'
    } else if n == 18 {
        'S'
    } else if n == 19 {
        'T'
    } else if n == 20 {
        'U'
    } else if n == 21 {
        'V'
    } else if n == 22 {
        'W'
    } else if n == 23 {
        'X'
    } else if n == 24 {
        'Y'
    } else {
        'Z'
    }
}

/// The key of the `n`-th letter of the alphabet, for `n < 26`.
pub open spec fn letter_key(n: nat) -> KeyCode {
    if n == 0 {
        KeyCode::A
    } else if n == 1 {
        KeyCode::B
    } else if n == 2 {
        KeyCode::C
    } else if n == 3 {
        KeyCode::D
    } else if n == 4 {
        KeyCode::E
    } else if n == 5 {
        KeyCode::F
    } else if n == 6 {
        KeyCode::G
    } else if n == 7 {
        KeyCode::H
    } else if n == 8 {
        KeyCode::I
    } else if n == 9 {
        KeyCode::J
    } else if n == 10 {
        KeyCode::K
    } else if n == 11 {
        KeyCode::L
    } else if n == 12 {
        KeyCode::M
    } else if n == 13 {
        KeyCode::N
    } else if n == 14 {
        KeyCode::O
    } else if n == 15 {
        KeyCode::P
    } else if n == 16 {
        KeyCode::Q
    } else if n == 17 {
        KeyCode::R
    } else if n == 18 {
        KeyCode::S
    } else if n == 19 {
        KeyCode::T
    } else if n == 20 {
        KeyCode::U
    } else if n == 21 {
        KeyCode::V
    } else if n == 22 {
        KeyCode::W
    } else if n == 23 {
        KeyCode::X
    } else if n == 24 {
        KeyCode::Y
    } else if n == 25 {
        KeyCode::Z
    } else {
        KeyCode::Unlabeled
    }
}

/// The browser code `Key<L>` of each letter `L` is translated to the key of
/// that letter.
pub proof fn law_letter_codes(n: nat)
    requires
        n < 26,
    ensures
        key_of_code("Key"@ + seq![letter_char(n)]) == letter_key(n),
{
    reveal_strlit("Key");
    reveal_strlit("Digit0");
    reveal_strlit("Digit1");
    reveal_strlit("Digit2");
    reveal_strlit("Digit3");
    reveal_strlit("Digit4");
    reveal_strlit("Digit5");
    reveal_strlit("Digit6");
    reveal_strlit("Digit7");
    reveal_strlit("Digit8");
    reveal_strlit("Digit9");
    reveal_strlit("KeyA");
    reveal_strlit("KeyB");
    reveal_strlit("KeyC");
    reveal_strlit("KeyD");
    reveal_strlit("KeyE");
    reveal_strlit("KeyF");
    reveal_strlit("KeyG");
    reveal_strlit("KeyH");
    reveal_strlit("KeyI");
    reveal_strlit("KeyJ");
    reveal_strlit("KeyK");
    reveal_strlit("KeyL");
    reveal_strlit("KeyM");
    reveal_strlit("KeyN");
    reveal_strlit("KeyO");
    reveal_strlit("KeyP");
    reveal_strlit("KeyQ");
    reveal_strlit("KeyR");
    reveal_strlit("KeyS");
    reveal_strlit("KeyT");
    reveal_strlit("KeyU");
    reveal_strlit("KeyV");
    reveal_strlit("KeyW");
    reveal_strlit("KeyX");
    reveal_strlit("KeyY");
    reveal_strlit("KeyZ");
    let code = "Key"@ + seq![letter_char(n)];
    let i: usize = (10 + n) as usize;
    assert(code_entry(i).0@ =~= code);
    assert forall|j: usize| j < i implies (#[trigger] code_entry(j)).0@ != code by {
        if j < 10 {
            assert(code_entry(j).0@[0] != code[0]);
        } else {
            assert(code_entry(j).0@[3] != code[3]);
        }
    }
    lemma_found_at(code, i);
}

/// Entry `i` of the code table.
fn entry(i: usize) -> (e: (&'static str, KeyCode))
    requires
        i < CODE_COUNT,
    ensures
        e == code_entry(i),
{
    match i {
        0 => ("Digit1", KeyCode::Key1),
        1 => ("Digit2", KeyCode::Key2),
        2 => ("Digit3", KeyCode::Key3),
        3 => ("Digit4", KeyCode::Key4),
        4 => ("Digit5", KeyCode::Key5),
        5 => ("Digit6", KeyCode::Key6),
        6 => ("Digit7", KeyCode::Key7),
        7 => ("Digit8", KeyCode::Key8),
        8 => ("Digit9", KeyCode::Key9),
        9 => ("Digit0", KeyCode::Key0),
        10 => ("KeyA", KeyCode::A),
        11 => ("KeyB", KeyCode::B),
        12 => ("KeyC", KeyCode::C),
        13 => ("KeyD", KeyCode::D),
        14 => ("KeyE", KeyCode::E),
        15 => ("KeyF", KeyCode::F),
        16 => ("KeyG", KeyCode::G),
        17 => ("KeyH", KeyCode::H),
        18 => ("KeyI", KeyCode::I),
        19 => ("KeyJ", KeyCode::J),
        20 => ("KeyK", KeyCode::K),
        21 => ("KeyL", KeyCode::L),
        22 => ("KeyM", KeyCode::M),
        23 => ("KeyN", KeyCode::N),
        24 => ("KeyO", KeyCode::O),
        25 => ("KeyP", KeyCode::P),
        26 => ("KeyQ", KeyCode::Q),
        27 => ("KeyR", KeyCode::R),
        28 => ("KeyS", KeyCode::S),
        29 => ("KeyT", KeyCode::T),
        30 => ("KeyU", KeyCode::U),
        31 => ("KeyV", KeyCode::V),
        32 => ("KeyW", KeyCode::W),
        33 => ("KeyX", KeyCode::X),
        34 => ("KeyY", KeyCode::Y),
        35 => ("KeyZ", KeyCode::Z),
        36 => ("Escape", KeyCode::Escape),
        37 => ("F1", KeyCode::F1),
        38 => ("F2", KeyCode::F2),
        39 => ("F3", KeyCode::F3),
        40 => ("F4", KeyCode::F4),
        41 => ("F5", KeyCode::F5),
        42 => ("F6", KeyCode::F6),
        43 => ("F7", KeyCode::F7),
        44 => ("F8", KeyCode::F8),
        45 => ("F9", KeyCode::F9),
        46 => ("F10", KeyCode::F10),
        47 => ("F11", KeyCode::F11),
        48 => ("F12", KeyCode::F12),
        49 => ("F13", KeyCode::F13),
        50 => ("F14", KeyCode::F14),
        51 => ("F15", KeyCode::F15),
        52 => ("F16", KeyCode::F16),
        53 => ("F17", KeyCode::F17),
        54 => ("F18", KeyCode::F18),
        55 => ("F19", KeyCode::F19),
        56 => ("F20", KeyCode::F20),
        57 => ("F21", KeyCode::F21),
        58 => ("F22", KeyCode::F22),
        59 => ("F23", KeyCode::F23),
        60 => ("F24", KeyCode::F24),
        61 => ("PrintScreen", KeyCode::Snapshot),
        62 => ("ScrollLock", KeyCode::Scroll),
        63 => ("Pause", KeyCode::Pause),
        64 => ("Insert", KeyCode::Insert),
        65 => ("Home", KeyCode::Home),
        66 => ("Delete", KeyCode::Delete),
        67 => ("End", KeyCode::End),
        68 => ("PageDown", KeyCode::PageDown),
        69 => ("PageUp", KeyCode::PageUp),
        70 => ("ArrowLeft", KeyCode::Left),
        71 => ("ArrowUp", KeyCode::Up),
        72 => ("ArrowRight", KeyCode::Right),
        73 => ("ArrowDown", KeyCode::Down),
        74 => ("Backspace", KeyCode::Back),
        75 => ("Enter", KeyCode::Return),
        76 => ("Space", KeyCode::Space),
        77 => ("NumLock", KeyCode::Numlock),
        78 => ("Numpad0", KeyCode::Numpad0),
        79 => ("Numpad1", KeyCode::Numpad1),
        80 => ("Numpad2", KeyCode::Numpad2),
        81 => ("Numpad3", KeyCode::Numpad3),
        82 => ("Numpad4", KeyCode::Numpad4),
        83 => ("Numpad5", KeyCode::Numpad5),
        84 => ("Numpad6", KeyCode::Numpad6),
        85 => ("Numpad7", KeyCode::Numpad7),
        86 => ("Numpad8", KeyCode::Numpad8),
        87 => ("Numpad9", KeyCode::Numpad9),
        88 => ("NumpadAdd", KeyCode::Add),
        89 => ("Quote", KeyCode::Apostrophe),
        90 => ("Backslash", KeyCode::Backslash),
        91 => ("Comma", KeyCode::Comma),
        92 => ("Convert", KeyCode::Convert),
        93 => ("NumpadDecimal", KeyCode::Decimal),
        94 => ("NumpadDivide", KeyCode::Divide),
        95 => ("Equal", KeyCode::Equals),
        96 => ("Backquote", KeyCode::Grave),
        97 => ("KanaMode", KeyCode::Kana),
        98 => ("AltLeft", KeyCode::LAlt),
        99 => ("BracketLeft", KeyCode::LBracket),
        100 => ("ControlLeft", KeyCode::LControl),
        101 => ("ShiftLeft", KeyCode::LShift),
        102 => ("MetaLeft", KeyCode::LWin),
        103 => ("OSLeft", KeyCode::LWin),
        104 => ("LaunchMail", KeyCode::Mail),
        105 => ("LaunchMediaPlayer", KeyCode::MediaSelect),
        106 => ("MediaSelect", KeyCode::MediaSelect),
        107 => ("MediaStop", KeyCode::MediaStop),
        108 => ("Minus", KeyCode::Minus),
        109 => ("NumpadMultiply", KeyCode::Multiply),
        110 => ("AudioVolumeMute", KeyCode::Mute),
        111 => ("MediaTrackNext", KeyCode::NextTrack),
        112 => ("NonConvert", KeyCode::NoConvert),
        113 => ("NumpadComma", KeyCode::NumpadComma),
        114 => ("NumpadEnter", KeyCode::NumpadEnter),
        115 => ("NumpadEqual", KeyCode::NumpadEquals),
        116 => ("Period", KeyCode::Period),
        117 => ("MediaPlayPause", KeyCode::PlayPause),
        118 => ("Power", KeyCode::Power),
        119 => ("MediaTrackPrevious", KeyCode::PrevTrack),
        120 => ("AltRight", KeyCode::RAlt),
        121 => ("BracketRight", KeyCode::RBracket),
        122 => ("ControlRight", KeyCode::RControl),
        123 => ("ShiftRight", KeyCode::RShift),
        124 => ("MetaRight", KeyCode::RWin),
        125 => ("OSRight", KeyCode::RWin),
        126 => ("Semicolon", KeyCode::Semicolon),
        127 => ("Slash", KeyCode::Slash),
        128 => ("Sleep", KeyCode::Sleep),
        129 => ("NumpadSubtract", KeyCode::Subtract),
        130 => ("Tab", KeyCode::Tab),
        131 => ("IntlRo", KeyCode::Underline),
        132 => ("AudioVolumeDown", KeyCode::VolumeDown),
        133 => ("AudioVolumeUp", KeyCode::VolumeUp),
        134 => ("WakeUp", KeyCode::Wake),
        135 => ("BrowserBack", KeyCode::WebBack),
        136 => ("BrowserFavorites", KeyCode::WebFavorites),
        137 => ("BrowserForward", KeyCode::WebForward),
        138 => ("BrowserHome", KeyCode::WebHome),
        139 => ("BrowserRefresh", KeyCode::WebRefresh),
        140 => ("BrowserSearch", KeyCode::WebSearch),
        141 => ("BrowserStop", KeyCode::WebStop),
        142 => ("IntlYen", KeyCode::Yen),
        143 => ("Copy", KeyCode::Copy),
        144 => ("Paste", KeyCode::Paste),
        145 => ("Cut", KeyCode::Cut),
        _ => ("", KeyCode::Unlabeled),
    }
}

/// Whether two strings hold the same characters.
fn str_eq(a: &str, b: &str) -> (r: bool)
    ensures
        r == (a@ == b@),
{
    let x = a.as_bytes();
    let y = b.as_bytes();
    assert(x@ == a.spec_bytes());
    assert(y@ == b.spec_bytes());
    proof {
        encode_utf8_decode_utf8(a@);
        encode_utf8_decode_utf8(b@);
    }
    if x.len() != y.len() {
        return false;
    }
    let mut i: usize = 0;
    while i < x.len()
        invariant
            x@.len() == y@.len(),
            x@ == a.spec_bytes(),
            y@ == b.spec_bytes(),
            i <= x@.len(),
            forall|j: int| 0 <= j < i ==> x@[j] == y@[j],
        decreases x@.len() - i,
    {
        if x[i] != y[i] {
            assert(x@[i as int] != y@[i as int]);
            assert(x@ != y@);
            assert(a.spec_bytes() != b.spec_bytes());
            return false;
        }
        i = i + 1;
    }
    assert(x@ =~= y@);
    true
}

impl KeyCode {
    /// The key that a browser code stands for, `Unlabeled` for a code that is
    /// not known.
    pub fn from_code(code: &str) -> (k: KeyCode)
        ensures
            k == key_of_code(code@),
    {
        let mut i: usize = 0;
        while i < CODE_COUNT
            invariant
                i <= CODE_COUNT,
                forall|j: usize| j < i ==> (#[trigger] code_entry(j)).0@ != code@,
            decreases CODE_COUNT - i,
        {
            let (name, key) = entry(i);
            if str_eq(code, name) {
                proof {
                    let c = choose|c: usize| {
                        &&& c < CODE_COUNT
                        &&& (#[trigger] code_entry(c)).0@ == code@
                        &&& forall|j: usize| j < c ==> (#[trigger] code_entry(j)).0@ != code@
                    };
                    if c > i {
                        assert(code_entry(i).0@ == code@);
                    }
                }
                return key;
            }
            i = i + 1;
        }
        KeyCode::Unlabeled
    }

    /// Whether the browser's default action for this key is to be prevented
    /// (it would scroll the page or leave fullscreen).
    pub fn prevent_default(self) -> (b: bool)
        ensures
            b == (self == KeyCode::Space || self == KeyCode::PageUp || self == KeyCode::PageDown
                || self == KeyCode::Escape),
    {
        match self {
            KeyCode::Space | KeyCode::PageUp | KeyCode::PageDown | KeyCode::Escape => true,
            _ => false,
        }
    }
}

} // verus!
