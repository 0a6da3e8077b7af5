//! Protocol key codes → Linux evdev `KEY_*` codes.
//!
//! The protocol carries physical key positions (winit's `KeyCode` names), so the mapping is
//! layout independent; the X server on the VM applies its own XKB layout. Keys that have no
//! evdev equivalent (F25+, `NumpadMemory*`, `Fn`, ...) map to `None` and are dropped.
//!
//! Codes are the numbers of `linux/input-event-codes.h`.
use vstd::prelude::*;

use crate::proto::keycode::KeyCode;
use crate::proto::message::MouseButton;

verus! {

/// The evdev code of a key.
pub open spec fn evdev_code(key: KeyCode) -> Option<u16> {
    match key {
        KeyCode::Backquote => Some(41),
        KeyCode::Backslash => Some(43),
        KeyCode::BracketLeft => Some(26),
        KeyCode::BracketRight => Some(27),
        KeyCode::Comma => Some(51),
        KeyCode::Digit0 => Some(11),
        KeyCode::Digit1 => Some(2),
        KeyCode::Digit2 => Some(3),
        KeyCode::Digit3 => Some(4),
        KeyCode::Digit4 => Some(5),
        KeyCode::Digit5 => Some(6),
        KeyCode::Digit6 => Some(7),
        KeyCode::Digit7 => Some(8),
        KeyCode::Digit8 => Some(9),
        KeyCode::Digit9 => Some(10),
        KeyCode::Equal => Some(13),
        KeyCode::IntlBackslash => Some(86),
        KeyCode::IntlRo => Some(89),
        KeyCode::IntlYen => Some(124),
        KeyCode::KeyA => Some(30),
        KeyCode::KeyB => Some(48),
        KeyCode::KeyC => Some(46),
        KeyCode::KeyD => Some(32),
        KeyCode::KeyE => Some(18),
        KeyCode::KeyF => Some(33),
        KeyCode::KeyG => Some(34),
        KeyCode::KeyH => Some(35),
        KeyCode::KeyI => Some(23),
        KeyCode::KeyJ => Some(36),
        KeyCode::KeyK => Some(37),
        KeyCode::KeyL => Some(38),
        KeyCode::KeyM => Some(50),
        KeyCode::KeyN => Some(49),
        KeyCode::KeyO => Some(24),
        KeyCode::KeyP => Some(25),
        KeyCode::KeyQ => Some(16),
        KeyCode::KeyR => Some(19),
        KeyCode::KeyS => Some(31),
        KeyCode::KeyT => Some(20),
        KeyCode::KeyU => Some(22),
        KeyCode::KeyV => Some(47),
        KeyCode::KeyW => Some(17),
        KeyCode::KeyX => Some(45),
        KeyCode::KeyY => Some(21),
        KeyCode::KeyZ => Some(44),
        KeyCode::Minus => Some(12),
        KeyCode::Period => Some(52),
        KeyCode::Quote => Some(40),
        KeyCode::Semicolon => Some(39),
        KeyCode::Slash => Some(53),
        KeyCode::AltLeft => Some(56),
        KeyCode::AltRight => Some(100),
        KeyCode::Backspace => Some(14),
        KeyCode::CapsLock => Some(58),
        KeyCode::ContextMenu => Some(127),
        KeyCode::ControlLeft => Some(29),
        KeyCode::ControlRight => Some(97),
        KeyCode::Enter => Some(28),
        KeyCode::SuperLeft => Some(125),
        KeyCode::SuperRight => Some(126),
        KeyCode::ShiftLeft => Some(42),
        KeyCode::ShiftRight => Some(54),
        KeyCode::Space => Some(57),
        KeyCode::Tab => Some(15),
        KeyCode::Convert => Some(92),
        KeyCode::KanaMode => Some(93),
        KeyCode::Lang1 => Some(122),
        KeyCode::Lang2 => Some(123),
        KeyCode::Lang3 => Some(90),
        KeyCode::Lang4 => Some(91),
        KeyCode::Lang5 => Some(85),
        KeyCode::NonConvert => Some(94),
        KeyCode::Delete => Some(111),
        KeyCode::End => Some(107),
        KeyCode::Help => Some(138),
        KeyCode::Home => Some(102),
        KeyCode::Insert => Some(110),
        KeyCode::PageDown => Some(109),
        KeyCode::PageUp => Some(104),
        KeyCode::ArrowDown => Some(108),
        KeyCode::ArrowLeft => Some(105),
        KeyCode::ArrowRight => Some(106),
        KeyCode::ArrowUp => Some(103),
        KeyCode::NumLock => Some(69),
        KeyCode::Numpad0 => Some(82),
        KeyCode::Numpad1 => Some(79),
        KeyCode::Numpad2 => Some(80),
        KeyCode::Numpad3 => Some(81),
        KeyCode::Numpad4 => Some(75),
        KeyCode::Numpad5 => Some(76),
        KeyCode::Numpad6 => Some(77),
        KeyCode::Numpad7 => Some(71),
        KeyCode::Numpad8 => Some(72),
        KeyCode::Numpad9 => Some(73),
        KeyCode::NumpadAdd => Some(78),
        KeyCode::NumpadComma => Some(121),
        KeyCode::NumpadDecimal => Some(83),
        KeyCode::NumpadDivide => Some(98),
        KeyCode::NumpadEnter => Some(96),
        KeyCode::NumpadEqual => Some(117),
        KeyCode::NumpadMultiply => Some(55),
        KeyCode::NumpadParenLeft => Some(179),
        KeyCode::NumpadParenRight => Some(180),
        KeyCode::NumpadSubtract => Some(74),
        KeyCode::Escape => Some(1),
        KeyCode::PrintScreen => Some(99),
        KeyCode::ScrollLock => Some(70),
        KeyCode::Pause => Some(119),
        KeyCode::BrowserBack => Some(158),
        KeyCode::BrowserFavorites => Some(156),
        KeyCode::BrowserForward => Some(159),
        KeyCode::BrowserHome => Some(172),
        KeyCode::BrowserRefresh => Some(173),
        KeyCode::BrowserSearch => Some(217),
        KeyCode::BrowserStop => Some(128),
        KeyCode::Eject => Some(161),
        KeyCode::LaunchApp1 => Some(157),
        KeyCode::LaunchApp2 => Some(140),
        KeyCode::LaunchMail => Some(155),
        KeyCode::MediaPlayPause => Some(164),
        KeyCode::MediaSelect => Some(226),
        KeyCode::MediaStop => Some(166),
        KeyCode::MediaTrackNext => Some(163),
        KeyCode::MediaTrackPrevious => Some(165),
        KeyCode::Power => Some(116),
        KeyCode::Sleep => Some(142),
        KeyCode::AudioVolumeDown => Some(114),
        KeyCode::AudioVolumeMute => Some(113),
        KeyCode::AudioVolumeUp => Some(115),
        KeyCode::WakeUp => Some(143),
        KeyCode::Again => Some(129),
        KeyCode::Copy => Some(133),
        KeyCode::Cut => Some(137),
        KeyCode::Find => Some(136),
        KeyCode::Open => Some(134),
        KeyCode::Paste => Some(135),
        KeyCode::Props => Some(130),
        KeyCode::Select => Some(353),
        KeyCode::Undo => Some(131),
        KeyCode::Hiragana => Some(91),
        KeyCode::Katakana => Some(90),
        KeyCode::F1 => Some(59),
        KeyCode::F2 => Some(60),
        KeyCode::F3 => Some(61),
        KeyCode::F4 => Some(62),
        KeyCode::F5 => Some(63),
        KeyCode::F6 => Some(64),
        KeyCode::F7 => Some(65),
        KeyCode::F8 => Some(66),
        KeyCode::F9 => Some(67),
        KeyCode::F10 => Some(68),
        KeyCode::F11 => Some(87),
        KeyCode::F12 => Some(88),
        KeyCode::F13 => Some(183),
        KeyCode::F14 => Some(184),
        KeyCode::F15 => Some(185),
        KeyCode::F16 => Some(186),
        KeyCode::F17 => Some(187),
        KeyCode::F18 => Some(188),
        KeyCode::F19 => Some(189),
        KeyCode::F20 => Some(190),
        KeyCode::F21 => Some(191),
        KeyCode::F22 => Some(192),
        KeyCode::F23 => Some(193),
        KeyCode::F24 => Some(194),
        _ => None,
    }
}

/// The key with an evdev code; of two keys that share one, the one with the W3C name.
pub open spec fn key_of(code: u16) -> Option<KeyCode> {
    match code {
        41 => Some(KeyCode::Backquote),
        43 => Some(KeyCode::Backslash),
        26 => Some(KeyCode::BracketLeft),
        27 => Some(KeyCode::BracketRight),
        51 => Some(KeyCode::Comma),
        11 => Some(KeyCode::Digit0),
        2 => Some(KeyCode::Digit1),
        3 => Some(KeyCode::Digit2),
        4 => Some(KeyCode::Digit3),
        5 => Some(KeyCode::Digit4),
        6 => Some(KeyCode::Digit5),
        7 => Some(KeyCode::Digit6),
        8 => Some(KeyCode::Digit7),
        9 => Some(KeyCode::Digit8),
        10 => Some(KeyCode::Digit9),
        13 => Some(KeyCode::Equal),
        86 => Some(KeyCode::IntlBackslash),
        89 => Some(KeyCode::IntlRo),
        124 => Some(KeyCode::IntlYen),
        30 => Some(KeyCode::KeyA),
        48 => Some(KeyCode::KeyB),
        46 => Some(KeyCode::KeyC),
        32 => Some(KeyCode::KeyD),
        18 => Some(KeyCode::KeyE),
        33 => Some(KeyCode::KeyF),
        34 => Some(KeyCode::KeyG),
        35 => Some(KeyCode::KeyH),
        23 => Some(KeyCode::KeyI),
        36 => Some(KeyCode::KeyJ),
        37 => Some(KeyCode::KeyK),
        38 => Some(KeyCode::KeyL),
        50 => Some(KeyCode::KeyM),
        49 => Some(KeyCode::KeyN),
        24 => Some(KeyCode::KeyO),
        25 => Some(KeyCode::KeyP),
        16 => Some(KeyCode::KeyQ),
        19 => Some(KeyCode::KeyR),
        31 => Some(KeyCode::KeyS),
        20 => Some(KeyCode::KeyT),
        22 => Some(KeyCode::KeyU),
        47 => Some(KeyCode::KeyV),
        17 => Some(KeyCode::KeyW),
        45 => Some(KeyCode::KeyX),
        21 => Some(KeyCode::KeyY),
        44 => Some(KeyCode::KeyZ),
        12 => Some(KeyCode::Minus),
        52 => Some(KeyCode::Period),
        40 => Some(KeyCode::Quote),
        39 => Some(KeyCode::Semicolon),
        53 => Some(KeyCode::Slash),
        56 => Some(KeyCode::AltLeft),
        100 => Some(KeyCode::AltRight),
        14 => Some(KeyCode::Backspace),
        58 => Some(KeyCode::CapsLock),
        127 => Some(KeyCode::ContextMenu),
        29 => Some(KeyCode::ControlLeft),
        97 => Some(KeyCode::ControlRight),
        28 => Some(KeyCode::Enter),
        125 => Some(KeyCode::SuperLeft),
        126 => Some(KeyCode::SuperRight),
        42 => Some(KeyCode::ShiftLeft),
        54 => Some(KeyCode::ShiftRight),
        57 => Some(KeyCode::Space),
        15 => Some(KeyCode::Tab),
        92 => Some(KeyCode::Convert),
        93 => Some(KeyCode::KanaMode),
        122 => Some(KeyCode::Lang1),
        123 => Some(KeyCode::Lang2),
        90 => Some(KeyCode::Lang3),
        91 => Some(KeyCode::Lang4),
        85 => Some(KeyCode::Lang5),
        94 => Some(KeyCode::NonConvert),
        111 => Some(KeyCode::Delete),
        107 => Some(KeyCode::End),
        138 => Some(KeyCode::Help),
        102 => Some(KeyCode::Home),
        110 => Some(KeyCode::Insert),
        109 => Some(KeyCode::PageDown),
        104 => Some(KeyCode::PageUp),
        108 => Some(KeyCode::ArrowDown),
        105 => Some(KeyCode::ArrowLeft),
        106 => Some(KeyCode::ArrowRight),
        103 => Some(KeyCode::ArrowUp),
        69 => Some(KeyCode::NumLock),
        82 => Some(KeyCode::Numpad0),
        79 => Some(KeyCode::Numpad1),
        80 => Some(KeyCode::Numpad2),
        81 => Some(KeyCode::Numpad3),
        75 => Some(KeyCode::Numpad4),
        76 => Some(KeyCode::Numpad5),
        77 => Some(KeyCode::Numpad6),
        71 => Some(KeyCode::Numpad7),
        72 => Some(KeyCode::Numpad8),
        73 => Some(KeyCode::Numpad9),
        78 => Some(KeyCode::NumpadAdd),
        121 => Some(KeyCode::NumpadComma),
        83 => Some(KeyCode::NumpadDecimal),
        98 => Some(KeyCode::NumpadDivide),
        96 => Some(KeyCode::NumpadEnter),
        117 => Some(KeyCode::NumpadEqual),
        55 => Some(KeyCode::NumpadMultiply),
        179 => Some(KeyCode::NumpadParenLeft),
        180 => Some(KeyCode::NumpadParenRight),
        74 => Some(KeyCode::NumpadSubtract),
        1 => Some(KeyCode::Escape),
        99 => Some(KeyCode::PrintScreen),
        70 => Some(KeyCode::ScrollLock),
        119 => Some(KeyCode::Pause),
        158 => Some(KeyCode::BrowserBack),
        156 => Some(KeyCode::BrowserFavorites),
        159 => Some(KeyCode::BrowserForward),
        172 => Some(KeyCode::BrowserHome),
        173 => Some(KeyCode::BrowserRefresh),
        217 => Some(KeyCode::BrowserSearch),
        128 => Some(KeyCode::BrowserStop),
        161 => Some(KeyCode::Eject),
        157 => Some(KeyCode::LaunchApp1),
        140 => Some(KeyCode::LaunchApp2),
        155 => Some(KeyCode::LaunchMail),
        164 => Some(KeyCode::MediaPlayPause),
        226 => Some(KeyCode::MediaSelect),
        166 => Some(KeyCode::MediaStop),
        163 => Some(KeyCode::MediaTrackNext),
        165 => Some(KeyCode::MediaTrackPrevious),
        116 => Some(KeyCode::Power),
        142 => Some(KeyCode::Sleep),
        114 => Some(KeyCode::AudioVolumeDown),
        113 => Some(KeyCode::AudioVolumeMute),
        115 => Some(KeyCode::AudioVolumeUp),
        143 => Some(KeyCode::WakeUp),
        129 => Some(KeyCode::Again),
        133 => Some(KeyCode::Copy),
        137 => Some(KeyCode::Cut),
        136 => Some(KeyCode::Find),
        134 => Some(KeyCode::Open),
        135 => Some(KeyCode::Paste),
        130 => Some(KeyCode::Props),
        353 => Some(KeyCode::Select),
        131 => Some(KeyCode::Undo),
        59 => Some(KeyCode::F1),
        60 => Some(KeyCode::F2),
        61 => Some(KeyCode::F3),
        62 => Some(KeyCode::F4),
        63 => Some(KeyCode::F5),
        64 => Some(KeyCode::F6),
        65 => Some(KeyCode::F7),
        66 => Some(KeyCode::F8),
        67 => Some(KeyCode::F9),
        68 => Some(KeyCode::F10),
        87 => Some(KeyCode::F11),
        88 => Some(KeyCode::F12),
        183 => Some(KeyCode::F13),
        184 => Some(KeyCode::F14),
        185 => Some(KeyCode::F15),
        186 => Some(KeyCode::F16),
        187 => Some(KeyCode::F17),
        188 => Some(KeyCode::F18),
        189 => Some(KeyCode::F19),
        190 => Some(KeyCode::F20),
        191 => Some(KeyCode::F21),
        192 => Some(KeyCode::F22),
        193 => Some(KeyCode::F23),
        194 => Some(KeyCode::F24),
        _ => None,
    }
}

/// Lang3/Lang4 (W3C) and Katakana/Hiragana (legacy) name the same physical keys.
pub open spec fn w3c_name(key: KeyCode) -> KeyCode {
    match key {
        KeyCode::Katakana => KeyCode::Lang3,
        KeyCode::Hiragana => KeyCode::Lang4,
        other => other,
    }
}

/// The evdev code of a key, if there is one.
pub fn to_evdev(key: KeyCode) -> (r: Option<u16>)
    ensures
        r == evdev_code(key),
{
    match key {
        KeyCode::Backquote => Some(41), // KEY_GRAVE
        KeyCode::Backslash => Some(43), // KEY_BACKSLASH
        KeyCode::BracketLeft => Some(26), // KEY_LEFTBRACE
        KeyCode::BracketRight => Some(27), // KEY_RIGHTBRACE
        KeyCode::Comma => Some(51), // KEY_COMMA
        KeyCode::Digit0 => Some(11), // KEY_0
        KeyCode::Digit1 => Some(2), // KEY_1
        KeyCode::Digit2 => Some(3), // KEY_2
        KeyCode::Digit3 => Some(4), // KEY_3
        KeyCode::Digit4 => Some(5), // KEY_4
        KeyCode::Digit5 => Some(6), // KEY_5
        KeyCode::Digit6 => Some(7), // KEY_6
        KeyCode::Digit7 => Some(8), // KEY_7
        KeyCode::Digit8 => Some(9), // KEY_8
        KeyCode::Digit9 => Some(10), // KEY_9
        KeyCode::Equal => Some(13), // KEY_EQUAL
        KeyCode::IntlBackslash => Some(86), // KEY_102ND
        KeyCode::IntlRo => Some(89), // KEY_RO
        KeyCode::IntlYen => Some(124), // KEY_YEN
        KeyCode::KeyA => Some(30), // KEY_A
        KeyCode::KeyB => Some(48), // KEY_B
        KeyCode::KeyC => Some(46), // KEY_C
        KeyCode::KeyD => Some(32), // KEY_D
        KeyCode::KeyE => Some(18), // KEY_E
        KeyCode::KeyF => Some(33), // KEY_F
        KeyCode::KeyG => Some(34), // KEY_G
        KeyCode::KeyH => Some(35), // KEY_H
        KeyCode::KeyI => Some(23), // KEY_I
        KeyCode::KeyJ => Some(36), // KEY_J
        KeyCode::KeyK => Some(37), // KEY_K
        KeyCode::KeyL => Some(38), // KEY_L
        KeyCode::KeyM => Some(50), // KEY_M
        KeyCode::KeyN => Some(49), // KEY_N
        KeyCode::KeyO => Some(24), // KEY_O
        KeyCode::KeyP => Some(25), // KEY_P
        KeyCode::KeyQ => Some(16), // KEY_Q
        KeyCode::KeyR => Some(19), // KEY_R
        KeyCode::KeyS => Some(31), // KEY_S
        KeyCode::KeyT => Some(20), // KEY_T
        KeyCode::KeyU => Some(22), // KEY_U
        KeyCode::KeyV => Some(47), // KEY_V
        KeyCode::KeyW => Some(17), // KEY_W
        KeyCode::KeyX => Some(45), // KEY_X
        KeyCode::KeyY => Some(21), // KEY_Y
        KeyCode::KeyZ => Some(44), // KEY_Z
        KeyCode::Minus => Some(12), // KEY_MINUS
        KeyCode::Period => Some(52), // KEY_DOT
        KeyCode::Quote => Some(40), // KEY_APOSTROPHE
        KeyCode::Semicolon => Some(39), // KEY_SEMICOLON
        KeyCode::Slash => Some(53), // KEY_SLASH
        KeyCode::AltLeft => Some(56), // KEY_LEFTALT
        KeyCode::AltRight => Some(100), // KEY_RIGHTALT
        KeyCode::Backspace => Some(14), // KEY_BACKSPACE
        KeyCode::CapsLock => Some(58), // KEY_CAPSLOCK
        KeyCode::ContextMenu => Some(127), // KEY_COMPOSE
        KeyCode::ControlLeft => Some(29), // KEY_LEFTCTRL
        KeyCode::ControlRight => Some(97), // KEY_RIGHTCTRL
        KeyCode::Enter => Some(28), // KEY_ENTER
        KeyCode::SuperLeft => Some(125), // KEY_LEFTMETA
        KeyCode::SuperRight => Some(126), // KEY_RIGHTMETA
        KeyCode::ShiftLeft => Some(42), // KEY_LEFTSHIFT
        KeyCode::ShiftRight => Some(54), // KEY_RIGHTSHIFT
        KeyCode::Space => Some(57), // KEY_SPACE
        KeyCode::Tab => Some(15), // KEY_TAB
        KeyCode::Convert => Some(92), // KEY_HENKAN
        KeyCode::KanaMode => Some(93), // KEY_KATAKANAHIRAGANA
        KeyCode::Lang1 => Some(122), // KEY_HANGEUL
        KeyCode::Lang2 => Some(123), // KEY_HANJA
        KeyCode::Lang3 => Some(90), // KEY_KATAKANA
        KeyCode::Lang4 => Some(91), // KEY_HIRAGANA
        KeyCode::Lang5 => Some(85), // KEY_ZENKAKUHANKAKU
        KeyCode::NonConvert => Some(94), // KEY_MUHENKAN
        KeyCode::Delete => Some(111), // KEY_DELETE
        KeyCode::End => Some(107), // KEY_END
        KeyCode::Help => Some(138), // KEY_HELP
        KeyCode::Home => Some(102), // KEY_HOME
        KeyCode::Insert => Some(110), // KEY_INSERT
        KeyCode::PageDown => Some(109), // KEY_PAGEDOWN
        KeyCode::PageUp => Some(104), // KEY_PAGEUP
        KeyCode::ArrowDown => Some(108), // KEY_DOWN
        KeyCode::ArrowLeft => Some(105), // KEY_LEFT
        KeyCode::ArrowRight => Some(106), // KEY_RIGHT
        KeyCode::ArrowUp => Some(103), // KEY_UP
        KeyCode::NumLock => Some(69), // KEY_NUMLOCK
        KeyCode::Numpad0 => Some(82), // KEY_KP0
        KeyCode::Numpad1 => Some(79), // KEY_KP1
        KeyCode::Numpad2 => Some(80), // KEY_KP2
        KeyCode::Numpad3 => Some(81), // KEY_KP3
        KeyCode::Numpad4 => Some(75), // KEY_KP4
        KeyCode::Numpad5 => Some(76), // KEY_KP5
        KeyCode::Numpad6 => Some(77), // KEY_KP6
        KeyCode::Numpad7 => Some(71), // KEY_KP7
        KeyCode::Numpad8 => Some(72), // KEY_KP8
        KeyCode::Numpad9 => Some(73), // KEY_KP9
        KeyCode::NumpadAdd => Some(78), // KEY_KPPLUS
        KeyCode::NumpadComma => Some(121), // KEY_KPCOMMA
        KeyCode::NumpadDecimal => Some(83), // KEY_KPDOT
        KeyCode::NumpadDivide => Some(98), // KEY_KPSLASH
        KeyCode::NumpadEnter => Some(96), // KEY_KPENTER
        KeyCode::NumpadEqual => Some(117), // KEY_KPEQUAL
        KeyCode::NumpadMultiply => Some(55), // KEY_KPASTERISK
        KeyCode::NumpadParenLeft => Some(179), // KEY_KPLEFTPAREN
        KeyCode::NumpadParenRight => Some(180), // KEY_KPRIGHTPAREN
        KeyCode::NumpadSubtract => Some(74), // KEY_KPMINUS
        KeyCode::Escape => Some(1), // KEY_ESC
        KeyCode::PrintScreen => Some(99), // KEY_SYSRQ
        KeyCode::ScrollLock => Some(70), // KEY_SCROLLLOCK
        KeyCode::Pause => Some(119), // KEY_PAUSE
        KeyCode::BrowserBack => Some(158), // KEY_BACK
        KeyCode::BrowserFavorites => Some(156), // KEY_BOOKMARKS
        KeyCode::BrowserForward => Some(159), // KEY_FORWARD
        KeyCode::BrowserHome => Some(172), // KEY_HOMEPAGE
        KeyCode::BrowserRefresh => Some(173), // KEY_REFRESH
        KeyCode::BrowserSearch => Some(217), // KEY_SEARCH
        KeyCode::BrowserStop => Some(128), // KEY_STOP
        KeyCode::Eject => Some(161), // KEY_EJECTCD
        KeyCode::LaunchApp1 => Some(157), // KEY_COMPUTER
        KeyCode::LaunchApp2 => Some(140), // KEY_CALC
        KeyCode::LaunchMail => Some(155), // KEY_MAIL
        KeyCode::MediaPlayPause => Some(164), // KEY_PLAYPAUSE
        KeyCode::MediaSelect => Some(226), // KEY_MEDIA
        KeyCode::MediaStop => Some(166), // KEY_STOPCD
        KeyCode::MediaTrackNext => Some(163), // KEY_NEXTSONG
        KeyCode::MediaTrackPrevious => Some(165), // KEY_PREVIOUSSONG
        KeyCode::Power => Some(116), // KEY_POWER
        KeyCode::Sleep => Some(142), // KEY_SLEEP
        KeyCode::AudioVolumeDown => Some(114), // KEY_VOLUMEDOWN
        KeyCode::AudioVolumeMute => Some(113), // KEY_MUTE
        KeyCode::AudioVolumeUp => Some(115), // KEY_VOLUMEUP
        KeyCode::WakeUp => Some(143), // KEY_WAKEUP
        KeyCode::Again => Some(129), // KEY_AGAIN
        KeyCode::Copy => Some(133), // KEY_COPY
        KeyCode::Cut => Some(137), // KEY_CUT
        KeyCode::Find => Some(136), // KEY_FIND
        KeyCode::Open => Some(134), // KEY_OPEN
        KeyCode::Paste => Some(135), // KEY_PASTE
        KeyCode::Props => Some(130), // KEY_PROPS
        KeyCode::Select => Some(353), // KEY_SELECT
        KeyCode::Undo => Some(131), // KEY_UNDO
        KeyCode::Hiragana => Some(91), // KEY_HIRAGANA
        KeyCode::Katakana => Some(90), // KEY_KATAKANA
        KeyCode::F1 => Some(59), // KEY_F1
        KeyCode::F2 => Some(60), // KEY_F2
        KeyCode::F3 => Some(61), // KEY_F3
        KeyCode::F4 => Some(62), // KEY_F4
        KeyCode::F5 => Some(63), // KEY_F5
        KeyCode::F6 => Some(64), // KEY_F6
        KeyCode::F7 => Some(65), // KEY_F7
        KeyCode::F8 => Some(66), // KEY_F8
        KeyCode::F9 => Some(67), // KEY_F9
        KeyCode::F10 => Some(68), // KEY_F10
        KeyCode::F11 => Some(87), // KEY_F11
        KeyCode::F12 => Some(88), // KEY_F12
        KeyCode::F13 => Some(183), // KEY_F13
        KeyCode::F14 => Some(184), // KEY_F14
        KeyCode::F15 => Some(185), // KEY_F15
        KeyCode::F16 => Some(186), // KEY_F16
        KeyCode::F17 => Some(187), // KEY_F17
        KeyCode::F18 => Some(188), // KEY_F18
        KeyCode::F19 => Some(189), // KEY_F19
        KeyCode::F20 => Some(190), // KEY_F20
        KeyCode::F21 => Some(191), // KEY_F21
        KeyCode::F22 => Some(192), // KEY_F22
        KeyCode::F23 => Some(193), // KEY_F23
        KeyCode::F24 => Some(194), // KEY_F24
        _ => None,
    }
}

/// The evdev code of a mouse button.
pub open spec fn button_code(button: MouseButton) -> u16 {
    match button {
        MouseButton::Left => 0x110,
        MouseButton::Right => 0x111,
        MouseButton::Middle => 0x112,
        MouseButton::Back => 0x113,
        MouseButton::Forward => 0x114,
    }
}

/// The evdev code of a mouse button.
pub fn button_to_evdev(button: MouseButton) -> (r: u16)
    ensures
        r == button_code(button),
{
    match button {
        MouseButton::Left => 0x110, // BTN_LEFT
        MouseButton::Right => 0x111, // BTN_RIGHT
        MouseButton::Middle => 0x112, // BTN_MIDDLE
        MouseButton::Back => 0x113, // BTN_SIDE
        MouseButton::Forward => 0x114, // BTN_EXTRA
    }
}

/// A key comes back from its evdev code, up to its name.
pub proof fn evdev_code_round_trips(key: KeyCode)
    ensures
        evdev_code(key) matches Some(code) ==> key_of(code) == Some(w3c_name(key)),
{
}

/// Two keys share an evdev code only if they are two names of one key.
pub proof fn mapping_is_injective_up_to_names(a: KeyCode, b: KeyCode)
    requires
        evdev_code(a) is Some,
        evdev_code(a) == evdev_code(b),
    ensures
        w3c_name(a) == w3c_name(b),
{
    evdev_code_round_trips(a);
    evdev_code_round_trips(b);
}

/// No key shares its code with a mouse button, and no two buttons share one.
pub proof fn buttons_are_no_keys(key: KeyCode, a: MouseButton, b: MouseButton)
    ensures
        evdev_code(key) != Some(button_code(a)),
        button_code(a) == button_code(b) ==> a == b,
{
}

/// The codes of the keys with wire values below `n` that have one, in wire order.
pub open spec fn codes_below(n: nat) -> Seq<u16>
    decreases n,
{
    if n == 0 {
        Seq::empty()
    } else {
        let codes = codes_below((n - 1) as nat);
        match code_of_wire((n - 1) as u16) {
            Some(c) => codes.push(c),
            None => codes,
        }
    }
}

/// The code of the key with a wire value.
pub open spec fn code_of_wire(v: u16) -> Option<u16> {
    match KeyCode::of_wire(v) {
        Some(k) => evdev_code(k),
        None => None,
    }
}

/// The codes of all keys that have one, in wire order: what the virtual keyboard announces.
pub fn keyboard_keys() -> (r: Vec<u16>)
    ensures
        r@ == codes_below(crate::proto::keycode::KEY_COUNT as nat),
        forall|k: KeyCode|
            #[trigger] evdev_code(k) is Some ==> r@.contains(evdev_code(k)->0),
        forall|i: int| 0 <= i < r@.len() ==> key_of(#[trigger] r@[i]) is Some,
{
    let all = KeyCode::all();
    let mut out: Vec<u16> = Vec::new();
    for i in 0..all.len()
        invariant
            all@.len() == crate::proto::keycode::KEY_COUNT,
            forall|j: int| 0 <= j < all@.len() ==> (#[trigger] all@[j]).wire() == j,
            out@ == codes_below(i as nat),
            forall|j: int|
                0 <= j < i ==> (evdev_code(#[trigger] all@[j]) matches Some(code)
                    ==> out@.contains(code)),
            forall|j: int| 0 <= j < out@.len() ==> key_of(#[trigger] out@[j]) is Some,
    {
        let ghost before = out@;
        proof {
            crate::proto::keycode::wire_value_round_trips(all@[i as int]);
            assert(code_of_wire(i as u16) == evdev_code(all@[i as int]));
        }
        if let Some(code) = to_evdev(all[i]) {
            proof {
                evdev_code_round_trips(all@[i as int]);
            }
            out.push(code);
            assert(out@[before.len() as int] == code);
            assert forall|j: int| 0 <= j < i implies (evdev_code(#[trigger] all@[j]) matches Some(c)
                ==> out@.contains(c)) by {
                if evdev_code(all@[j]) is Some {
                    let c = evdev_code(all@[j])->0;
                    assert(before.contains(c));
                    let m = choose|m: int| 0 <= m < before.len() && before[m] == c;
                    assert(out@[m] == c);
                }
            }
        }
    }
    proof {
        assert forall|k: KeyCode| #[trigger] evdev_code(k) is Some implies out@.contains(evdev_code(k)->0) by {
            crate::proto::keycode::wire_value_round_trips(k);
            let i = k.wire() as int;
            crate::proto::keycode::wire_value_round_trips(all@[i]);
            assert(all@[i] == k);
        }
    }
    out
}

/// The codes of all mouse buttons: what the virtual pointer announces.
pub fn pointer_buttons() -> (r: Vec<u16>)
    ensures
        r@.len() == 5,
        forall|i: int|
            0 <= i < 5 ==> MouseButton::of_wire(i as u8) is Some && #[trigger] r@[i]
                == button_code(MouseButton::of_wire(i as u8)->0),
{
    vec![
        button_to_evdev(MouseButton::Left),
        button_to_evdev(MouseButton::Right),
        button_to_evdev(MouseButton::Middle),
        button_to_evdev(MouseButton::Back),
        button_to_evdev(MouseButton::Forward),
    ]
}

} // verus!
