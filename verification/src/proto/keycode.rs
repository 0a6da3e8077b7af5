//! Physical key codes.
//!
//! [`KeyCode`] mirrors winit 0.30's `KeyCode` enum variant-for-variant (same names, same
//! meaning: physical key positions, independent of keyboard layout). The client converts
//! `winit::keyboard::KeyCode` into it by name; the server maps it onto evdev `KEY_*` codes.
//!
//! The wire value is the variant index. **The list is append-only**: never reorder or remove
//! entries, or old clients and servers will disagree about which key was pressed.
use vstd::prelude::*;

use crate::text;

verus! {

/// Number of key codes.
pub const KEY_COUNT: u16 = 194;

/// Physical key code, see the [module docs](self).
#[allow(missing_docs)]
#[derive(Debug, Clone, Copy, PartialEq, Eq, Hash, PartialOrd, Ord, Structural)]
pub enum KeyCode {
    Backquote,
    Backslash,
    BracketLeft,
    BracketRight,
    Comma,
    Digit0,
    Digit1,
    Digit2,
    Digit3,
    Digit4,
    Digit5,
    Digit6,
    Digit7,
    Digit8,
    Digit9,
    Equal,
    IntlBackslash,
    IntlRo,
    IntlYen,
    KeyA,
    KeyB,
    KeyC,
    KeyD,
    KeyE,
    KeyF,
    KeyG,
    KeyH,
    KeyI,
    KeyJ,
    KeyK,
    KeyL,
    KeyM,
    KeyN,
    KeyO,
    KeyP,
    KeyQ,
    KeyR,
    KeyS,
    KeyT,
    KeyU,
    KeyV,
    KeyW,
    KeyX,
    KeyY,
    KeyZ,
    Minus,
    Period,
    Quote,
    Semicolon,
    Slash,
    AltLeft,
    AltRight,
    Backspace,
    CapsLock,
    ContextMenu,
    ControlLeft,
    ControlRight,
    Enter,
    SuperLeft,
    SuperRight,
    ShiftLeft,
    ShiftRight,
    Space,
    Tab,
    Convert,
    KanaMode,
    Lang1,
    Lang2,
    Lang3,
    Lang4,
    Lang5,
    NonConvert,
    Delete,
    End,
    Help,
    Home,
    Insert,
    PageDown,
    PageUp,
    ArrowDown,
    ArrowLeft,
    ArrowRight,
    ArrowUp,
    NumLock,
    Numpad0,
    Numpad1,
    Numpad2,
    Numpad3,
    Numpad4,
    Numpad5,
    Numpad6,
    Numpad7,
    Numpad8,
    Numpad9,
    NumpadAdd,
    NumpadBackspace,
    NumpadClear,
    NumpadClearEntry,
    NumpadComma,
    NumpadDecimal,
    NumpadDivide,
    NumpadEnter,
    NumpadEqual,
    NumpadHash,
    NumpadMemoryAdd,
    NumpadMemoryClear,
    NumpadMemoryRecall,
    NumpadMemoryStore,
    NumpadMemorySubtract,
    NumpadMultiply,
    NumpadParenLeft,
    NumpadParenRight,
    NumpadStar,
    NumpadSubtract,
    Escape,
    Fn,
    FnLock,
    PrintScreen,
    ScrollLock,
    Pause,
    BrowserBack,
    BrowserFavorites,
    BrowserForward,
    BrowserHome,
    BrowserRefresh,
    BrowserSearch,
    BrowserStop,
    Eject,
    LaunchApp1,
    LaunchApp2,
    LaunchMail,
    MediaPlayPause,
    MediaSelect,
    MediaStop,
    MediaTrackNext,
    MediaTrackPrevious,
    Power,
    Sleep,
    AudioVolumeDown,
    AudioVolumeMute,
    AudioVolumeUp,
    WakeUp,
    Meta,
    Hyper,
    Turbo,
    Abort,
    Resume,
    Suspend,
    Again,
    Copy,
    Cut,
    Find,
    Open,
    Paste,
    Props,
    Select,
    Undo,
    Hiragana,
    Katakana,
    F1,
    F2,
    F3,
    F4,
    F5,
    F6,
    F7,
    F8,
    F9,
    F10,
    F11,
    F12,
    F13,
    F14,
    F15,
    F16,
    F17,
    F18,
    F19,
    F20,
    F21,
    F22,
    F23,
    F24,
    F25,
    F26,
    F27,
    F28,
    F29,
    F30,
    F31,
    F32,
    F33,
    F34,
    F35,
}

impl KeyCode {
    /// Wire value of a key code.
    pub open spec fn wire(self) -> u16 {
        match self {
            KeyCode::Backquote => 0,
            KeyCode::Backslash => 1,
            KeyCode::BracketLeft => 2,
            KeyCode::BracketRight => 3,
            KeyCode::Comma => 4,
            KeyCode::Digit0 => 5,
            KeyCode::Digit1 => 6,
            KeyCode::Digit2 => 7,
            KeyCode::Digit3 => 8,
            KeyCode::Digit4 => 9,
            KeyCode::Digit5 => 10,
            KeyCode::Digit6 => 11,
            KeyCode::Digit7 => 12,
            KeyCode::Digit8 => 13,
            KeyCode::Digit9 => 14,
            KeyCode::Equal => 15,
            KeyCode::IntlBackslash => 16,
            KeyCode::IntlRo => 17,
            KeyCode::IntlYen => 18,
            KeyCode::KeyA => 19,
            KeyCode::KeyB => 20,
            KeyCode::KeyC => 21,
            KeyCode::KeyD => 22,
            KeyCode::KeyE => 23,
            KeyCode::KeyF => 24,
            KeyCode::KeyG => 25,
            KeyCode::KeyH => 26,
            KeyCode::KeyI => 27,
            KeyCode::KeyJ => 28,
            KeyCode::KeyK => 29,
            KeyCode::KeyL => 30,
            KeyCode::KeyM => 31,
            KeyCode::KeyN => 32,
            KeyCode::KeyO => 33,
            KeyCode::KeyP => 34,
            KeyCode::KeyQ => 35,
            KeyCode::KeyR => 36,
            KeyCode::KeyS => 37,
            KeyCode::KeyT => 38,
            KeyCode::KeyU => 39,
            KeyCode::KeyV => 40,
            KeyCode::KeyW => 41,
            KeyCode::KeyX => 42,
            KeyCode::KeyY => 43,
            KeyCode::KeyZ => 44,
            KeyCode::Minus => 45,
            KeyCode::Period => 46,
            KeyCode::Quote => 47,
            KeyCode::Semicolon => 48,
            KeyCode::Slash => 49,
            KeyCode::AltLeft => 50,
            KeyCode::AltRight => 51,
            KeyCode::Backspace => 52,
            KeyCode::CapsLock => 53,
            KeyCode::ContextMenu => 54,
            KeyCode::ControlLeft => 55,
            KeyCode::ControlRight => 56,
            KeyCode::Enter => 57,
            KeyCode::SuperLeft => 58,
            KeyCode::SuperRight => 59,
            KeyCode::ShiftLeft => 60,
            KeyCode::ShiftRight => 61,
            KeyCode::Space => 62,
            KeyCode::Tab => 63,
            KeyCode::Convert => 64,
            KeyCode::KanaMode => 65,
            KeyCode::Lang1 => 66,
            KeyCode::Lang2 => 67,
            KeyCode::Lang3 => 68,
            KeyCode::Lang4 => 69,
            KeyCode::Lang5 => 70,
            KeyCode::NonConvert => 71,
            KeyCode::Delete => 72,
            KeyCode::End => 73,
            KeyCode::Help => 74,
            KeyCode::Home => 75,
            KeyCode::Insert => 76,
            KeyCode::PageDown => 77,
            KeyCode::PageUp => 78,
            KeyCode::ArrowDown => 79,
            KeyCode::ArrowLeft => 80,
            KeyCode::ArrowRight => 81,
            KeyCode::ArrowUp => 82,
            KeyCode::NumLock => 83,
            KeyCode::Numpad0 => 84,
            KeyCode::Numpad1 => 85,
            KeyCode::Numpad2 => 86,
            KeyCode::Numpad3 => 87,
            KeyCode::Numpad4 => 88,
            KeyCode::Numpad5 => 89,
            KeyCode::Numpad6 => 90,
            KeyCode::Numpad7 => 91,
            KeyCode::Numpad8 => 92,
            KeyCode::Numpad9 => 93,
            KeyCode::NumpadAdd => 94,
            KeyCode::NumpadBackspace => 95,
            KeyCode::NumpadClear => 96,
            KeyCode::NumpadClearEntry => 97,
            KeyCode::NumpadComma => 98,
            KeyCode::NumpadDecimal => 99,
            KeyCode::NumpadDivide => 100,
            KeyCode::NumpadEnter => 101,
            KeyCode::NumpadEqual => 102,
            KeyCode::NumpadHash => 103,
            KeyCode::NumpadMemoryAdd => 104,
            KeyCode::NumpadMemoryClear => 105,
            KeyCode::NumpadMemoryRecall => 106,
            KeyCode::NumpadMemoryStore => 107,
            KeyCode::NumpadMemorySubtract => 108,
            KeyCode::NumpadMultiply => 109,
            KeyCode::NumpadParenLeft => 110,
            KeyCode::NumpadParenRight => 111,
            KeyCode::NumpadStar => 112,
            KeyCode::NumpadSubtract => 113,
            KeyCode::Escape => 114,
            KeyCode::Fn => 115,
            KeyCode::FnLock => 116,
            KeyCode::PrintScreen => 117,
            KeyCode::ScrollLock => 118,
            KeyCode::Pause => 119,
            KeyCode::BrowserBack => 120,
            KeyCode::BrowserFavorites => 121,
            KeyCode::BrowserForward => 122,
            KeyCode::BrowserHome => 123,
            KeyCode::BrowserRefresh => 124,
            KeyCode::BrowserSearch => 125,
            KeyCode::BrowserStop => 126,
            KeyCode::Eject => 127,
            KeyCode::LaunchApp1 => 128,
            KeyCode::LaunchApp2 => 129,
            KeyCode::LaunchMail => 130,
            KeyCode::MediaPlayPause => 131,
            KeyCode::MediaSelect => 132,
            KeyCode::MediaStop => 133,
            KeyCode::MediaTrackNext => 134,
            KeyCode::MediaTrackPrevious => 135,
            KeyCode::Power => 136,
            KeyCode::Sleep => 137,
            KeyCode::AudioVolumeDown => 138,
            KeyCode::AudioVolumeMute => 139,
            KeyCode::AudioVolumeUp => 140,
            KeyCode::WakeUp => 141,
            KeyCode::Meta => 142,
            KeyCode::Hyper => 143,
            KeyCode::Turbo => 144,
            KeyCode::Abort => 145,
            KeyCode::Resume => 146,
            KeyCode::Suspend => 147,
            KeyCode::Again => 148,
            KeyCode::Copy => 149,
            KeyCode::Cut => 150,
            KeyCode::Find => 151,
            KeyCode::Open => 152,
            KeyCode::Paste => 153,
            KeyCode::Props => 154,
            KeyCode::Select => 155,
            KeyCode::Undo => 156,
            KeyCode::Hiragana => 157,
            KeyCode::Katakana => 158,
            KeyCode::F1 => 159,
            KeyCode::F2 => 160,
            KeyCode::F3 => 161,
            KeyCode::F4 => 162,
            KeyCode::F5 => 163,
            KeyCode::F6 => 164,
            KeyCode::F7 => 165,
            KeyCode::F8 => 166,
            KeyCode::F9 => 167,
            KeyCode::F10 => 168,
            KeyCode::F11 => 169,
            KeyCode::F12 => 170,
            KeyCode::F13 => 171,
            KeyCode::F14 => 172,
            KeyCode::F15 => 173,
            KeyCode::F16 => 174,
            KeyCode::F17 => 175,
            KeyCode::F18 => 176,
            KeyCode::F19 => 177,
            KeyCode::F20 => 178,
            KeyCode::F21 => 179,
            KeyCode::F22 => 180,
            KeyCode::F23 => 181,
            KeyCode::F24 => 182,
            KeyCode::F25 => 183,
            KeyCode::F26 => 184,
            KeyCode::F27 => 185,
            KeyCode::F28 => 186,
            KeyCode::F29 => 187,
            KeyCode::F30 => 188,
            KeyCode::F31 => 189,
            KeyCode::F32 => 190,
            KeyCode::F33 => 191,
            KeyCode::F34 => 192,
            KeyCode::F35 => 193,
        }
    }

    /// The key code with a wire value.
    pub open spec fn of_wire(v: u16) -> Option<KeyCode> {
        match v {
            0 => Some(KeyCode::Backquote),
            1 => Some(KeyCode::Backslash),
            2 => Some(KeyCode::BracketLeft),
            3 => Some(KeyCode::BracketRight),
            4 => Some(KeyCode::Comma),
            5 => Some(KeyCode::Digit0),
            6 => Some(KeyCode::Digit1),
            7 => Some(KeyCode::Digit2),
            8 => Some(KeyCode::Digit3),
            9 => Some(KeyCode::Digit4),
            10 => Some(KeyCode::Digit5),
            11 => Some(KeyCode::Digit6),
            12 => Some(KeyCode::Digit7),
            13 => Some(KeyCode::Digit8),
            14 => Some(KeyCode::Digit9),
            15 => Some(KeyCode::Equal),
            16 => Some(KeyCode::IntlBackslash),
            17 => Some(KeyCode::IntlRo),
            18 => Some(KeyCode::IntlYen),
            19 => Some(KeyCode::KeyA),
            20 => Some(KeyCode::KeyB),
            21 => Some(KeyCode::KeyC),
            22 => Some(KeyCode::KeyD),
            23 => Some(KeyCode::KeyE),
            24 => Some(KeyCode::KeyF),
            25 => Some(KeyCode::KeyG),
            26 => Some(KeyCode::KeyH),
            27 => Some(KeyCode::KeyI),
            28 => Some(KeyCode::KeyJ),
            29 => Some(KeyCode::KeyK),
            30 => Some(KeyCode::KeyL),
            31 => Some(KeyCode::KeyM),
            32 => Some(KeyCode::KeyN),
            33 => Some(KeyCode::KeyO),
            34 => Some(KeyCode::KeyP),
            35 => Some(KeyCode::KeyQ),
            36 => Some(KeyCode::KeyR),
            37 => Some(KeyCode::KeyS),
            38 => Some(KeyCode::KeyT),
            39 => Some(KeyCode::KeyU),
            40 => Some(KeyCode::KeyV),
            41 => Some(KeyCode::KeyW),
            42 => Some(KeyCode::KeyX),
            43 => Some(KeyCode::KeyY),
            44 => Some(KeyCode::KeyZ),
            45 => Some(KeyCode::Minus),
            46 => Some(KeyCode::Period),
            47 => Some(KeyCode::Quote),
            48 => Some(KeyCode::Semicolon),
            49 => Some(KeyCode::Slash),
            50 => Some(KeyCode::AltLeft),
            51 => Some(KeyCode::AltRight),
            52 => Some(KeyCode::Backspace),
            53 => Some(KeyCode::CapsLock),
            54 => Some(KeyCode::ContextMenu),
            55 => Some(KeyCode::ControlLeft),
            56 => Some(KeyCode::ControlRight),
            57 => Some(KeyCode::Enter),
            58 => Some(KeyCode::SuperLeft),
            59 => Some(KeyCode::SuperRight),
            60 => Some(KeyCode::ShiftLeft),
            61 => Some(KeyCode::ShiftRight),
            62 => Some(KeyCode::Space),
            63 => Some(KeyCode::Tab),
            64 => Some(KeyCode::Convert),
            65 => Some(KeyCode::KanaMode),
            66 => Some(KeyCode::Lang1),
            67 => Some(KeyCode::Lang2),
            68 => Some(KeyCode::Lang3),
            69 => Some(KeyCode::Lang4),
            70 => Some(KeyCode::Lang5),
            71 => Some(KeyCode::NonConvert),
            72 => Some(KeyCode::Delete),
            73 => Some(KeyCode::End),
            74 => Some(KeyCode::Help),
            75 => Some(KeyCode::Home),
            76 => Some(KeyCode::Insert),
            77 => Some(KeyCode::PageDown),
            78 => Some(KeyCode::PageUp),
            79 => Some(KeyCode::ArrowDown),
            80 => Some(KeyCode::ArrowLeft),
            81 => Some(KeyCode::ArrowRight),
            82 => Some(KeyCode::ArrowUp),
            83 => Some(KeyCode::NumLock),
            84 => Some(KeyCode::Numpad0),
            85 => Some(KeyCode::Numpad1),
            86 => Some(KeyCode::Numpad2),
            87 => Some(KeyCode::Numpad3),
            88 => Some(KeyCode::Numpad4),
            89 => Some(KeyCode::Numpad5),
            90 => Some(KeyCode::Numpad6),
            91 => Some(KeyCode::Numpad7),
            92 => Some(KeyCode::Numpad8),
            93 => Some(KeyCode::Numpad9),
            94 => Some(KeyCode::NumpadAdd),
            95 => Some(KeyCode::NumpadBackspace),
            96 => Some(KeyCode::NumpadClear),
            97 => Some(KeyCode::NumpadClearEntry),
            98 => Some(KeyCode::NumpadComma),
            99 => Some(KeyCode::NumpadDecimal),
            100 => Some(KeyCode::NumpadDivide),
            101 => Some(KeyCode::NumpadEnter),
            102 => Some(KeyCode::NumpadEqual),
            103 => Some(KeyCode::NumpadHash),
            104 => Some(KeyCode::NumpadMemoryAdd),
            105 => Some(KeyCode::NumpadMemoryClear),
            106 => Some(KeyCode::NumpadMemoryRecall),
            107 => Some(KeyCode::NumpadMemoryStore),
            108 => Some(KeyCode::NumpadMemorySubtract),
            109 => Some(KeyCode::NumpadMultiply),
            110 => Some(KeyCode::NumpadParenLeft),
            111 => Some(KeyCode::NumpadParenRight),
            112 => Some(KeyCode::NumpadStar),
            113 => Some(KeyCode::NumpadSubtract),
            114 => Some(KeyCode::Escape),
            115 => Some(KeyCode::Fn),
            116 => Some(KeyCode::FnLock),
            117 => Some(KeyCode::PrintScreen),
            118 => Some(KeyCode::ScrollLock),
            119 => Some(KeyCode::Pause),
            120 => Some(KeyCode::BrowserBack),
            121 => Some(KeyCode::BrowserFavorites),
            122 => Some(KeyCode::BrowserForward),
            123 => Some(KeyCode::BrowserHome),
            124 => Some(KeyCode::BrowserRefresh),
            125 => Some(KeyCode::BrowserSearch),
            126 => Some(KeyCode::BrowserStop),
            127 => Some(KeyCode::Eject),
            128 => Some(KeyCode::LaunchApp1),
            129 => Some(KeyCode::LaunchApp2),
            130 => Some(KeyCode::LaunchMail),
            131 => Some(KeyCode::MediaPlayPause),
            132 => Some(KeyCode::MediaSelect),
            133 => Some(KeyCode::MediaStop),
            134 => Some(KeyCode::MediaTrackNext),
            135 => Some(KeyCode::MediaTrackPrevious),
            136 => Some(KeyCode::Power),
            137 => Some(KeyCode::Sleep),
            138 => Some(KeyCode::AudioVolumeDown),
            139 => Some(KeyCode::AudioVolumeMute),
            140 => Some(KeyCode::AudioVolumeUp),
            141 => Some(KeyCode::WakeUp),
            142 => Some(KeyCode::Meta),
            143 => Some(KeyCode::Hyper),
            144 => Some(KeyCode::Turbo),
            145 => Some(KeyCode::Abort),
            146 => Some(KeyCode::Resume),
            147 => Some(KeyCode::Suspend),
            148 => Some(KeyCode::Again),
            149 => Some(KeyCode::Copy),
            150 => Some(KeyCode::Cut),
            151 => Some(KeyCode::Find),
            152 => Some(KeyCode::Open),
            153 => Some(KeyCode::Paste),
            154 => Some(KeyCode::Props),
            155 => Some(KeyCode::Select),
            156 => Some(KeyCode::Undo),
            157 => Some(KeyCode::Hiragana),
            158 => Some(KeyCode::Katakana),
            159 => Some(KeyCode::F1),
            160 => Some(KeyCode::F2),
            161 => Some(KeyCode::F3),
            162 => Some(KeyCode::F4),
            163 => Some(KeyCode::F5),
            164 => Some(KeyCode::F6),
            165 => Some(KeyCode::F7),
            166 => Some(KeyCode::F8),
            167 => Some(KeyCode::F9),
            168 => Some(KeyCode::F10),
            169 => Some(KeyCode::F11),
            170 => Some(KeyCode::F12),
            171 => Some(KeyCode::F13),
            172 => Some(KeyCode::F14),
            173 => Some(KeyCode::F15),
            174 => Some(KeyCode::F16),
            175 => Some(KeyCode::F17),
            176 => Some(KeyCode::F18),
            177 => Some(KeyCode::F19),
            178 => Some(KeyCode::F20),
            179 => Some(KeyCode::F21),
            180 => Some(KeyCode::F22),
            181 => Some(KeyCode::F23),
            182 => Some(KeyCode::F24),
            183 => Some(KeyCode::F25),
            184 => Some(KeyCode::F26),
            185 => Some(KeyCode::F27),
            186 => Some(KeyCode::F28),
            187 => Some(KeyCode::F29),
            188 => Some(KeyCode::F30),
            189 => Some(KeyCode::F31),
            190 => Some(KeyCode::F32),
            191 => Some(KeyCode::F33),
            192 => Some(KeyCode::F34),
            193 => Some(KeyCode::F35),
            _ => None,
        }
    }

    /// The variant name.
    pub open spec fn name_text(self) -> Seq<char> {
        match self {
            KeyCode::Backquote => "Backquote"@,
            KeyCode::Backslash => "Backslash"@,
            KeyCode::BracketLeft => "BracketLeft"@,
            KeyCode::BracketRight => "BracketRight"@,
            KeyCode::Comma => "Comma"@,
            KeyCode::Digit0 => "Digit0"@,
            KeyCode::Digit1 => "Digit1"@,
            KeyCode::Digit2 => "Digit2"@,
            KeyCode::Digit3 => "Digit3"@,
            KeyCode::Digit4 => "Digit4"@,
            KeyCode::Digit5 => "Digit5"@,
            KeyCode::Digit6 => "Digit6"@,
            KeyCode::Digit7 => "Digit7"@,
            KeyCode::Digit8 => "Digit8"@,
            KeyCode::Digit9 => "Digit9"@,
            KeyCode::Equal => "Equal"@,
            KeyCode::IntlBackslash => "IntlBackslash"@,
            KeyCode::IntlRo => "IntlRo"@,
            KeyCode::IntlYen => "IntlYen"@,
            KeyCode::KeyA => "KeyA"@,
            KeyCode::KeyB => "KeyB"@,
            KeyCode::KeyC => "KeyC"@,
            KeyCode::KeyD => "KeyD"@,
            KeyCode::KeyE => "KeyE"@,
            KeyCode::KeyF => "KeyF"@,
            KeyCode::KeyG => "KeyG"@,
            KeyCode::KeyH => "KeyH"@,
            KeyCode::KeyI => "KeyI"@,
            KeyCode::KeyJ => "KeyJ"@,
            KeyCode::KeyK => "KeyK"@,
            KeyCode::KeyL => "KeyL"@,
            KeyCode::KeyM => "KeyM"@,
            KeyCode::KeyN => "KeyN"@,
            KeyCode::KeyO => "KeyO"@,
            KeyCode::KeyP => "KeyP"@,
            KeyCode::KeyQ => "KeyQ"@,
            KeyCode::KeyR => "KeyR"@,
            KeyCode::KeyS => "KeyS"@,
            KeyCode::KeyT => "KeyT"@,
            KeyCode::KeyU => "KeyU"@,
            KeyCode::KeyV => "KeyV"@,
            KeyCode::KeyW => "KeyW"@,
            KeyCode::KeyX => "KeyX"@,
            KeyCode::KeyY => "KeyY"@,
            KeyCode::KeyZ => "KeyZ"@,
            KeyCode::Minus => "Minus"@,
            KeyCode::Period => "Period"@,
            KeyCode::Quote => "Quote"@,
            KeyCode::Semicolon => "Semicolon"@,
            KeyCode::Slash => "Slash"@,
            KeyCode::AltLeft => "AltLeft"@,
            KeyCode::AltRight => "AltRight"@,
            KeyCode::Backspace => "Backspace"@,
            KeyCode::CapsLock => "CapsLock"@,
            KeyCode::ContextMenu => "ContextMenu"@,
            KeyCode::ControlLeft => "ControlLeft"@,
            KeyCode::ControlRight => "ControlRight"@,
            KeyCode::Enter => "Enter"@,
            KeyCode::SuperLeft => "SuperLeft"@,
            KeyCode::SuperRight => "SuperRight"@,
            KeyCode::ShiftLeft => "ShiftLeft"@,
            KeyCode::ShiftRight => "ShiftRight"@,
            KeyCode::Space => "Space"@,
            KeyCode::Tab => "Tab"@,
            KeyCode::Convert => "Convert"@,
            KeyCode::KanaMode => "KanaMode"@,
            KeyCode::Lang1 => "Lang1"@,
            KeyCode::Lang2 => "Lang2"@,
            KeyCode::Lang3 => "Lang3"@,
            KeyCode::Lang4 => "Lang4"@,
            KeyCode::Lang5 => "Lang5"@,
            KeyCode::NonConvert => "NonConvert"@,
            KeyCode::Delete => "Delete"@,
            KeyCode::End => "End"@,
            KeyCode::Help => "Help"@,
            KeyCode::Home => "Home"@,
            KeyCode::Insert => "Insert"@,
            KeyCode::PageDown => "PageDown"@,
            KeyCode::PageUp => "PageUp"@,
            KeyCode::ArrowDown => "ArrowDown"@,
            KeyCode::ArrowLeft => "ArrowLeft"@,
            KeyCode::ArrowRight => "ArrowRight"@,
            KeyCode::ArrowUp => "ArrowUp"@,
            KeyCode::NumLock => "NumLock"@,
            KeyCode::Numpad0 => "Numpad0"@,
            KeyCode::Numpad1 => "Numpad1"@,
            KeyCode::Numpad2 => "Numpad2"@,
            KeyCode::Numpad3 => "Numpad3"@,
            KeyCode::Numpad4 => "Numpad4"@,
            KeyCode::Numpad5 => "Numpad5"@,
            KeyCode::Numpad6 => "Numpad6"@,
            KeyCode::Numpad7 => "Numpad7"@,
            KeyCode::Numpad8 => "Numpad8"@,
            KeyCode::Numpad9 => "Numpad9"@,
            KeyCode::NumpadAdd => "NumpadAdd"@,
            KeyCode::NumpadBackspace => "NumpadBackspace"@,
            KeyCode::NumpadClear => "NumpadClear"@,
            KeyCode::NumpadClearEntry => "NumpadClearEntry"@,
            KeyCode::NumpadComma => "NumpadComma"@,
            KeyCode::NumpadDecimal => "NumpadDecimal"@,
            KeyCode::NumpadDivide => "NumpadDivide"@,
            KeyCode::NumpadEnter => "NumpadEnter"@,
            KeyCode::NumpadEqual => "NumpadEqual"@,
            KeyCode::NumpadHash => "NumpadHash"@,
            KeyCode::NumpadMemoryAdd => "NumpadMemoryAdd"@,
            KeyCode::NumpadMemoryClear => "NumpadMemoryClear"@,
            KeyCode::NumpadMemoryRecall => "NumpadMemoryRecall"@,
            KeyCode::NumpadMemoryStore => "NumpadMemoryStore"@,
            KeyCode::NumpadMemorySubtract => "NumpadMemorySubtract"@,
            KeyCode::NumpadMultiply => "NumpadMultiply"@,
            KeyCode::NumpadParenLeft => "NumpadParenLeft"@,
            KeyCode::NumpadParenRight => "NumpadParenRight"@,
            KeyCode::NumpadStar => "NumpadStar"@,
            KeyCode::NumpadSubtract => "NumpadSubtract"@,
            KeyCode::Escape => "Escape"@,
            KeyCode::Fn => "Fn"@,
            KeyCode::FnLock => "FnLock"@,
            KeyCode::PrintScreen => "PrintScreen"@,
            KeyCode::ScrollLock => "ScrollLock"@,
            KeyCode::Pause => "Pause"@,
            KeyCode::BrowserBack => "BrowserBack"@,
            KeyCode::BrowserFavorites => "BrowserFavorites"@,
            KeyCode::BrowserForward => "BrowserForward"@,
            KeyCode::BrowserHome => "BrowserHome"@,
            KeyCode::BrowserRefresh => "BrowserRefresh"@,
            KeyCode::BrowserSearch => "BrowserSearch"@,
            KeyCode::BrowserStop => "BrowserStop"@,
            KeyCode::Eject => "Eject"@,
            KeyCode::LaunchApp1 => "LaunchApp1"@,
            KeyCode::LaunchApp2 => "LaunchApp2"@,
            KeyCode::LaunchMail => "LaunchMail"@,
            KeyCode::MediaPlayPause => "MediaPlayPause"@,
            KeyCode::MediaSelect => "MediaSelect"@,
            KeyCode::MediaStop => "MediaStop"@,
            KeyCode::MediaTrackNext => "MediaTrackNext"@,
            KeyCode::MediaTrackPrevious => "MediaTrackPrevious"@,
            KeyCode::Power => "Power"@,
            KeyCode::Sleep => "Sleep"@,
            KeyCode::AudioVolumeDown => "AudioVolumeDown"@,
            KeyCode::AudioVolumeMute => "AudioVolumeMute"@,
            KeyCode::AudioVolumeUp => "AudioVolumeUp"@,
            KeyCode::WakeUp => "WakeUp"@,
            KeyCode::Meta => "Meta"@,
            KeyCode::Hyper => "Hyper"@,
            KeyCode::Turbo => "Turbo"@,
            KeyCode::Abort => "Abort"@,
            KeyCode::Resume => "Resume"@,
            KeyCode::Suspend => "Suspend"@,
            KeyCode::Again => "Again"@,
            KeyCode::Copy => "Copy"@,
            KeyCode::Cut => "Cut"@,
            KeyCode::Find => "Find"@,
            KeyCode::Open => "Open"@,
            KeyCode::Paste => "Paste"@,
            KeyCode::Props => "Props"@,
            KeyCode::Select => "Select"@,
            KeyCode::Undo => "Undo"@,
            KeyCode::Hiragana => "Hiragana"@,
            KeyCode::Katakana => "Katakana"@,
            KeyCode::F1 => "F1"@,
            KeyCode::F2 => "F2"@,
            KeyCode::F3 => "F3"@,
            KeyCode::F4 => "F4"@,
            KeyCode::F5 => "F5"@,
            KeyCode::F6 => "F6"@,
            KeyCode::F7 => "F7"@,
            KeyCode::F8 => "F8"@,
            KeyCode::F9 => "F9"@,
            KeyCode::F10 => "F10"@,
            KeyCode::F11 => "F11"@,
            KeyCode::F12 => "F12"@,
            KeyCode::F13 => "F13"@,
            KeyCode::F14 => "F14"@,
            KeyCode::F15 => "F15"@,
            KeyCode::F16 => "F16"@,
            KeyCode::F17 => "F17"@,
            KeyCode::F18 => "F18"@,
            KeyCode::F19 => "F19"@,
            KeyCode::F20 => "F20"@,
            KeyCode::F21 => "F21"@,
            KeyCode::F22 => "F22"@,
            KeyCode::F23 => "F23"@,
            KeyCode::F24 => "F24"@,
            KeyCode::F25 => "F25"@,
            KeyCode::F26 => "F26"@,
            KeyCode::F27 => "F27"@,
            KeyCode::F28 => "F28"@,
            KeyCode::F29 => "F29"@,
            KeyCode::F30 => "F30"@,
            KeyCode::F31 => "F31"@,
            KeyCode::F32 => "F32"@,
            KeyCode::F33 => "F33"@,
            KeyCode::F34 => "F34"@,
            KeyCode::F35 => "F35"@,
        }
    }

    /// Wire value of this key code.
    pub fn as_u16(self) -> (r: u16)
        ensures
            r == self.wire(),
    {
        match self {
            KeyCode::Backquote => 0,
            KeyCode::Backslash => 1,
            KeyCode::BracketLeft => 2,
            KeyCode::BracketRight => 3,
            KeyCode::Comma => 4,
            KeyCode::Digit0 => 5,
            KeyCode::Digit1 => 6,
            KeyCode::Digit2 => 7,
            KeyCode::Digit3 => 8,
            KeyCode::Digit4 => 9,
            KeyCode::Digit5 => 10,
            KeyCode::Digit6 => 11,
            KeyCode::Digit7 => 12,
            KeyCode::Digit8 => 13,
            KeyCode::Digit9 => 14,
            KeyCode::Equal => 15,
            KeyCode::IntlBackslash => 16,
            KeyCode::IntlRo => 17,
            KeyCode::IntlYen => 18,
            KeyCode::KeyA => 19,
            KeyCode::KeyB => 20,
            KeyCode::KeyC => 21,
            KeyCode::KeyD => 22,
            KeyCode::KeyE => 23,
            KeyCode::KeyF => 24,
            KeyCode::KeyG => 25,
            KeyCode::KeyH => 26,
            KeyCode::KeyI => 27,
            KeyCode::KeyJ => 28,
            KeyCode::KeyK => 29,
            KeyCode::KeyL => 30,
            KeyCode::KeyM => 31,
            KeyCode::KeyN => 32,
            KeyCode::KeyO => 33,
            KeyCode::KeyP => 34,
            KeyCode::KeyQ => 35,
            KeyCode::KeyR => 36,
            KeyCode::KeyS => 37,
            KeyCode::KeyT => 38,
            KeyCode::KeyU => 39,
            KeyCode::KeyV => 40,
            KeyCode::KeyW => 41,
            KeyCode::KeyX => 42,
            KeyCode::KeyY => 43,
            KeyCode::KeyZ => 44,
            KeyCode::Minus => 45,
            KeyCode::Period => 46,
            KeyCode::Quote => 47,
            KeyCode::Semicolon => 48,
            KeyCode::Slash => 49,
            KeyCode::AltLeft => 50,
            KeyCode::AltRight => 51,
            KeyCode::Backspace => 52,
            KeyCode::CapsLock => 53,
            KeyCode::ContextMenu => 54,
            KeyCode::ControlLeft => 55,
            KeyCode::ControlRight => 56,
            KeyCode::Enter => 57,
            KeyCode::SuperLeft => 58,
            KeyCode::SuperRight => 59,
            KeyCode::ShiftLeft => 60,
            KeyCode::ShiftRight => 61,
            KeyCode::Space => 62,
            KeyCode::Tab => 63,
            KeyCode::Convert => 64,
            KeyCode::KanaMode => 65,
            KeyCode::Lang1 => 66,
            KeyCode::Lang2 => 67,
            KeyCode::Lang3 => 68,
            KeyCode::Lang4 => 69,
            KeyCode::Lang5 => 70,
            KeyCode::NonConvert => 71,
            KeyCode::Delete => 72,
            KeyCode::End => 73,
            KeyCode::Help => 74,
            KeyCode::Home => 75,
            KeyCode::Insert => 76,
            KeyCode::PageDown => 77,
            KeyCode::PageUp => 78,
            KeyCode::ArrowDown => 79,
            KeyCode::ArrowLeft => 80,
            KeyCode::ArrowRight => 81,
            KeyCode::ArrowUp => 82,
            KeyCode::NumLock => 83,
            KeyCode::Numpad0 => 84,
            KeyCode::Numpad1 => 85,
            KeyCode::Numpad2 => 86,
            KeyCode::Numpad3 => 87,
            KeyCode::Numpad4 => 88,
            KeyCode::Numpad5 => 89,
            KeyCode::Numpad6 => 90,
            KeyCode::Numpad7 => 91,
            KeyCode::Numpad8 => 92,
            KeyCode::Numpad9 => 93,
            KeyCode::NumpadAdd => 94,
            KeyCode::NumpadBackspace => 95,
            KeyCode::NumpadClear => 96,
            KeyCode::NumpadClearEntry => 97,
            KeyCode::NumpadComma => 98,
            KeyCode::NumpadDecimal => 99,
            KeyCode::NumpadDivide => 100,
            KeyCode::NumpadEnter => 101,
            KeyCode::NumpadEqual => 102,
            KeyCode::NumpadHash => 103,
            KeyCode::NumpadMemoryAdd => 104,
            KeyCode::NumpadMemoryClear => 105,
            KeyCode::NumpadMemoryRecall => 106,
            KeyCode::NumpadMemoryStore => 107,
            KeyCode::NumpadMemorySubtract => 108,
            KeyCode::NumpadMultiply => 109,
            KeyCode::NumpadParenLeft => 110,
            KeyCode::NumpadParenRight => 111,
            KeyCode::NumpadStar => 112,
            KeyCode::NumpadSubtract => 113,
            KeyCode::Escape => 114,
            KeyCode::Fn => 115,
            KeyCode::FnLock => 116,
            KeyCode::PrintScreen => 117,
            KeyCode::ScrollLock => 118,
            KeyCode::Pause => 119,
            KeyCode::BrowserBack => 120,
            KeyCode::BrowserFavorites => 121,
            KeyCode::BrowserForward => 122,
            KeyCode::BrowserHome => 123,
            KeyCode::BrowserRefresh => 124,
            KeyCode::BrowserSearch => 125,
            KeyCode::BrowserStop => 126,
            KeyCode::Eject => 127,
            KeyCode::LaunchApp1 => 128,
            KeyCode::LaunchApp2 => 129,
            KeyCode::LaunchMail => 130,
            KeyCode::MediaPlayPause => 131,
            KeyCode::MediaSelect => 132,
            KeyCode::MediaStop => 133,
            KeyCode::MediaTrackNext => 134,
            KeyCode::MediaTrackPrevious => 135,
            KeyCode::Power => 136,
            KeyCode::Sleep => 137,
            KeyCode::AudioVolumeDown => 138,
            KeyCode::AudioVolumeMute => 139,
            KeyCode::AudioVolumeUp => 140,
            KeyCode::WakeUp => 141,
            KeyCode::Meta => 142,
            KeyCode::Hyper => 143,
            KeyCode::Turbo => 144,
            KeyCode::Abort => 145,
            KeyCode::Resume => 146,
            KeyCode::Suspend => 147,
            KeyCode::Again => 148,
            KeyCode::Copy => 149,
            KeyCode::Cut => 150,
            KeyCode::Find => 151,
            KeyCode::Open => 152,
            KeyCode::Paste => 153,
            KeyCode::Props => 154,
            KeyCode::Select => 155,
            KeyCode::Undo => 156,
            KeyCode::Hiragana => 157,
            KeyCode::Katakana => 158,
            KeyCode::F1 => 159,
            KeyCode::F2 => 160,
            KeyCode::F3 => 161,
            KeyCode::F4 => 162,
            KeyCode::F5 => 163,
            KeyCode::F6 => 164,
            KeyCode::F7 => 165,
            KeyCode::F8 => 166,
            KeyCode::F9 => 167,
            KeyCode::F10 => 168,
            KeyCode::F11 => 169,
            KeyCode::F12 => 170,
            KeyCode::F13 => 171,
            KeyCode::F14 => 172,
            KeyCode::F15 => 173,
            KeyCode::F16 => 174,
            KeyCode::F17 => 175,
            KeyCode::F18 => 176,
            KeyCode::F19 => 177,
            KeyCode::F20 => 178,
            KeyCode::F21 => 179,
            KeyCode::F22 => 180,
            KeyCode::F23 => 181,
            KeyCode::F24 => 182,
            KeyCode::F25 => 183,
            KeyCode::F26 => 184,
            KeyCode::F27 => 185,
            KeyCode::F28 => 186,
            KeyCode::F29 => 187,
            KeyCode::F30 => 188,
            KeyCode::F31 => 189,
            KeyCode::F32 => 190,
            KeyCode::F33 => 191,
            KeyCode::F34 => 192,
            KeyCode::F35 => 193,
        }
    }

    /// Decode a wire value.
    pub fn from_u16(v: u16) -> (r: Option<Self>)
        ensures
            r == KeyCode::of_wire(v),
    {
        match v {
            0 => Some(KeyCode::Backquote),
            1 => Some(KeyCode::Backslash),
            2 => Some(KeyCode::BracketLeft),
            3 => Some(KeyCode::BracketRight),
            4 => Some(KeyCode::Comma),
            5 => Some(KeyCode::Digit0),
            6 => Some(KeyCode::Digit1),
            7 => Some(KeyCode::Digit2),
            8 => Some(KeyCode::Digit3),
            9 => Some(KeyCode::Digit4),
            10 => Some(KeyCode::Digit5),
            11 => Some(KeyCode::Digit6),
            12 => Some(KeyCode::Digit7),
            13 => Some(KeyCode::Digit8),
            14 => Some(KeyCode::Digit9),
            15 => Some(KeyCode::Equal),
            16 => Some(KeyCode::IntlBackslash),
            17 => Some(KeyCode::IntlRo),
            18 => Some(KeyCode::IntlYen),
            19 => Some(KeyCode::KeyA),
            20 => Some(KeyCode::KeyB),
            21 => Some(KeyCode::KeyC),
            22 => Some(KeyCode::KeyD),
            23 => Some(KeyCode::KeyE),
            24 => Some(KeyCode::KeyF),
            25 => Some(KeyCode::KeyG),
            26 => Some(KeyCode::KeyH),
            27 => Some(KeyCode::KeyI),
            28 => Some(KeyCode::KeyJ),
            29 => Some(KeyCode::KeyK),
            30 => Some(KeyCode::KeyL),
            31 => Some(KeyCode::KeyM),
            32 => Some(KeyCode::KeyN),
            33 => Some(KeyCode::KeyO),
            34 => Some(KeyCode::KeyP),
            35 => Some(KeyCode::KeyQ),
            36 => Some(KeyCode::KeyR),
            37 => Some(KeyCode::KeyS),
            38 => Some(KeyCode::KeyT),
            39 => Some(KeyCode::KeyU),
            40 => Some(KeyCode::KeyV),
            41 => Some(KeyCode::KeyW),
            42 => Some(KeyCode::KeyX),
            43 => Some(KeyCode::KeyY),
            44 => Some(KeyCode::KeyZ),
            45 => Some(KeyCode::Minus),
            46 => Some(KeyCode::Period),
            47 => Some(KeyCode::Quote),
            48 => Some(KeyCode::Semicolon),
            49 => Some(KeyCode::Slash),
            50 => Some(KeyCode::AltLeft),
            51 => Some(KeyCode::AltRight),
            52 => Some(KeyCode::Backspace),
            53 => Some(KeyCode::CapsLock),
            54 => Some(KeyCode::ContextMenu),
            55 => Some(KeyCode::ControlLeft),
            56 => Some(KeyCode::ControlRight),
            57 => Some(KeyCode::Enter),
            58 => Some(KeyCode::SuperLeft),
            59 => Some(KeyCode::SuperRight),
            60 => Some(KeyCode::ShiftLeft),
            61 => Some(KeyCode::ShiftRight),
            62 => Some(KeyCode::Space),
            63 => Some(KeyCode::Tab),
            64 => Some(KeyCode::Convert),
            65 => Some(KeyCode::KanaMode),
            66 => Some(KeyCode::Lang1),
            67 => Some(KeyCode::Lang2),
            68 => Some(KeyCode::Lang3),
            69 => Some(KeyCode::Lang4),
            70 => Some(KeyCode::Lang5),
            71 => Some(KeyCode::NonConvert),
            72 => Some(KeyCode::Delete),
            73 => Some(KeyCode::End),
            74 => Some(KeyCode::Help),
            75 => Some(KeyCode::Home),
            76 => Some(KeyCode::Insert),
            77 => Some(KeyCode::PageDown),
            78 => Some(KeyCode::PageUp),
            79 => Some(KeyCode::ArrowDown),
            80 => Some(KeyCode::ArrowLeft),
            81 => Some(KeyCode::ArrowRight),
            82 => Some(KeyCode::ArrowUp),
            83 => Some(KeyCode::NumLock),
            84 => Some(KeyCode::Numpad0),
            85 => Some(KeyCode::Numpad1),
            86 => Some(KeyCode::Numpad2),
            87 => Some(KeyCode::Numpad3),
            88 => Some(KeyCode::Numpad4),
            89 => Some(KeyCode::Numpad5),
            90 => Some(KeyCode::Numpad6),
            91 => Some(KeyCode::Numpad7),
            92 => Some(KeyCode::Numpad8),
            93 => Some(KeyCode::Numpad9),
            94 => Some(KeyCode::NumpadAdd),
            95 => Some(KeyCode::NumpadBackspace),
            96 => Some(KeyCode::NumpadClear),
            97 => Some(KeyCode::NumpadClearEntry),
            98 => Some(KeyCode::NumpadComma),
            99 => Some(KeyCode::NumpadDecimal),
            100 => Some(KeyCode::NumpadDivide),
            101 => Some(KeyCode::NumpadEnter),
            102 => Some(KeyCode::NumpadEqual),
            103 => Some(KeyCode::NumpadHash),
            104 => Some(KeyCode::NumpadMemoryAdd),
            105 => Some(KeyCode::NumpadMemoryClear),
            106 => Some(KeyCode::NumpadMemoryRecall),
            107 => Some(KeyCode::NumpadMemoryStore),
            108 => Some(KeyCode::NumpadMemorySubtract),
            109 => Some(KeyCode::NumpadMultiply),
            110 => Some(KeyCode::NumpadParenLeft),
            111 => Some(KeyCode::NumpadParenRight),
            112 => Some(KeyCode::NumpadStar),
            113 => Some(KeyCode::NumpadSubtract),
            114 => Some(KeyCode::Escape),
            115 => Some(KeyCode::Fn),
            116 => Some(KeyCode::FnLock),
            117 => Some(KeyCode::PrintScreen),
            118 => Some(KeyCode::ScrollLock),
            119 => Some(KeyCode::Pause),
            120 => Some(KeyCode::BrowserBack),
            121 => Some(KeyCode::BrowserFavorites),
            122 => Some(KeyCode::BrowserForward),
            123 => Some(KeyCode::BrowserHome),
            124 => Some(KeyCode::BrowserRefresh),
            125 => Some(KeyCode::BrowserSearch),
            126 => Some(KeyCode::BrowserStop),
            127 => Some(KeyCode::Eject),
            128 => Some(KeyCode::LaunchApp1),
            129 => Some(KeyCode::LaunchApp2),
            130 => Some(KeyCode::LaunchMail),
            131 => Some(KeyCode::MediaPlayPause),
            132 => Some(KeyCode::MediaSelect),
            133 => Some(KeyCode::MediaStop),
            134 => Some(KeyCode::MediaTrackNext),
            135 => Some(KeyCode::MediaTrackPrevious),
            136 => Some(KeyCode::Power),
            137 => Some(KeyCode::Sleep),
            138 => Some(KeyCode::AudioVolumeDown),
            139 => Some(KeyCode::AudioVolumeMute),
            140 => Some(KeyCode::AudioVolumeUp),
            141 => Some(KeyCode::WakeUp),
            142 => Some(KeyCode::Meta),
            143 => Some(KeyCode::Hyper),
            144 => Some(KeyCode::Turbo),
            145 => Some(KeyCode::Abort),
            146 => Some(KeyCode::Resume),
            147 => Some(KeyCode::Suspend),
            148 => Some(KeyCode::Again),
            149 => Some(KeyCode::Copy),
            150 => Some(KeyCode::Cut),
            151 => Some(KeyCode::Find),
            152 => Some(KeyCode::Open),
            153 => Some(KeyCode::Paste),
            154 => Some(KeyCode::Props),
            155 => Some(KeyCode::Select),
            156 => Some(KeyCode::Undo),
            157 => Some(KeyCode::Hiragana),
            158 => Some(KeyCode::Katakana),
            159 => Some(KeyCode::F1),
            160 => Some(KeyCode::F2),
            161 => Some(KeyCode::F3),
            162 => Some(KeyCode::F4),
            163 => Some(KeyCode::F5),
            164 => Some(KeyCode::F6),
            165 => Some(KeyCode::F7),
            166 => Some(KeyCode::F8),
            167 => Some(KeyCode::F9),
            168 => Some(KeyCode::F10),
            169 => Some(KeyCode::F11),
            170 => Some(KeyCode::F12),
            171 => Some(KeyCode::F13),
            172 => Some(KeyCode::F14),
            173 => Some(KeyCode::F15),
            174 => Some(KeyCode::F16),
            175 => Some(KeyCode::F17),
            176 => Some(KeyCode::F18),
            177 => Some(KeyCode::F19),
            178 => Some(KeyCode::F20),
            179 => Some(KeyCode::F21),
            180 => Some(KeyCode::F22),
            181 => Some(KeyCode::F23),
            182 => Some(KeyCode::F24),
            183 => Some(KeyCode::F25),
            184 => Some(KeyCode::F26),
            185 => Some(KeyCode::F27),
            186 => Some(KeyCode::F28),
            187 => Some(KeyCode::F29),
            188 => Some(KeyCode::F30),
            189 => Some(KeyCode::F31),
            190 => Some(KeyCode::F32),
            191 => Some(KeyCode::F33),
            192 => Some(KeyCode::F34),
            193 => Some(KeyCode::F35),
            _ => None,
        }
    }

    /// The variant name, e.g. `"KeyA"`.
    pub fn name(self) -> (r: &'static str)
        ensures
            r@ == self.name_text(),
    {
        match self {
            KeyCode::Backquote => "Backquote",
            KeyCode::Backslash => "Backslash",
            KeyCode::BracketLeft => "BracketLeft",
            KeyCode::BracketRight => "BracketRight",
            KeyCode::Comma => "Comma",
            KeyCode::Digit0 => "Digit0",
            KeyCode::Digit1 => "Digit1",
            KeyCode::Digit2 => "Digit2",
            KeyCode::Digit3 => "Digit3",
            KeyCode::Digit4 => "Digit4",
            KeyCode::Digit5 => "Digit5",
            KeyCode::Digit6 => "Digit6",
            KeyCode::Digit7 => "Digit7",
            KeyCode::Digit8 => "Digit8",
            KeyCode::Digit9 => "Digit9",
            KeyCode::Equal => "Equal",
            KeyCode::IntlBackslash => "IntlBackslash",
            KeyCode::IntlRo => "IntlRo",
            KeyCode::IntlYen => "IntlYen",
            KeyCode::KeyA => "KeyA",
            KeyCode::KeyB => "KeyB",
            KeyCode::KeyC => "KeyC",
            KeyCode::KeyD => "KeyD",
            KeyCode::KeyE => "KeyE",
            KeyCode::KeyF => "KeyF",
            KeyCode::KeyG => "KeyG",
            KeyCode::KeyH => "KeyH",
            KeyCode::KeyI => "KeyI",
            KeyCode::KeyJ => "KeyJ",
            KeyCode::KeyK => "KeyK",
            KeyCode::KeyL => "KeyL",
            KeyCode::KeyM => "KeyM",
            KeyCode::KeyN => "KeyN",
            KeyCode::KeyO => "KeyO",
            KeyCode::KeyP => "KeyP",
            KeyCode::KeyQ => "KeyQ",
            KeyCode::KeyR => "KeyR",
            KeyCode::KeyS => "KeyS",
            KeyCode::KeyT => "KeyT",
            KeyCode::KeyU => "KeyU",
            KeyCode::KeyV => "KeyV",
            KeyCode::KeyW => "KeyW",
            KeyCode::KeyX => "KeyX",
            KeyCode::KeyY => "KeyY",
            KeyCode::KeyZ => "KeyZ",
            KeyCode::Minus => "Minus",
            KeyCode::Period => "Period",
            KeyCode::Quote => "Quote",
            KeyCode::Semicolon => "Semicolon",
            KeyCode::Slash => "Slash",
            KeyCode::AltLeft => "AltLeft",
            KeyCode::AltRight => "AltRight",
            KeyCode::Backspace => "Backspace",
            KeyCode::CapsLock => "CapsLock",
            KeyCode::ContextMenu => "ContextMenu",
            KeyCode::ControlLeft => "ControlLeft",
            KeyCode::ControlRight => "ControlRight",
            KeyCode::Enter => "Enter",
            KeyCode::SuperLeft => "SuperLeft",
            KeyCode::SuperRight => "SuperRight",
            KeyCode::ShiftLeft => "ShiftLeft",
            KeyCode::ShiftRight => "ShiftRight",
            KeyCode::Space => "Space",
            KeyCode::Tab => "Tab",
            KeyCode::Convert => "Convert",
            KeyCode::KanaMode => "KanaMode",
            KeyCode::Lang1 => "Lang1",
            KeyCode::Lang2 => "Lang2",
            KeyCode::Lang3 => "Lang3",
            KeyCode::Lang4 => "Lang4",
            KeyCode::Lang5 => "Lang5",
            KeyCode::NonConvert => "NonConvert",
            KeyCode::Delete => "Delete",
            KeyCode::End => "End",
            KeyCode::Help => "Help",
            KeyCode::Home => "Home",
            KeyCode::Insert => "Insert",
            KeyCode::PageDown => "PageDown",
            KeyCode::PageUp => "PageUp",
            KeyCode::ArrowDown => "ArrowDown",
            KeyCode::ArrowLeft => "ArrowLeft",
            KeyCode::ArrowRight => "ArrowRight",
            KeyCode::ArrowUp => "ArrowUp",
            KeyCode::NumLock => "NumLock",
            KeyCode::Numpad0 => "Numpad0",
            KeyCode::Numpad1 => "Numpad1",
            KeyCode::Numpad2 => "Numpad2",
            KeyCode::Numpad3 => "Numpad3",
            KeyCode::Numpad4 => "Numpad4",
            KeyCode::Numpad5 => "Numpad5",
            KeyCode::Numpad6 => "Numpad6",
            KeyCode::Numpad7 => "Numpad7",
            KeyCode::Numpad8 => "Numpad8",
            KeyCode::Numpad9 => "Numpad9",
            KeyCode::NumpadAdd => "NumpadAdd",
            KeyCode::NumpadBackspace => "NumpadBackspace",
            KeyCode::NumpadClear => "NumpadClear",
            KeyCode::NumpadClearEntry => "NumpadClearEntry",
            KeyCode::NumpadComma => "NumpadComma",
            KeyCode::NumpadDecimal => "NumpadDecimal",
            KeyCode::NumpadDivide => "NumpadDivide",
            KeyCode::NumpadEnter => "NumpadEnter",
            KeyCode::NumpadEqual => "NumpadEqual",
            KeyCode::NumpadHash => "NumpadHash",
            KeyCode::NumpadMemoryAdd => "NumpadMemoryAdd",
            KeyCode::NumpadMemoryClear => "NumpadMemoryClear",
            KeyCode::NumpadMemoryRecall => "NumpadMemoryRecall",
            KeyCode::NumpadMemoryStore => "NumpadMemoryStore",
            KeyCode::NumpadMemorySubtract => "NumpadMemorySubtract",
            KeyCode::NumpadMultiply => "NumpadMultiply",
            KeyCode::NumpadParenLeft => "NumpadParenLeft",
            KeyCode::NumpadParenRight => "NumpadParenRight",
            KeyCode::NumpadStar => "NumpadStar",
            KeyCode::NumpadSubtract => "NumpadSubtract",
            KeyCode::Escape => "Escape",
            KeyCode::Fn => "Fn",
            KeyCode::FnLock => "FnLock",
            KeyCode::PrintScreen => "PrintScreen",
            KeyCode::ScrollLock => "ScrollLock",
            KeyCode::Pause => "Pause",
            KeyCode::BrowserBack => "BrowserBack",
            KeyCode::BrowserFavorites => "BrowserFavorites",
            KeyCode::BrowserForward => "BrowserForward",
            KeyCode::BrowserHome => "BrowserHome",
            KeyCode::BrowserRefresh => "BrowserRefresh",
            KeyCode::BrowserSearch => "BrowserSearch",
            KeyCode::BrowserStop => "BrowserStop",
            KeyCode::Eject => "Eject",
            KeyCode::LaunchApp1 => "LaunchApp1",
            KeyCode::LaunchApp2 => "LaunchApp2",
            KeyCode::LaunchMail => "LaunchMail",
            KeyCode::MediaPlayPause => "MediaPlayPause",
            KeyCode::MediaSelect => "MediaSelect",
            KeyCode::MediaStop => "MediaStop",
            KeyCode::MediaTrackNext => "MediaTrackNext",
            KeyCode::MediaTrackPrevious => "MediaTrackPrevious",
            KeyCode::Power => "Power",
            KeyCode::Sleep => "Sleep",
            KeyCode::AudioVolumeDown => "AudioVolumeDown",
            KeyCode::AudioVolumeMute => "AudioVolumeMute",
            KeyCode::AudioVolumeUp => "AudioVolumeUp",
            KeyCode::WakeUp => "WakeUp",
            KeyCode::Meta => "Meta",
            KeyCode::Hyper => "Hyper",
            KeyCode::Turbo => "Turbo",
            KeyCode::Abort => "Abort",
            KeyCode::Resume => "Resume",
            KeyCode::Suspend => "Suspend",
            KeyCode::Again => "Again",
            KeyCode::Copy => "Copy",
            KeyCode::Cut => "Cut",
            KeyCode::Find => "Find",
            KeyCode::Open => "Open",
            KeyCode::Paste => "Paste",
            KeyCode::Props => "Props",
            KeyCode::Select => "Select",
            KeyCode::Undo => "Undo",
            KeyCode::Hiragana => "Hiragana",
            KeyCode::Katakana => "Katakana",
            KeyCode::F1 => "F1",
            KeyCode::F2 => "F2",
            KeyCode::F3 => "F3",
            KeyCode::F4 => "F4",
            KeyCode::F5 => "F5",
            KeyCode::F6 => "F6",
            KeyCode::F7 => "F7",
            KeyCode::F8 => "F8",
            KeyCode::F9 => "F9",
            KeyCode::F10 => "F10",
            KeyCode::F11 => "F11",
            KeyCode::F12 => "F12",
            KeyCode::F13 => "F13",
            KeyCode::F14 => "F14",
            KeyCode::F15 => "F15",
            KeyCode::F16 => "F16",
            KeyCode::F17 => "F17",
            KeyCode::F18 => "F18",
            KeyCode::F19 => "F19",
            KeyCode::F20 => "F20",
            KeyCode::F21 => "F21",
            KeyCode::F22 => "F22",
            KeyCode::F23 => "F23",
            KeyCode::F24 => "F24",
            KeyCode::F25 => "F25",
            KeyCode::F26 => "F26",
            KeyCode::F27 => "F27",
            KeyCode::F28 => "F28",
            KeyCode::F29 => "F29",
            KeyCode::F30 => "F30",
            KeyCode::F31 => "F31",
            KeyCode::F32 => "F32",
            KeyCode::F33 => "F33",
            KeyCode::F34 => "F34",
            KeyCode::F35 => "F35",
        }
    }

    /// The variant name as an owned string.
    pub fn to_string(self) -> (r: String)
        ensures
            r@ == self.name_text(),
    {
        let name = self.name();
        let chars = text::chars_of(name);
        text::string_of(chars.as_slice())
    }

    /// Every key code, in wire order.
    pub fn all() -> (r: Vec<KeyCode>)
        ensures
            r@.len() == KEY_COUNT,
            forall|i: int| 0 <= i < KEY_COUNT ==> (#[trigger] r@[i]).wire() == i,
    {
        let mut out: Vec<KeyCode> = Vec::new();
        for v in 0..KEY_COUNT
            invariant
                out@.len() == v,
                forall|i: int| 0 <= i < v ==> (#[trigger] out@[i]).wire() == i,
        {
            proof {
                wire_values_are_dense(v);
            }
            if let Some(k) = KeyCode::from_u16(v) {
                out.push(k);
            }
        }
        out
    }
}

/// The wire values are dense: exactly those below the number of key codes are taken, each by
/// the key code that has it.
pub proof fn wire_values_are_dense(v: u16)
    ensures
        KeyCode::of_wire(v) is Some <==> v < KEY_COUNT,
        KeyCode::of_wire(v) matches Some(k) ==> k.wire() == v,
{
}

/// A key code comes back from its wire value. So no two key codes share one.
pub proof fn wire_value_round_trips(k: KeyCode)
    ensures
        k.wire() < KEY_COUNT,
        KeyCode::of_wire(k.wire()) == Some(k),
{
}

/// The wire values follow the order of the list of key codes, without a gap.
pub proof fn wire_values_follow_the_list()
    ensures
        KeyCode::Backquote.wire() == 0,
        KeyCode::Backslash.wire() == KeyCode::Backquote.wire() + 1,
        KeyCode::BracketLeft.wire() == KeyCode::Backslash.wire() + 1,
        KeyCode::BracketRight.wire() == KeyCode::BracketLeft.wire() + 1,
        KeyCode::Comma.wire() == KeyCode::BracketRight.wire() + 1,
        KeyCode::Digit0.wire() == KeyCode::Comma.wire() + 1,
        KeyCode::Digit1.wire() == KeyCode::Digit0.wire() + 1,
        KeyCode::Digit2.wire() == KeyCode::Digit1.wire() + 1,
        KeyCode::Digit3.wire() == KeyCode::Digit2.wire() + 1,
        KeyCode::Digit4.wire() == KeyCode::Digit3.wire() + 1,
        KeyCode::Digit5.wire() == KeyCode::Digit4.wire() + 1,
        KeyCode::Digit6.wire() == KeyCode::Digit5.wire() + 1,
        KeyCode::Digit7.wire() == KeyCode::Digit6.wire() + 1,
        KeyCode::Digit8.wire() == KeyCode::Digit7.wire() + 1,
        KeyCode::Digit9.wire() == KeyCode::Digit8.wire() + 1,
        KeyCode::Equal.wire() == KeyCode::Digit9.wire() + 1,
        KeyCode::IntlBackslash.wire() == KeyCode::Equal.wire() + 1,
        KeyCode::IntlRo.wire() == KeyCode::IntlBackslash.wire() + 1,
        KeyCode::IntlYen.wire() == KeyCode::IntlRo.wire() + 1,
        KeyCode::KeyA.wire() == KeyCode::IntlYen.wire() + 1,
        KeyCode::KeyB.wire() == KeyCode::KeyA.wire() + 1,
        KeyCode::KeyC.wire() == KeyCode::KeyB.wire() + 1,
        KeyCode::KeyD.wire() == KeyCode::KeyC.wire() + 1,
        KeyCode::KeyE.wire() == KeyCode::KeyD.wire() + 1,
        KeyCode::KeyF.wire() == KeyCode::KeyE.wire() + 1,
        KeyCode::KeyG.wire() == KeyCode::KeyF.wire() + 1,
        KeyCode::KeyH.wire() == KeyCode::KeyG.wire() + 1,
        KeyCode::KeyI.wire() == KeyCode::KeyH.wire() + 1,
        KeyCode::KeyJ.wire() == KeyCode::KeyI.wire() + 1,
        KeyCode::KeyK.wire() == KeyCode::KeyJ.wire() + 1,
        KeyCode::KeyL.wire() == KeyCode::KeyK.wire() + 1,
        KeyCode::KeyM.wire() == KeyCode::KeyL.wire() + 1,
        KeyCode::KeyN.wire() == KeyCode::KeyM.wire() + 1,
        KeyCode::KeyO.wire() == KeyCode::KeyN.wire() + 1,
        KeyCode::KeyP.wire() == KeyCode::KeyO.wire() + 1,
        KeyCode::KeyQ.wire() == KeyCode::KeyP.wire() + 1,
        KeyCode::KeyR.wire() == KeyCode::KeyQ.wire() + 1,
        KeyCode::KeyS.wire() == KeyCode::KeyR.wire() + 1,
        KeyCode::KeyT.wire() == KeyCode::KeyS.wire() + 1,
        KeyCode::KeyU.wire() == KeyCode::KeyT.wire() + 1,
        KeyCode::KeyV.wire() == KeyCode::KeyU.wire() + 1,
        KeyCode::KeyW.wire() == KeyCode::KeyV.wire() + 1,
        KeyCode::KeyX.wire() == KeyCode::KeyW.wire() + 1,
        KeyCode::KeyY.wire() == KeyCode::KeyX.wire() + 1,
        KeyCode::KeyZ.wire() == KeyCode::KeyY.wire() + 1,
        KeyCode::Minus.wire() == KeyCode::KeyZ.wire() + 1,
        KeyCode::Period.wire() == KeyCode::Minus.wire() + 1,
        KeyCode::Quote.wire() == KeyCode::Period.wire() + 1,
        KeyCode::Semicolon.wire() == KeyCode::Quote.wire() + 1,
        KeyCode::Slash.wire() == KeyCode::Semicolon.wire() + 1,
        KeyCode::AltLeft.wire() == KeyCode::Slash.wire() + 1,
        KeyCode::AltRight.wire() == KeyCode::AltLeft.wire() + 1,
        KeyCode::Backspace.wire() == KeyCode::AltRight.wire() + 1,
        KeyCode::CapsLock.wire() == KeyCode::Backspace.wire() + 1,
        KeyCode::ContextMenu.wire() == KeyCode::CapsLock.wire() + 1,
        KeyCode::ControlLeft.wire() == KeyCode::ContextMenu.wire() + 1,
        KeyCode::ControlRight.wire() == KeyCode::ControlLeft.wire() + 1,
        KeyCode::Enter.wire() == KeyCode::ControlRight.wire() + 1,
        KeyCode::SuperLeft.wire() == KeyCode::Enter.wire() + 1,
        KeyCode::SuperRight.wire() == KeyCode::SuperLeft.wire() + 1,
        KeyCode::ShiftLeft.wire() == KeyCode::SuperRight.wire() + 1,
        KeyCode::ShiftRight.wire() == KeyCode::ShiftLeft.wire() + 1,
        KeyCode::Space.wire() == KeyCode::ShiftRight.wire() + 1,
        KeyCode::Tab.wire() == KeyCode::Space.wire() + 1,
        KeyCode::Convert.wire() == KeyCode::Tab.wire() + 1,
        KeyCode::KanaMode.wire() == KeyCode::Convert.wire() + 1,
        KeyCode::Lang1.wire() == KeyCode::KanaMode.wire() + 1,
        KeyCode::Lang2.wire() == KeyCode::Lang1.wire() + 1,
        KeyCode::Lang3.wire() == KeyCode::Lang2.wire() + 1,
        KeyCode::Lang4.wire() == KeyCode::Lang3.wire() + 1,
        KeyCode::Lang5.wire() == KeyCode::Lang4.wire() + 1,
        KeyCode::NonConvert.wire() == KeyCode::Lang5.wire() + 1,
        KeyCode::Delete.wire() == KeyCode::NonConvert.wire() + 1,
        KeyCode::End.wire() == KeyCode::Delete.wire() + 1,
        KeyCode::Help.wire() == KeyCode::End.wire() + 1,
        KeyCode::Home.wire() == KeyCode::Help.wire() + 1,
        KeyCode::Insert.wire() == KeyCode::Home.wire() + 1,
        KeyCode::PageDown.wire() == KeyCode::Insert.wire() + 1,
        KeyCode::PageUp.wire() == KeyCode::PageDown.wire() + 1,
        KeyCode::ArrowDown.wire() == KeyCode::PageUp.wire() + 1,
        KeyCode::ArrowLeft.wire() == KeyCode::ArrowDown.wire() + 1,
        KeyCode::ArrowRight.wire() == KeyCode::ArrowLeft.wire() + 1,
        KeyCode::ArrowUp.wire() == KeyCode::ArrowRight.wire() + 1,
        KeyCode::NumLock.wire() == KeyCode::ArrowUp.wire() + 1,
        KeyCode::Numpad0.wire() == KeyCode::NumLock.wire() + 1,
        KeyCode::Numpad1.wire() == KeyCode::Numpad0.wire() + 1,
        KeyCode::Numpad2.wire() == KeyCode::Numpad1.wire() + 1,
        KeyCode::Numpad3.wire() == KeyCode::Numpad2.wire() + 1,
        KeyCode::Numpad4.wire() == KeyCode::Numpad3.wire() + 1,
        KeyCode::Numpad5.wire() == KeyCode::Numpad4.wire() + 1,
        KeyCode::Numpad6.wire() == KeyCode::Numpad5.wire() + 1,
        KeyCode::Numpad7.wire() == KeyCode::Numpad6.wire() + 1,
        KeyCode::Numpad8.wire() == KeyCode::Numpad7.wire() + 1,
        KeyCode::Numpad9.wire() == KeyCode::Numpad8.wire() + 1,
        KeyCode::NumpadAdd.wire() == KeyCode::Numpad9.wire() + 1,
        KeyCode::NumpadBackspace.wire() == KeyCode::NumpadAdd.wire() + 1,
        KeyCode::NumpadClear.wire() == KeyCode::NumpadBackspace.wire() + 1,
        KeyCode::NumpadClearEntry.wire() == KeyCode::NumpadClear.wire() + 1,
        KeyCode::NumpadComma.wire() == KeyCode::NumpadClearEntry.wire() + 1,
        KeyCode::NumpadDecimal.wire() == KeyCode::NumpadComma.wire() + 1,
        KeyCode::NumpadDivide.wire() == KeyCode::NumpadDecimal.wire() + 1,
        KeyCode::NumpadEnter.wire() == KeyCode::NumpadDivide.wire() + 1,
        KeyCode::NumpadEqual.wire() == KeyCode::NumpadEnter.wire() + 1,
        KeyCode::NumpadHash.wire() == KeyCode::NumpadEqual.wire() + 1,
        KeyCode::NumpadMemoryAdd.wire() == KeyCode::NumpadHash.wire() + 1,
        KeyCode::NumpadMemoryClear.wire() == KeyCode::NumpadMemoryAdd.wire() + 1,
        KeyCode::NumpadMemoryRecall.wire() == KeyCode::NumpadMemoryClear.wire() + 1,
        KeyCode::NumpadMemoryStore.wire() == KeyCode::NumpadMemoryRecall.wire() + 1,
        KeyCode::NumpadMemorySubtract.wire() == KeyCode::NumpadMemoryStore.wire() + 1,
        KeyCode::NumpadMultiply.wire() == KeyCode::NumpadMemorySubtract.wire() + 1,
        KeyCode::NumpadParenLeft.wire() == KeyCode::NumpadMultiply.wire() + 1,
        KeyCode::NumpadParenRight.wire() == KeyCode::NumpadParenLeft.wire() + 1,
        KeyCode::NumpadStar.wire() == KeyCode::NumpadParenRight.wire() + 1,
        KeyCode::NumpadSubtract.wire() == KeyCode::NumpadStar.wire() + 1,
        KeyCode::Escape.wire() == KeyCode::NumpadSubtract.wire() + 1,
        KeyCode::Fn.wire() == KeyCode::Escape.wire() + 1,
        KeyCode::FnLock.wire() == KeyCode::Fn.wire() + 1,
        KeyCode::PrintScreen.wire() == KeyCode::FnLock.wire() + 1,
        KeyCode::ScrollLock.wire() == KeyCode::PrintScreen.wire() + 1,
        KeyCode::Pause.wire() == KeyCode::ScrollLock.wire() + 1,
        KeyCode::BrowserBack.wire() == KeyCode::Pause.wire() + 1,
        KeyCode::BrowserFavorites.wire() == KeyCode::BrowserBack.wire() + 1,
        KeyCode::BrowserForward.wire() == KeyCode::BrowserFavorites.wire() + 1,
        KeyCode::BrowserHome.wire() == KeyCode::BrowserForward.wire() + 1,
        KeyCode::BrowserRefresh.wire() == KeyCode::BrowserHome.wire() + 1,
        KeyCode::BrowserSearch.wire() == KeyCode::BrowserRefresh.wire() + 1,
        KeyCode::BrowserStop.wire() == KeyCode::BrowserSearch.wire() + 1,
        KeyCode::Eject.wire() == KeyCode::BrowserStop.wire() + 1,
        KeyCode::LaunchApp1.wire() == KeyCode::Eject.wire() + 1,
        KeyCode::LaunchApp2.wire() == KeyCode::LaunchApp1.wire() + 1,
        KeyCode::LaunchMail.wire() == KeyCode::LaunchApp2.wire() + 1,
        KeyCode::MediaPlayPause.wire() == KeyCode::LaunchMail.wire() + 1,
        KeyCode::MediaSelect.wire() == KeyCode::MediaPlayPause.wire() + 1,
        KeyCode::MediaStop.wire() == KeyCode::MediaSelect.wire() + 1,
        KeyCode::MediaTrackNext.wire() == KeyCode::MediaStop.wire() + 1,
        KeyCode::MediaTrackPrevious.wire() == KeyCode::MediaTrackNext.wire() + 1,
        KeyCode::Power.wire() == KeyCode::MediaTrackPrevious.wire() + 1,
        KeyCode::Sleep.wire() == KeyCode::Power.wire() + 1,
        KeyCode::AudioVolumeDown.wire() == KeyCode::Sleep.wire() + 1,
        KeyCode::AudioVolumeMute.wire() == KeyCode::AudioVolumeDown.wire() + 1,
        KeyCode::AudioVolumeUp.wire() == KeyCode::AudioVolumeMute.wire() + 1,
        KeyCode::WakeUp.wire() == KeyCode::AudioVolumeUp.wire() + 1,
        KeyCode::Meta.wire() == KeyCode::WakeUp.wire() + 1,
        KeyCode::Hyper.wire() == KeyCode::Meta.wire() + 1,
        KeyCode::Turbo.wire() == KeyCode::Hyper.wire() + 1,
        KeyCode::Abort.wire() == KeyCode::Turbo.wire() + 1,
        KeyCode::Resume.wire() == KeyCode::Abort.wire() + 1,
        KeyCode::Suspend.wire() == KeyCode::Resume.wire() + 1,
        KeyCode::Again.wire() == KeyCode::Suspend.wire() + 1,
        KeyCode::Copy.wire() == KeyCode::Again.wire() + 1,
        KeyCode::Cut.wire() == KeyCode::Copy.wire() + 1,
        KeyCode::Find.wire() == KeyCode::Cut.wire() + 1,
        KeyCode::Open.wire() == KeyCode::Find.wire() + 1,
        KeyCode::Paste.wire() == KeyCode::Open.wire() + 1,
        KeyCode::Props.wire() == KeyCode::Paste.wire() + 1,
        KeyCode::Select.wire() == KeyCode::Props.wire() + 1,
        KeyCode::Undo.wire() == KeyCode::Select.wire() + 1,
        KeyCode::Hiragana.wire() == KeyCode::Undo.wire() + 1,
        KeyCode::Katakana.wire() == KeyCode::Hiragana.wire() + 1,
        KeyCode::F1.wire() == KeyCode::Katakana.wire() + 1,
        KeyCode::F2.wire() == KeyCode::F1.wire() + 1,
        KeyCode::F3.wire() == KeyCode::F2.wire() + 1,
        KeyCode::F4.wire() == KeyCode::F3.wire() + 1,
        KeyCode::F5.wire() == KeyCode::F4.wire() + 1,
        KeyCode::F6.wire() == KeyCode::F5.wire() + 1,
        KeyCode::F7.wire() == KeyCode::F6.wire() + 1,
        KeyCode::F8.wire() == KeyCode::F7.wire() + 1,
        KeyCode::F9.wire() == KeyCode::F8.wire() + 1,
        KeyCode::F10.wire() == KeyCode::F9.wire() + 1,
        KeyCode::F11.wire() == KeyCode::F10.wire() + 1,
        KeyCode::F12.wire() == KeyCode::F11.wire() + 1,
        KeyCode::F13.wire() == KeyCode::F12.wire() + 1,
        KeyCode::F14.wire() == KeyCode::F13.wire() + 1,
        KeyCode::F15.wire() == KeyCode::F14.wire() + 1,
        KeyCode::F16.wire() == KeyCode::F15.wire() + 1,
        KeyCode::F17.wire() == KeyCode::F16.wire() + 1,
        KeyCode::F18.wire() == KeyCode::F17.wire() + 1,
        KeyCode::F19.wire() == KeyCode::F18.wire() + 1,
        KeyCode::F20.wire() == KeyCode::F19.wire() + 1,
        KeyCode::F21.wire() == KeyCode::F20.wire() + 1,
        KeyCode::F22.wire() == KeyCode::F21.wire() + 1,
        KeyCode::F23.wire() == KeyCode::F22.wire() + 1,
        KeyCode::F24.wire() == KeyCode::F23.wire() + 1,
        KeyCode::F25.wire() == KeyCode::F24.wire() + 1,
        KeyCode::F26.wire() == KeyCode::F25.wire() + 1,
        KeyCode::F27.wire() == KeyCode::F26.wire() + 1,
        KeyCode::F28.wire() == KeyCode::F27.wire() + 1,
        KeyCode::F29.wire() == KeyCode::F28.wire() + 1,
        KeyCode::F30.wire() == KeyCode::F29.wire() + 1,
        KeyCode::F31.wire() == KeyCode::F30.wire() + 1,
        KeyCode::F32.wire() == KeyCode::F31.wire() + 1,
        KeyCode::F33.wire() == KeyCode::F32.wire() + 1,
        KeyCode::F34.wire() == KeyCode::F33.wire() + 1,
        KeyCode::F35.wire() == KeyCode::F34.wire() + 1,
        KeyCode::F35.wire() == 193,
{
}

} // verus!
