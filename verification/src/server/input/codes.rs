//! The codes of `linux/input-event-codes.h` by their names there, and the law that every key and
//! button is sent as the code of its name.
use vstd::prelude::*;

use super::keymap::{button_to_evdev, to_evdev};
use super::uinput::{Device, DeviceEvent, Emit, EmitView, Held, UinputState};
use super::InputEvent;
use crate::client::keymap::{button_to_proto, WindowButton};
use crate::proto::keycode::KeyCode;
use crate::proto::message::{ControlMessage, MouseButton, MouseMove};

verus! {

pub const BTN_LEFT: u16 = 0x110;

pub const BTN_RIGHT: u16 = 0x111;

pub const BTN_MIDDLE: u16 = 0x112;

pub const BTN_SIDE: u16 = 0x113;

pub const BTN_EXTRA: u16 = 0x114;

pub const KEY_ESC: u16 = 1;

pub const KEY_1: u16 = 2;

pub const KEY_2: u16 = 3;

pub const KEY_3: u16 = 4;

pub const KEY_4: u16 = 5;

pub const KEY_5: u16 = 6;

pub const KEY_6: u16 = 7;

pub const KEY_7: u16 = 8;

pub const KEY_8: u16 = 9;

pub const KEY_9: u16 = 10;

pub const KEY_0: u16 = 11;

pub const KEY_MINUS: u16 = 12;

pub const KEY_EQUAL: u16 = 13;

pub const KEY_BACKSPACE: u16 = 14;

pub const KEY_TAB: u16 = 15;

pub const KEY_Q: u16 = 16;

pub const KEY_W: u16 = 17;

pub const KEY_E: u16 = 18;

pub const KEY_R: u16 = 19;

pub const KEY_T: u16 = 20;

pub const KEY_Y: u16 = 21;

pub const KEY_U: u16 = 22;

pub const KEY_I: u16 = 23;

pub const KEY_O: u16 = 24;

pub const KEY_P: u16 = 25;

pub const KEY_LEFTBRACE: u16 = 26;

pub const KEY_RIGHTBRACE: u16 = 27;

pub const KEY_ENTER: u16 = 28;

pub const KEY_LEFTCTRL: u16 = 29;

pub const KEY_A: u16 = 30;

pub const KEY_S: u16 = 31;

pub const KEY_D: u16 = 32;

pub const KEY_F: u16 = 33;

pub const KEY_G: u16 = 34;

pub const KEY_H: u16 = 35;

pub const KEY_J: u16 = 36;

pub const KEY_K: u16 = 37;

pub const KEY_L: u16 = 38;

pub const KEY_SEMICOLON: u16 = 39;

pub const KEY_APOSTROPHE: u16 = 40;

pub const KEY_GRAVE: u16 = 41;

pub const KEY_LEFTSHIFT: u16 = 42;

pub const KEY_BACKSLASH: u16 = 43;

pub const KEY_Z: u16 = 44;

pub const KEY_X: u16 = 45;

pub const KEY_C: u16 = 46;

pub const KEY_V: u16 = 47;

pub const KEY_B: u16 = 48;

pub const KEY_N: u16 = 49;

pub const KEY_M: u16 = 50;

pub const KEY_COMMA: u16 = 51;

pub const KEY_DOT: u16 = 52;

pub const KEY_SLASH: u16 = 53;

pub const KEY_RIGHTSHIFT: u16 = 54;

pub const KEY_KPASTERISK: u16 = 55;

pub const KEY_LEFTALT: u16 = 56;

pub const KEY_SPACE: u16 = 57;

pub const KEY_CAPSLOCK: u16 = 58;

pub const KEY_F1: u16 = 59;

pub const KEY_F2: u16 = 60;

pub const KEY_F3: u16 = 61;

pub const KEY_F4: u16 = 62;

pub const KEY_F5: u16 = 63;

pub const KEY_F6: u16 = 64;

pub const KEY_F7: u16 = 65;

pub const KEY_F8: u16 = 66;

pub const KEY_F9: u16 = 67;

pub const KEY_F10: u16 = 68;

pub const KEY_NUMLOCK: u16 = 69;

pub const KEY_SCROLLLOCK: u16 = 70;

pub const KEY_KP7: u16 = 71;

pub const KEY_KP8: u16 = 72;

pub const KEY_KP9: u16 = 73;

pub const KEY_KPMINUS: u16 = 74;

pub const KEY_KP4: u16 = 75;

pub const KEY_KP5: u16 = 76;

pub const KEY_KP6: u16 = 77;

pub const KEY_KPPLUS: u16 = 78;

pub const KEY_KP1: u16 = 79;

pub const KEY_KP2: u16 = 80;

pub const KEY_KP3: u16 = 81;

pub const KEY_KP0: u16 = 82;

pub const KEY_KPDOT: u16 = 83;

pub const KEY_ZENKAKUHANKAKU: u16 = 85;

pub const KEY_102ND: u16 = 86;

pub const KEY_F11: u16 = 87;

pub const KEY_F12: u16 = 88;

pub const KEY_RO: u16 = 89;

pub const KEY_KATAKANA: u16 = 90;

pub const KEY_HIRAGANA: u16 = 91;

pub const KEY_HENKAN: u16 = 92;

pub const KEY_KATAKANAHIRAGANA: u16 = 93;

pub const KEY_MUHENKAN: u16 = 94;

pub const KEY_KPENTER: u16 = 96;

pub const KEY_RIGHTCTRL: u16 = 97;

pub const KEY_KPSLASH: u16 = 98;

pub const KEY_SYSRQ: u16 = 99;

pub const KEY_RIGHTALT: u16 = 100;

pub const KEY_HOME: u16 = 102;

pub const KEY_UP: u16 = 103;

pub const KEY_PAGEUP: u16 = 104;

pub const KEY_LEFT: u16 = 105;

pub const KEY_RIGHT: u16 = 106;

pub const KEY_END: u16 = 107;

pub const KEY_DOWN: u16 = 108;

pub const KEY_PAGEDOWN: u16 = 109;

pub const KEY_INSERT: u16 = 110;

pub const KEY_DELETE: u16 = 111;

pub const KEY_MUTE: u16 = 113;

pub const KEY_VOLUMEDOWN: u16 = 114;

pub const KEY_VOLUMEUP: u16 = 115;

pub const KEY_POWER: u16 = 116;

pub const KEY_KPEQUAL: u16 = 117;

pub const KEY_PAUSE: u16 = 119;

pub const KEY_KPCOMMA: u16 = 121;

pub const KEY_HANGEUL: u16 = 122;

pub const KEY_HANJA: u16 = 123;

pub const KEY_YEN: u16 = 124;

pub const KEY_LEFTMETA: u16 = 125;

pub const KEY_RIGHTMETA: u16 = 126;

pub const KEY_COMPOSE: u16 = 127;

pub const KEY_STOP: u16 = 128;

pub const KEY_AGAIN: u16 = 129;

pub const KEY_PROPS: u16 = 130;

pub const KEY_UNDO: u16 = 131;

pub const KEY_COPY: u16 = 133;

pub const KEY_OPEN: u16 = 134;

pub const KEY_PASTE: u16 = 135;

pub const KEY_FIND: u16 = 136;

pub const KEY_CUT: u16 = 137;

pub const KEY_HELP: u16 = 138;

pub const KEY_CALC: u16 = 140;

pub const KEY_SLEEP: u16 = 142;

pub const KEY_WAKEUP: u16 = 143;

pub const KEY_MAIL: u16 = 155;

pub const KEY_BOOKMARKS: u16 = 156;

pub const KEY_COMPUTER: u16 = 157;

pub const KEY_BACK: u16 = 158;

pub const KEY_FORWARD: u16 = 159;

pub const KEY_EJECTCD: u16 = 161;

pub const KEY_NEXTSONG: u16 = 163;

pub const KEY_PLAYPAUSE: u16 = 164;

pub const KEY_PREVIOUSSONG: u16 = 165;

pub const KEY_STOPCD: u16 = 166;

pub const KEY_HOMEPAGE: u16 = 172;

pub const KEY_REFRESH: u16 = 173;

pub const KEY_KPLEFTPAREN: u16 = 179;

pub const KEY_KPRIGHTPAREN: u16 = 180;

pub const KEY_F13: u16 = 183;

pub const KEY_F14: u16 = 184;

pub const KEY_F15: u16 = 185;

pub const KEY_F16: u16 = 186;

pub const KEY_F17: u16 = 187;

pub const KEY_F18: u16 = 188;

pub const KEY_F19: u16 = 189;

pub const KEY_F20: u16 = 190;

pub const KEY_F21: u16 = 191;

pub const KEY_F22: u16 = 192;

pub const KEY_F23: u16 = 193;

pub const KEY_F24: u16 = 194;

pub const KEY_SEARCH: u16 = 217;

pub const KEY_MEDIA: u16 = 226;

pub const KEY_SELECT: u16 = 353;

/// A mouse button is sent as the Linux button of the same name.
pub proof fn buttons_have_their_linux_codes(button: MouseButton, code: u16)
    requires
        call_ensures(button_to_evdev, (button,), code),
    ensures
        code == BTN_LEFT <==> button is Left,
        code == BTN_RIGHT <==> button is Right,
        code == BTN_MIDDLE <==> button is Middle,
        code == BTN_SIDE <==> button is Back,
        code == BTN_EXTRA <==> button is Forward,
        BTN_LEFT <= code <= BTN_EXTRA,
{
}

/// A click goes all the way: what the window calls left is pressed as Linux's left, and so on.
pub proof fn window_button_arrives_as_the_same_button(
    window: WindowButton,
    sent: Option<MouseButton>,
    code: u16,
)
    requires
        call_ensures(button_to_proto, (window,), sent),
        sent is Some ==> call_ensures(button_to_evdev, (sent->0,), code),
    ensures
        sent is Some <==> window !is Other,
        window is Left ==> code == BTN_LEFT,
        window is Right ==> code == BTN_RIGHT,
        window is Middle ==> code == BTN_MIDDLE,
        window is Back ==> code == BTN_SIDE,
        window is Forward ==> code == BTN_EXTRA,
{
}

/// A key is sent as the Linux key of its name or place.
pub proof fn keys_have_their_linux_codes(key: KeyCode, code: Option<u16>)
    requires
        call_ensures(to_evdev, (key,), code),
    ensures
        key is Backquote ==> code == Some(KEY_GRAVE),
        key is Backslash ==> code == Some(KEY_BACKSLASH),
        key is BracketLeft ==> code == Some(KEY_LEFTBRACE),
        key is BracketRight ==> code == Some(KEY_RIGHTBRACE),
        key is Comma ==> code == Some(KEY_COMMA),
        key is Digit0 ==> code == Some(KEY_0),
        key is Digit1 ==> code == Some(KEY_1),
        key is Digit2 ==> code == Some(KEY_2),
        key is Digit3 ==> code == Some(KEY_3),
        key is Digit4 ==> code == Some(KEY_4),
        key is Digit5 ==> code == Some(KEY_5),
        key is Digit6 ==> code == Some(KEY_6),
        key is Digit7 ==> code == Some(KEY_7),
        key is Digit8 ==> code == Some(KEY_8),
        key is Digit9 ==> code == Some(KEY_9),
        key is Equal ==> code == Some(KEY_EQUAL),
        key is IntlBackslash ==> code == Some(KEY_102ND),
        key is IntlRo ==> code == Some(KEY_RO),
        key is IntlYen ==> code == Some(KEY_YEN),
        key is KeyA ==> code == Some(KEY_A),
        key is KeyB ==> code == Some(KEY_B),
        key is KeyC ==> code == Some(KEY_C),
        key is KeyD ==> code == Some(KEY_D),
        key is KeyE ==> code == Some(KEY_E),
        key is KeyF ==> code == Some(KEY_F),
        key is KeyG ==> code == Some(KEY_G),
        key is KeyH ==> code == Some(KEY_H),
        key is KeyI ==> code == Some(KEY_I),
        key is KeyJ ==> code == Some(KEY_J),
        key is KeyK ==> code == Some(KEY_K),
        key is KeyL ==> code == Some(KEY_L),
        key is KeyM ==> code == Some(KEY_M),
        key is KeyN ==> code == Some(KEY_N),
        key is KeyO ==> code == Some(KEY_O),
        key is KeyP ==> code == Some(KEY_P),
        key is KeyQ ==> code == Some(KEY_Q),
        key is KeyR ==> code == Some(KEY_R),
        key is KeyS ==> code == Some(KEY_S),
        key is KeyT ==> code == Some(KEY_T),
        key is KeyU ==> code == Some(KEY_U),
        key is KeyV ==> code == Some(KEY_V),
        key is KeyW ==> code == Some(KEY_W),
        key is KeyX ==> code == Some(KEY_X),
        key is KeyY ==> code == Some(KEY_Y),
        key is KeyZ ==> code == Some(KEY_Z),
        key is Minus ==> code == Some(KEY_MINUS),
        key is Period ==> code == Some(KEY_DOT),
        key is Quote ==> code == Some(KEY_APOSTROPHE),
        key is Semicolon ==> code == Some(KEY_SEMICOLON),
        key is Slash ==> code == Some(KEY_SLASH),
        key is AltLeft ==> code == Some(KEY_LEFTALT),
        key is AltRight ==> code == Some(KEY_RIGHTALT),
        key is Backspace ==> code == Some(KEY_BACKSPACE),
        key is CapsLock ==> code == Some(KEY_CAPSLOCK),
        key is ContextMenu ==> code == Some(KEY_COMPOSE),
        key is ControlLeft ==> code == Some(KEY_LEFTCTRL),
        key is ControlRight ==> code == Some(KEY_RIGHTCTRL),
        key is Enter ==> code == Some(KEY_ENTER),
        key is SuperLeft ==> code == Some(KEY_LEFTMETA),
        key is SuperRight ==> code == Some(KEY_RIGHTMETA),
        key is ShiftLeft ==> code == Some(KEY_LEFTSHIFT),
        key is ShiftRight ==> code == Some(KEY_RIGHTSHIFT),
        key is Space ==> code == Some(KEY_SPACE),
        key is Tab ==> code == Some(KEY_TAB),
        key is Convert ==> code == Some(KEY_HENKAN),
        key is KanaMode ==> code == Some(KEY_KATAKANAHIRAGANA),
        key is Lang1 ==> code == Some(KEY_HANGEUL),
        key is Lang2 ==> code == Some(KEY_HANJA),
        key is Lang3 ==> code == Some(KEY_KATAKANA),
        key is Lang4 ==> code == Some(KEY_HIRAGANA),
        key is Lang5 ==> code == Some(KEY_ZENKAKUHANKAKU),
        key is NonConvert ==> code == Some(KEY_MUHENKAN),
        key is Delete ==> code == Some(KEY_DELETE),
        key is End ==> code == Some(KEY_END),
        key is Help ==> code == Some(KEY_HELP),
        key is Home ==> code == Some(KEY_HOME),
        key is Insert ==> code == Some(KEY_INSERT),
        key is PageDown ==> code == Some(KEY_PAGEDOWN),
        key is PageUp ==> code == Some(KEY_PAGEUP),
        key is ArrowDown ==> code == Some(KEY_DOWN),
        key is ArrowLeft ==> code == Some(KEY_LEFT),
        key is ArrowRight ==> code == Some(KEY_RIGHT),
        key is ArrowUp ==> code == Some(KEY_UP),
        key is NumLock ==> code == Some(KEY_NUMLOCK),
        key is Numpad0 ==> code == Some(KEY_KP0),
        key is Numpad1 ==> code == Some(KEY_KP1),
        key is Numpad2 ==> code == Some(KEY_KP2),
        key is Numpad3 ==> code == Some(KEY_KP3),
        key is Numpad4 ==> code == Some(KEY_KP4),
        key is Numpad5 ==> code == Some(KEY_KP5),
        key is Numpad6 ==> code == Some(KEY_KP6),
        key is Numpad7 ==> code == Some(KEY_KP7),
        key is Numpad8 ==> code == Some(KEY_KP8),
        key is Numpad9 ==> code == Some(KEY_KP9),
        key is NumpadAdd ==> code == Some(KEY_KPPLUS),
        key is NumpadComma ==> code == Some(KEY_KPCOMMA),
        key is NumpadDecimal ==> code == Some(KEY_KPDOT),
        key is NumpadDivide ==> code == Some(KEY_KPSLASH),
        key is NumpadEnter ==> code == Some(KEY_KPENTER),
        key is NumpadEqual ==> code == Some(KEY_KPEQUAL),
        key is NumpadMultiply ==> code == Some(KEY_KPASTERISK),
        key is NumpadParenLeft ==> code == Some(KEY_KPLEFTPAREN),
        key is NumpadParenRight ==> code == Some(KEY_KPRIGHTPAREN),
        key is NumpadSubtract ==> code == Some(KEY_KPMINUS),
        key is Escape ==> code == Some(KEY_ESC),
        key is PrintScreen ==> code == Some(KEY_SYSRQ),
        key is ScrollLock ==> code == Some(KEY_SCROLLLOCK),
        key is Pause ==> code == Some(KEY_PAUSE),
        key is BrowserBack ==> code == Some(KEY_BACK),
        key is BrowserFavorites ==> code == Some(KEY_BOOKMARKS),
        key is BrowserForward ==> code == Some(KEY_FORWARD),
        key is BrowserHome ==> code == Some(KEY_HOMEPAGE),
        key is BrowserRefresh ==> code == Some(KEY_REFRESH),
        key is BrowserSearch ==> code == Some(KEY_SEARCH),
        key is BrowserStop ==> code == Some(KEY_STOP),
        key is Eject ==> code == Some(KEY_EJECTCD),
        key is LaunchApp1 ==> code == Some(KEY_COMPUTER),
        key is LaunchApp2 ==> code == Some(KEY_CALC),
        key is LaunchMail ==> code == Some(KEY_MAIL),
        key is MediaPlayPause ==> code == Some(KEY_PLAYPAUSE),
        key is MediaSelect ==> code == Some(KEY_MEDIA),
        key is MediaStop ==> code == Some(KEY_STOPCD),
        key is MediaTrackNext ==> code == Some(KEY_NEXTSONG),
        key is MediaTrackPrevious ==> code == Some(KEY_PREVIOUSSONG),
        key is Power ==> code == Some(KEY_POWER),
        key is Sleep ==> code == Some(KEY_SLEEP),
        key is AudioVolumeDown ==> code == Some(KEY_VOLUMEDOWN),
        key is AudioVolumeMute ==> code == Some(KEY_MUTE),
        key is AudioVolumeUp ==> code == Some(KEY_VOLUMEUP),
        key is WakeUp ==> code == Some(KEY_WAKEUP),
        key is Again ==> code == Some(KEY_AGAIN),
        key is Copy ==> code == Some(KEY_COPY),
        key is Cut ==> code == Some(KEY_CUT),
        key is Find ==> code == Some(KEY_FIND),
        key is Open ==> code == Some(KEY_OPEN),
        key is Paste ==> code == Some(KEY_PASTE),
        key is Props ==> code == Some(KEY_PROPS),
        key is Select ==> code == Some(KEY_SELECT),
        key is Undo ==> code == Some(KEY_UNDO),
        key is Hiragana ==> code == Some(KEY_HIRAGANA),
        key is Katakana ==> code == Some(KEY_KATAKANA),
        key is F1 ==> code == Some(KEY_F1),
        key is F2 ==> code == Some(KEY_F2),
        key is F3 ==> code == Some(KEY_F3),
        key is F4 ==> code == Some(KEY_F4),
        key is F5 ==> code == Some(KEY_F5),
        key is F6 ==> code == Some(KEY_F6),
        key is F7 ==> code == Some(KEY_F7),
        key is F8 ==> code == Some(KEY_F8),
        key is F9 ==> code == Some(KEY_F9),
        key is F10 ==> code == Some(KEY_F10),
        key is F11 ==> code == Some(KEY_F11),
        key is F12 ==> code == Some(KEY_F12),
        key is F13 ==> code == Some(KEY_F13),
        key is F14 ==> code == Some(KEY_F14),
        key is F15 ==> code == Some(KEY_F15),
        key is F16 ==> code == Some(KEY_F16),
        key is F17 ==> code == Some(KEY_F17),
        key is F18 ==> code == Some(KEY_F18),
        key is F19 ==> code == Some(KEY_F19),
        key is F20 ==> code == Some(KEY_F20),
        key is F21 ==> code == Some(KEY_F21),
        key is F22 ==> code == Some(KEY_F22),
        key is F23 ==> code == Some(KEY_F23),
        key is F24 ==> code == Some(KEY_F24),
{
}

/// Keys that Linux has no code for have none.
pub proof fn keys_without_a_linux_code_are_dropped(key: KeyCode, code: Option<u16>)
    requires
        call_ensures(to_evdev, (key,), code),
    ensures
        key is NumpadBackspace ==> code == None::<u16>,
        key is NumpadClear ==> code == None::<u16>,
        key is NumpadClearEntry ==> code == None::<u16>,
        key is NumpadHash ==> code == None::<u16>,
        key is NumpadMemoryAdd ==> code == None::<u16>,
        key is NumpadMemoryClear ==> code == None::<u16>,
        key is NumpadMemoryRecall ==> code == None::<u16>,
        key is NumpadMemoryStore ==> code == None::<u16>,
        key is NumpadMemorySubtract ==> code == None::<u16>,
        key is NumpadStar ==> code == None::<u16>,
        key is Fn ==> code == None::<u16>,
        key is FnLock ==> code == None::<u16>,
        key is Meta ==> code == None::<u16>,
        key is Hyper ==> code == None::<u16>,
        key is Turbo ==> code == None::<u16>,
        key is Abort ==> code == None::<u16>,
        key is Resume ==> code == None::<u16>,
        key is Suspend ==> code == None::<u16>,
        key is F25 ==> code == None::<u16>,
        key is F26 ==> code == None::<u16>,
        key is F27 ==> code == None::<u16>,
        key is F28 ==> code == None::<u16>,
        key is F29 ==> code == None::<u16>,
        key is F30 ==> code == None::<u16>,
        key is F31 ==> code == None::<u16>,
        key is F32 ==> code == None::<u16>,
        key is F33 ==> code == None::<u16>,
        key is F34 ==> code == None::<u16>,
        key is F35 ==> code == None::<u16>,
{
}

/// A movement of the pointer becomes the horizontal and then the vertical axis of the pointer
/// device.
pub proof fn movement_is_horizontal_and_vertical(held: Held, m: MouseMove)
    ensures
        held.emitted(InputEvent::Mouse(m)) == seq![
            EmitView {
                device: Device::Pointer,
                events: seq![
                    DeviceEvent { kind: 3, code: 0, value: m.x as i32 },
                    DeviceEvent { kind: 3, code: 1, value: m.y as i32 },
                ],
            },
        ],
        held.after(InputEvent::Mouse(m)) == held,
{
}

/// A key goes to the keyboard, as 1 when it goes down and 0 when it comes up; one without a
/// code goes nowhere.
pub proof fn key_goes_to_the_keyboard(held: Held, key: KeyCode, pressed: bool, code: Option<u16>)
    requires
        call_ensures(to_evdev, (key,), code),
    ensures
        held.emitted(InputEvent::Control(ControlMessage::Key { code: key, pressed }))
            == match code {
            Some(c) => seq![
                EmitView {
                    device: Device::Keyboard,
                    events: seq![
                        DeviceEvent {
                            kind: 1,
                            code: c,
                            value: if pressed {
                                1i32
                            } else {
                                0i32
                            },
                        },
                    ],
                },
            ],
            None => Seq::empty(),
        },
{
}

/// A button goes to the pointer, as 1 when it goes down and 0 when it comes up.
pub proof fn button_goes_to_the_pointer(
    held: Held,
    button: MouseButton,
    pressed: bool,
    code: u16,
)
    requires
        call_ensures(button_to_evdev, (button,), code),
    ensures
        held.emitted(InputEvent::Control(ControlMessage::Button { button, pressed })) == seq![
            EmitView {
                device: Device::Pointer,
                events: seq![
                    DeviceEvent {
                        kind: 1,
                        code,
                        value: if pressed {
                            1i32
                        } else {
                            0i32
                        },
                    },
                ],
            },
        ],
{
}

/// A turn of the wheel becomes relative movements of the pointer device: the vertical one first,
/// and none for an axis that does not move.
pub proof fn wheel_turns_both_axes(held: Held, horizontal: i16, vertical: i16)
    ensures
        ({
            let up = DeviceEvent { kind: 2, code: 8, value: vertical as i32 };
            let across = DeviceEvent { kind: 2, code: 6, value: horizontal as i32 };
            let out = held.emitted(
                InputEvent::Control(ControlMessage::Wheel { horizontal, vertical }),
            );
            &&& vertical != 0 && horizontal != 0 ==> out == seq![
                EmitView { device: Device::Pointer, events: seq![up, across] },
            ]
            &&& vertical != 0 && horizontal == 0 ==> out == seq![
                EmitView { device: Device::Pointer, events: seq![up] },
            ]
            &&& vertical == 0 && horizontal != 0 ==> out == seq![
                EmitView { device: Device::Pointer, events: seq![across] },
            ]
            &&& vertical == 0 && horizontal == 0 ==> out.len() == 0
        }),
{
    let up = DeviceEvent { kind: 2, code: 8, value: vertical as i32 };
    let across = DeviceEvent { kind: 2, code: 6, value: horizontal as i32 };
    let events = super::uinput::wheel_events(horizontal, vertical);
    if vertical != 0 && horizontal != 0 {
        assert(events =~= seq![up, across]);
    } else if vertical != 0 {
        assert(events =~= seq![up]);
    } else if horizontal != 0 {
        assert(events =~= seq![across]);
    }
}

/// Releasing everything lets go of each held key on the keyboard, then of each held button on
/// the pointer.
pub proof fn release_all_names_every_code(held: Held, i: int)
    requires
        held.keys.len() > 0,
        held.buttons.len() > 0,
    ensures
        ({
            let out = held.emitted(InputEvent::Control(ControlMessage::ReleaseAll));
            &&& out.len() == 2
            &&& out[0].device is Keyboard
            &&& out[1].device is Pointer
            &&& out[0].events.len() == held.keys.len()
            &&& out[1].events.len() == held.buttons.len()
            &&& 0 <= i < held.keys.len() ==> out[0].events[i] == (DeviceEvent {
                kind: 1,
                code: held.keys[i],
                value: 0,
            })
            &&& 0 <= i < held.buttons.len() ==> out[1].events[i] == (DeviceEvent {
                kind: 1,
                code: held.buttons[i],
                value: 0,
            })
        }),
{
}

/// Pressing or releasing a button in the session writes one event to the pointer: the Linux code
/// of the button, and 1 or 0.
pub proof fn button_is_written_to_the_pointer(
    s: &mut UinputState,
    button: MouseButton,
    pressed: bool,
    r: Vec<Emit>,
)
    requires
        call_ensures(
            UinputState::handle,
            (s, InputEvent::Control(ControlMessage::Button { button, pressed })),
            r,
        ),
    ensures
        r@.len() == 1,
        r@[0].device is Pointer,
        r@[0].events@.len() == 1,
        r@[0].events@[0].kind == 1,
        r@[0].events@[0].code == match button {
            MouseButton::Left => BTN_LEFT,
            MouseButton::Right => BTN_RIGHT,
            MouseButton::Middle => BTN_MIDDLE,
            MouseButton::Back => BTN_SIDE,
            MouseButton::Forward => BTN_EXTRA,
        },
        pressed ==> r@[0].events@[0].value == 1,
        !pressed ==> r@[0].events@[0].value == 0,
        final(s)@.keys == old(s)@.keys,
{
    let all = super::uinput::emits(r@);
    assert(all.len() == 1);
    assert(all[0] == r@[0]@);
}

/// Moving the mouse writes both axes to the pointer, the horizontal one first.
pub proof fn movement_is_written_to_the_pointer(s: &mut UinputState, m: MouseMove, r: Vec<Emit>)
    requires
        call_ensures(UinputState::handle, (s, InputEvent::Mouse(m)), r),
    ensures
        r@.len() == 1,
        r@[0].device is Pointer,
        r@[0].events@ == seq![
            DeviceEvent { kind: 3, code: 0, value: m.x as i32 },
            DeviceEvent { kind: 3, code: 1, value: m.y as i32 },
        ],
        final(s)@ == old(s)@,
{
    let all = super::uinput::emits(r@);
    assert(all.len() == 1);
    assert(all[0] == r@[0]@);
}

/// The virtual pointer announces the five buttons of a mouse.
pub proof fn pointer_announces_the_buttons(r: Vec<u16>)
    requires
        call_ensures(super::keymap::pointer_buttons, (), r),
    ensures
        r@ == seq![BTN_LEFT, BTN_RIGHT, BTN_MIDDLE, BTN_SIDE, BTN_EXTRA],
{
    assert(r@[0] == BTN_LEFT && r@[1] == BTN_RIGHT && r@[2] == BTN_MIDDLE && r@[3] == BTN_SIDE
        && r@[4] == BTN_EXTRA);
    assert(r@ =~= seq![BTN_LEFT, BTN_RIGHT, BTN_MIDDLE, BTN_SIDE, BTN_EXTRA]);
}

} // verus!
