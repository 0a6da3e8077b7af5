//! uinput devices: a full keyboard and an absolute pointer.
//!
//! The pointer looks like QEMU's USB tablet (ABS_X/ABS_Y 0..65535, mouse buttons, wheel, no
//! BTN_TOUCH): udev tags it `ID_INPUT_MOUSE` and libinput maps the absolute axes onto the
//! whole screen, so client coordinates normalised over the video area land on the same spot of
//! the 1920x1080 desktop regardless of the client window size.
//!
//! [`UinputState`] keeps what is held down and turns each input event into the events to write
//! to the devices.
use vstd::prelude::*;

use super::keymap::{button_to_evdev, to_evdev};
use super::InputEvent;
use crate::proto::message::{ControlMessage, MouseMove};

verus! {

/// pid.codes open-source vendor id.
pub const VENDOR: u16 = 0x1209;

pub const PRODUCT_KEYBOARD: u16 = 0xdb01;

pub const PRODUCT_POINTER: u16 = 0xdb02;

pub const KEYBOARD_NAME: &'static str = "vmdesk virtual keyboard";

pub const POINTER_NAME: &'static str = "vmdesk virtual pointer";

pub const EV_KEY: u16 = 1;

pub const EV_RELATIVE: u16 = 2;

pub const EV_ABSOLUTE: u16 = 3;

pub const REL_HWHEEL: u16 = 6;

pub const REL_WHEEL: u16 = 8;

pub const ABS_X: u16 = 0;

pub const ABS_Y: u16 = 1;

/// One event for a device: type, code and value.
#[derive(Debug, Clone, Copy, PartialEq, Eq, Structural)]
pub struct DeviceEvent {
    pub kind: u16,
    pub code: u16,
    pub value: i32,
}

#[derive(Debug, Clone, Copy, PartialEq, Eq, Structural)]
pub enum Device {
    Keyboard,
    Pointer,
}

/// Events that are written to one device in one go.
#[derive(Debug, PartialEq, Eq)]
pub struct Emit {
    pub device: Device,
    pub events: Vec<DeviceEvent>,
}

/// What an [`Emit`] holds.
#[verifier::ext_equal]
pub struct EmitView {
    pub device: Device,
    pub events: Seq<DeviceEvent>,
}

impl View for Emit {
    type V = EmitView;

    open spec fn view(&self) -> EmitView {
        EmitView { device: self.device, events: self.events@ }
    }
}

/// What a list of [`Emit`]s holds.
pub open spec fn emits(v: Seq<Emit>) -> Seq<EmitView> {
    Seq::new(v.len(), |i: int| v[i]@)
}

/// A press (1) or release (0) of a key or button.
pub open spec fn press(code: u16, pressed: bool) -> DeviceEvent {
    DeviceEvent {
        kind: EV_KEY,
        code,
        value: if pressed {
            1
        } else {
            0
        },
    }
}

/// The wheel events for a movement: none for an axis that does not move, vertical first.
pub open spec fn wheel_events(horizontal: i16, vertical: i16) -> Seq<DeviceEvent> {
    let v = if vertical != 0 {
        seq![DeviceEvent { kind: EV_RELATIVE, code: REL_WHEEL, value: vertical as i32 }]
    } else {
        Seq::empty()
    };
    let h = if horizontal != 0 {
        seq![DeviceEvent { kind: EV_RELATIVE, code: REL_HWHEEL, value: horizontal as i32 }]
    } else {
        Seq::empty()
    };
    v + h
}

/// The events that release each of `codes`.
pub open spec fn releases(codes: Seq<u16>) -> Seq<DeviceEvent> {
    Seq::new(codes.len(), |i: int| press(codes[i], false))
}

/// Codes held down, in the order in which they were pressed.
pub open spec fn with(held: Seq<u16>, code: u16) -> Seq<u16> {
    if held.contains(code) {
        held
    } else {
        held.push(code)
    }
}

/// Codes held down once `code` is not any more.
pub open spec fn without(held: Seq<u16>, code: u16) -> Seq<u16> {
    held.filter(|c: u16| c != code)
}

/// Codes held down after a press or release.
pub open spec fn after_press(held: Seq<u16>, code: u16, pressed: bool) -> Seq<u16> {
    if pressed {
        with(held, code)
    } else {
        without(held, code)
    }
}

fn is_held(held: &Vec<u16>, code: u16) -> (r: bool)
    ensures
        r == held@.contains(code),
{
    for i in 0..held.len()
        invariant
            forall|j: int| 0 <= j < i ==> held@[j] != code,
    {
        if held[i] == code {
            return true;
        }
    }
    false
}

fn set_held(held: &mut Vec<u16>, code: u16, pressed: bool)
    ensures
        final(held)@ == after_press(old(held)@, code, pressed),
{
    if pressed {
        if !is_held(held, code) {
            held.push(code);
        }
        return;
    }
    let ghost all = held@;
    let mut rest: Vec<u16> = Vec::new();
    proof {
        reveal_with_fuel(Seq::filter, 1);
    }
    assert(all.take(0) =~= Seq::empty());
    for i in 0..held.len()
        invariant
            all == held@,
            rest@ == without(all.take(i as int), code),
    {
        proof {
            reveal_with_fuel(Seq::filter, 1);
            assert(all.take(i + 1).drop_last() =~= all.take(i as int));
        }
        if held[i] != code {
            rest.push(held[i]);
        }
    }
    assert(all.take(all.len() as int) =~= all);
    *held = rest;
}

fn release_events(codes: &Vec<u16>) -> (r: Vec<DeviceEvent>)
    ensures
        r@ == releases(codes@),
{
    let mut out: Vec<DeviceEvent> = Vec::new();
    for i in 0..codes.len()
        invariant
            out@.len() == i,
            forall|j: int| 0 <= j < i ==> out@[j] == press(codes@[j], false),
    {
        out.push(DeviceEvent { kind: EV_KEY, code: codes[i], value: 0 });
    }
    assert(out@ =~= releases(codes@));
    out
}

fn press_value(pressed: bool) -> (r: i32)
    ensures
        r == if pressed {
            1int
        } else {
            0int
        },
{
    if pressed {
        1
    } else {
        0
    }
}

/// Keys and buttons held down on the virtual devices.
#[derive(Debug, PartialEq, Eq)]
pub struct UinputState {
    pub keys: Vec<u16>,
    pub buttons: Vec<u16>,
}

/// What is held down.
#[verifier::ext_equal]
pub struct Held {
    pub keys: Seq<u16>,
    pub buttons: Seq<u16>,
}

impl View for UinputState {
    type V = Held;

    open spec fn view(&self) -> Held {
        Held { keys: self.keys@, buttons: self.buttons@ }
    }
}

impl Held {
    /// Nothing held down.
    pub open spec fn nothing() -> Held {
        Held { keys: Seq::empty(), buttons: Seq::empty() }
    }

    /// What is held down after an event.
    pub open spec fn after(self, event: InputEvent) -> Held {
        match event {
            InputEvent::Control(ControlMessage::Key { code, pressed }) => {
                match super::keymap::evdev_code(code) {
                    Some(c) => Held { keys: after_press(self.keys, c, pressed), ..self },
                    None => self,
                }
            },
            InputEvent::Control(ControlMessage::Button { button, pressed }) => Held {
                buttons: after_press(self.buttons, super::keymap::button_code(button), pressed),
                ..self
            },
            InputEvent::Control(ControlMessage::ReleaseAll) => Held::nothing(),
            _ => self,
        }
    }

    /// What is written to release all that is held down: keys first.
    pub open spec fn release_emits(self) -> Seq<EmitView> {
        let k = if self.keys.len() > 0 {
            seq![EmitView { device: Device::Keyboard, events: releases(self.keys) }]
        } else {
            Seq::empty()
        };
        let b = if self.buttons.len() > 0 {
            seq![EmitView { device: Device::Pointer, events: releases(self.buttons) }]
        } else {
            Seq::empty()
        };
        k + b
    }

    /// What is written to the devices for an event.
    pub open spec fn emitted(self, event: InputEvent) -> Seq<EmitView> {
        match event {
            InputEvent::Mouse(m) => seq![
                EmitView {
                    device: Device::Pointer,
                    events: seq![
                        DeviceEvent { kind: EV_ABSOLUTE, code: ABS_X, value: m.x as i32 },
                        DeviceEvent { kind: EV_ABSOLUTE, code: ABS_Y, value: m.y as i32 },
                    ],
                },
            ],
            InputEvent::Control(ControlMessage::Key { code, pressed }) => {
                match super::keymap::evdev_code(code) {
                    Some(c) => seq![
                        EmitView { device: Device::Keyboard, events: seq![press(c, pressed)] },
                    ],
                    None => Seq::empty(),
                }
            },
            InputEvent::Control(ControlMessage::Button { button, pressed }) => seq![
                EmitView {
                    device: Device::Pointer,
                    events: seq![press(super::keymap::button_code(button), pressed)],
                },
            ],
            InputEvent::Control(ControlMessage::Wheel { horizontal, vertical }) => {
                let events = wheel_events(horizontal, vertical);
                if events.len() > 0 {
                    seq![EmitView { device: Device::Pointer, events }]
                } else {
                    Seq::empty()
                }
            },
            InputEvent::Control(ControlMessage::ReleaseAll) => self.release_emits(),
            _ => Seq::empty(),
        }
    }
}

impl UinputState {
    /// Nothing held down.
    pub fn new() -> (r: Self)
        ensures
            r@ == Held::nothing(),
    {
        let r = UinputState { keys: Vec::new(), buttons: Vec::new() };
        assert(r@ =~= Held::nothing());
        r
    }

    fn key(&mut self, code: u16, pressed: bool) -> (r: Emit)
        ensures
            final(self)@ == (Held { keys: after_press(old(self)@.keys, code, pressed), ..old(self)@ }),
            r@ == (EmitView { device: Device::Keyboard, events: seq![press(code, pressed)] }),
    {
        set_held(&mut self.keys, code, pressed);
        let events = vec![DeviceEvent { kind: EV_KEY, code, value: press_value(pressed) }];
        assert(events@ =~= seq![press(code, pressed)]);
        Emit { device: Device::Keyboard, events }
    }

    fn button(&mut self, code: u16, pressed: bool) -> (r: Emit)
        ensures
            final(self)@ == (Held {
                buttons: after_press(old(self)@.buttons, code, pressed),
                ..old(self)@
            }),
            r@ == (EmitView { device: Device::Pointer, events: seq![press(code, pressed)] }),
    {
        set_held(&mut self.buttons, code, pressed);
        let events = vec![DeviceEvent { kind: EV_KEY, code, value: press_value(pressed) }];
        assert(events@ =~= seq![press(code, pressed)]);
        Emit { device: Device::Pointer, events }
    }

    fn wheel(&self, horizontal: i16, vertical: i16) -> (r: Emit)
        ensures
            r@ == (EmitView {
                device: Device::Pointer,
                events: wheel_events(horizontal, vertical),
            }),
    {
        let mut events: Vec<DeviceEvent> = Vec::new();
        if vertical != 0 {
            events.push(
                DeviceEvent { kind: EV_RELATIVE, code: REL_WHEEL, value: vertical as i32 },
            );
        }
        if horizontal != 0 {
            events.push(
                DeviceEvent { kind: EV_RELATIVE, code: REL_HWHEEL, value: horizontal as i32 },
            );
        }
        assert(events@ =~= wheel_events(horizontal, vertical));
        Emit { device: Device::Pointer, events }
    }

    fn move_abs(&self, m: MouseMove) -> (r: Emit)
        ensures
            emits(seq![r]) == self@.emitted(InputEvent::Mouse(m)),
    {
        let r = Emit {
            device: Device::Pointer,
            events: vec![
                DeviceEvent { kind: EV_ABSOLUTE, code: ABS_X, value: m.x as i32 },
                DeviceEvent { kind: EV_ABSOLUTE, code: ABS_Y, value: m.y as i32 },
            ],
        };
        let ghost want = self@.emitted(InputEvent::Mouse(m));
        assert(r@.events =~= want[0].events);
        assert(emits(seq![r]) =~= want);
        r
    }

    /// What to write to the devices for an event, in order.
    pub fn handle(&mut self, event: InputEvent) -> (r: Vec<Emit>)
        ensures
            final(self)@ == old(self)@.after(event),
            emits(r@) == old(self)@.emitted(event),
    {
        let ghost held = self@;
        let mut out: Vec<Emit> = Vec::new();
        match event {
            InputEvent::Mouse(m) => {
                let e = self.move_abs(m);
                out.push(e);
                assert(out@ =~= seq![e]);
            },
            InputEvent::Control(ControlMessage::Key { code, pressed }) => {
                if let Some(c) = to_evdev(code) {
                    out.push(self.key(c, pressed));
                }
                assert(emits(out@) =~= held.emitted(event));
            },
            InputEvent::Control(ControlMessage::Button { button, pressed }) => {
                out.push(self.button(button_to_evdev(button), pressed));
                assert(emits(out@) =~= held.emitted(event));
            },
            InputEvent::Control(ControlMessage::Wheel { horizontal, vertical }) => {
                let e = self.wheel(horizontal, vertical);
                if e.events.len() > 0 {
                    out.push(e);
                }
                assert(emits(out@) =~= held.emitted(event));
            },
            InputEvent::Control(ControlMessage::ReleaseAll) => {
                return self.release_all();
            },
            InputEvent::Control(ControlMessage::Hello { .. }) => {
                assert(emits(out@) =~= held.emitted(event));
            },
            InputEvent::Control(ControlMessage::SetBitrate { .. }) => {
                assert(emits(out@) =~= held.emitted(event));
            },
        }
        out
    }

    /// Releases every key and button currently held down: what to write to the devices.
    pub fn release_all(&mut self) -> (r: Vec<Emit>)
        ensures
            final(self)@ == Held::nothing(),
            emits(r@) == old(self)@.release_emits(),
    {
        let ghost held = self@;
        let mut out: Vec<Emit> = Vec::new();
        if self.keys.len() > 0 {
            let events = release_events(&self.keys);
            out.push(Emit { device: Device::Keyboard, events });
        }
        if self.buttons.len() > 0 {
            let events = release_events(&self.buttons);
            out.push(Emit { device: Device::Pointer, events });
        }
        self.keys.clear();
        self.buttons.clear();
        assert(self@ =~= Held::nothing());
        assert(emits(out@) =~= held.release_emits());
        out
    }
}

/// What is held down after a list of events.
pub open spec fn held_after(start: Held, events: Seq<InputEvent>) -> Held
    decreases events.len(),
{
    if events.len() == 0 {
        start
    } else {
        held_after(start, events.drop_last()).after(events.last())
    }
}

proof fn lemma_without(held: Seq<u16>, code: u16)
    ensures
        forall|c: u16| #[trigger]
            without(held, code).contains(c) <==> held.contains(c) && c != code,
    decreases held.len(),
{
    reveal_with_fuel(Seq::filter, 1);
    if held.len() > 0 {
        let init = held.drop_last();
        lemma_without(init, code);
        assert forall|c: u16| #[trigger] without(held, code).contains(c) <==> held.contains(c) && c
            != code by {
            let f = without(held, code);
            let g = without(init, code);
            if f.contains(c) {
                let i = choose|i: int| 0 <= i < f.len() && f[i] == c;
                if i < g.len() {
                    assert(g[i] == c);
                    assert(g.contains(c));
                    let k = choose|k: int| 0 <= k < init.len() && init[k] == c;
                    assert(held[k] == c);
                } else {
                    assert(held[held.len() - 1] == c);
                }
            }
            if held.contains(c) && c != code {
                let k = choose|k: int| 0 <= k < held.len() && held[k] == c;
                if k < init.len() {
                    assert(init[k] == c);
                    assert(g.contains(c));
                    let i = choose|i: int| 0 <= i < g.len() && g[i] == c;
                    assert(f[i] == c);
                } else {
                    assert(f.last() == c);
                }
            }
        }
    }
}

/// A press or release says of its own key or button whether it is held down from then on, and
/// of no other.
pub proof fn press_decides_its_code_alone(held: Seq<u16>, code: u16, pressed: bool, other: u16)
    ensures
        after_press(held, code, pressed).contains(code) <==> pressed,
        other != code ==> (after_press(held, code, pressed).contains(other) <==> held.contains(
            other,
        )),
{
    lemma_without(held, code);
    if pressed && !held.contains(code) {
        let h = held.push(code);
        assert(h[held.len() as int] == code);
        if held.contains(other) {
            let k = choose|k: int| 0 <= k < held.len() && held[k] == other;
            assert(h[k] == other);
        }
    }
}

/// Releasing all leaves nothing held down, and writes a release for every key and button that
/// was.
pub proof fn release_all_releases_everything(held: Held, code: u16)
    ensures
        held.after(InputEvent::Control(ControlMessage::ReleaseAll)) == Held::nothing(),
        held.keys.contains(code) ==> exists|i: int, j: int|
            0 <= i < held.release_emits().len() && 0 <= j < held.release_emits()[i].events.len()
                && held.release_emits()[i].device == Device::Keyboard
                && #[trigger] held.release_emits()[i].events[j] == press(code, false),
        held.buttons.contains(code) ==> exists|i: int, j: int|
            0 <= i < held.release_emits().len() && 0 <= j < held.release_emits()[i].events.len()
                && held.release_emits()[i].device == Device::Pointer
                && #[trigger] held.release_emits()[i].events[j] == press(code, false),
{
    let r = held.release_emits();
    if held.keys.contains(code) {
        let j = choose|j: int| 0 <= j < held.keys.len() && held.keys[j] == code;
        assert(r[0].events[j] == press(code, false));
    }
    if held.buttons.contains(code) {
        let j = choose|j: int| 0 <= j < held.buttons.len() && held.buttons[j] == code;
        let i: int = if held.keys.len() > 0 {
            1
        } else {
            0
        };
        assert(r[i].events[j] == press(code, false));
    }
}

/// No key or button is held down twice.
pub open spec fn distinct(held: Held) -> bool {
    held.keys.no_duplicates() && held.buttons.no_duplicates()
}

proof fn lemma_after_press_distinct(held: Seq<u16>, code: u16, pressed: bool)
    requires
        held.no_duplicates(),
    ensures
        after_press(held, code, pressed).no_duplicates(),
    decreases held.len(),
{
    if pressed {
        let h = with(held, code);
        assert forall|i: int, j: int| 0 <= i < h.len() && 0 <= j < h.len() && i != j implies h[i]
            != h[j] by {
            if !held.contains(code) {
                if i == held.len() {
                    assert(held.contains(held[j]));
                } else if j == held.len() {
                    assert(held.contains(held[i]));
                }
            }
        }
    } else {
        reveal_with_fuel(Seq::filter, 1);
        if held.len() > 0 {
            let init = held.drop_last();
            assert(init.no_duplicates());
            lemma_after_press_distinct(init, code, pressed);
            lemma_without(init, code);
            let (f, g) = (without(held, code), without(init, code));
            assert forall|i: int, j: int| 0 <= i < f.len() && 0 <= j < f.len() && i != j implies f[i]
                != f[j] by {
                if f.len() > g.len() && (i == g.len() || j == g.len()) {
                    let k = if i == g.len() {
                        j
                    } else {
                        i
                    };
                    assert(g.contains(g[k]));
                    assert(init.contains(g[k]));
                    let m = choose|m: int| 0 <= m < init.len() && init[m] == g[k];
                    assert(held[m] != held[held.len() - 1]);
                }
            }
        }
    }
}

/// Whatever events come, no key or button is ever held down twice.
pub proof fn nothing_is_held_twice(events: Seq<InputEvent>)
    ensures
        distinct(held_after(Held::nothing(), events)),
    decreases events.len(),
{
    if events.len() > 0 {
        nothing_is_held_twice(events.drop_last());
        let h = held_after(Held::nothing(), events.drop_last());
        match events.last() {
            InputEvent::Control(ControlMessage::Key { code, pressed }) => {
                if super::keymap::evdev_code(code) is Some {
                    lemma_after_press_distinct(
                        h.keys,
                        super::keymap::evdev_code(code)->0,
                        pressed,
                    );
                }
            },
            InputEvent::Control(ControlMessage::Button { button, pressed }) => {
                lemma_after_press_distinct(
                    h.buttons,
                    super::keymap::button_code(button),
                    pressed,
                );
            },
            _ => {},
        }
    }
}

} // verus!
