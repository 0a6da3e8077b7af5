//! Binary encoding of the data-channel messages.
//!
//! Layout: one tag byte followed by little-endian fixed-width fields. Messages are tiny
//! (max 5 bytes), so a hand-rolled codec is simpler and more predictable than a
//! serialisation framework and gives us exhaustive tests.
use vstd::prelude::*;

use crate::proto::keycode::KeyCode;
use crate::text;

verus! {

/// Errors produced by [`ControlMessage::decode`] and [`MouseMove::decode`].
#[derive(Debug, Clone, Copy, PartialEq, Eq, Structural)]
pub enum DecodeError {
    Empty,
    UnknownTag(u8),
    Truncated { expected: usize, actual: usize },
    Trailing(usize),
    UnknownKey(u16),
    UnknownButton(u8),
}

impl DecodeError {
    /// The message shown for the error.
    pub open spec fn message(self) -> Seq<char> {
        match self {
            DecodeError::Empty => "message is empty"@,
            DecodeError::UnknownTag(tag) => "unknown message tag "@ + text::decimal(tag as nat),
            DecodeError::Truncated { expected, actual } => "message truncated: expected "@
                + text::decimal(expected as nat) + " bytes, got "@ + text::decimal(actual as nat),
            DecodeError::Trailing(n) => "trailing bytes after message: "@ + text::decimal(n as nat),
            DecodeError::UnknownKey(key) => "unknown key code "@ + text::decimal(key as nat),
            DecodeError::UnknownButton(b) => "unknown mouse button "@ + text::decimal(b as nat),
        }
    }

    /// The message shown for the error.
    pub fn to_string(&self) -> (r: String)
        ensures
            r@ == self.message(),
    {
        let mut out = String::new();
        match *self {
            DecodeError::Empty => {
                out.append("message is empty");
            },
            DecodeError::UnknownTag(tag) => {
                out.append("unknown message tag ");
                text::push_decimal(&mut out, tag as u64);
            },
            DecodeError::Truncated { expected, actual } => {
                out.append("message truncated: expected ");
                text::push_decimal(&mut out, expected as u64);
                out.append(" bytes, got ");
                text::push_decimal(&mut out, actual as u64);
            },
            DecodeError::Trailing(n) => {
                out.append("trailing bytes after message: ");
                text::push_decimal(&mut out, n as u64);
            },
            DecodeError::UnknownKey(key) => {
                out.append("unknown key code ");
                text::push_decimal(&mut out, key as u64);
            },
            DecodeError::UnknownButton(b) => {
                out.append("unknown mouse button ");
                text::push_decimal(&mut out, b as u64);
            },
        }
        assert(out@ =~= self.message());
        out
    }
}

/// Mouse buttons carried on the control channel.
#[derive(Debug, Clone, Copy, PartialEq, Eq, Hash, Structural)]
pub enum MouseButton {
    Left,
    Right,
    Middle,
    /// "Back" thumb button (evdev `BTN_SIDE`).
    Back,
    /// "Forward" thumb button (evdev `BTN_EXTRA`).
    Forward,
}

impl MouseButton {
    /// Wire value of a button.
    pub open spec fn wire(self) -> u8 {
        match self {
            MouseButton::Left => 0,
            MouseButton::Right => 1,
            MouseButton::Middle => 2,
            MouseButton::Back => 3,
            MouseButton::Forward => 4,
        }
    }

    /// The button with a wire value.
    pub open spec fn of_wire(v: u8) -> Option<MouseButton> {
        match v {
            0 => Some(MouseButton::Left),
            1 => Some(MouseButton::Right),
            2 => Some(MouseButton::Middle),
            3 => Some(MouseButton::Back),
            4 => Some(MouseButton::Forward),
            _ => None,
        }
    }

    /// Every button, in wire order.
    pub fn all() -> (r: Vec<MouseButton>)
        ensures
            r@.len() == 5,
            forall|i: int| 0 <= i < 5 ==> (#[trigger] r@[i]).wire() == i,
    {
        vec![
            MouseButton::Left,
            MouseButton::Right,
            MouseButton::Middle,
            MouseButton::Back,
            MouseButton::Forward,
        ]
    }

    /// Wire value of this button.
    pub fn as_u8(self) -> (r: u8)
        ensures
            r == self.wire(),
    {
        match self {
            MouseButton::Left => 0,
            MouseButton::Right => 1,
            MouseButton::Middle => 2,
            MouseButton::Back => 3,
            MouseButton::Forward => 4,
        }
    }

    /// Decode a wire value.
    pub fn from_u8(v: u8) -> (r: Option<Self>)
        ensures
            r == MouseButton::of_wire(v),
    {
        match v {
            0 => Some(MouseButton::Left),
            1 => Some(MouseButton::Right),
            2 => Some(MouseButton::Middle),
            3 => Some(MouseButton::Back),
            4 => Some(MouseButton::Forward),
            _ => None,
        }
    }
}

/// Messages on the reliable, ordered `"control"` channel.
#[derive(Debug, Clone, Copy, PartialEq, Eq, Structural)]
pub enum ControlMessage {
    /// First message sent by the client after the channel opens.
    Hello { version: u16 },
    /// Physical key press/release.
    Key { code: KeyCode, pressed: bool },
    /// Mouse button press/release.
    Button { button: MouseButton, pressed: bool },
    /// Wheel movement in notches. Positive `vertical` scrolls up (away from the user),
    /// positive `horizontal` scrolls right; matches evdev `REL_WHEEL`/`REL_HWHEEL` signs.
    Wheel { horizontal: i16, vertical: i16 },
    /// Ask the encoder to change its target bitrate (kilobits per second).
    SetBitrate { kbps: u32 },
    /// Release every key and button the server currently holds down
    /// (client lost focus, is closing, ...).
    ReleaseAll,
}

pub const TAG_HELLO: u8 = 0x01;

pub const TAG_KEY: u8 = 0x02;

pub const TAG_BUTTON: u8 = 0x03;

pub const TAG_WHEEL: u8 = 0x04;

pub const TAG_SET_BITRATE: u8 = 0x05;

pub const TAG_RELEASE_ALL: u8 = 0x06;

pub const TAG_MOUSE_MOVE: u8 = 0x10;

/// The two bytes of a 16-bit number, low byte first.
pub open spec fn le16(v: int) -> Seq<u8> {
    seq![(v % 256) as u8, (v / 256 % 256) as u8]
}

/// The four bytes of a 32-bit number, low byte first.
pub open spec fn le32(v: int) -> Seq<u8> {
    le16(v % 65536) + le16(v / 65536)
}

/// The number with these two bytes, low byte first.
pub open spec fn of_le16(a: u8, b: u8) -> int {
    a + 256 * b
}

/// A 16-bit number read as two's complement.
pub open spec fn signed16(v: int) -> int {
    if v < 0x8000 {
        v
    } else {
        v - 0x1_0000
    }
}

/// A truth value as a byte.
pub open spec fn bit(b: bool) -> u8 {
    if b {
        1
    } else {
        0
    }
}

fn push_le16(out: &mut Vec<u8>, v: u16)
    ensures
        final(out)@ == old(out)@ + le16(v as int),
{
    let ghost before = out@;
    out.push((v % 256) as u8);
    out.push((v / 256) as u8);
    assert(out@ =~= before + le16(v as int));
}

/// The two's complement of a signed 16-bit number.
fn unsigned16(v: i16) -> (r: u16)
    ensures
        r == v as int % 0x1_0000,
{
    if v >= 0 {
        v as u16
    } else {
        ((v as i32) + 0x1_0000) as u16
    }
}

fn read_le16(a: u8, b: u8) -> (r: u16)
    ensures
        r == of_le16(a, b),
{
    (a as u16) + 256 * (b as u16)
}

fn read_signed16(a: u8, b: u8) -> (r: i16)
    ensures
        r == signed16(of_le16(a, b)),
{
    let v = read_le16(a, b);
    if v < 0x8000 {
        v as i16
    } else {
        ((v as i32) - 0x1_0000) as i16
    }
}

fn byte_of(b: bool) -> (r: u8)
    ensures
        r == bit(b),
{
    if b {
        1
    } else {
        0
    }
}

/// Number of bytes behind the tag of a control message; `None` for an unknown tag.
pub open spec fn body_len(tag: u8) -> Option<nat> {
    if tag == TAG_HELLO {
        Some(2)
    } else if tag == TAG_KEY {
        Some(3)
    } else if tag == TAG_BUTTON {
        Some(2)
    } else if tag == TAG_WHEEL {
        Some(4)
    } else if tag == TAG_SET_BITRATE {
        Some(4)
    } else if tag == TAG_RELEASE_ALL {
        Some(0)
    } else {
        None
    }
}

/// What the length of a message that should have `n` bytes is worth: nothing, or an error.
pub open spec fn length_error(len: nat, n: nat) -> Option<DecodeError> {
    if len < n {
        Some(DecodeError::Truncated { expected: n as usize, actual: len as usize })
    } else if len > n {
        Some(DecodeError::Trailing((len - n) as usize))
    } else {
        None
    }
}

fn check_length(len: usize, n: usize) -> (r: Result<(), DecodeError>)
    ensures
        match r {
            Ok(_) => length_error(len as nat, n as nat) is None,
            Err(e) => length_error(len as nat, n as nat) == Some(e),
        },
{
    if len < n {
        Err(DecodeError::Truncated { expected: n, actual: len })
    } else if len > n {
        Err(DecodeError::Trailing(len - n))
    } else {
        Ok(())
    }
}

impl ControlMessage {
    /// Largest encoded size of any control message.
    pub const MAX_ENCODED_LEN: usize = 5;

    /// The bytes of a message.
    pub open spec fn bytes(self) -> Seq<u8> {
        match self {
            ControlMessage::Hello { version } => seq![TAG_HELLO] + le16(version as int),
            ControlMessage::Key { code, pressed } => seq![TAG_KEY] + le16(code.wire() as int)
                + seq![bit(pressed)],
            ControlMessage::Button { button, pressed } => seq![
                TAG_BUTTON,
                button.wire(),
                bit(pressed),
            ],
            ControlMessage::Wheel { horizontal, vertical } => seq![TAG_WHEEL] + le16(
                horizontal as int,
            ) + le16(vertical as int),
            ControlMessage::SetBitrate { kbps } => seq![TAG_SET_BITRATE] + le32(kbps as int),
            ControlMessage::ReleaseAll => seq![TAG_RELEASE_ALL],
        }
    }

    /// What decoding gives: the checks in order, then the message.
    pub open spec fn decoded(buf: Seq<u8>) -> Result<ControlMessage, DecodeError> {
        if buf.len() == 0 {
            Err(DecodeError::Empty)
        } else if body_len(buf[0]) is None {
            Err(DecodeError::UnknownTag(buf[0]))
        } else if length_error(buf.len(), body_len(buf[0])->0 + 1) is Some {
            Err(length_error(buf.len(), body_len(buf[0])->0 + 1)->0)
        } else if buf[0] == TAG_HELLO {
            Ok(ControlMessage::Hello { version: of_le16(buf[1], buf[2]) as u16 })
        } else if buf[0] == TAG_KEY {
            let raw = of_le16(buf[1], buf[2]) as u16;
            match KeyCode::of_wire(raw) {
                Some(code) => Ok(ControlMessage::Key { code, pressed: buf[3] != 0 }),
                None => Err(DecodeError::UnknownKey(raw)),
            }
        } else if buf[0] == TAG_BUTTON {
            match MouseButton::of_wire(buf[1]) {
                Some(button) => Ok(ControlMessage::Button { button, pressed: buf[2] != 0 }),
                None => Err(DecodeError::UnknownButton(buf[1])),
            }
        } else if buf[0] == TAG_WHEEL {
            Ok(
                ControlMessage::Wheel {
                    horizontal: signed16(of_le16(buf[1], buf[2])) as i16,
                    vertical: signed16(of_le16(buf[3], buf[4])) as i16,
                },
            )
        } else if buf[0] == TAG_SET_BITRATE {
            Ok(
                ControlMessage::SetBitrate {
                    kbps: (of_le16(buf[1], buf[2]) + 65536 * of_le16(buf[3], buf[4])) as u32,
                },
            )
        } else {
            Ok(ControlMessage::ReleaseAll)
        }
    }

    pub fn encode(&self) -> (r: Vec<u8>)
        ensures
            r@ == self.bytes(),
    {
        let mut out = Vec::with_capacity(Self::MAX_ENCODED_LEN);
        self.encode_into(&mut out);
        assert(out@ =~= self.bytes());
        out
    }

    pub fn encode_into(&self, out: &mut Vec<u8>)
        ensures
            final(out)@ == old(out)@ + self.bytes(),
    {
        let ghost before = out@;
        match *self {
            ControlMessage::Hello { version } => {
                out.push(TAG_HELLO);
                push_le16(out, version);
            },
            ControlMessage::Key { code, pressed } => {
                out.push(TAG_KEY);
                push_le16(out, code.as_u16());
                out.push(byte_of(pressed));
            },
            ControlMessage::Button { button, pressed } => {
                out.push(TAG_BUTTON);
                out.push(button.as_u8());
                out.push(byte_of(pressed));
            },
            ControlMessage::Wheel { horizontal, vertical } => {
                out.push(TAG_WHEEL);
                push_le16(out, unsigned16(horizontal));
                push_le16(out, unsigned16(vertical));
                assert(le16(horizontal as int % 0x1_0000) =~= le16(horizontal as int));
                assert(le16(vertical as int % 0x1_0000) =~= le16(vertical as int));
            },
            ControlMessage::SetBitrate { kbps } => {
                out.push(TAG_SET_BITRATE);
                push_le16(out, (kbps % 65536) as u16);
                push_le16(out, (kbps / 65536) as u16);
            },
            ControlMessage::ReleaseAll => {
                out.push(TAG_RELEASE_ALL);
            },
        }
        assert(out@ =~= before + self.bytes());
    }

    pub fn decode(buf: &[u8]) -> (r: Result<Self, DecodeError>)
        ensures
            r == ControlMessage::decoded(buf@),
    {
        if buf.len() == 0 {
            return Err(DecodeError::Empty);
        }
        let tag = buf[0];
        let n: usize = if tag == TAG_HELLO || tag == TAG_BUTTON {
            2
        } else if tag == TAG_KEY {
            3
        } else if tag == TAG_WHEEL || tag == TAG_SET_BITRATE {
            4
        } else if tag == TAG_RELEASE_ALL {
            0
        } else {
            return Err(DecodeError::UnknownTag(tag));
        };
        match check_length(buf.len(), n + 1) {
            Err(e) => {
                return Err(e);
            },
            Ok(_) => {},
        }
        if tag == TAG_HELLO {
            Ok(ControlMessage::Hello { version: read_le16(buf[1], buf[2]) })
        } else if tag == TAG_KEY {
            let raw = read_le16(buf[1], buf[2]);
            match KeyCode::from_u16(raw) {
                Some(code) => Ok(ControlMessage::Key { code, pressed: buf[3] != 0 }),
                None => Err(DecodeError::UnknownKey(raw)),
            }
        } else if tag == TAG_BUTTON {
            match MouseButton::from_u8(buf[1]) {
                Some(button) => Ok(ControlMessage::Button { button, pressed: buf[2] != 0 }),
                None => Err(DecodeError::UnknownButton(buf[1])),
            }
        } else if tag == TAG_WHEEL {
            Ok(
                ControlMessage::Wheel {
                    horizontal: read_signed16(buf[1], buf[2]),
                    vertical: read_signed16(buf[3], buf[4]),
                },
            )
        } else if tag == TAG_SET_BITRATE {
            let low = read_le16(buf[1], buf[2]);
            let high = read_le16(buf[3], buf[4]);
            Ok(ControlMessage::SetBitrate { kbps: low as u32 + 65536 * (high as u32) })
        } else {
            Ok(ControlMessage::ReleaseAll)
        }
    }
}

/// Absolute pointer position on the unordered `"mouse"` channel.
///
/// Coordinates are normalised to `0..=65535` over the *video area* of the client window,
/// so they map 1:1 onto the server's uinput `ABS_X`/`ABS_Y` range regardless of window size.
#[derive(Debug, Clone, Copy, PartialEq, Eq, Structural)]
pub struct MouseMove {
    pub x: u16,
    pub y: u16,
}

impl MouseMove {
    pub const ENCODED_LEN: usize = 5;

    /// The bytes of a message.
    pub open spec fn bytes(self) -> Seq<u8> {
        seq![TAG_MOUSE_MOVE] + le16(self.x as int) + le16(self.y as int)
    }

    /// What decoding gives: the checks in order, then the message.
    pub open spec fn decoded(buf: Seq<u8>) -> Result<MouseMove, DecodeError> {
        if buf.len() == 0 {
            Err(DecodeError::Empty)
        } else if buf[0] != TAG_MOUSE_MOVE {
            Err(DecodeError::UnknownTag(buf[0]))
        } else if length_error(buf.len(), 5) is Some {
            Err(length_error(buf.len(), 5)->0)
        } else {
            Ok(
                MouseMove {
                    x: of_le16(buf[1], buf[2]) as u16,
                    y: of_le16(buf[3], buf[4]) as u16,
                },
            )
        }
    }

    pub fn encode(&self) -> (r: [u8; 5])
        ensures
            r@ == self.bytes(),
    {
        let r: [u8; 5] = [
            TAG_MOUSE_MOVE,
            (self.x % 256) as u8,
            (self.x / 256) as u8,
            (self.y % 256) as u8,
            (self.y / 256) as u8,
        ];
        assert(r@ =~= self.bytes());
        r
    }

    pub fn decode(buf: &[u8]) -> (r: Result<Self, DecodeError>)
        ensures
            r == MouseMove::decoded(buf@),
    {
        if buf.len() == 0 {
            return Err(DecodeError::Empty);
        }
        if buf[0] != TAG_MOUSE_MOVE {
            return Err(DecodeError::UnknownTag(buf[0]));
        }
        match check_length(buf.len(), Self::ENCODED_LEN) {
            Err(e) => {
                return Err(e);
            },
            Ok(_) => {},
        }
        Ok(MouseMove { x: read_le16(buf[1], buf[2]), y: read_le16(buf[3], buf[4]) })
    }
}

/// A control message comes back from its bytes, which are at most
/// [`ControlMessage::MAX_ENCODED_LEN`].
pub proof fn control_message_round_trips(m: ControlMessage)
    ensures
        ControlMessage::decoded(m.bytes()) == Ok::<ControlMessage, DecodeError>(m),
        1 <= m.bytes().len() <= ControlMessage::MAX_ENCODED_LEN,
{
    let b = m.bytes();
    match m {
        ControlMessage::Hello { version } => {
            assert(b[0] == TAG_HELLO);
            assert(of_le16(b[1], b[2]) == version);
        },
        ControlMessage::Key { code, pressed } => {
            assert(b[0] == TAG_KEY);
            crate::proto::keycode::wire_value_round_trips(code);
            assert(of_le16(b[1], b[2]) == code.wire());
        },
        ControlMessage::Button { button, pressed } => {
            assert(b[0] == TAG_BUTTON);
        },
        ControlMessage::Wheel { horizontal, vertical } => {
            assert(b[0] == TAG_WHEEL);
            assert(signed16(of_le16(b[1], b[2])) == horizontal);
            assert(signed16(of_le16(b[3], b[4])) == vertical);
        },
        ControlMessage::SetBitrate { kbps } => {
            assert(b[0] == TAG_SET_BITRATE);
            assert(of_le16(b[1], b[2]) == kbps % 65536);
            assert(of_le16(b[3], b[4]) == kbps / 65536);
        },
        ControlMessage::ReleaseAll => {
            assert(b[0] == TAG_RELEASE_ALL);
        },
    }
}

/// A mouse message comes back from its bytes, which are [`MouseMove::ENCODED_LEN`].
pub proof fn mouse_move_round_trips(m: MouseMove)
    ensures
        MouseMove::decoded(m.bytes()) == Ok::<MouseMove, DecodeError>(m),
        m.bytes().len() == MouseMove::ENCODED_LEN,
{
    let b = m.bytes();
    assert(b[0] == TAG_MOUSE_MOVE);
    assert(of_le16(b[1], b[2]) == m.x);
    assert(of_le16(b[3], b[4]) == m.y);
}

/// Two messages of the same bytes are the same message.
pub proof fn control_messages_have_distinct_bytes(a: ControlMessage, b: ControlMessage)
    requires
        a.bytes() == b.bytes(),
    ensures
        a == b,
{
    control_message_round_trips(a);
    control_message_round_trips(b);
}

/// Control messages are never valid on the mouse channel, nor mouse messages on the control
/// channel: each is refused for its tag.
pub proof fn channels_do_not_mix(c: ControlMessage, m: MouseMove)
    ensures
        MouseMove::decoded(c.bytes()) == Err::<MouseMove, DecodeError>(
            DecodeError::UnknownTag(c.bytes()[0]),
        ),
        ControlMessage::decoded(m.bytes()) == Err::<ControlMessage, DecodeError>(
            DecodeError::UnknownTag(TAG_MOUSE_MOVE),
        ),
{
    control_message_round_trips(c);
    assert(m.bytes()[0] == TAG_MOUSE_MOVE);
    assert(c.bytes()[0] != TAG_MOUSE_MOVE);
}

/// The layout of the control messages, byte by byte: a tag, then the fields in their order, low
/// bytes first.
#[verifier::spinoff_prover]
pub proof fn control_messages_are_laid_out(m: ControlMessage, r: Vec<u8>)
    requires
        call_ensures(ControlMessage::encode, (&m,), r),
    ensures
        match m {
            ControlMessage::Hello { version } => {
                &&& r@.len() == 3
                &&& r@[0] == 1
                &&& r@[1] + 256 * r@[2] == version
            },
            ControlMessage::Key { code, pressed } => {
                &&& r@.len() == 4
                &&& r@[0] == 2
                &&& r@[1] + 256 * r@[2] == code.wire()
                &&& pressed ==> r@[3] == 1
                &&& !pressed ==> r@[3] == 0
            },
            ControlMessage::Button { button, pressed } => {
                &&& r@.len() == 3
                &&& r@[0] == 3
                &&& r@[1] == match button {
                    MouseButton::Left => 0u8,
                    MouseButton::Right => 1,
                    MouseButton::Middle => 2,
                    MouseButton::Back => 3,
                    MouseButton::Forward => 4,
                }
                &&& pressed ==> r@[2] == 1
                &&& !pressed ==> r@[2] == 0
            },
            ControlMessage::Wheel { horizontal, vertical } => {
                &&& r@.len() == 5
                &&& r@[0] == 4
                &&& r@[1] + 256 * r@[2] == horizontal || r@[1] + 256 * r@[2] == horizontal + 0x1_0000
                &&& r@[3] + 256 * r@[4] == vertical || r@[3] + 256 * r@[4] == vertical + 0x1_0000
            },
            ControlMessage::SetBitrate { kbps } => {
                &&& r@.len() == 5
                &&& r@[0] == 5
                &&& r@[1] + 0x100 * r@[2] + 0x1_0000 * r@[3] + 0x100_0000 * r@[4] == kbps
            },
            ControlMessage::ReleaseAll => r@ == seq![6u8],
        },
{
}

/// The layout of a mouse message: a tag, then both coordinates, low bytes first.
pub proof fn mouse_messages_are_laid_out(m: MouseMove, r: [u8; 5])
    requires
        call_ensures(MouseMove::encode, (&m,), r),
    ensures
        r@[0] == 0x10,
        r@[1] + 256 * r@[2] == m.x,
        r@[3] + 256 * r@[4] == m.y,
{
}

/// What a control message that can be read says: each field as it stands in its bytes, and any
/// byte but zero for something that is pressed.
#[verifier::spinoff_prover]
pub proof fn control_messages_say_what_stands_there(buf: &[u8], r: Result<ControlMessage, DecodeError>)
    requires
        call_ensures(ControlMessage::decode, (buf,), r),
        r is Ok,
    ensures
        match r->Ok_0 {
            ControlMessage::Hello { version } => buf@.len() == 3 && buf@[0] == 1 && version
                == buf@[1] + 256 * buf@[2],
            ControlMessage::Key { code, pressed } => buf@.len() == 4 && buf@[0] == 2 && code.wire()
                == buf@[1] + 256 * buf@[2] && (pressed <==> buf@[3] != 0),
            ControlMessage::Button { button, pressed } => buf@.len() == 3 && buf@[0] == 3
                && button.wire() == buf@[1] && (pressed <==> buf@[2] != 0),
            ControlMessage::Wheel { horizontal, vertical } => buf@.len() == 5 && buf@[0] == 4 && (
            horizontal == buf@[1] + 256 * buf@[2] || horizontal + 0x1_0000 == buf@[1] + 256
                * buf@[2]) && (vertical == buf@[3] + 256 * buf@[4] || vertical + 0x1_0000
                == buf@[3] + 256 * buf@[4]),
            ControlMessage::SetBitrate { kbps } => buf@.len() == 5 && buf@[0] == 5 && kbps
                == buf@[1] + 0x100 * buf@[2] + 0x1_0000 * buf@[3] + 0x100_0000 * buf@[4],
            ControlMessage::ReleaseAll => buf@.len() == 1 && buf@[0] == 6,
        },
{
    if buf@[0] == 2 {
        crate::proto::keycode::wire_values_are_dense((buf@[1] + 256 * buf@[2]) as u16);
    }
}

/// Which control messages cannot be read, and why: the first of these that holds. Nothing there;
/// a tag other than 1 to 6; too few or too many bytes for the tag; a key or button that does not
/// exist.
#[verifier::spinoff_prover]
pub proof fn control_messages_are_refused_for_a_reason(
    buf: &[u8],
    r: Result<ControlMessage, DecodeError>,
)
    requires
        call_ensures(ControlMessage::decode, (buf,), r),
    ensures
        buf@.len() == 0 <==> r == Err::<ControlMessage, DecodeError>(DecodeError::Empty),
        buf@.len() > 0 && !(1 <= buf@[0] <= 6) ==> r == Err::<ControlMessage, DecodeError>(
            DecodeError::UnknownTag(buf@[0]),
        ),
        buf@.len() > 0 && 1 <= buf@[0] <= 6 ==> {
            let n: int = seq![3int, 4, 3, 5, 5, 1][buf@[0] - 1];
            &&& buf@.len() < n ==> r == Err::<ControlMessage, DecodeError>(
                DecodeError::Truncated { expected: n as usize, actual: buf@.len() as usize },
            )
            &&& buf@.len() > n ==> r == Err::<ControlMessage, DecodeError>(
                DecodeError::Trailing((buf@.len() - n) as usize),
            )
            &&& buf@.len() == n && buf@[0] == 2 && buf@[1] + 256 * buf@[2] >= 194 ==> r == Err::<
                ControlMessage,
                DecodeError,
            >(DecodeError::UnknownKey((buf@[1] + 256 * buf@[2]) as u16))
            &&& buf@.len() == n && buf@[0] == 3 && buf@[1] >= 5 ==> r == Err::<
                ControlMessage,
                DecodeError,
            >(DecodeError::UnknownButton(buf@[1]))
            &&& buf@.len() == n && (buf@[0] == 2 ==> buf@[1] + 256 * buf@[2] < 194) && (buf@[0]
                == 3 ==> buf@[1] < 5) ==> r is Ok
        },
{
    if buf@.len() > 2 {
        crate::proto::keycode::wire_values_are_dense((buf@[1] + 256 * buf@[2]) as u16);
    }
}

/// A mouse message is read if it has five bytes and the right tag; it says the coordinates as
/// they stand there.
pub proof fn mouse_messages_say_what_stands_there(buf: &[u8], r: Result<MouseMove, DecodeError>)
    requires
        call_ensures(MouseMove::decode, (buf,), r),
    ensures
        r is Ok <==> buf@.len() == 5 && buf@[0] == 0x10,
        r matches Ok(m) ==> m.x == buf@[1] + 256 * buf@[2] && m.y == buf@[3] + 256 * buf@[4],
        r matches Err(e) ==> e == if buf@.len() == 0 {
            DecodeError::Empty
        } else if buf@[0] != 0x10 {
            DecodeError::UnknownTag(buf@[0])
        } else if buf@.len() < 5 {
            DecodeError::Truncated { expected: 5, actual: buf@.len() as usize }
        } else {
            DecodeError::Trailing((buf@.len() - 5) as usize)
        },
{
}

/// Buttons are numbered from left, right and middle to back and forward, in both directions.
pub proof fn buttons_are_numbered()
    ensures
        MouseButton::Left.wire() == 0 && MouseButton::of_wire(0) == Some(MouseButton::Left),
        MouseButton::Right.wire() == 1 && MouseButton::of_wire(1) == Some(MouseButton::Right),
        MouseButton::Middle.wire() == 2 && MouseButton::of_wire(2) == Some(MouseButton::Middle),
        MouseButton::Back.wire() == 3 && MouseButton::of_wire(3) == Some(MouseButton::Back),
        MouseButton::Forward.wire() == 4 && MouseButton::of_wire(4) == Some(MouseButton::Forward),
        forall|v: u8| v > 4 ==> #[trigger] MouseButton::of_wire(v) is None,
{
}

/// An error names the number that it is about.
pub proof fn errors_name_their_number(e: DecodeError, r: String)
    requires
        call_ensures(DecodeError::to_string, (&e,), r),
    ensures
        match e {
            DecodeError::Empty => r@ == "message is empty"@,
            DecodeError::UnknownTag(n) => r@ == "unknown message tag "@ + text::decimal(n as nat),
            DecodeError::Truncated { expected, actual } => r@ == "message truncated: expected "@
                + text::decimal(expected as nat) + " bytes, got "@ + text::decimal(actual as nat),
            DecodeError::Trailing(n) => r@ == "trailing bytes after message: "@ + text::decimal(
                n as nat,
            ),
            DecodeError::UnknownKey(n) => r@ == "unknown key code "@ + text::decimal(n as nat),
            DecodeError::UnknownButton(n) => r@ == "unknown mouse button "@ + text::decimal(
                n as nat,
            ),
        },
{
}

} // verus!
