//! Window key and button to protocol key and button.
//!
//! [`KeyCode`] has the same names as the key codes of the window library, so the mapping goes by
//! name and cannot drift.
use vstd::prelude::*;

use crate::proto::keycode::KeyCode;
use crate::proto::message::MouseButton;
use crate::text;

verus! {

/// A key has this name, and no key before it has.
pub open spec fn first_named(k: KeyCode, name: Seq<char>) -> bool {
    k.name_text() == name && forall|v: u16|
        v < k.wire() ==> (#[trigger] KeyCode::of_wire(v))->0.name_text() != name
}

/// Physical key code, by its name, to protocol key code (`None` for names that the protocol does
/// not have).
pub fn to_proto(name: &str) -> (r: Option<KeyCode>)
    ensures
        match r {
            Some(k) => first_named(k, name@),
            None => forall|k: KeyCode| #[trigger] k.name_text() != name@,
        },
{
    let all = KeyCode::all();
    proof {
        assert forall|j: int| 0 <= j < all@.len() implies KeyCode::of_wire(j as u16) == Some(
            #[trigger] all@[j],
        ) by {
            crate::proto::keycode::wire_value_round_trips(all@[j]);
        }
    }
    for i in 0..all.len()
        invariant
            all@.len() == crate::proto::keycode::KEY_COUNT,
            forall|j: int|
                0 <= j < all@.len() ==> KeyCode::of_wire(j as u16) == Some(#[trigger] all@[j]),
            forall|j: int| 0 <= j < i ==> (#[trigger] all@[j]).name_text() != name@,
    {
        if text::same_str(all[i].name(), name) {
            proof {
                let k = all@[i as int];
                crate::proto::keycode::wire_value_round_trips(k);
                crate::proto::keycode::wire_values_are_dense(i as u16);
                assert forall|v: u16| v < k.wire() implies (#[trigger] KeyCode::of_wire(
                    v,
                ))->0.name_text() != name@ by {
                    assert(KeyCode::of_wire(v) == Some(all@[v as int]));
                }
            }
            return Some(all[i]);
        }
    }
    proof {
        assert forall|k: KeyCode| #[trigger] k.name_text() != name@ by {
            crate::proto::keycode::wire_value_round_trips(k);
            assert(KeyCode::of_wire(k.wire()) == Some(all@[k.wire() as int]));
        }
    }
    None
}

/// A button of a mouse.
#[derive(Debug, Clone, Copy, PartialEq, Eq, Structural)]
pub enum WindowButton {
    Left,
    Right,
    Middle,
    Back,
    Forward,
    Other(u16),
}

/// The protocol has a button for a button of a mouse.
pub open spec fn stands_for(b: MouseButton, w: WindowButton) -> bool {
    match b {
        MouseButton::Left => w is Left,
        MouseButton::Right => w is Right,
        MouseButton::Middle => w is Middle,
        MouseButton::Back => w is Back,
        MouseButton::Forward => w is Forward,
    }
}

/// Mouse button to protocol button (`None` for extra buttons that are not forwarded).
pub fn button_to_proto(button: WindowButton) -> (r: Option<MouseButton>)
    ensures
        r is None <==> button is Other,
        r matches Some(b) ==> stands_for(b, button),
{
    match button {
        WindowButton::Left => Some(MouseButton::Left),
        WindowButton::Right => Some(MouseButton::Right),
        WindowButton::Middle => Some(MouseButton::Middle),
        WindowButton::Back => Some(MouseButton::Back),
        WindowButton::Forward => Some(MouseButton::Forward),
        WindowButton::Other(_) => None,
    }
}

} // verus!
