//! Input injection.
//!
//! The session layer decodes data-channel messages into [`InputEvent`]s and hands them to an
//! [`InputSink`]. [`LogInput`] only swallows them (used where uinput devices cannot be set up);
//! [`uinput::UinputState`] decides what the virtual keyboard and absolute pointer emit.
use vstd::prelude::*;

use crate::proto::message::{ControlMessage, MouseMove};

pub mod codes;
pub mod keymap;
pub mod uinput;

verus! {

#[derive(Debug, Clone, Copy, PartialEq, Eq, Structural)]
pub enum InputEvent {
    Control(ControlMessage),
    Mouse(MouseMove),
}

/// What takes input events. An error says in words what could not be done.
pub trait InputSink {
    fn handle(&mut self, event: InputEvent) -> Result<(), String>;

    /// Release every key and button currently held down.
    fn release_all(&mut self) -> Result<(), String>;
}

/// Sink that drops all events.
pub struct LogInput;

impl InputSink for LogInput {
    fn handle(&mut self, event: InputEvent) -> (r: Result<(), String>)
        ensures
            r is Ok,
            *final(self) == *old(self),
    {
        Ok(())
    }

    fn release_all(&mut self) -> (r: Result<(), String>)
        ensures
            r is Ok,
            *final(self) == *old(self),
    {
        Ok(())
    }
}

} // verus!
