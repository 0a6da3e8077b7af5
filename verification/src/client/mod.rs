//! The client: what it shows, what it sends and how it recovers from loss.
pub mod app;
pub mod assembler;
pub mod decoder;
pub mod delivery;
pub mod depacketizer;
pub mod keymap;
pub mod net;
