//! The VM side: capture, conversion, encoding, input and sessions.
pub mod capture;
pub mod config;
pub mod convert;
pub mod doctor;
pub mod encoder;
pub mod input;
pub mod metadata;
pub mod netinfo;
pub mod pipeline;
pub mod png_out;
pub mod rtcp_forward;
pub mod session;
pub mod setup;
pub mod signalling;
pub mod testpattern;
