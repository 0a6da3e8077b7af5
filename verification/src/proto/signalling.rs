//! HTTP signalling types.
//!
//! The client sends `POST /offer` with a JSON [`SessionDescription`] (`{"type":"offer","sdp":...}`)
//! and receives the complete answer (all ICE candidates included, no trickle) in the same
//! format. The JSON layout is identical to the W3C `RTCSessionDescriptionInit` dictionary.
use vstd::prelude::*;

use crate::text;

verus! {

/// Path of the signalling endpoint on the server (`127.0.0.1:8080`).
pub const OFFER_PATH: &'static str = "/offer";

/// Liveness endpoint, answers `200 OK` with the body `vmdesk`.
pub const HEALTH_PATH: &'static str = "/health";

/// Body returned by [`HEALTH_PATH`].
pub const HEALTH_BODY: &'static str = "vmdesk";

/// Default signalling URL used by the client (reached through `ssh -L 8080:127.0.0.1:8080`).
pub const DEFAULT_SERVER_URL: &'static str = "http://127.0.0.1:8080";

#[derive(Debug, Clone, PartialEq, Eq)]
pub struct SessionDescription {
    /// `"offer"` or `"answer"`.
    pub kind: String,
    pub sdp: String,
}

impl SessionDescription {
    pub fn offer(sdp: String) -> (r: Self)
        ensures
            r.kind@ == "offer"@,
            r.sdp == sdp,
    {
        SessionDescription { kind: "offer".to_owned(), sdp }
    }

    pub fn answer(sdp: String) -> (r: Self)
        ensures
            r.kind@ == "answer"@,
            r.sdp == sdp,
    {
        SessionDescription { kind: "answer".to_owned(), sdp }
    }

    pub fn is_offer(&self) -> (r: bool)
        ensures
            r == (self.kind@ == "offer"@),
    {
        text::same_str(self.kind.as_str(), "offer")
    }
}

/// Error body returned by the server for a rejected offer.
#[derive(Debug, Clone, PartialEq, Eq)]
pub struct ErrorResponse {
    pub error: String,
}

} // verus!
