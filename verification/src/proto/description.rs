//! Session descriptions as the WebRTC stack takes them.
//!
//! The text of an offer or an answer has to be read by the stack's SDP parser before it can be
//! handed to a peer connection. What the parser makes of a text is named here.
use vstd::prelude::*;

use webrtc::peer_connection::RTCSessionDescription;

verus! {

/// A session description of the WebRTC stack: the text, whether it is an offer or an answer, and
/// what the parser read.
#[verifier::external_type_specification]
#[verifier::external_body]
pub struct ExRTCSessionDescription(RTCSessionDescription);

/// What the stack reads from the text of an offer: the description, or why there is none.
pub uninterp spec fn offer_read(sdp: Seq<char>) -> Result<RTCSessionDescription, Seq<char>>;

/// Reads the text of an offer.
///
/// This is `rtc`'s `RTCSessionDescription::offer`, which parses the text and keeps it; an error
/// is turned into its text. The result is named: it depends on the text alone.
#[verifier::external_body]
pub(crate) fn parse_offer(sdp: String) -> (r: Result<RTCSessionDescription, String>)
    ensures
        match r {
            Ok(d) => offer_read(sdp@) == Ok::<RTCSessionDescription, Seq<char>>(d),
            Err(e) => offer_read(sdp@) == Err::<RTCSessionDescription, Seq<char>>(e@),
        },
{
    RTCSessionDescription::offer(sdp).map_err(|e| e.to_string())
}

/// What the stack reads from the text of an answer: the description, or why there is none.
pub uninterp spec fn answer_read(sdp: Seq<char>) -> Result<RTCSessionDescription, Seq<char>>;

/// Reads the text of an answer.
///
/// This is `rtc`'s `RTCSessionDescription::answer`, which parses the text and keeps it; an error
/// is turned into its text. The result is named: it depends on the text alone.
#[verifier::external_body]
pub(crate) fn parse_answer(sdp: String) -> (r: Result<RTCSessionDescription, String>)
    ensures
        match r {
            Ok(d) => answer_read(sdp@) == Ok::<RTCSessionDescription, Seq<char>>(d),
            Err(e) => answer_read(sdp@) == Err::<RTCSessionDescription, Seq<char>>(e@),
        },
{
    RTCSessionDescription::answer(sdp).map_err(|e| e.to_string())
}

} // verus!
