//! HTTP signalling on loopback: `POST /offer` → complete answer, `GET /health`.
//!
//! What is answered to an offer; the HTTP server around it only moves bytes.
use vstd::prelude::*;

use crate::proto::signalling::SessionDescription;
use crate::text;

verus! {

pub const STATUS_OK: u16 = 200;

pub const STATUS_BAD_REQUEST: u16 = 400;

pub const STATUS_INTERNAL_SERVER_ERROR: u16 = 500;

/// Why an offer leads to no session.
#[derive(Debug, PartialEq, Eq)]
pub enum SessionError {
    /// The offer is unusable (client bug): HTTP 400.
    BadOffer(String),
    /// Something failed on our side: HTTP 500.
    Internal(String),
}

impl SessionError {
    /// The message shown for the error.
    pub open spec fn message(self) -> Seq<char> {
        match self {
            SessionError::BadOffer(m) => "bad offer: "@ + m@,
            SessionError::Internal(m) => m@,
        }
    }

    /// The message shown for the error.
    pub fn to_string(&self) -> (r: String)
        ensures
            r@ == self.message(),
    {
        let mut out = String::new();
        match self {
            SessionError::BadOffer(m) => {
                out.append("bad offer: ");
                out.append(m.as_str());
            },
            SessionError::Internal(m) => {
                out.append(m.as_str());
            },
        }
        assert(out@ =~= self.message());
        out
    }
}

/// The body of a reply.
#[derive(Debug, PartialEq, Eq)]
pub enum ReplyBody {
    Answer(SessionDescription),
    Error(String),
}

/// What is answered to a request.
#[derive(Debug, PartialEq, Eq)]
pub struct Reply {
    pub status: u16,
    pub body: ReplyBody,
}

impl Reply {
    /// The reply is this answer.
    pub open spec fn answers(self, sdp: Seq<char>) -> bool {
        &&& self.status == STATUS_OK
        &&& self.body matches ReplyBody::Answer(d) && d.kind@ == "answer"@ && d.sdp@ == sdp
    }

    /// The reply is this error.
    pub open spec fn refuses(self, status: u16, message: Seq<char>) -> bool {
        &&& self.status == status
        &&& self.body matches ReplyBody::Error(e) && e@ == message
    }
}

/// Looks at the type of a description: one that is no offer is refused at once.
pub fn refuse_non_offer(desc: &SessionDescription) -> (r: Option<Reply>)
    ensures
        r is None <==> desc.kind@ == "offer"@,
        r matches Some(reply) ==> reply.refuses(
            STATUS_BAD_REQUEST,
            "expected type \"offer\", got \""@ + desc.kind@ + "\""@,
        ),
{
    if desc.is_offer() {
        return None;
    }
    let mut message = "expected type \"offer\", got \"".to_owned();
    message.append(desc.kind.as_str());
    message.append("\"");
    Some(Reply { status: STATUS_BAD_REQUEST, body: ReplyBody::Error(message) })
}

/// What is answered once an offer has been handled.
pub fn reply(result: Result<String, SessionError>) -> (r: Reply)
    ensures
        match result {
            Ok(sdp) => r.answers(sdp@),
            Err(SessionError::BadOffer(m)) => r.refuses(STATUS_BAD_REQUEST, m@),
            Err(SessionError::Internal(m)) => r.refuses(STATUS_INTERNAL_SERVER_ERROR, m@),
        },
{
    match result {
        Ok(sdp) => Reply {
            status: STATUS_OK,
            body: ReplyBody::Answer(SessionDescription::answer(sdp)),
        },
        Err(SessionError::BadOffer(m)) => Reply {
            status: STATUS_BAD_REQUEST,
            body: ReplyBody::Error(m),
        },
        Err(SessionError::Internal(m)) => Reply {
            status: STATUS_INTERNAL_SERVER_ERROR,
            body: ReplyBody::Error(m),
        },
    }
}

/// A session is answered with 200 and its answer, an unusable offer with 400, a failure of the
/// server with 500, each with its reason.
pub proof fn statuses_tell_whose_fault_it_was(result: Result<String, SessionError>, r: Reply)
    requires
        call_ensures(reply, (result,), r),
    ensures
        match result {
            Ok(sdp) => r.status == 200 && r.body is Answer && r.body->Answer_0.kind@ == "answer"@
                && r.body->Answer_0.sdp@ == sdp@,
            Err(SessionError::BadOffer(m)) => r.status == 400 && r.body is Error && r.body->Error_0@
                == m@,
            Err(SessionError::Internal(m)) => r.status == 500 && r.body is Error && r.body->Error_0@
                == m@,
        },
{
}

/// Anything but an offer is refused with 400 and named.
pub proof fn only_offers_are_taken(
    desc: crate::proto::signalling::SessionDescription,
    r: Option<Reply>,
)
    requires
        call_ensures(refuse_non_offer, (&desc,), r),
    ensures
        desc.kind@ == "offer"@ ==> r is None,
        desc.kind@ != "offer"@ ==> r is Some && r->0.status == 400 && r->0.body is Error
            && r->0.body->Error_0@ == "expected type \"offer\", got \""@ + desc.kind@ + "\""@,
{
}

/// An unusable offer is called one; a failure of the server speaks for itself.
pub proof fn unusable_offers_are_called_so(e: SessionError, r: String)
    requires
        call_ensures(SessionError::to_string, (&e,), r),
    ensures
        match e {
            SessionError::BadOffer(m) => r@ == "bad offer: "@ + m@,
            SessionError::Internal(m) => r@ == m@,
        },
{
}

} // verus!
