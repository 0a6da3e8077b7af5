//! WebRTC session: one peer connection per client (a new offer replaces the previous client).
//!
//! * ICE-lite, host candidates only, one UDP port from the configured range per connection,
//!   bound on IPv4 and (when the VM has a global address) IPv6. The IPv4 sits behind OCI's 1:1
//!   NAT, so IPv4 host candidates are rewritten to the public address before the answer is
//!   returned (see [`crate::proto::sdp::rewrite_host_candidates`]); IPv6 candidates carry the
//!   interface's global address unless `network.public_ipv6` overrides it. The client's ICE
//!   agent then picks whichever path works.
//! * One H.264 video track fed by the encoder pipeline through [`Shared::sink`].
//! * Two data channels created by the client: `control` (reliable) and `mouse` (unreliable).
//! * PLI/FIR from the client force an IDR through [`Shared::force_keyframe`].
//!
//! This module holds what the sessions decide; the tasks around it move packets.
use vstd::prelude::*;

use webrtc::peer_connection::RTCSessionDescription;

use crate::proto::description;
use crate::proto::message::{ControlMessage, DecodeError, MouseMove};
use crate::proto::sdp;
use crate::proto::{CONTROL_CHANNEL, MOUSE_CHANNEL, PROTOCOL_VERSION};
use crate::server::config::Config;
use crate::server::input::InputEvent;
use crate::server::pipeline::Shared;
pub use crate::server::signalling::SessionError;
use crate::text;
use crate::Nanos;

verus! {

pub const MIME_TYPE_H264: &'static str = "video/H264";

pub const H264_FMTP: &'static str =
    "level-asymmetry-allowed=1;packetization-mode=1;profile-level-id=42e01f";

pub const H264_PAYLOAD_TYPE: u8 = 102;

/// How long candidates are gathered before the answer goes out with those there are.
pub const GATHER_TIMEOUT: Nanos = 5_000_000_000;

/// Replay window for SRTCP, in packets.
pub const SRTCP_REPLAY_WINDOW: usize = 1024;

/// Lowest bitrate that a client can ask for, in kbit/s.
pub const MIN_CLIENT_KBPS: u32 = 200;

/// Highest bitrate that a client can ask for, in kbit/s.
pub const MAX_CLIENT_KBPS: u32 = 100_000;

/// Longest time between two frames that the RTP timestamps show.
pub const MAX_FRAME_GAP: Nanos = 2_000_000_000;

// ------------------------------------------------------------------------------------------
// Addressing
// ------------------------------------------------------------------------------------------
/// Addressing facts gathered at startup.
#[derive(Debug, Clone, PartialEq, Eq)]
pub struct NetInfo {
    /// Public IPv4 from the config or the metadata service (may be filled in later).
    pub public_ipv4: Option<String>,
    /// `network.public_ipv6` override, if any.
    pub public_ipv6: Option<String>,
    /// Global IPv6 address found on an interface (None = the VM has no IPv6).
    pub local_ipv6: Option<u128>,
    /// `network.ipv6`.
    pub ipv6_enabled: bool,
}

impl NetInfo {
    /// What the configuration says, completed with what was found: the configured IPv4 goes
    /// before the detected one, and an empty address is none.
    pub fn for_config(config: &Config, detected: Option<String>, local: Option<u128>) -> (r: NetInfo)
        ensures
            text::opt_text(r.public_ipv4) == if config.network.public_ip@.len() > 0 {
                Some(config.network.public_ip@)
            } else {
                text::opt_text(detected)
            },
            text::opt_text(r.public_ipv6) == if config.network.public_ipv6@.len() > 0 {
                Some(config.network.public_ipv6@)
            } else {
                None
            },
            r.local_ipv6 == local,
            r.ipv6_enabled == config.network.ipv6,
    {
        NetInfo {
            public_ipv4: if config.network.public_ip.as_str().unicode_len() > 0 {
                Some(config.network.public_ip.clone())
            } else {
                detected
            },
            public_ipv6: if config.network.public_ipv6.as_str().unicode_len() > 0 {
                Some(config.network.public_ipv6.clone())
            } else {
                None
            },
            local_ipv6: local,
            ipv6_enabled: config.network.ipv6,
        }
    }

    /// Whether IPv6 takes part.
    pub open spec fn uses_ipv6(self) -> bool {
        self.ipv6_enabled && (self.local_ipv6 is Some || self.public_ipv6 is Some)
    }

    /// Whether to bind IPv6 sockets and advertise IPv6 candidates.
    pub fn use_ipv6(&self) -> (r: bool)
        ensures
            r == self.uses_ipv6(),
    {
        self.ipv6_enabled && (self.local_ipv6.is_some() || self.public_ipv6.is_some())
    }
}

/// `n`, but not below `min` and not above `max`.
pub open spec fn clamped(n: int, min: int, max: int) -> int {
    if n < min {
        min
    } else if n > max {
        max
    } else {
        n
    }
}

/// What is handed out to sessions: ports, numbers and the public address.
pub struct SessionManager {
    pub udp_port_min: u16,
    pub udp_port_max: u16,
    /// `network.public_ip`, empty if it is to be found out.
    pub configured_ipv4: String,
    pub net: NetInfo,
    /// The public IPv4 found out so far.
    pub public_ipv4: Option<String>,
    pub next_port: u16,
    pub next_session: u64,
}

/// The port that follows one in a range: the next one, after the last the first.
pub open spec fn following_port(port: u16, min: u16, max: u16) -> u16 {
    if port >= max {
        min
    } else {
        (port + 1) as u16
    }
}

impl SessionManager {
    pub fn new(
        udp_port_min: u16,
        udp_port_max: u16,
        configured_ipv4: String,
        net: NetInfo,
    ) -> (r: Self)
        ensures
            r.udp_port_min == udp_port_min,
            r.udp_port_max == udp_port_max,
            r.configured_ipv4 == configured_ipv4,
            r.net == net,
            text::opt_text(r.public_ipv4) == text::opt_text(net.public_ipv4),
            r.next_port == udp_port_min,
            r.next_session == 1,
    {
        let public_ipv4 = match &net.public_ipv4 {
            Some(ip) => Some(ip.clone()),
            None => None,
        };
        SessionManager {
            udp_port_min,
            udp_port_max,
            configured_ipv4,
            net,
            public_ipv4,
            next_port: udp_port_min,
            next_session: 1,
        }
    }

    /// The UDP port for a new connection, round-robin over the configured range.
    pub fn allocate_port(&mut self) -> (r: u16)
        requires
            old(self).udp_port_min <= old(self).udp_port_max,
        ensures
            r == clamped(
                old(self).next_port as int,
                old(self).udp_port_min as int,
                old(self).udp_port_max as int,
            ),
            *final(self) == (SessionManager {
                next_port: following_port(r, old(self).udp_port_min, old(self).udp_port_max),
                ..*old(self)
            }),
    {
        let (min, max) = (self.udp_port_min, self.udp_port_max);
        let port: u16 = if self.next_port < min {
            min
        } else if self.next_port > max {
            max
        } else {
            self.next_port
        };
        self.next_port = if port >= max {
            min
        } else {
            port + 1
        };
        port
    }

    /// The number for a new session.
    pub fn allocate_session_id(&mut self) -> (r: u64)
        requires
            old(self).next_session < u64::MAX,
        ensures
            r == old(self).next_session,
            *final(self) == (SessionManager { next_session: (r + 1) as u64, ..*old(self) }),
    {
        let id = self.next_session;
        self.next_session = id + 1;
        id
    }

    /// The public IPv4, as far as it is known: from the configuration, or found out before.
    pub open spec fn ipv4(self) -> Option<Seq<char>> {
        if self.configured_ipv4@.len() > 0 {
            Some(self.configured_ipv4@)
        } else {
            text::opt_text(self.public_ipv4)
        }
    }

    /// The public IPv4, as far as it is known. Where it is not, the metadata service is asked.
    pub fn known_ipv4(&self) -> (r: Option<String>)
        ensures
            text::opt_text(r) == self.ipv4(),
    {
        if !text::is_empty(self.configured_ipv4.as_str()) {
            return Some(self.configured_ipv4.clone());
        }
        match &self.public_ipv4 {
            Some(ip) => Some(ip.clone()),
            None => None,
        }
    }

    /// The metadata service has reported the public IPv4.
    pub fn on_ipv4_detected(&mut self, ip: String)
        ensures
            *final(self) == (SessionManager { public_ipv4: Some(ip), ..*old(self) }),
    {
        self.public_ipv4 = Some(ip);
    }

    /// The socket addresses of a connection on `port`.
    pub open spec fn sockets(self, port: u16) -> Seq<Seq<char>> {
        let v4 = "0.0.0.0:"@ + text::decimal(port as nat);
        let v6 = "[::]:"@ + text::decimal(port as nat);
        if self.net.uses_ipv6() {
            seq![v4, v6]
        } else {
            seq![v4]
        }
    }

    /// The socket addresses of a connection on `port`: IPv4, and IPv6 if it takes part.
    pub fn udp_addrs(&self, port: u16) -> (r: Vec<String>)
        ensures
            text::strings(r@) == self.sockets(port),
    {
        let mut v4 = "0.0.0.0:".to_owned();
        text::push_decimal(&mut v4, port as u64);
        let mut out = vec![v4];
        if self.net.use_ipv6() {
            let mut v6 = "[::]:".to_owned();
            text::push_decimal(&mut v6, port as u64);
            out.push(v6);
        }
        assert(text::strings(out@) =~= self.sockets(port));
        out
    }

    /// The addresses that host candidates are rewritten to.
    pub open spec fn advertised(self, public_ipv4: Option<Seq<char>>) -> sdp::Public {
        sdp::Public { ipv4: public_ipv4, ipv6: text::opt_text(self.net.public_ipv6) }
    }

    /// The answer for the client: the local description with the public addresses. Without a
    /// candidate there is none.
    pub fn finish_answer(&self, local: &str, port: u16, public_ipv4: Option<&str>) -> (r: Result<
        String,
        SessionError,
    >)
        ensures
            match r {
                Ok(answer) => sdp::lines(local@).filter(
                    |l: Seq<char>| sdp::candidate_line(l),
                ).len() > 0 && answer@ == sdp::rewritten_text(
                    local@,
                    self.advertised(text::opt_str(public_ipv4)),
                ),
                Err(e) => sdp::lines(local@).filter(
                    |l: Seq<char>| sdp::candidate_line(l),
                ).len() == 0 && (e matches SessionError::Internal(m) && m@
                    == "no ICE candidates gathered on UDP port "@ + text::decimal(port as nat)
                    + "; is the port free and does the VM have a non-loopback interface?"@),
            },
    {
        if sdp::candidate_count(local) == 0 {
            let mut m = "no ICE candidates gathered on UDP port ".to_owned();
            text::push_decimal(&mut m, port as u64);
            m.append("; is the port free and does the VM have a non-loopback interface?");
            return Err(SessionError::Internal(m));
        }
        let public_ipv6 = match &self.net.public_ipv6 {
            Some(ip) => Some(ip.as_str()),
            None => None,
        };
        Ok(sdp::rewrite_host_candidates(local, public_ipv4, public_ipv6))
    }
}

/// The port handed out in the `k`-th place (from 0) by a manager that starts at `min`.
pub open spec fn port_after(min: u16, max: u16, k: nat) -> u16
    decreases k,
{
    if k == 0 {
        min
    } else {
        following_port(port_after(min, max, (k - 1) as nat), min, max)
    }
}

/// Ports are handed out round-robin: the range from first to last, over and over. Every port
/// lies in the range, and a port comes again only after all others.
pub proof fn ports_go_round(min: u16, max: u16, k: nat)
    requires
        min <= max,
    ensures
        port_after(min, max, k) == min + k % ((max - min + 1) as nat),
        min <= port_after(min, max, k) <= max,
        clamped(port_after(min, max, k) as int, min as int, max as int) == port_after(min, max, k),
    decreases k,
{
    let n = (max - min + 1) as int;
    if k > 0 {
        ports_go_round(min, max, (k - 1) as nat);
        let j = (k - 1) as int;
        vstd::arithmetic::div_mod::lemma_mod_bound(j, n);
        vstd::arithmetic::div_mod::lemma_mod_bound(k as int, n);
        vstd::arithmetic::div_mod::lemma_fundamental_div_mod(j, n);
        if j % n == n - 1 {
            let q = j / n;
            assert(n * q + n == n * (q + 1)) by (nonlinear_arith);
            vstd::arithmetic::div_mod::lemma_fundamental_div_mod_converse(k as int, n, q + 1, 0);
        } else {
            let q = j / n;
            assert(n * q == q * n) by (nonlinear_arith);
            vstd::arithmetic::div_mod::lemma_fundamental_div_mod_converse(
                k as int,
                n,
                q,
                j % n + 1,
            );
        }
    }
}

// ------------------------------------------------------------------------------------------
// Offers
// ------------------------------------------------------------------------------------------
/// A description has a media section of a kind.
pub open spec fn offers(offer: Seq<char>, kind: Seq<char>) -> bool {
    exists|i: int|
        0 <= i < sdp::lines(offer).len() && sdp::media_prefix(kind).is_prefix_of(
            #[trigger] sdp::lines(offer)[i],
        )
}

/// Checks that an offer has what a session needs: video, and a data channel.
pub fn check_offer(offer: &str) -> (r: Result<(), SessionError>)
    ensures
        match r {
            Ok(_) => offers(offer@, "video"@) && offers(offer@, "application"@),
            Err(e) => e matches SessionError::BadOffer(m) && if !offers(offer@, "video"@) {
                m@ == "offer has no video media section"@
            } else {
                !offers(offer@, "application"@) && m@
                    == "offer has no data channel (application) media section"@
            },
        },
{
    if !sdp::has_media(offer, "video") {
        return Err(SessionError::BadOffer("offer has no video media section".to_owned()));
    }
    if !sdp::has_media(offer, "application") {
        return Err(
            SessionError::BadOffer(
                "offer has no data channel (application) media section".to_owned(),
            ),
        );
    }
    Ok(())
}

/// Where the negotiation behind a checked offer failed, with the reason.
#[derive(Debug, PartialEq, Eq)]
pub enum OfferFailure {
    /// The peer connection could not be made.
    Connect(String),
    /// The offer cannot be read.
    Unparseable(String),
    /// The peer connection refuses the offer.
    RemoteRefused(String),
    CreateAnswer(String),
    SetLocal(String),
    /// The peer connection ended while candidates were gathered.
    GatheringStopped,
    NoLocalDescription,
}

impl OfferFailure {
    /// Whether the offer is to blame.
    pub open spec fn blames_offer(self) -> bool {
        self is Unparseable || self is RemoteRefused
    }

    /// What is said of the failure.
    pub open spec fn reason(self) -> Seq<char> {
        match self {
            OfferFailure::Connect(e) => e@,
            OfferFailure::Unparseable(e) => "unparseable SDP: "@ + e@,
            OfferFailure::RemoteRefused(e) => "set_remote_description: "@ + e@,
            OfferFailure::CreateAnswer(e) => "create_answer: "@ + e@,
            OfferFailure::SetLocal(e) => "set_local_description: "@ + e@,
            OfferFailure::GatheringStopped => "peer connection driver stopped during gathering"@,
            OfferFailure::NoLocalDescription => "no local description after create_answer"@,
        }
    }

    /// The error that the failure is answered with: an unusable offer is the client's fault,
    /// everything behind it is ours.
    pub fn error(self) -> (r: SessionError)
        ensures
            match r {
                SessionError::BadOffer(m) => self.blames_offer() && m@ == self.reason(),
                SessionError::Internal(m) => !self.blames_offer() && m@ == self.reason(),
            },
    {
        match self {
            OfferFailure::Connect(e) => SessionError::Internal(e),
            OfferFailure::Unparseable(e) => SessionError::BadOffer(
                labelled("unparseable SDP: ", e.as_str()),
            ),
            OfferFailure::RemoteRefused(e) => SessionError::BadOffer(
                labelled("set_remote_description: ", e.as_str()),
            ),
            OfferFailure::CreateAnswer(e) => SessionError::Internal(
                labelled("create_answer: ", e.as_str()),
            ),
            OfferFailure::SetLocal(e) => SessionError::Internal(
                labelled("set_local_description: ", e.as_str()),
            ),
            OfferFailure::GatheringStopped => SessionError::Internal(
                "peer connection driver stopped during gathering".to_owned(),
            ),
            OfferFailure::NoLocalDescription => SessionError::Internal(
                "no local description after create_answer".to_owned(),
            ),
        }
    }
}

fn labelled(label: &str, text: &str) -> (r: String)
    ensures
        r@ == label@ + text@,
{
    let mut out = label.to_owned();
    out.append(text);
    out
}

/// Reads a checked offer. One that the WebRTC stack cannot read is unusable.
pub fn read_offer(sdp: String) -> (r: Result<RTCSessionDescription, SessionError>)
    ensures
        match r {
            Ok(d) => description::offer_read(sdp@) == Ok::<RTCSessionDescription, Seq<char>>(d),
            Err(e) => description::offer_read(sdp@) matches Err(fault) && e matches SessionError::BadOffer(
                m,
            ) && m@ == "unparseable SDP: "@ + fault,
        },
{
    match description::parse_offer(sdp) {
        Ok(d) => Ok(d),
        Err(e) => Err(OfferFailure::Unparseable(e).error()),
    }
}

/// What happens while candidates are gathered.
#[derive(Debug, Clone, Copy, PartialEq, Eq, Structural)]
pub enum GatherEvent {
    /// All candidates are there.
    Complete,
    /// Another gathering state.
    Progress,
    /// An event for the session.
    Session,
    /// The connection is gone.
    Stopped,
    /// [`GATHER_TIMEOUT`] has passed.
    TimedOut,
}

/// What to do about it.
#[derive(Debug, Clone, Copy, PartialEq, Eq, Structural)]
pub enum GatherStep {
    /// Go on with the candidates there are.
    Done,
    /// Wait on.
    Wait,
    /// Keep the event for the session and wait on.
    Keep,
    /// Give the offer up.
    Fail,
}

/// Non-trickle: the answer waits until every candidate is in the local description. Other
/// events that arrive meanwhile are kept for the session task.
pub fn gather(event: GatherEvent) -> (r: GatherStep)
    ensures
        r == match event {
            GatherEvent::Complete => GatherStep::Done,
            GatherEvent::Progress => GatherStep::Wait,
            GatherEvent::Session => GatherStep::Keep,
            GatherEvent::Stopped => GatherStep::Fail,
            GatherEvent::TimedOut => GatherStep::Done,
        },
{
    match event {
        GatherEvent::Complete => GatherStep::Done,
        GatherEvent::Progress => GatherStep::Wait,
        GatherEvent::Session => GatherStep::Keep,
        GatherEvent::Stopped => GatherStep::Fail,
        GatherEvent::TimedOut => GatherStep::Done,
    }
}

/// Only one client at a time: the previous one is cut off the pipeline before its connection
/// is closed.
pub fn replace_client<S>(shared: &mut Shared<S>)
    ensures
        *final(shared) == (Shared { client_connected: false, sink: None, ..*old(shared) }),
{
    shared.client_connected = false;
    shared.clear_sink();
}

/// The session owns the pipeline output from now on.
pub fn activate<S>(shared: &mut Shared<S>, session_id: u64)
    ensures
        *final(shared) == (Shared { active_session: session_id, ..*old(shared) }),
{
    shared.active_session = session_id;
}

/// Mixes a clock reading and a session number.
pub open spec fn mixed(nanos: u64, session_id: u64) -> u64 {
    let a = nanos ^ session_id.wrapping_mul(0x9E37_79B9_7F4A_7C15);
    let b = (a ^ (a >> 33u64)).wrapping_mul(0xFF51_AFD7_ED55_8CCD);
    b ^ (b >> 33u64)
}

/// The synchronisation source for a session: the low half of the mixed number, made odd, with 2
/// in place of 1. `nanos` is the wall clock.
pub fn pseudo_random_ssrc(nanos: u64, session_id: u64) -> (r: u32)
    ensures
        r == if (mixed(nanos, session_id) as u32) | 1 < 2 {
            2
        } else {
            (mixed(nanos, session_id) as u32) | 1
        },
        r >= 2,
{
    let a: u64 = nanos ^ session_id.wrapping_mul(0x9E37_79B9_7F4A_7C15);
    let b: u64 = (a ^ (a >> 33u64)).wrapping_mul(0xFF51_AFD7_ED55_8CCD);
    let x: u64 = b ^ (b >> 33u64);
    let low: u32 = #[verifier::truncate] (x as u32);
    let odd: u32 = low | 1;
    if odd < 2 {
        2
    } else {
        odd
    }
}

// ------------------------------------------------------------------------------------------
// The session
// ------------------------------------------------------------------------------------------
/// State of a peer connection.
#[derive(Debug, Clone, Copy, PartialEq, Eq, Structural)]
pub enum PeerState {
    Connected,
    Disconnected,
    Failed,
    Closed,
    /// Not connected yet.
    Other,
}

/// What a session does when its connection changes state.
#[derive(Debug, Clone, Copy, PartialEq, Eq, Structural)]
pub enum SessionStep {
    /// The client is there: video flows.
    Streaming,
    /// Release what is held down: the client may be unreachable, but may come back.
    ReleaseInput,
    /// The session is over.
    End,
    Nothing,
}

/// The pipeline serves a session that is connected: at the configured bitrate, into its sink,
/// starting with a keyframe.
pub open spec fn serving<S>(shared: Shared<S>, bitrate_kbps: u32, sink: S) -> Shared<S> {
    Shared {
        bitrate_kbps,
        sink: Some(sink),
        force_keyframe: true,
        client_connected: true,
        ..shared
    }
}

/// A connection has changed state. Only the active session can take the pipeline over; one that
/// has been replaced ends.
pub fn on_peer_state<S>(
    shared: &mut Shared<S>,
    session_id: u64,
    state: PeerState,
    bitrate_kbps: u32,
    sink: S,
) -> (r: SessionStep)
    ensures
        state is Connected && old(shared).active_session == session_id ==> r
            == SessionStep::Streaming && *final(shared) == serving(*old(shared), bitrate_kbps, sink),
        state is Connected && old(shared).active_session != session_id ==> r == SessionStep::End
            && *final(shared) == *old(shared),
        state !is Connected ==> *final(shared) == *old(shared) && r == match state {
            PeerState::Disconnected => SessionStep::ReleaseInput,
            PeerState::Failed => SessionStep::End,
            PeerState::Closed => SessionStep::End,
            _ => SessionStep::Nothing,
        },
{
    match state {
        PeerState::Connected => {
            if shared.active_session != session_id {
                return SessionStep::End;
            }
            shared.bitrate_kbps = bitrate_kbps;
            shared.install_sink(sink);
            shared.force_keyframe = true;
            shared.client_connected = true;
            SessionStep::Streaming
        },
        PeerState::Disconnected => SessionStep::ReleaseInput,
        PeerState::Failed => SessionStep::End,
        PeerState::Closed => SessionStep::End,
        PeerState::Other => SessionStep::Nothing,
    }
}

/// Ends a session, unless a newer one has taken over already. True if it was the active one:
/// then what is held down is released too.
pub fn tear_down<S>(shared: &mut Shared<S>, session_id: u64) -> (r: bool)
    ensures
        r == (old(shared).active_session == session_id),
        *final(shared) == if r {
            Shared { client_connected: false, sink: None, ..*old(shared) }
        } else {
            *old(shared)
        },
{
    if shared.active_session != session_id {
        return false;
    }
    shared.client_connected = false;
    shared.clear_sink();
    true
}

/// The line that is logged when a session ends.
pub fn end_text(session_id: u64, connected: bool) -> (r: String)
    ensures
        r@ == "session "@ + text::decimal(session_id as nat) + " ended"@ + if connected {
            Seq::empty()
        } else {
            " (never connected)"@
        },
{
    let mut out = "session ".to_owned();
    text::push_decimal(&mut out, session_id);
    out.append(" ended");
    let ghost before = out@;
    if !connected {
        out.append(" (never connected)");
    }
    assert(before + Seq::<char>::empty() =~= before);
    out
}

/// `"IPv6: local [..]:p <-> remote [..]:p"`.
pub open spec fn path_shown(
    local: Seq<char>,
    local_port: u16,
    remote: Seq<char>,
    remote_port: u16,
) -> Seq<char> {
    (if sdp::is_ipv6(remote) {
        "IPv6"@
    } else {
        "IPv4"@
    }) + ": local "@ + sdp::endpoint_text(local, local_port) + " <-> remote "@
        + sdp::endpoint_text(remote, remote_port)
}

/// `"IPv6: local [..]:p <-> remote [..]:p"` for the nominated candidate pair.
pub fn path_text(local: &str, local_port: u16, remote: &str, remote_port: u16) -> (r: String)
    ensures
        r@ == path_shown(local@, local_port, remote@, remote_port),
{
    let mut out = sdp::address_family(remote).to_owned();
    out.append(": local ");
    let a = sdp::format_endpoint(local, local_port);
    out.append(a.as_str());
    out.append(" <-> remote ");
    let b = sdp::format_endpoint(remote, remote_port);
    out.append(b.as_str());
    assert(out@ =~= path_shown(local@, local_port, remote@, remote_port));
    out
}

// ------------------------------------------------------------------------------------------
// Frames
// ------------------------------------------------------------------------------------------
/// Nominal time per frame, in whole microseconds.
pub fn nominal_duration(fps: u32) -> (r: Nanos)
    ensures
        r == 1_000_000int / (if fps == 0 {
            1int
        } else {
            fps as int
        }) * 1000,
        r <= 1_000_000_000,
{
    let fps: u64 = if fps == 0 {
        1
    } else {
        fps as u64
    };
    let micros: u64 = 1_000_000 / fps;
    assert(micros <= 1_000_000) by (nonlinear_arith)
        requires
            fps >= 1,
            micros == 1_000_000u64 / fps,
    ;
    micros * 1000
}

/// Time that a frame stands for, from its presentation time and that of the one before.
pub open spec fn time_of_frame(last_pts_ms: Option<u64>, pts_ms: u64, nominal: Nanos) -> int {
    match last_pts_ms {
        Some(prev) if pts_ms > prev => if (pts_ms - prev) * 1_000_000 < MAX_FRAME_GAP {
            (pts_ms - prev) * 1_000_000
        } else {
            MAX_FRAME_GAP as int
        },
        _ => nominal as int,
    }
}

/// Spaces the frames of a session.
#[derive(Debug, Clone, Copy, PartialEq, Eq, Structural)]
pub struct FrameClock {
    pub nominal: Nanos,
    pub last_pts_ms: Option<u64>,
}

impl FrameClock {
    pub fn new(nominal: Nanos) -> (r: Self)
        ensures
            r == (FrameClock { nominal, last_pts_ms: None }),
    {
        FrameClock { nominal, last_pts_ms: None }
    }

    /// Real time between frames (static content is not re-encoded every tick), bounded so a
    /// long pause does not produce a huge RTP timestamp jump.
    pub fn next(&mut self, pts_ms: u64) -> (r: Nanos)
        ensures
            r == time_of_frame(old(self).last_pts_ms, pts_ms, old(self).nominal),
            *final(self) == (FrameClock { last_pts_ms: Some(pts_ms), ..*old(self) }),
    {
        let duration: u64 = match self.last_pts_ms {
            Some(prev) if pts_ms > prev => {
                let gap: u64 = pts_ms - prev;
                if gap < 2000 {
                    gap * 1_000_000
                } else {
                    MAX_FRAME_GAP
                }
            },
            _ => self.nominal,
        };
        self.last_pts_ms = Some(pts_ms);
        duration
    }
}

/// Time never stands still between frames, and never jumps by more than two seconds.
pub proof fn frame_time_is_bounded(last_pts_ms: Option<u64>, pts_ms: u64, nominal: Nanos)
    requires
        0 < nominal <= MAX_FRAME_GAP,
    ensures
        0 < time_of_frame(last_pts_ms, pts_ms, nominal) <= MAX_FRAME_GAP,
{
}

// ------------------------------------------------------------------------------------------
// Data channels
// ------------------------------------------------------------------------------------------
/// The data channels of a session.
#[derive(Debug, Clone, Copy, PartialEq, Eq, Structural)]
pub enum Channel {
    Control,
    Mouse,
}

/// The channel with a label; another one is ignored.
pub fn channel(label: &str) -> (r: Option<Channel>)
    ensures
        r == if label@ == CONTROL_CHANNEL@ {
            Some(Channel::Control)
        } else if label@ == MOUSE_CHANNEL@ {
            Some(Channel::Mouse)
        } else {
            None
        },
{
    if text::same_str(label, CONTROL_CHANNEL) {
        Some(Channel::Control)
    } else if text::same_str(label, MOUSE_CHANNEL) {
        Some(Channel::Mouse)
    } else {
        None
    }
}

/// What a message of the client leads to.
#[derive(Debug, Clone, Copy, PartialEq, Eq, Structural)]
pub enum MessageStep {
    /// Nothing: the session is not the active one any more.
    Ignore,
    /// The client introduced itself; `same` if it speaks our version.
    Hello { version: u16, same: bool },
    /// The bitrate has been set, in kbit/s.
    Bitrate(u32),
    /// An event for the input sink.
    Input(InputEvent),
    /// The message cannot be read.
    Bad(DecodeError),
}

/// What a message leads to in the active session.
pub open spec fn step_of(channel: Channel, data: Seq<u8>) -> MessageStep {
    match channel {
        Channel::Control => match ControlMessage::decoded(data) {
            Ok(ControlMessage::Hello { version }) => MessageStep::Hello {
                version,
                same: version == PROTOCOL_VERSION,
            },
            Ok(ControlMessage::SetBitrate { kbps }) => MessageStep::Bitrate(
                clamped(kbps as int, MIN_CLIENT_KBPS as int, MAX_CLIENT_KBPS as int) as u32,
            ),
            Ok(m) => MessageStep::Input(InputEvent::Control(m)),
            Err(e) => MessageStep::Bad(e),
        },
        Channel::Mouse => match MouseMove::decoded(data) {
            Ok(m) => MessageStep::Input(InputEvent::Mouse(m)),
            Err(e) => MessageStep::Bad(e),
        },
    }
}

/// A message has come in on a data channel. Messages of a session that has been replaced are
/// ignored. A bitrate that is asked for is brought into range and set.
pub fn on_message<S>(shared: &mut Shared<S>, session_id: u64, channel: Channel, data: &[u8]) -> (r:
    MessageStep)
    ensures
        old(shared).active_session != session_id ==> r == MessageStep::Ignore && *final(shared)
            == *old(shared),
        old(shared).active_session == session_id ==> r == step_of(channel, data@),
        *final(shared) == match r {
            MessageStep::Bitrate(kbps) => Shared { bitrate_kbps: kbps, ..*old(shared) },
            _ => *old(shared),
        },
{
    if shared.active_session != session_id {
        return MessageStep::Ignore;
    }
    match channel {
        Channel::Control => match ControlMessage::decode(data) {
            Ok(ControlMessage::Hello { version }) => MessageStep::Hello {
                version,
                same: version == PROTOCOL_VERSION,
            },
            Ok(ControlMessage::SetBitrate { kbps }) => {
                let kbps: u32 = if kbps < MIN_CLIENT_KBPS {
                    MIN_CLIENT_KBPS
                } else if kbps > MAX_CLIENT_KBPS {
                    MAX_CLIENT_KBPS
                } else {
                    kbps
                };
                shared.bitrate_kbps = kbps;
                MessageStep::Bitrate(kbps)
            },
            Ok(m) => MessageStep::Input(InputEvent::Control(m)),
            Err(e) => MessageStep::Bad(e),
        },
        Channel::Mouse => match MouseMove::decode(data) {
            Ok(m) => MessageStep::Input(InputEvent::Mouse(m)),
            Err(e) => MessageStep::Bad(e),
        },
    }
}

/// What the client encodes is what the server does: an input message sent on its own channel
/// reaches the input sink as it was.
pub proof fn input_arrives_as_sent(m: ControlMessage, mouse: MouseMove)
    ensures
        m !is Hello && m !is SetBitrate ==> step_of(Channel::Control, m.bytes())
            == MessageStep::Input(InputEvent::Control(m)),
        step_of(Channel::Mouse, mouse.bytes()) == MessageStep::Input(InputEvent::Mouse(mouse)),
        m matches ControlMessage::SetBitrate { kbps } ==> step_of(Channel::Control, m.bytes())
            == MessageStep::Bitrate(
            clamped(kbps as int, MIN_CLIENT_KBPS as int, MAX_CLIENT_KBPS as int) as u32,
        ),
{
    crate::proto::message::control_message_round_trips(m);
    crate::proto::message::mouse_move_round_trips(mouse);
}

/// Every host candidate of the local description has one in the answer, on the same transport and
/// port: at the configured IPv6 address or the given IPv4 address, whichever is of its family,
/// and at its own where that is not known. The answer has no other host candidates.
pub proof fn answer_stands_at_the_public_addresses(
    m: SessionManager,
    local: &str,
    port: u16,
    public_ipv4: Option<&str>,
    answer: String,
)
    requires
        call_ensures(
            SessionManager::finish_answer,
            (&m, local, port, public_ipv4),
            Ok::<String, SessionError>(answer),
        ),
        public_ipv4 matches Some(a) ==> text::is_word(a@),
        m.net.public_ipv6 matches Some(a) ==> text::is_word(a@),
    ensures
        forall|i: int|
            0 <= i < sdp::hosts(sdp::all_lines(local@)).len() ==> exists|j: int|
                0 <= j < sdp::hosts(sdp::all_lines(answer@)).len() && takes_the_place(
                    #[trigger] sdp::hosts(sdp::all_lines(answer@))[j],
                    #[trigger] sdp::hosts(sdp::all_lines(local@))[i],
                    public_ipv4,
                    m.net.public_ipv6,
                ),
        forall|j: int|
            0 <= j < sdp::hosts(sdp::all_lines(answer@)).len() ==> exists|i: int|
                0 <= i < sdp::hosts(sdp::all_lines(local@)).len() && takes_the_place(
                    #[trigger] sdp::hosts(sdp::all_lines(answer@))[j],
                    #[trigger] sdp::hosts(sdp::all_lines(local@))[i],
                    public_ipv4,
                    m.net.public_ipv6,
                ),
{
    let to = m.advertised(text::opt_str(public_ipv4));
    let before = sdp::hosts(sdp::all_lines(local@));
    let moved = sdp::moved(before, to);
    let after = sdp::hosts(sdp::all_lines(answer@));
    sdp::rewritten_text_reads_back(local@, to);
    sdp::repeats_are_left_out(moved);
    assert(after == sdp::without_repeats(moved));
    assert forall|i: int| 0 <= i < before.len() implies exists|j: int|
        0 <= j < after.len() && takes_the_place(
            #[trigger] after[j],
            #[trigger] before[i],
            public_ipv4,
            m.net.public_ipv6,
        ) by {
        assert(moved[i].address == to.replacement(before[i].address));
        let j = choose|j: int| 0 <= j < after.len() && sdp::same_host(#[trigger] after[j], moved[i]);
        assert(takes_the_place(after[j], before[i], public_ipv4, m.net.public_ipv6));
    }
    assert forall|j: int| 0 <= j < after.len() implies exists|i: int|
        0 <= i < before.len() && takes_the_place(
            #[trigger] after[j],
            #[trigger] before[i],
            public_ipv4,
            m.net.public_ipv6,
        ) by {
        assert(moved.contains(sdp::without_repeats(moved)[j]));
        let i = choose|i: int| 0 <= i < moved.len() && moved[i] == after[j];
        assert(moved[i].address == to.replacement(before[i].address));
        assert(takes_the_place(after[j], before[i], public_ipv4, m.net.public_ipv6));
    }
}

/// `new` is `old_one` at the public address of its family, a colon telling IPv6 from IPv4.
pub open spec fn takes_the_place(
    new: sdp::CandidateText,
    old_one: sdp::CandidateText,
    public_ipv4: Option<&str>,
    public_ipv6: Option<String>,
) -> bool {
    &&& text::lower(new.transport) == text::lower(old_one.transport)
    &&& new.port == old_one.port
    &&& old_one.address.contains(':') ==> match public_ipv6 {
        Some(a) => new.address == a@,
        None => new.address == old_one.address,
    }
    &&& !old_one.address.contains(':') ==> match public_ipv4 {
        Some(a) => new.address == a@,
        None => new.address == old_one.address,
    }
}

/// IPv6 takes part if it is switched on and there is an address for it, found or configured.
pub proof fn ipv6_needs_the_switch_and_an_address(net: NetInfo, r: bool)
    requires
        call_ensures(NetInfo::use_ipv6, (&net,), r),
    ensures
        !net.ipv6_enabled ==> !r,
        net.local_ipv6 is None && net.public_ipv6 is None ==> !r,
        net.ipv6_enabled && net.local_ipv6 is Some ==> r,
        net.ipv6_enabled && net.public_ipv6 is Some ==> r,
{
}

/// A connection always has an IPv4 socket, first, and an IPv6 socket exactly if IPv6 takes part,
/// both on the port of the connection.
pub proof fn sockets_are_on_the_port(m: SessionManager, port: u16, addrs: Vec<String>, ipv6: bool)
    requires
        call_ensures(SessionManager::udp_addrs, (&m, port), addrs),
        call_ensures(NetInfo::use_ipv6, (&m.net,), ipv6),
    ensures
        addrs@.len() == if ipv6 {
            2int
        } else {
            1
        },
        addrs@[0]@ == "0.0.0.0:"@ + text::decimal(port as nat),
        ipv6 ==> addrs@[1]@ == "[::]:"@ + text::decimal(port as nat),
{
    let all = text::strings(addrs@);
    assert(all == m.sockets(port));
    assert(all[0] == addrs@[0]@);
    if ipv6 {
        assert(all[1] == addrs@[1]@);
    }
}

/// A configured IPv4 goes before one that was found out.
pub proof fn configured_ipv4_goes_first(m: SessionManager, r: Option<String>)
    requires
        call_ensures(SessionManager::known_ipv4, (&m,), r),
    ensures
        m.configured_ipv4@.len() > 0 ==> r is Some && r->0@ == m.configured_ipv4@,
        m.configured_ipv4@.len() == 0 ==> (r is Some <==> m.public_ipv4 is Some),
        m.configured_ipv4@.len() == 0 && r is Some ==> r->0@ == m.public_ipv4->0@,
{
}

/// A number that is brought into range lies in it, stays if it lay there, and else goes to the
/// end that is nearer.
pub proof fn clamped_is_the_nearest_in_range(n: int, min: int, max: int)
    requires
        min <= max,
    ensures
        min <= clamped(n, min, max) <= max,
        min <= n <= max ==> clamped(n, min, max) == n,
        n < min ==> clamped(n, min, max) == min,
        n > max ==> clamped(n, min, max) == max,
{
}

/// The client is told that its offer is at fault exactly if it cannot be read or is refused; all
/// other failures are the server's.
pub proof fn only_the_offer_is_blamed(failure: OfferFailure, e: SessionError)
    requires
        call_ensures(OfferFailure::error, (failure,), e),
    ensures
        e is BadOffer <==> failure is Unparseable || failure is RemoteRefused,
        ({
            let said = match e {
                SessionError::BadOffer(m) => m@,
                SessionError::Internal(m) => m@,
            };
            match failure {
                OfferFailure::Connect(why) => said == why@,
                OfferFailure::Unparseable(why) => said == "unparseable SDP: "@ + why@,
                OfferFailure::RemoteRefused(why) => said == "set_remote_description: "@ + why@,
                OfferFailure::CreateAnswer(why) => said == "create_answer: "@ + why@,
                OfferFailure::SetLocal(why) => said == "set_local_description: "@ + why@,
                OfferFailure::GatheringStopped => said
                    == "peer connection driver stopped during gathering"@,
                OfferFailure::NoLocalDescription => said
                    == "no local description after create_answer"@,
            }
        }),
{
}

/// A session that is connected gets the stream: its bitrate and its sink are in place, the next
/// frame is a keyframe, and nothing else changes.
pub proof fn serving_puts_the_session_in_place<S>(shared: Shared<S>, bitrate_kbps: u32, sink: S)
    ensures
        ({
            let r = serving(shared, bitrate_kbps, sink);
            &&& r.bitrate_kbps == bitrate_kbps
            &&& r.sink == Some(sink)
            &&& r.force_keyframe
            &&& r.client_connected
            &&& r.active_session == shared.active_session
            &&& r.frames_encoded == shared.frames_encoded
            &&& r.bytes_encoded == shared.bytes_encoded
        }),
{
}

/// A frame stands for the time since the one before, for two seconds if that is longer, and for
/// the nominal time if there is none before or time has not gone on.
pub proof fn frame_stands_for_the_time_passed(last: u64, pts_ms: u64, nominal: Nanos)
    ensures
        last < pts_ms <= last + 2000 ==> time_of_frame(Some(last), pts_ms, nominal) == (pts_ms
            - last) * 1_000_000,
        pts_ms > last + 2000 ==> time_of_frame(Some(last), pts_ms, nominal) == 2_000_000_000,
        pts_ms <= last ==> time_of_frame(Some(last), pts_ms, nominal) == nominal,
        time_of_frame(None, pts_ms, nominal) == nominal,
{
}

/// A bitrate that is asked for is set as it is between 200 kbit/s and 100 Mbit/s, and else to
/// the nearer of the two; a greeting tells whether the versions agree.
pub proof fn client_settings_are_honoured(kbps: u32, version: u16)
    ensures
        step_of(Channel::Control, (ControlMessage::SetBitrate { kbps }).bytes())
            == MessageStep::Bitrate(
            if kbps < 200 {
                200
            } else if kbps > 100_000 {
                100_000
            } else {
                kbps
            },
        ),
        step_of(Channel::Control, (ControlMessage::Hello { version }).bytes())
            == (MessageStep::Hello { version, same: version == PROTOCOL_VERSION }),
{
    crate::proto::message::control_message_round_trips(ControlMessage::SetBitrate { kbps });
    crate::proto::message::control_message_round_trips(ControlMessage::Hello { version });
}

/// Multiplying by an odd number can be undone.
proof fn lemma_times_is_injective(x: u64, y: u64, c: u64, inverse: u64, q: int)
    requires
        c * inverse == 1 + q * 0x1_0000_0000_0000_0000,
        x.wrapping_mul(c) == y.wrapping_mul(c),
    ensures
        x == y,
{
    let m: int = 0x1_0000_0000_0000_0000;
    let (a, b) = (x as int, y as int);
    assert((a * c) % m == (b * c) % m);
    vstd::arithmetic::div_mod::lemma_mul_mod_noop_left(a * c, inverse as int, m);
    vstd::arithmetic::div_mod::lemma_mul_mod_noop_left(b * c, inverse as int, m);
    assert((a * c * inverse) % m == (b * c * inverse) % m);
    assert(a * c * inverse == m * (a * q) + a) by (nonlinear_arith)
        requires
            c * inverse == 1 + q * m,
    ;
    assert(b * c * inverse == m * (b * q) + b) by (nonlinear_arith)
        requires
            c * inverse == 1 + q * m,
    ;
    vstd::arithmetic::div_mod::lemma_mod_multiples_vanish(a * q, a, m);
    vstd::arithmetic::div_mod::lemma_mod_multiples_vanish(b * q, b, m);
}

proof fn lemma_mixed(a: u64, b: u64)
    requires
        ({
            let p = (a ^ (a >> 33u64)).wrapping_mul(0xFF51_AFD7_ED55_8CCD);
            let q = (b ^ (b >> 33u64)).wrapping_mul(0xFF51_AFD7_ED55_8CCD);
            p ^ (p >> 33u64) == q ^ (q >> 33u64)
        }),
    ensures
        a == b,
{
    let p = (a ^ (a >> 33u64)).wrapping_mul(0xFF51_AFD7_ED55_8CCD);
    let q = (b ^ (b >> 33u64)).wrapping_mul(0xFF51_AFD7_ED55_8CCD);
    assert(p == q) by (bit_vector)
        requires
            p ^ (p >> 33u64) == q ^ (q >> 33u64),
    ;
    lemma_times_is_injective(
        a ^ (a >> 33u64),
        b ^ (b >> 33u64),
        0xFF51_AFD7_ED55_8CCD,
        0x4f74_430c_22a5_4005,
        5710046619856821070,
    );
    assert(a == b) by (bit_vector)
        requires
            a ^ (a >> 33u64) == b ^ (b >> 33u64),
    ;
}

/// Mixing loses nothing: two sessions at one time never mix alike, and neither do two times of
/// one session.
pub proof fn mixing_tells_sessions_and_times_apart(nanos: u64, session: u64, t: u64, n: u64)
    ensures
        mixed(nanos, session) == mixed(nanos, n) ==> session == n,
        mixed(nanos, session) == mixed(t, session) ==> nanos == t,
{
    let c = 0x9E37_79B9_7F4A_7C15u64;
    if mixed(nanos, session) == mixed(nanos, n) {
        let (x, y) = (session.wrapping_mul(c), n.wrapping_mul(c));
        lemma_mixed(nanos ^ x, nanos ^ y);
        assert(x == y) by (bit_vector)
            requires
                nanos ^ x == nanos ^ y,
        ;
        lemma_times_is_injective(session, n, c, 0xf1de_83e1_9937_733d, 10771413168148108919);
    }
    if mixed(nanos, session) == mixed(t, session) {
        let x = session.wrapping_mul(c);
        lemma_mixed(nanos ^ x, t ^ x);
        assert(nanos == t) by (bit_vector)
            requires
                nanos ^ x == t ^ x,
        ;
    }
}

/// Ports are handed out one after the other, from the first to the last and then from the first
/// again.
pub proof fn next_port_follows(m: &mut SessionManager, n: &mut SessionManager, a: u16, b: u16)
    requires
        old(m).udp_port_min <= old(m).udp_port_max,
        call_ensures(SessionManager::allocate_port, (m,), a),
        *old(n) == *final(m),
        call_ensures(SessionManager::allocate_port, (n,), b),
    ensures
        old(m).udp_port_min <= a <= old(m).udp_port_max,
        a < old(m).udp_port_max ==> b == a + 1,
        a == old(m).udp_port_max ==> b == old(m).udp_port_min,
        old(m).udp_port_min <= old(m).next_port <= old(m).udp_port_max ==> a == old(m).next_port,
{
}

/// No two sessions get the same number.
pub proof fn session_numbers_rise(m: &mut SessionManager, n: &mut SessionManager, a: u64, b: u64)
    requires
        call_ensures(SessionManager::allocate_session_id, (m,), a),
        old(m).next_session < u64::MAX - 1,
        *old(n) == *final(m),
        call_ensures(SessionManager::allocate_session_id, (n,), b),
    ensures
        a == old(m).next_session,
        b == a + 1,
{
}

/// A session that has been replaced can neither take the stream over, nor end it, nor have its
/// messages heard.
pub proof fn replaced_session_changes_nothing<S>(
    x: &mut Shared<S>,
    y: &mut Shared<S>,
    z: &mut Shared<S>,
    id: u64,
    state: PeerState,
    kbps: u32,
    sink: S,
    channel: Channel,
    data: &[u8],
    step: SessionStep,
    torn: bool,
    heard: MessageStep,
)
    requires
        old(x).active_session != id,
        old(y).active_session != id,
        old(z).active_session != id,
        call_ensures(on_peer_state::<S>, (x, id, state, kbps, sink), step),
        call_ensures(tear_down::<S>, (y, id), torn),
        call_ensures(on_message::<S>, (z, id, channel, data), heard),
    ensures
        *final(x) == *old(x),
        state is Connected ==> step is End,
        *final(y) == *old(y),
        !torn,
        *final(z) == *old(z),
        heard is Ignore,
{
}

/// The active session gets the stream when it connects, keeps it while the connection may come
/// back, and ends when it fails or is closed; its end cuts the stream off.
pub proof fn active_session_has_the_stream<S>(
    x: &mut Shared<S>,
    y: &mut Shared<S>,
    id: u64,
    state: PeerState,
    kbps: u32,
    sink: S,
    step: SessionStep,
    torn: bool,
)
    requires
        old(x).active_session == id,
        old(y).active_session == id,
        call_ensures(on_peer_state::<S>, (x, id, state, kbps, sink), step),
        call_ensures(tear_down::<S>, (y, id), torn),
    ensures
        step is Streaming <==> state is Connected,
        step is ReleaseInput <==> state is Disconnected,
        step is End <==> state is Failed || state is Closed,
        state is Connected ==> final(x).sink == Some(sink) && final(x).client_connected
            && final(x).force_keyframe && final(x).bitrate_kbps == kbps,
        state !is Connected ==> *final(x) == *old(x),
        torn,
        final(y).sink is None,
        !final(y).client_connected,
        final(y).active_session == id,
{
}

/// An offer waits for all candidates, goes out with those there are when time is up, and is given
/// up when the connection is gone; what the session needs later is kept.
pub proof fn gathering_ends_with_candidates(event: GatherEvent, r: GatherStep)
    requires
        call_ensures(gather, (event,), r),
    ensures
        r is Done <==> event is Complete || event is TimedOut,
        r is Fail <==> event is Stopped,
        r is Keep <==> event is Session,
        r is Wait <==> event is Progress,
{
}

/// Two frames are as far apart as their presentation times, in nanoseconds.
pub proof fn frames_are_spaced_by_their_times(
    c: &mut FrameClock,
    d: &mut FrameClock,
    first: u64,
    second: u64,
    a: Nanos,
    b: Nanos,
)
    requires
        call_ensures(FrameClock::next, (c, first), a),
        *old(d) == *final(c),
        call_ensures(FrameClock::next, (d, second), b),
    ensures
        first < second <= first + 2000 ==> b == (second - first) * 1_000_000,
        second > first + 2000 ==> b == 2_000_000_000,
        second <= first ==> b == old(c).nominal,
        old(c).last_pts_ms is None ==> a == old(c).nominal,
{
}

/// The nominal time is a whole number of microseconds, the largest with which as many frames as
/// the rate says fit into a second.
pub proof fn nominal_frames_fit_into_a_second(fps: u32, r: Nanos)
    requires
        call_ensures(nominal_duration, (fps,), r),
        fps > 0,
    ensures
        r % 1000 == 0,
        r * fps <= 1_000_000_000 < (r + 1000) * fps,
{
    let q = 1_000_000int / (fps as int);
    vstd::arithmetic::div_mod::lemma_fundamental_div_mod(1_000_000, fps as int);
    vstd::arithmetic::div_mod::lemma_mod_bound(1_000_000, fps as int);
    assert(r == q * 1000);
    assert((q * 1000) * fps == 1000 * (fps * q)) by (nonlinear_arith);
    assert((q * 1000 + 1000) * fps == 1000 * (fps * q) + 1000 * fps) by (nonlinear_arith);
}

/// The two channels go by their labels, and no other label is a channel.
pub proof fn channels_go_by_their_labels(label: &str, r: Option<Channel>)
    requires
        call_ensures(channel, (label,), r),
    ensures
        r == Some(Channel::Control) <==> label@ == "control"@,
        r == Some(Channel::Mouse) <==> label@ == "mouse"@,
{
    reveal_strlit("control");
    reveal_strlit("mouse");
    assert("control"@.len() != "mouse"@.len());
}

/// An offer needs a section for video and one for data; the video is missed first.
pub proof fn offers_need_video_and_data(offer: &str, r: Result<(), SessionError>, i: int, j: int)
    requires
        call_ensures(check_offer, (offer,), r),
        0 <= i < sdp::lines(offer@).len(),
        0 <= j < sdp::lines(offer@).len(),
        "m=video "@.is_prefix_of(sdp::lines(offer@)[i]),
        "m=application "@.is_prefix_of(sdp::lines(offer@)[j]),
    ensures
        r is Ok,
{
    reveal_strlit("m=");
    reveal_strlit("video");
    reveal_strlit("application");
    reveal_strlit(" ");
    reveal_strlit("m=video ");
    reveal_strlit("m=application ");
    assert(sdp::media_prefix("video"@) =~= "m=video "@);
    assert(sdp::media_prefix("application"@) =~= "m=application "@);
}

/// The log tells both ends of the path apart, and its family by the remote end.
pub proof fn path_names_both_ends(
    local: &str,
    local_port: u16,
    remote: &str,
    remote_port: u16,
    r: String,
)
    requires
        call_ensures(path_text, (local, local_port, remote, remote_port), r),
    ensures
        remote@.contains(':') ==> r@ == "IPv6"@ + ": local "@ + sdp::endpoint_text(
            local@,
            local_port,
        ) + " <-> remote "@ + sdp::endpoint_text(remote@, remote_port),
        !remote@.contains(':') ==> r@ == "IPv4"@ + ": local "@ + sdp::endpoint_text(
            local@,
            local_port,
        ) + " <-> remote "@ + sdp::endpoint_text(remote@, remote_port),
{
}

} // verus!
