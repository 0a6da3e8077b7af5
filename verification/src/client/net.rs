//! WebRTC client session: signalling over HTTP, one incoming H.264 track, two data channels.
//!
//! [`Session`] decides what is done on each event; what carries it out hands the events in.
use vstd::prelude::*;

use webrtc::peer_connection::RTCSessionDescription;

use crate::client::assembler::{AccessUnitAssembler, AssemblerStats};
use crate::proto::description;
use crate::proto::message::{ControlMessage, MouseMove};
use crate::proto::sdp;
use crate::proto::signalling::{ErrorResponse, SessionDescription, OFFER_PATH};
use crate::proto::PROTOCOL_VERSION;
use crate::server::session::PeerState;
use crate::text;
use crate::{elapsed_since, Nanos};

verus! {

#[derive(Debug)]
pub struct NetConfig {
    pub server_url: String,
    pub bitrate_kbps: Option<u32>,
}

/// UI thread → network.
#[derive(Debug, Clone, Copy, PartialEq, Eq, Structural)]
pub enum UiCommand {
    Control(ControlMessage),
    Mouse(MouseMove),
    Quit,
}

/// Decoder thread → network.
#[derive(Debug, Clone, Copy, PartialEq, Eq, Structural)]
pub enum DecoderRequest {
    /// Ask the server for an IDR frame (PLI).
    Keyframe,
}

/// How long ICE gathering may take.
pub const GATHER_TIMEOUT: Nanos = 3_000_000_000;

/// Replay window for SRTP, in packets: wide enough for retransmissions behind a keyframe.
pub const SRTP_REPLAY_WINDOW: usize = 4096;

/// Minimum spacing between PLIs.
pub const PLI_INTERVAL: Nanos = 250_000_000;

/// Mouse positions are coalesced and flushed at this rate.
pub const MOUSE_FLUSH: Nanos = 4_000_000;

/// How long a missing packet is waited for.
pub const MAX_WAIT: Nanos = 500_000_000;

/// Most packets that wait for others.
pub const MAX_PENDING: usize = 4096;

/// How often the selected path is asked for once connected.
pub const PATH_ATTEMPTS: u32 = 5;

/// Time between two such attempts.
pub const PATH_RETRY: Nanos = 300_000_000;

/// The assembler that puts the received video together again.
pub fn new_assembler() -> (r: AccessUnitAssembler)
    ensures
        r@.valid(),
        r@.pending.len() == 0,
        r@.highest is None,
        r@.next is None,
        r@.floor == 0,
        r@.given_up is None,
        r@.stats == AssemblerStats::zero(),
        r@.max_wait == MAX_WAIT,
        r@.max_pending == MAX_PENDING,
{
    AccessUnitAssembler::new(MAX_WAIT, MAX_PENDING)
}

// ------------------------------------------------------------------------------------------
// Signalling
// ------------------------------------------------------------------------------------------
/// A text without the slashes at its end.
pub open spec fn without_slashes(s: Seq<char>) -> Seq<char>
    decreases s.len(),
{
    if s.len() > 0 && s.last() == '/' {
        without_slashes(s.drop_last())
    } else {
        s
    }
}

/// Where the offer is posted to.
pub fn offer_url(server_url: &str) -> (r: String)
    ensures
        r@ == without_slashes(server_url@) + OFFER_PATH@,
{
    let mut chars = text::chars_of(server_url);
    while chars.len() > 0 && chars[chars.len() - 1] == '/'
        invariant
            without_slashes(chars@) == without_slashes(server_url@),
        decreases chars@.len(),
    {
        let ghost before = chars@;
        chars.pop();
        assert(chars@ =~= before.drop_last());
    }
    let mut out = text::string_of(chars.as_slice());
    out.append(OFFER_PATH);
    out
}

/// The message when the offer could not be posted.
pub fn post_failed_text(url: &str) -> (r: String)
    ensures
        r@ == "POST "@ + url@
            + " failed. Is the SSH tunnel up? (ssh -L 8080:127.0.0.1:8080 <vm>)"@,
{
    let mut out = "POST ".to_owned();
    out.append(url);
    out.append(" failed. Is the SSH tunnel up? (ssh -L 8080:127.0.0.1:8080 <vm>)");
    out
}

/// The message when the server refuses the offer. `status` is the HTTP status; `error` is the
/// error in `body`, where there is one.
pub fn rejected_text(status: &str, error: Option<ErrorResponse>, body: String) -> (r: String)
    ensures
        r@ == "server rejected the offer ("@ + status@ + "): "@ + (match error {
            Some(e) => e.error@,
            None => body@,
        }),
{
    let mut out = "server rejected the offer (".to_owned();
    out.append(status);
    out.append("): ");
    match error {
        Some(e) => out.append(e.error.as_str()),
        None => out.append(body.as_str()),
    }
    out
}

/// The SDP in an answer. Anything but an answer is an error.
pub fn check_answer(answer: SessionDescription) -> (r: Result<String, String>)
    ensures
        match r {
            Ok(sdp) => answer.kind@ == "answer"@ && sdp@ == answer.sdp@,
            Err(e) => answer.kind@ != "answer"@ && e@ == "expected an answer, got type "@
                + text::debug_of(answer.kind@),
        },
{
    if text::same_str(answer.kind.as_str(), "answer") {
        Ok(answer.sdp)
    } else {
        let mut out = "expected an answer, got type ".to_owned();
        let shown = text::debug_text(answer.kind.as_str());
        out.append(shown.as_str());
        Err(out)
    }
}

/// The error for an answer that cannot be read.
pub fn unreadable_answer(fault: &str) -> (r: String)
    ensures
        r@ == "parsing answer: "@ + fault@,
{
    let mut out = "parsing answer: ".to_owned();
    out.append(fault);
    out
}

/// Reads the SDP of an answer. One that the WebRTC stack cannot read is an error.
pub fn read_answer(sdp: String) -> (r: Result<RTCSessionDescription, String>)
    ensures
        match r {
            Ok(d) => description::answer_read(sdp@) == Ok::<RTCSessionDescription, Seq<char>>(d),
            Err(e) => description::answer_read(sdp@) matches Err(fault) && e@
                == "parsing answer: "@ + fault,
        },
{
    match description::parse_answer(sdp) {
        Ok(d) => Ok(d),
        Err(e) => Err(unreadable_answer(e.as_str())),
    }
}

/// How the path to the server is shown, such as `IPv6 to [2001:db8::1]:50000`.
pub fn path_text(address: &str, port: u16) -> (r: String)
    ensures
        r@ == (if sdp::is_ipv6(address@) {
            "IPv6"@
        } else {
            "IPv4"@
        }) + " to "@ + sdp::endpoint_text(address@, port),
{
    let mut out = sdp::address_family(address).to_owned();
    out.append(" to ");
    let e = sdp::format_endpoint(address, port);
    out.append(e.as_str());
    out
}

/// What the control channel sends as soon as it is open: the protocol version, then the bitrate
/// where one is wanted.
pub fn on_control_open(bitrate_kbps: Option<u32>) -> (r: Vec<ControlMessage>)
    ensures
        r@ == (match bitrate_kbps {
            Some(kbps) => seq![
                ControlMessage::Hello { version: PROTOCOL_VERSION },
                ControlMessage::SetBitrate { kbps },
            ],
            None => seq![ControlMessage::Hello { version: PROTOCOL_VERSION }],
        }),
{
    let mut out: Vec<ControlMessage> = Vec::new();
    out.push(ControlMessage::Hello { version: PROTOCOL_VERSION });
    if let Some(kbps) = bitrate_kbps {
        out.push(ControlMessage::SetBitrate { kbps });
        assert(out@ =~= seq![
            ControlMessage::Hello { version: PROTOCOL_VERSION },
            ControlMessage::SetBitrate { kbps },
        ]);
    } else {
        assert(out@ =~= seq![ControlMessage::Hello { version: PROTOCOL_VERSION }]);
    }
    out
}

// ------------------------------------------------------------------------------------------
// The running session
// ------------------------------------------------------------------------------------------
/// Keeps PLIs apart.
#[derive(Debug, Clone, Copy, PartialEq, Eq, Structural)]
pub struct PliLimiter {
    pub interval: Nanos,
    /// When the last PLI was sent.
    pub last: Option<Nanos>,
}

impl PliLimiter {
    pub fn new(interval: Nanos) -> (r: Self)
        ensures
            r == (PliLimiter { interval, last: None }),
    {
        PliLimiter { interval, last: None }
    }

    /// A PLI may be sent.
    pub open spec fn due(self, now: Nanos) -> bool {
        match self.last {
            Some(t) => crate::since(now, t) >= self.interval,
            None => true,
        }
    }

    /// Whether a PLI is to be sent now that one is wanted.
    pub fn request(&mut self, now: Nanos) -> (r: bool)
        ensures
            r == old(self).due(now),
            *final(self) == if r {
                PliLimiter { last: Some(now), ..*old(self) }
            } else {
                *old(self)
            },
    {
        let due = match self.last {
            Some(t) => elapsed_since(now, t) >= self.interval,
            None => true,
        };
        if due {
            self.last = Some(now);
        }
        due
    }
}

/// PLIs that are sent on request lie at least the interval apart.
pub proof fn requested_plis_are_spaced(p: PliLimiter, first: Nanos, second: Nanos)
    requires
        first <= second,
        (PliLimiter { last: Some(first), ..p }).due(second),
    ensures
        second - first >= p.interval,
{
}

/// The connection failed before it was up.
pub const ICE_FAILED: &'static str =
    "could not connect: ICE failed. Check the OCI security list and iptables (UDP 50000-50100) and run `server doctor` on the VM";

/// What the client does when its connection changes state.
#[derive(Debug)]
pub enum ConnectionStep {
    Nothing,
    /// Show this status.
    Status(&'static str),
    /// Show this status, then find out the path and show it.
    Connected(&'static str),
    /// The session ends with this error.
    End(&'static str),
}

/// What the client does on a command of the window.
#[derive(Debug, Clone, Copy, PartialEq, Eq, Structural)]
pub enum CommandStep {
    /// This goes out on the control channel.
    Send(ControlMessage),
    Nothing,
    /// Say goodbye and close the connection.
    Quit,
}

/// State of a running session.
#[derive(Debug, Clone, Copy, PartialEq, Eq, Structural)]
pub struct Session {
    /// Source of the video track.
    pub video: Option<u32>,
    /// The connection has been up.
    pub connected: bool,
    pub pli: PliLimiter,
    /// The latest position of the mouse, not sent yet.
    pub mouse: Option<MouseMove>,
}

impl Session {
    pub fn new() -> (r: Self)
        ensures
            r == (Session {
                video: None,
                connected: false,
                pli: PliLimiter { interval: PLI_INTERVAL, last: None },
                mouse: None,
            }),
    {
        Session {
            video: None,
            connected: false,
            pli: PliLimiter::new(PLI_INTERVAL),
            mouse: None,
        }
    }

    /// The connection has changed state.
    pub fn on_connection(&mut self, state: PeerState) -> (r: ConnectionStep)
        ensures
            *final(self) == (Session {
                connected: old(self).connected || state is Connected,
                ..*old(self)
            }),
            match state {
                PeerState::Connected => r matches ConnectionStep::Connected(s) && s@
                    == "connected"@,
                PeerState::Disconnected => r matches ConnectionStep::Status(s) && s@
                    == "disconnected (waiting)"@,
                PeerState::Failed => r matches ConnectionStep::End(e) && e@ == if old(
                    self,
                ).connected {
                    "connection lost (ICE failed)"@
                } else {
                    ICE_FAILED@
                },
                PeerState::Closed => r matches ConnectionStep::End(e) && e@
                    == "connection closed by server"@,
                PeerState::Other => r is Nothing,
            },
    {
        match state {
            PeerState::Connected => {
                self.connected = true;
                ConnectionStep::Connected("connected")
            },
            PeerState::Disconnected => ConnectionStep::Status("disconnected (waiting)"),
            PeerState::Failed => {
                if self.connected {
                    ConnectionStep::End("connection lost (ICE failed)")
                } else {
                    ConnectionStep::End(ICE_FAILED)
                }
            },
            PeerState::Closed => ConnectionStep::End("connection closed by server"),
            PeerState::Other => ConnectionStep::Nothing,
        }
    }

    /// A new video track is there; `ssrc` is its source, where it is known. The PLI that asks
    /// for a keyframe right away goes to the source returned.
    pub fn on_track(&mut self, now: Nanos, ssrc: Option<u32>) -> (r: Option<u32>)
        ensures
            r == if ssrc is Some {
                ssrc
            } else {
                old(self).video
            },
            *final(self) == (Session {
                video: r,
                pli: PliLimiter {
                    last: if r is Some {
                        Some(now)
                    } else {
                        old(self).pli.last
                    },
                    ..old(self).pli
                },
                ..*old(self)
            }),
    {
        if ssrc.is_some() {
            self.video = ssrc;
        }
        if self.video.is_some() {
            self.pli.last = Some(now);
        }
        self.video
    }

    /// A keyframe is wanted, by the decoder or because a frame had to be dropped. The PLI goes
    /// to the source returned.
    pub fn on_keyframe_wanted(&mut self, now: Nanos) -> (r: Option<u32>)
        ensures
            r == if old(self).pli.due(now) {
                old(self).video
            } else {
                None
            },
            *final(self) == if r is Some {
                Session { pli: PliLimiter { last: Some(now), ..old(self).pli }, ..*old(self) }
            } else {
                *old(self)
            },
    {
        if self.video.is_some() && self.pli.request(now) {
            self.video
        } else {
            None
        }
    }

    /// The window wants something. `None` means that the window is gone.
    pub fn on_command(&mut self, command: Option<UiCommand>) -> (r: CommandStep)
        ensures
            match command {
                Some(UiCommand::Control(m)) => r == CommandStep::Send(m) && *final(self) == *old(
                    self,
                ),
                Some(UiCommand::Mouse(m)) => r is Nothing && *final(self) == (Session {
                    mouse: Some(m),
                    ..*old(self)
                }),
                Some(UiCommand::Quit) => r is Quit && *final(self) == *old(self),
                None => r is Quit && *final(self) == *old(self),
            },
    {
        match command {
            Some(UiCommand::Control(m)) => CommandStep::Send(m),
            Some(UiCommand::Mouse(m)) => {
                self.mouse = Some(m);
                CommandStep::Nothing
            },
            Some(UiCommand::Quit) => CommandStep::Quit,
            None => CommandStep::Quit,
        }
    }

    /// Mouse positions are flushed: the latest one goes out, once.
    pub fn on_mouse_tick(&mut self) -> (r: Option<MouseMove>)
        ensures
            r == old(self).mouse,
            *final(self) == (Session { mouse: None, ..*old(self) }),
    {
        let m = self.mouse;
        self.mouse = None;
        m
    }
}

/// The last thing that the control channel sends: the server releases everything held down.
pub fn goodbye() -> (r: ControlMessage)
    ensures
        r == ControlMessage::ReleaseAll,
{
    ControlMessage::ReleaseAll
}

/// The session after a run of mouse moves.
pub open spec fn after_moves(s: Session, moves: Seq<MouseMove>) -> Session
    decreases moves.len(),
{
    if moves.len() == 0 {
        s
    } else {
        Session { mouse: Some(moves.last()), ..after_moves(s, moves.drop_last()) }
    }
}

/// Mouse moves are coalesced: of the moves between two flushes only the last one goes out, and
/// without any nothing does.
pub proof fn only_the_last_move_goes_out(s: Session, moves: Seq<MouseMove>)
    requires
        s.mouse is None,
    ensures
        after_moves(s, moves).mouse == if moves.len() == 0 {
            None
        } else {
            Some(moves.last())
        },
        after_moves(s, moves) == (Session { mouse: after_moves(s, moves).mouse, ..s }),
    decreases moves.len(),
{
    if moves.len() > 0 {
        only_the_last_move_goes_out(s, moves.drop_last());
    }
}

// ------------------------------------------------------------------------------------------
// Reassembly statistics
// ------------------------------------------------------------------------------------------
/// How often reassembly statistics are due.
pub const STATS_INTERVAL: Nanos = 10_000_000_000;

/// Decides when reassembly statistics are shown: every [`STATS_INTERVAL`], and only when
/// something was lost since.
#[derive(Debug, Clone, Copy, PartialEq, Eq, Structural)]
pub struct LossReport {
    /// When statistics were last due.
    pub at: Nanos,
    /// What had been dropped by then.
    pub dropped_units: u64,
    /// What had come late by then.
    pub late_packets: u64,
}

/// The line with the reassembly statistics.
pub open spec fn stats_line(s: AssemblerStats) -> Seq<char> {
    "video: "@ + text::decimal(s.access_units as nat) + " access units, "@ + text::decimal(
        s.dropped_units as nat,
    ) + " dropped (packet loss), "@ + text::decimal(s.late_packets as nat)
        + " late/duplicate packets"@
}

impl LossReport {
    pub fn new(now: Nanos) -> (r: Self)
        ensures
            r == (LossReport { at: now, dropped_units: 0, late_packets: 0 }),
    {
        LossReport { at: now, dropped_units: 0, late_packets: 0 }
    }

    /// Statistics are due.
    pub open spec fn due(self, now: Nanos) -> bool {
        crate::since(now, self.at) >= STATS_INTERVAL
    }

    /// Something was lost since statistics were last due.
    pub open spec fn lost(self, s: AssemblerStats) -> bool {
        s.dropped_units != self.dropped_units || s.late_packets != self.late_packets
    }

    /// The line to show, if statistics are due and something was lost.
    pub fn update(&mut self, now: Nanos, s: &AssemblerStats) -> (r: Option<String>)
        ensures
            r is Some <==> old(self).due(now) && old(self).lost(*s),
            r matches Some(line) ==> line@ == stats_line(*s),
            *final(self) == if old(self).due(now) {
                LossReport {
                    at: now,
                    dropped_units: s.dropped_units,
                    late_packets: s.late_packets,
                }
            } else {
                *old(self)
            },
    {
        if elapsed_since(now, self.at) < STATS_INTERVAL {
            return None;
        }
        let lost = s.dropped_units != self.dropped_units || s.late_packets != self.late_packets;
        self.at = now;
        self.dropped_units = s.dropped_units;
        self.late_packets = s.late_packets;
        if !lost {
            return None;
        }
        let mut out = "video: ".to_owned();
        text::push_decimal(&mut out, s.access_units);
        out.append(" access units, ");
        text::push_decimal(&mut out, s.dropped_units);
        out.append(" dropped (packet loss), ");
        text::push_decimal(&mut out, s.late_packets);
        out.append(" late/duplicate packets");
        Some(out)
    }
}

/// Slashes at the end of an address make no difference, and nothing else is taken off.
pub proof fn only_slashes_are_taken_off(s: Seq<char>)
    ensures
        without_slashes(s.push('/')) == without_slashes(s),
        s.len() > 0 && s.last() != '/' ==> without_slashes(s) == s,
        s.len() == 0 ==> without_slashes(s) == s,
{
    assert(s.push('/').drop_last() =~= s);
}

/// The first PLI is sent at once, and one that is wanted after the interval is sent too.
pub proof fn wanted_plis_are_sent(p: PliLimiter, now: Nanos)
    ensures
        p.last is None ==> p.due(now),
        p.last matches Some(t) ==> (now >= t + p.interval ==> p.due(now)),
{
}

/// Statistics are shown every ten seconds, if units were dropped or packets came late since, and
/// not otherwise.
pub proof fn losses_are_reported(l: LossReport, s: AssemblerStats, now: Nanos)
    requires
        l.at <= now,
    ensures
        l.due(now) <==> now - l.at >= 10_000_000_000,
        l.lost(s) <==> !(s.dropped_units == l.dropped_units && s.late_packets == l.late_packets),
{
}

/// The statistics name what was handed out, what was dropped and what came late, in this order.
pub proof fn statistics_stand_behind_their_labels(s: AssemblerStats)
    ensures
        stats_line(s) == "video: "@ + text::decimal(s.access_units as nat) + " access units, "@
            + text::decimal(s.dropped_units as nat) + " dropped (packet loss), "@ + text::decimal(
            s.late_packets as nat,
        ) + " late/duplicate packets"@,
{
}

/// PLIs keep their distance: a second one is sent only when the interval has passed since the
/// first, and to the source of the video.
pub proof fn plis_keep_their_distance(
    a: &mut Session,
    b: &mut Session,
    first: Nanos,
    second: Nanos,
    x: Option<u32>,
    y: Option<u32>,
)
    requires
        first <= second,
        call_ensures(Session::on_keyframe_wanted, (a, first), x),
        *old(b) == *final(a),
        call_ensures(Session::on_keyframe_wanted, (b, second), y),
    ensures
        x is Some ==> x == old(a).video,
        x is Some && y is Some ==> second - first >= old(a).pli.interval,
        x is Some && second - first >= old(a).pli.interval ==> y == x,
        old(a).pli.last is None ==> x == old(a).video,
{
}

/// A new track is asked for a keyframe at once, and is the source from then on.
pub proof fn new_track_is_asked_for_a_keyframe(s: &mut Session, now: Nanos, ssrc: u32, r: Option<u32>)
    requires
        call_ensures(Session::on_track, (s, now, Some(ssrc)), r),
    ensures
        r == Some(ssrc),
        final(s).video == Some(ssrc),
        final(s).pli.last == Some(now),
        final(s).mouse == old(s).mouse,
{
}

/// Of the positions between two flushes the last one goes out, and only once.
pub proof fn mouse_position_goes_out_once(
    a: &mut Session,
    b: &mut Session,
    c: &mut Session,
    d: &mut Session,
    first: MouseMove,
    second: MouseMove,
    p: CommandStep,
    q: CommandStep,
    r: Option<MouseMove>,
    again: Option<MouseMove>,
)
    requires
        call_ensures(Session::on_command, (a, Some(UiCommand::Mouse(first))), p),
        *old(b) == *final(a),
        call_ensures(Session::on_command, (b, Some(UiCommand::Mouse(second))), q),
        *old(c) == *final(b),
        call_ensures(Session::on_mouse_tick, (c,), r),
        *old(d) == *final(c),
        call_ensures(Session::on_mouse_tick, (d,), again),
    ensures
        p is Nothing && q is Nothing,
        r == Some(second),
        again is None,
{
}

/// Control messages go out as they are, and a window that closes ends the session.
pub proof fn commands_are_carried_out(s: &mut Session, command: Option<UiCommand>, r: CommandStep)
    requires
        call_ensures(Session::on_command, (s, command), r),
    ensures
        command matches Some(UiCommand::Control(m)) ==> r == CommandStep::Send(m),
        r is Quit <==> command is None || command == Some(UiCommand::Quit),
        final(s).video == old(s).video,
        final(s).pli == old(s).pli,
{
}

/// A connection that fails before it was up is explained, one that was up is lost; a
/// disconnection is waited out.
pub proof fn lost_connections_are_told_apart(s: &mut Session, state: PeerState, r: ConnectionStep)
    requires
        call_ensures(Session::on_connection, (s, state), r),
    ensures
        r is End <==> state is Failed || state is Closed,
        r is Connected <==> state is Connected,
        r is Status <==> state is Disconnected,
        state is Connected ==> final(s).connected,
        state is Failed && old(s).connected ==> r->End_0@ == "connection lost (ICE failed)"@,
        state is Failed && !old(s).connected ==> r->End_0@ == ICE_FAILED@,
        state is Closed ==> r->End_0@ == "connection closed by server"@,
{
}

/// The control channel greets first, then asks for the bitrate that is wanted.
pub proof fn greeting_comes_first(bitrate_kbps: Option<u32>, r: Vec<ControlMessage>)
    requires
        call_ensures(on_control_open, (bitrate_kbps,), r),
    ensures
        r@.len() >= 1,
        r@[0] == (ControlMessage::Hello { version: PROTOCOL_VERSION }),
        bitrate_kbps is None <==> r@.len() == 1,
        bitrate_kbps matches Some(kbps) ==> r@.len() == 2 && r@[1] == (ControlMessage::SetBitrate {
            kbps,
        }),
{
}

/// A loss is reported once: the next report comes ten seconds later, if more was lost since.
pub proof fn loss_is_reported_once(
    a: &mut LossReport,
    b: &mut LossReport,
    now: Nanos,
    later: Nanos,
    s: AssemblerStats,
    t: AssemblerStats,
    x: Option<String>,
    y: Option<String>,
)
    requires
        old(a).at <= now <= later,
        call_ensures(LossReport::update, (a, now, &s), x),
        *old(b) == *final(a),
        call_ensures(LossReport::update, (b, later, &t), y),
    ensures
        x is Some ==> now - old(a).at >= 10_000_000_000,
        x is Some && y is Some ==> later - now >= 10_000_000_000,
        x is Some && t.dropped_units == s.dropped_units && t.late_packets == s.late_packets
            ==> y is None,
        x is Some && later - now >= 10_000_000_000 && t.dropped_units != s.dropped_units
            ==> y is Some,
{
}

} // verus!
