//! Reassembly of H.264 access units from RTP packets (RFC 6184, packetization mode 1).
//!
//! The assembler is marker driven, as the RFC intends for video: an access unit is complete
//! when its packets from the first (a partition head: single NAL, STAP-A or FU-A start) to the
//! one carrying the marker bit are all present, and it is emitted at that moment. Recovery:
//!
//! * a missing packet is waited for up to [`AccessUnitAssembler::max_wait`] (NACK
//!   retransmissions arrive within an RTT), then the unit is abandoned and reassembly resumes
//!   at the next partition head of a later timestamp;
//! * a lost marker is detected when the next timestamp starts; the unit is emitted if its last
//!   packet closed a NAL unit (single NAL, STAP-A or FU-A end), dropped otherwise;
//! * late duplicates and packets of abandoned units are ignored;
//! * the buffer is bounded by [`AccessUnitAssembler::max_pending`] packets.
//!
//! Sequence numbers are unwrapped to 64 bits, so wrap-around needs no special cases.
use vstd::prelude::*;

use bytes::Bytes;
use rtc::rtp::codec::h264::H264Packet;
use rtc::rtp::packetizer::Depacketizer;

use crate::client::depacketizer::{
    depacketize_unit, FU_END_BIT, FU_START_BIT, NALU_FU_A, NALU_FU_B, NALU_TYPE_MASK,
};
use crate::{elapsed_since, Nanos};

verus! {

/// What the assembler reads of an RTP packet.
pub struct RtpPacket {
    pub sequence_number: u16,
    pub timestamp: u32,
    pub marker: bool,
    pub payload: Vec<u8>,
}

/// Counters exposed for logs and tests.
#[derive(Debug, Clone, Copy, PartialEq, Eq, Structural)]
pub struct AssemblerStats {
    /// Complete access units handed out.
    pub access_units: u64,
    /// Units abandoned (missing packet not recovered in time, lost tail, bad payload).
    pub dropped_units: u64,
    /// Packets discarded (part of abandoned units, or arriving before the first head).
    pub dropped_packets: u64,
    /// Packets that arrived after their unit had been emitted or abandoned (duplicates,
    /// late retransmissions).
    pub late_packets: u64,
}

impl Default for AssemblerStats {
    fn default() -> (r: Self)
        ensures
            r == AssemblerStats::zero(),
    {
        AssemblerStats { access_units: 0, dropped_units: 0, dropped_packets: 0, late_packets: 0 }
    }
}

impl AssemblerStats {
    /// All counters at zero.
    pub open spec fn zero() -> AssemblerStats {
        AssemblerStats { access_units: 0, dropped_units: 0, dropped_packets: 0, late_packets: 0 }
    }
}

// ------------------------------------------------------------------------------------------
// Payload classification
// ------------------------------------------------------------------------------------------
/// The NAL unit type in a payload's first byte says "fragment" (FU-A or FU-B).
pub open spec fn is_fragment(first: u8) -> bool {
    first & NALU_TYPE_MASK == NALU_FU_A || first & NALU_TYPE_MASK == NALU_FU_B
}

/// The payload starts a NAL unit: it has two bytes, and a fragment carries the start bit.
pub open spec fn partition_head(payload: Seq<u8>) -> bool {
    payload.len() >= 2 && (is_fragment(payload[0]) ==> payload[1] & FU_START_BIT != 0)
}

/// The payload ends a NAL unit: anything but a fragment without the end bit.
pub open spec fn nal_end(payload: Seq<u8>) -> bool {
    payload.len() >= 1 && (is_fragment(payload[0]) ==> payload.len() >= 2 && payload[1] & FU_END_BIT
        != 0)
}

/// True if this RTP payload starts a NAL unit (RFC 6184 §5.8 partition head).
///
/// This is `rtc`'s `H264Packet::is_partition_head` on a copy of the payload: false for less
/// than two bytes; for FU-A and FU-B the start bit of the second byte; true for the rest.
#[verifier::external_body]
pub fn is_partition_head(payload: &[u8]) -> (r: bool)
    ensures
        r == partition_head(payload@),
{
    H264Packet::default().is_partition_head(&Bytes::copy_from_slice(payload))
}

/// True if this payload ends a NAL unit: anything but an FU-A/FU-B fragment without the E bit.
pub fn ends_nal_unit(payload: &[u8]) -> (r: bool)
    ensures
        r == nal_end(payload@),
{
    if payload.len() == 0 {
        return false;
    }
    let kind = payload[0] & NALU_TYPE_MASK;
    if kind == NALU_FU_A || kind == NALU_FU_B {
        payload.len() >= 2 && payload[1] & FU_END_BIT != 0
    } else {
        true
    }
}

// ------------------------------------------------------------------------------------------
// Sequence numbers
// ------------------------------------------------------------------------------------------
/// The 64-bit number of the very first packet: well above zero, so that packets older than
/// the first one stay representable.
pub const FIRST_EXTENDED: u64 = 0x1_0000_0000;

/// The 64-bit number for `seq` once `highest` is the highest seen: the one congruent to `seq`
/// modulo 2^16 from 2^15 below `highest` to less than 2^15 above it.
pub open spec fn extended(highest: Option<u64>, seq: u16) -> int {
    match highest {
        None => FIRST_EXTENDED + seq,
        Some(h) => {
            let delta = (seq - h) % 0x1_0000;
            if delta < 0x8000 {
                h + delta
            } else {
                h + delta - 0x1_0000
            }
        },
    }
}

/// The highest number seen once `ext` has been.
pub open spec fn raised(highest: Option<u64>, ext: int) -> Option<u64> {
    match highest {
        Some(h) if h >= ext => Some(h),
        _ => Some(ext as u64),
    }
}

/// There is room above the highest number seen for one more packet.
pub open spec fn seq_room(highest: Option<u64>) -> bool {
    highest matches Some(h) ==> FIRST_EXTENDED <= h <= u64::MAX - 0x8000
}

/// Maps 16-bit RTP sequence numbers onto a monotonically increasing 64-bit space.
#[derive(Debug)]
pub struct SeqUnwrapper {
    pub highest: Option<u64>,
}

impl Default for SeqUnwrapper {
    fn default() -> (r: Self)
        ensures
            r.highest is None,
    {
        SeqUnwrapper { highest: None }
    }
}

impl SeqUnwrapper {
    /// The 64-bit number of the packet with 16-bit number `seq`.
    #[verifier::spinoff_prover]
    pub fn extend(&mut self, seq: u16) -> (r: u64)
        requires
            seq_room(old(self).highest),
        ensures
            r == extended(old(self).highest, seq),
            final(self).highest == raised(old(self).highest, r as int),
    {
        match self.highest {
            None => {
                let ext: u64 = FIRST_EXTENDED + seq as u64;
                self.highest = Some(ext);
                ext
            },
            Some(highest) => {
                let low: u64 = highest % 0x1_0000;
                let delta: u64 = (seq as u64 + 0x1_0000 - low) % 0x1_0000;
                proof {
                    let (h, q) = (highest as int, highest as int / 0x1_0000);
                    assert(h == 0x1_0000 * q + low);
                    vstd::arithmetic::div_mod::lemma_mod_multiples_vanish(
                        -q - 1,
                        seq + 0x1_0000 - low,
                        0x1_0000,
                    );
                    assert(0x1_0000 * (-q - 1) + (seq + 0x1_0000 - low) == seq - h);
                }
                let ext: u64 = if delta < 0x8000 {
                    highest + delta
                } else {
                    highest - (0x1_0000 - delta)
                };
                if ext > highest {
                    self.highest = Some(ext);
                }
                ext
            },
        }
    }
}

/// Unwrapping keeps the 16-bit number, and stays within 2^15 of the highest number seen.
pub proof fn extended_is_congruent_and_near(highest: u64, seq: u16)
    ensures
        extended(Some(highest), seq) % 0x1_0000 == seq,
        -0x8000 <= extended(Some(highest), seq) - highest < 0x8000,
{
}

/// Consecutive packets get consecutive numbers, across the wrap of the 16-bit number too.
pub proof fn extended_continues_across_wrap(highest: u64, seq: u16)
    requires
        highest % 0x1_0000 == seq,
    ensures
        extended(Some(highest), if seq == u16::MAX { 0u16 } else { (seq + 1) as u16 }) == highest
            + 1,
{
}

// ------------------------------------------------------------------------------------------
// The buffer
// ------------------------------------------------------------------------------------------
/// One buffered packet.
#[verifier::ext_equal]
pub struct Slot {
    /// Its extended sequence number.
    pub ext: u64,
    pub timestamp: u32,
    pub marker: bool,
    pub payload: Seq<u8>,
    /// When it arrived.
    pub at: Nanos,
}

/// What an assembler holds: the buffered packets in sequence order and where it stands.
#[verifier::ext_equal]
pub struct Buffer {
    pub pending: Seq<Slot>,
    /// Highest extended sequence number seen.
    pub highest: Option<u64>,
    /// Extended sequence number of the next packet to consume; `None` while resynchronising.
    pub next: Option<u64>,
    /// Everything below this was consumed or abandoned.
    pub floor: u64,
    /// Timestamp of the unit abandoned last, until the next unit is consumed: packets of it that
    /// are still on their way lie in front of that one.
    pub given_up: Option<u32>,
    pub stats: AssemblerStats,
    pub max_wait: Nanos,
    pub max_pending: usize,
}

/// The packets that do not belong to the unit with `timestamp`.
pub open spec fn kept(p: Seq<Slot>, timestamp: u32) -> Seq<Slot> {
    p.filter(|s: Slot| s.timestamp != timestamp)
}

/// The packets that belong to the unit with `timestamp`.
pub open spec fn doomed(p: Seq<Slot>, timestamp: u32) -> Seq<Slot> {
    p.filter(|s: Slot| s.timestamp == timestamp)
}

/// The position of the first packet from `ext` on.
pub open spec fn position(p: Seq<Slot>, ext: int) -> int
    decreases p.len(),
{
    if p.len() == 0 {
        0
    } else if p.last().ext >= ext {
        position(p.drop_last(), ext)
    } else {
        p.len() as int
    }
}

/// Whether a packet with that number is buffered.
pub open spec fn holds(p: Seq<Slot>, ext: int) -> bool {
    let k = position(p, ext);
    k < p.len() && p[k].ext == ext
}

/// The buffer with one more packet in its place; one with the same number is replaced.
pub open spec fn put(p: Seq<Slot>, s: Slot) -> Seq<Slot> {
    let k = position(p, s.ext as int);
    if holds(p, s.ext as int) {
        p.update(k, s)
    } else {
        p.insert(k, s)
    }
}

/// The packets stand in strictly increasing sequence order.
pub open spec fn ordered(p: Seq<Slot>) -> bool {
    forall|i: int, j: int| 0 <= i < j < p.len() ==> (#[trigger] p[i]).ext < (#[trigger] p[j]).ext
}

/// The position of the first partition head; the length if there is none.
pub open spec fn first_head(p: Seq<Slot>) -> int
    decreases p.len(),
{
    if p.len() == 0 {
        0
    } else if first_head(p.drop_last()) < p.len() - 1 {
        first_head(p.drop_last())
    } else if partition_head(p.last().payload) {
        p.len() - 1
    } else {
        p.len() as int
    }
}

/// How the consecutive packets of a unit end; the number is the position of the last of them.
pub enum Walk {
    /// With the marker bit: the unit is whole.
    Whole(int),
    /// With the first packet of another timestamp right behind: the marker was lost.
    NextUnit(int),
    /// With a packet that is not there.
    Gap(int),
}

/// Walks the consecutive packets of a unit, from position `i` on.
pub open spec fn walk(p: Seq<Slot>, i: int) -> Walk
    decreases p.len() - i,
{
    if i < 0 || i >= p.len() {
        Walk::Gap(i)
    } else if p[i].marker {
        Walk::Whole(i)
    } else if i + 1 < p.len() && p[i + 1].ext == p[i].ext + 1 {
        if p[i + 1].timestamp == p[i].timestamp {
            walk(p, i + 1)
        } else {
            Walk::NextUnit(i)
        }
    } else {
        Walk::Gap(i)
    }
}

/// The payloads of the packets.
pub open spec fn payloads(p: Seq<Slot>) -> Seq<Seq<u8>> {
    Seq::new(p.len(), |i: int| p[i].payload)
}

/// The larger of two numbers.
pub open spec fn larger(a: int, b: int) -> u64 {
    if a >= b {
        a as u64
    } else {
        b as u64
    }
}

/// What a call decides about the unit at the head of the buffer.
pub enum Verdict {
    /// Nothing can be decided yet.
    Wait,
    /// The unit with this timestamp is given up.
    Abandon(u32),
    /// The first packets, this many, are the unit.
    Take(int),
}

impl Buffer {
    /// The counters and sequence numbers are far enough from their limits for one more call.
    pub open spec fn has_room(self) -> bool {
        &&& seq_room(self.highest)
        &&& self.stats.access_units < u64::MAX
        &&& self.stats.late_packets < u64::MAX
        &&& self.stats.dropped_units + self.pending.len() < u64::MAX
        &&& self.stats.dropped_packets + self.pending.len() < u64::MAX
    }

    /// What always holds: packets in order, below the highest number, none behind `next`, and
    /// none of a unit that was given up.
    pub open spec fn valid(self) -> bool {
        &&& ordered(self.pending)
        &&& self.pending.len() > 0 ==> self.highest is Some
        &&& forall|i: int|
            0 <= i < self.pending.len() ==> (#[trigger] self.pending[i]).ext <= self.highest->0
        &&& self.highest matches Some(h) ==> FIRST_EXTENDED <= h < u64::MAX
        &&& self.next matches Some(n) ==> n <= self.floor && forall|i: int|
            0 <= i < self.pending.len() ==> (#[trigger] self.pending[i]).ext >= n
        &&& self.given_up matches Some(t) ==> forall|i: int|
            0 <= i < self.pending.len() ==> (#[trigger] self.pending[i]).timestamp != t
    }

    /// Drops every buffered packet with `timestamp` and resynchronises.
    pub open spec fn abandoned(self, timestamp: u32) -> Buffer {
        let gone = doomed(self.pending, timestamp);
        Buffer {
            pending: kept(self.pending, timestamp),
            next: None,
            floor: if gone.len() > 0 {
                larger(self.floor as int, gone.last().ext + 1)
            } else {
                self.floor
            },
            given_up: Some(timestamp),
            stats: AssemblerStats {
                dropped_units: (self.stats.dropped_units + 1) as u64,
                dropped_packets: (self.stats.dropped_packets + gone.len()) as u64,
                ..self.stats
            },
            ..self
        }
    }

    /// Drops the unit that the oldest buffered packet belongs to.
    pub open spec fn oldest_abandoned(self) -> Buffer {
        if self.pending.len() > 0 {
            self.abandoned(self.pending[0].timestamp)
        } else {
            self
        }
    }

    /// Skips to the first buffered partition head; without one everything is dropped.
    pub open spec fn resynced(self) -> Buffer {
        let h = first_head(self.pending);
        Buffer {
            pending: self.pending.skip(h),
            next: if h < self.pending.len() {
                Some(self.pending[h].ext)
            } else {
                None
            },
            floor: if h < self.pending.len() {
                larger(self.floor as int, self.pending[h].ext as int)
            } else if self.pending.len() > 0 {
                larger(self.floor as int, self.pending.last().ext + 1)
            } else {
                self.floor
            },
            stats: AssemblerStats {
                dropped_packets: (self.stats.dropped_packets + h) as u64,
                ..self.stats
            },
            ..self
        }
    }

    /// The buffer that a call of `pop` decides on: one that is not resynchronising, if there
    /// is a partition head.
    pub open spec fn in_step(self) -> Buffer {
        if self.next is None {
            self.resynced()
        } else {
            self
        }
    }

    /// What is to become of the unit at the head of a buffer in step.
    pub open spec fn verdict(self, now: Nanos) -> Verdict {
        let p = self.pending;
        if self.next is None || p.len() == 0 {
            Verdict::Wait
        } else if p[0].ext != self.next->0 {
            if crate::since(now, p[0].at) >= self.max_wait {
                Verdict::Abandon(p[0].timestamp)
            } else {
                Verdict::Wait
            }
        } else {
            match walk(p, 0) {
                Walk::Whole(j) => Verdict::Take(j + 1),
                Walk::NextUnit(j) => if nal_end(p[j].payload) {
                    Verdict::Take(j + 1)
                } else {
                    Verdict::Abandon(p[0].timestamp)
                },
                Walk::Gap(j) => if j + 1 < p.len() && crate::since(now, p[j + 1].at) >= self.max_wait {
                    Verdict::Abandon(p[0].timestamp)
                } else {
                    Verdict::Wait
                },
            }
        }
    }

    /// The buffer once its first `n` packets are consumed.
    pub open spec fn consumed(self, n: int) -> Buffer {
        Buffer {
            pending: self.pending.skip(n),
            next: Some((self.pending[n - 1].ext + 1) as u64),
            floor: (self.pending[n - 1].ext + 1) as u64,
            given_up: None,
            ..self
        }
    }

    /// With a unit of `n` packets counted as dropped.
    pub open spec fn one_dropped(self, n: int) -> Buffer {
        Buffer {
            stats: AssemblerStats {
                dropped_units: (self.stats.dropped_units + 1) as u64,
                dropped_packets: (self.stats.dropped_packets + n) as u64,
                ..self.stats
            },
            ..self
        }
    }

    /// The buffer after a call of `pop`, and what the call returns.
    pub open spec fn popped(self, now: Nanos) -> (Buffer, Option<Seq<u8>>)
        decreases self.pending.len(),
        via Self::popped_terminates
    {
        let b = self.in_step();
        match b.verdict(now) {
            Verdict::Wait => (b, None),
            Verdict::Abandon(timestamp) => b.abandoned(timestamp).popped(now),
            Verdict::Take(n) => {
                let c = b.consumed(n);
                match crate::client::depacketizer::access_unit(payloads(b.pending.take(n))) {
                    Some(unit) => (
                        Buffer {
                            stats: AssemblerStats {
                                access_units: (c.stats.access_units + 1) as u64,
                                ..c.stats
                            },
                            ..c
                        },
                        Some(unit),
                    ),
                    None => c.one_dropped(n).popped(now),
                }
            },
        }
    }

    #[via_fn]
    proof fn popped_terminates(self, now: Nanos) {
        lemma_kept_shrinks(self.in_step().pending);
        lemma_walk_in_range(self.in_step().pending, 0);
        lemma_first_head_in_range(self.pending);
    }

    /// The buffer with one more late packet counted.
    pub open spec fn one_late(self) -> Buffer {
        Buffer {
            stats: AssemblerStats {
                late_packets: (self.stats.late_packets + 1) as u64,
                ..self.stats
            },
            ..self
        }
    }

    /// The buffer after a packet has arrived at `now`.
    pub open spec fn pushed(
        self,
        now: Nanos,
        seq: u16,
        timestamp: u32,
        marker: bool,
        payload: Seq<u8>,
    ) -> Buffer {
        let ext = extended(self.highest, seq);
        let seen = Buffer { highest: raised(self.highest, ext), ..self };
        if ext < self.floor || self.given_up == Some(timestamp) {
            seen.one_late()
        } else {
            let stored = Buffer {
                pending: put(
                    self.pending,
                    Slot { ext: ext as u64, timestamp, marker, payload, at: now },
                ),
                ..seen
            };
            let counted = if holds(self.pending, ext) {
                stored.one_late()
            } else {
                stored
            };
            if counted.pending.len() > self.max_pending {
                counted.oldest_abandoned()
            } else {
                counted
            }
        }
    }
}

proof fn lemma_filters_split(p: Seq<Slot>, timestamp: u32)
    ensures
        kept(p, timestamp).len() + doomed(p, timestamp).len() == p.len(),
    decreases p.len(),
{
    reveal_with_fuel(Seq::filter, 1);
    if p.len() > 0 {
        lemma_filters_split(p.drop_last(), timestamp);
    }
}

proof fn lemma_kept_shrinks(p: Seq<Slot>)
    ensures
        p.len() > 0 ==> kept(p, p[0].timestamp).len() < p.len(),
        p.len() > 0 ==> doomed(p, p[0].timestamp).len() > 0,
    decreases p.len(),
{
    reveal_with_fuel(Seq::filter, 2);
    if p.len() > 0 {
        lemma_filters_split(p, p[0].timestamp);
        if p.len() > 1 {
            lemma_kept_shrinks(p.drop_last());
        } else {
            assert(p.drop_last() =~= Seq::empty());
        }
    }
}

proof fn lemma_walk_in_range(p: Seq<Slot>, i: int)
    ensures
        0 <= i < p.len() ==> match walk(p, i) {
            Walk::Whole(j) => i <= j < p.len(),
            Walk::NextUnit(j) => i <= j && j + 1 < p.len(),
            Walk::Gap(j) => i <= j < p.len(),
        },
    decreases p.len() - i,
{
    if 0 <= i < p.len() {
        lemma_walk_in_range(p, i + 1);
    }
}

proof fn lemma_first_head_in_range(p: Seq<Slot>)
    ensures
        0 <= first_head(p) <= p.len(),
    decreases p.len(),
{
    if p.len() > 0 {
        lemma_first_head_in_range(p.drop_last());
    }
}

// ------------------------------------------------------------------------------------------
// The assembler
// ------------------------------------------------------------------------------------------
struct Arrival {
    ext: u64,
    packet: RtpPacket,
    at: Nanos,
}

impl Arrival {
    spec fn slot(self) -> Slot {
        Slot {
            ext: self.ext,
            timestamp: self.packet.timestamp,
            marker: self.packet.marker,
            payload: self.packet.payload@,
            at: self.at,
        }
    }
}

spec fn slots(v: Seq<Arrival>) -> Seq<Slot> {
    Seq::new(v.len(), |i: int| v[i].slot())
}

/// Decision of [`AccessUnitAssembler::pop`] on the unit at the head of the buffer.
enum Decision {
    Wait,
    Abandon(u32),
    Take(usize),
}

impl Decision {
    spec fn verdict(self) -> Verdict {
        match self {
            Decision::Wait => Verdict::Wait,
            Decision::Abandon(timestamp) => Verdict::Abandon(timestamp),
            Decision::Take(n) => Verdict::Take(n as int),
        }
    }
}

/// Collects the packets of one video stream and hands out its access units.
pub struct AccessUnitAssembler {
    pending: Vec<Arrival>,
    unwrapper: SeqUnwrapper,
    next: Option<u64>,
    floor: u64,
    given_up: Option<u32>,
    /// How long a missing packet is waited for before its unit is abandoned.
    pub max_wait: Nanos,
    /// Buffer bound in packets; exceeding it abandons the oldest unit.
    pub max_pending: usize,
    pub stats: AssemblerStats,
}

impl View for AccessUnitAssembler {
    type V = Buffer;

    closed spec fn view(&self) -> Buffer {
        Buffer {
            pending: slots(self.pending@),
            highest: self.unwrapper.highest,
            next: self.next,
            floor: self.floor,
            given_up: self.given_up,
            stats: self.stats,
            max_wait: self.max_wait,
            max_pending: self.max_pending,
        }
    }
}

impl AccessUnitAssembler {
    pub fn new(max_wait: Nanos, max_pending: usize) -> (r: Self)
        ensures
            r@.valid(),
            r@ == (Buffer {
                pending: Seq::empty(),
                highest: None,
                next: None,
                floor: 0,
                given_up: None,
                stats: AssemblerStats::zero(),
                max_wait,
                max_pending: if max_pending < 2 {
                    2
                } else {
                    max_pending
                },
            }),
    {
        let r = AccessUnitAssembler {
            pending: Vec::new(),
            unwrapper: SeqUnwrapper::default(),
            next: None,
            floor: 0,
            given_up: None,
            max_wait,
            max_pending: if max_pending < 2 {
                2
            } else {
                max_pending
            },
            stats: AssemblerStats::default(),
        };
        assert(slots(r.pending@) =~= Seq::empty());
        r
    }

    /// Buffers one RTP packet. `now` is its arrival time.
    #[verifier::spinoff_prover]
    pub fn push(&mut self, now: Nanos, packet: RtpPacket)
        requires
            old(self)@.valid(),
            old(self)@.has_room(),
        ensures
            final(self)@ == old(self)@.pushed(
                now,
                packet.sequence_number,
                packet.timestamp,
                packet.marker,
                packet.payload@,
            ),
            final(self)@.valid(),
    {
        let ghost start = self@;
        let ext = self.unwrapper.extend(packet.sequence_number);
        let of_given_up = match self.given_up {
            Some(t) => t == packet.timestamp,
            None => false,
        };
        if ext < self.floor || of_given_up {
            self.stats.late_packets = self.stats.late_packets + 1;
            return;
        }
        let arrival = Arrival { ext, packet, at: now };
        let ghost slot = arrival.slot();
        let mut k: usize = self.pending.len();
        assert(start.pending.take(k as int) =~= start.pending);
        while k > 0 && self.pending[k - 1].ext >= ext
            invariant
                k <= self.pending.len(),
                start.pending == slots(self.pending@),
                position(start.pending, ext as int) == position(
                    start.pending.take(k as int),
                    ext as int,
                ),
                forall|i: int| k <= i < start.pending.len() ==> start.pending[i].ext >= ext,
            decreases k,
        {
            assert(start.pending.take(k as int).drop_last() =~= start.pending.take(k - 1));
            assert(start.pending.take(k as int).last() == start.pending[k - 1]);
            k = k - 1;
        }
        assert(position(start.pending, ext as int) == k) by {
            if k > 0 {
                assert(start.pending.take(k as int).last() == start.pending[k - 1]);
            }
        }
        if k < self.pending.len() && self.pending[k].ext == ext {
            // Same sequence number twice (retransmission of a packet we already have).
            self.pending.set(k, arrival);
            self.stats.late_packets = self.stats.late_packets + 1;
        } else {
            self.pending.insert(k, arrival);
        }
        assert(slots(self.pending@) =~= put(start.pending, slot));
        proof {
            lemma_stored(start, slot);
        }
        if self.pending.len() > self.max_pending {
            self.abandon_oldest_unit();
        }
    }

    /// Returns the next complete access unit (Annex B), if any.
    pub fn pop(&mut self, now: Nanos) -> (r: Option<Vec<u8>>)
        requires
            old(self)@.valid(),
            old(self)@.has_room(),
        ensures
            final(self)@ == old(self)@.popped(now).0,
            match r {
                Some(unit) => old(self)@.popped(now).1 == Some(unit@),
                None => old(self)@.popped(now).1 is None,
            },
            final(self)@.valid(),
    {
        let ghost start = self@;
        loop
            invariant
                start == old(self)@,
                self@.valid(),
                self@.has_room(),
                start.popped(now) == self@.popped(now),
            decreases self@.pending.len(),
        {
            let ghost before = self@;
            proof {
                lemma_first_head_in_range(before.pending);
            }
            if self.next.is_none() {
                self.resync();
            }
            let ghost b = self@;
            assert(b == before.in_step());
            proof {
                lemma_walk_in_range(b.pending, 0);
                lemma_kept_shrinks(b.pending);
                lemma_filters_split(b.pending, b.pending[0].timestamp);
            }
            match self.decide(now) {
                Decision::Wait => {
                    return None;
                },
                Decision::Abandon(timestamp) => {
                    self.abandon_unit(timestamp);
                },
                Decision::Take(n) => {
                    let unit = self.take_unit(n);
                    match depacketize_unit(&unit) {
                        Some(out) => {
                            self.stats.access_units = self.stats.access_units + 1;
                            return Some(out);
                        },
                        None => {
                            self.stats.dropped_units = self.stats.dropped_units + 1;
                            self.stats.dropped_packets = self.stats.dropped_packets + n as u64;
                        },
                    }
                },
            }
        }
    }

    /// What is to become of the unit at the head of the buffer.
    fn decide(&self, now: Nanos) -> (r: Decision)
        requires
            self@.valid(),
        ensures
            r.verdict() == self@.verdict(now),
    {
        let ghost p = self@.pending;
        let next = match self.next {
            Some(n) => n,
            None => {
                return Decision::Wait;
            },
        };
        if self.pending.len() == 0 {
            return Decision::Wait;
        }
        let timestamp = self.pending[0].packet.timestamp;
        if self.pending[0].ext != next {
            // The head packet is missing: wait for it as long as the packets behind it
            // are younger than `max_wait`, then give the unit up.
            return if elapsed_since(now, self.pending[0].at) >= self.max_wait {
                Decision::Abandon(timestamp)
            } else {
                Decision::Wait
            };
        }
        let mut j: usize = 0;
        while !self.pending[j].packet.marker && j + 1 < self.pending.len()
            && self.pending[j + 1].ext == self.pending[j].ext + 1
            && self.pending[j + 1].packet.timestamp == timestamp
            invariant
                j < self.pending.len(),
                p == slots(self.pending@),
                self@.valid(),
                p == self@.pending,
                p[j as int].timestamp == timestamp,
                walk(p, 0) == walk(p, j as int),
            decreases self.pending.len() - j,
        {
            assert(p[j as int].ext < p[j + 1].ext);
            j = j + 1;
        }
        if self.pending[j].packet.marker {
            Decision::Take(j + 1)
        } else if j + 1 < self.pending.len() && self.pending[j + 1].ext - self.pending[j].ext == 1 {
            // Marker lost. Complete if the last packet closed a NAL unit.
            if ends_nal_unit(self.pending[j].packet.payload.as_slice()) {
                Decision::Take(j + 1)
            } else {
                Decision::Abandon(timestamp)
            }
        } else if j + 1 < self.pending.len() && elapsed_since(now, self.pending[j + 1].at)
            >= self.max_wait {
            Decision::Abandon(timestamp)
        } else {
            Decision::Wait
        }
    }

    /// Takes the first `n` packets out and returns their payloads.
    fn take_unit(&mut self, n: usize) -> (r: Vec<Vec<u8>>)
        requires
            old(self)@.valid(),
            0 < n <= old(self)@.pending.len(),
        ensures
            final(self)@ == old(self)@.consumed(n as int),
            final(self)@.valid(),
            crate::client::depacketizer::byte_strings(r@) == payloads(old(self)@.pending.take(n as int)),
    {
        let ghost start = self@;
        let end = self.pending[n - 1].ext;
        let mut unit = self.pending.split_off(n);
        std::mem::swap(&mut unit, &mut self.pending);
        assert(slots(self.pending@) =~= start.pending.skip(n as int));
        assert(start.pending[n - 1].ext < u64::MAX);
        self.next = Some(end + 1);
        self.floor = end + 1;
        self.given_up = None;
        let ghost taken = unit@;
        let mut out: Vec<Vec<u8>> = Vec::new();
        for a in it: unit
            invariant
                it.seq() == taken,
                out@.len() == it.index(),
                forall|i: int| 0 <= i < out@.len() ==> (#[trigger] out@[i])@ == taken[i].packet.payload@,
        {
            out.push(a.packet.payload);
        }
        assert(crate::client::depacketizer::byte_strings(out@) =~= payloads(start.pending.take(n as int)));
        out
    }

    /// Drops every buffered packet with `timestamp` and resynchronises.
    fn abandon_unit(&mut self, timestamp: u32)
        requires
            old(self)@.valid(),
            old(self)@.stats.dropped_units < u64::MAX,
            old(self)@.stats.dropped_packets + old(self)@.pending.len() <= u64::MAX,
        ensures
            final(self)@ == old(self)@.abandoned(timestamp),
            final(self)@.valid(),
    {
        let ghost start = self@;
        let mut all: Vec<Arrival> = Vec::new();
        std::mem::swap(&mut all, &mut self.pending);
        let ghost before = all@;
        let mut rest: Vec<Arrival> = Vec::new();
        let mut gone: u64 = 0;
        let mut floor = self.floor;
        assert(slots(before) == start.pending);
        reveal_with_fuel(Seq::filter, 1);
        assert(start.pending.take(0) =~= Seq::empty());
        for a in it: all
            invariant
                it.seq() == before,
                slots(before) == start.pending,
                start.valid(),
                start.stats.dropped_packets + start.pending.len() <= u64::MAX,
                slots(rest@) == kept(start.pending.take(it.index() as int), timestamp),
                gone == doomed(start.pending.take(it.index() as int), timestamp).len(),
                gone <= it.index(),
                gone == 0 ==> floor == start.floor,
                gone > 0 ==> floor == larger(
                    start.floor as int,
                    doomed(start.pending.take(it.index() as int), timestamp).last().ext + 1,
                ),
                gone > 0 ==> doomed(start.pending.take(it.index() as int), timestamp).last().ext
                    <= start.pending[it.index() - 1].ext,
        {
            let ghost i = it.index() as int;
            assert(a == before[i]);
            assert(start.pending[i] == a.slot());
            assert(start.pending.take(i + 1).drop_last() =~= start.pending.take(i));
            assert(start.pending.take(i + 1).last() == start.pending[i]);
            reveal_with_fuel(Seq::filter, 1);
            if a.packet.timestamp == timestamp {
                gone = gone + 1;
                if floor < a.ext + 1 {
                    floor = a.ext + 1;
                }
            } else {
                let ghost had = rest@;
                rest.push(a);
                assert(slots(rest@) =~= slots(had).push(a.slot()));
            }
        }
        assert(start.pending.take(start.pending.len() as int) =~= start.pending);
        self.pending = rest;
        self.stats.dropped_units = self.stats.dropped_units + 1;
        self.stats.dropped_packets = self.stats.dropped_packets + gone;
        self.floor = floor;
        self.given_up = Some(timestamp);
        self.next = None;
        proof {
            lemma_kept_valid(start.pending, timestamp);
        }
    }

    /// Abandons the unit the oldest buffered packet belongs to.
    fn abandon_oldest_unit(&mut self)
        requires
            old(self)@.valid(),
            old(self)@.stats.dropped_units < u64::MAX,
            old(self)@.stats.dropped_packets + old(self)@.pending.len() <= u64::MAX,
        ensures
            final(self)@ == old(self)@.oldest_abandoned(),
            final(self)@.valid(),
    {
        if self.pending.len() > 0 {
            let timestamp = self.pending[0].packet.timestamp;
            self.abandon_unit(timestamp);
        }
    }

    /// After a drop: skip to the first buffered partition head and start there.
    fn resync(&mut self) -> (r: Option<u64>)
        requires
            old(self)@.valid(),
            old(self)@.next is None,
            old(self)@.stats.dropped_packets + old(self)@.pending.len() <= u64::MAX,
        ensures
            final(self)@ == old(self)@.resynced(),
            r == final(self)@.next,
            final(self)@.valid(),
    {
        let ghost start = self@;
        let ghost p = start.pending;
        let mut h: usize = 0;
        assert(p.take(0) =~= Seq::empty());
        while h < self.pending.len() && !is_partition_head(self.pending[h].packet.payload.as_slice())
            invariant
                h <= self.pending.len(),
                p == slots(self.pending@),
                first_head(p.take(h as int)) == h,
            decreases self.pending.len() - h,
        {
            assert(p.take(h + 1).drop_last() =~= p.take(h as int));
            assert(p.take(h + 1).last() == p[h as int]);
            h = h + 1;
        }
        proof {
            if h < p.len() {
                assert(p.take(h + 1).drop_last() =~= p.take(h as int));
                assert(p.take(h + 1).last() == p[h as int]);
                lemma_first_head_found(p, h as int);
            } else {
                assert(p.take(h as int) =~= p);
            }
        }
        self.stats.dropped_packets = self.stats.dropped_packets + h as u64;
        if h < self.pending.len() {
            let k = self.pending[h].ext;
            let mut tail = self.pending.split_off(h);
            std::mem::swap(&mut tail, &mut self.pending);
            assert(slots(self.pending@) =~= p.skip(h as int));
            if self.floor < k {
                self.floor = k;
            }
            self.next = Some(k);
        } else {
            // Nothing usable buffered; forget whatever is there (mid-unit fragments).
            if self.pending.len() > 0 {
                let last = self.pending[self.pending.len() - 1].ext;
                if self.floor < last + 1 {
                    self.floor = last + 1;
                }
            }
            self.pending.clear();
            assert(slots(self.pending@) =~= p.skip(h as int));
        }
        self.next
    }

    /// Whether the counters and sequence numbers are far enough from their limits for one more
    /// packet, or one more call of [`AccessUnitAssembler::pop`].
    pub fn has_room(&self) -> (r: bool)
        ensures
            r == self@.has_room(),
    {
        let numbers = match self.unwrapper.highest {
            Some(h) => FIRST_EXTENDED <= h && h <= u64::MAX - 0x8000,
            None => true,
        };
        let most: u128 = u64::MAX as u128;
        let held: u128 = self.pending.len() as u128;
        numbers && self.stats.access_units < u64::MAX && self.stats.late_packets < u64::MAX
            && (self.stats.dropped_units as u128) + held < most
            && (self.stats.dropped_packets as u128) + held < most
    }

    /// The counters.
    pub fn stats(&self) -> (r: AssemblerStats)
        ensures
            r == self@.stats,
    {
        self.stats
    }

    /// Packets currently buffered.
    pub fn pending(&self) -> (r: usize)
        ensures
            r == self@.pending.len(),
    {
        self.pending.len()
    }
}

pub(crate) proof fn lemma_first_head_found(p: Seq<Slot>, h: int)
    requires
        0 <= h < p.len(),
        first_head(p.take(h + 1)) == h,
    ensures
        first_head(p) == h,
    decreases p.len(),
{
    if p.len() > h + 1 {
        assert(p.drop_last().take(h + 1) =~= p.take(h + 1));
        lemma_first_head_found(p.drop_last(), h);
    } else {
        assert(p.take(h + 1) =~= p);
    }
}

pub(crate) proof fn lemma_kept_valid(p: Seq<Slot>, timestamp: u32)
    ensures
        forall|i: int|
            0 <= i < kept(p, timestamp).len() ==> p.contains(#[trigger] kept(p, timestamp)[i])
                && kept(p, timestamp)[i].timestamp != timestamp,
        ordered(p) ==> ordered(kept(p, timestamp)),
    decreases p.len(),
{
    reveal_with_fuel(Seq::filter, 1);
    if p.len() > 0 {
        let q = p.drop_last();
        lemma_kept_valid(q, timestamp);
        assert forall|i: int| 0 <= i < kept(p, timestamp).len() implies p.contains(
            #[trigger] kept(p, timestamp)[i],
        ) && kept(p, timestamp)[i].timestamp != timestamp by {
            if i < kept(q, timestamp).len() {
                let k = choose|k: int| 0 <= k < q.len() && q[k] == kept(q, timestamp)[i];
                assert(p[k] == kept(p, timestamp)[i]);
            } else {
                assert(p[p.len() - 1] == kept(p, timestamp)[i]);
            }
        }
        if ordered(p) {
            assert(ordered(q)) by {
                assert forall|i: int, j: int| 0 <= i < j < q.len() implies (#[trigger] q[i]).ext < (
                #[trigger] q[j]).ext by {
                    assert(p[i].ext < p[j].ext);
                }
            }
            let f = kept(p, timestamp);
            assert forall|i: int, j: int| 0 <= i < j < f.len() implies (#[trigger] f[i]).ext < (
            #[trigger] f[j]).ext by {
                assert(kept(q, timestamp)[i] == f[i]);
                if j < kept(q, timestamp).len() {
                    assert(kept(q, timestamp)[j] == f[j]);
                } else {
                    let k = choose|k: int| 0 <= k < q.len() && q[k] == kept(q, timestamp)[i];
                    assert(p[k].ext < p[p.len() - 1].ext);
                }
            }
        }
    }
}

// ------------------------------------------------------------------------------------------
// Laws
// ------------------------------------------------------------------------------------------
/// What became of the packets of `a` on the way to `b`: the floor has not gone down, and each
/// packet is still buffered or lies below the floor.
pub open spec fn gone_for_good(a: Buffer, b: Buffer) -> bool {
    &&& a.floor <= b.floor
    &&& forall|i: int|
        0 <= i < a.pending.len() ==> b.pending.contains(#[trigger] a.pending[i])
            || a.pending[i].ext < b.floor
}

impl Buffer {
    /// The packets of each unit stand next to each other, and none stands below the floor. Only
    /// a stream whose timestamps do not come in order is tangled.
    pub open spec fn untangled(self) -> bool {
        &&& forall|a: int, b: int, c: int|
            0 <= a < b < c < self.pending.len() && (#[trigger] self.pending[a]).timestamp == (
            #[trigger] self.pending[c]).timestamp ==> (#[trigger] self.pending[b]).timestamp
                == self.pending[a].timestamp
        &&& self.pending.len() > 0 ==> self.floor <= self.pending[0].ext
    }

    /// No packet below this is buffered, and as it is not above the floor, none is taken up.
    pub open spec fn bottom(self) -> int {
        if self.pending.len() > 0 && self.pending[0].ext < self.floor {
            self.pending[0].ext as int
        } else {
            self.floor as int
        }
    }
}

pub(crate) proof fn lemma_kept_behind(p: Seq<Slot>, timestamp: u32, k: int)
    requires
        0 <= k <= p.len(),
        forall|i: int| 0 <= i < p.len() ==> ((#[trigger] p[i]).timestamp == timestamp <==> i < k),
    ensures
        kept(p, timestamp) == p.skip(k),
        doomed(p, timestamp) == p.take(k),
    decreases p.len(),
{
    reveal_with_fuel(Seq::filter, 1);
    if p.len() > 0 {
        let q = p.drop_last();
        assert forall|i: int| 0 <= i < q.len() implies ((#[trigger] q[i]).timestamp == timestamp
            <==> i < k) by {
            assert(q[i] == p[i]);
        }
        if k == p.len() {
            lemma_kept_behind(q, timestamp, k - 1);
            assert(p[p.len() - 1].timestamp == timestamp);
            assert(q.skip(k - 1) =~= Seq::empty());
            assert(p.skip(k) =~= Seq::empty());
            assert(p.take(k) =~= q.take(k - 1).push(p.last()));
        } else {
            lemma_kept_behind(q, timestamp, k);
            assert(p[p.len() - 1].timestamp != timestamp);
            assert(p.skip(k) =~= q.skip(k).push(p.last()));
            assert(p.take(k) =~= q.take(k));
        }
    } else {
        assert(p.skip(k) =~= Seq::empty());
        assert(p.take(k) =~= Seq::empty());
    }
}

proof fn lemma_suffix_untangled(p: Seq<Slot>, n: int)
    requires
        0 <= n <= p.len(),
        forall|a: int, b: int, c: int|
            0 <= a < b < c < p.len() && (#[trigger] p[a]).timestamp == (#[trigger] p[c]).timestamp
                ==> (#[trigger] p[b]).timestamp == p[a].timestamp,
    ensures
        ({
            let q = p.skip(n);
            forall|a: int, b: int, c: int|
                0 <= a < b < c < q.len() && (#[trigger] q[a]).timestamp == (
                #[trigger] q[c]).timestamp ==> (#[trigger] q[b]).timestamp == q[a].timestamp
        }),
{
    let q = p.skip(n);
    assert forall|a: int, b: int, c: int|
        0 <= a < b < c < q.len() && (#[trigger] q[a]).timestamp == (
        #[trigger] q[c]).timestamp implies (#[trigger] q[b]).timestamp == q[a].timestamp by {
        assert(p[a + n].timestamp == p[c + n].timestamp);
        assert(p[b + n].timestamp == p[a + n].timestamp);
    }
}

proof fn lemma_gone_chains(a: Buffer, b: Buffer, c: Buffer)
    requires
        gone_for_good(a, b),
        gone_for_good(b, c),
    ensures
        gone_for_good(a, c),
{
    assert forall|i: int| 0 <= i < a.pending.len() implies c.pending.contains(
        #[trigger] a.pending[i],
    ) || a.pending[i].ext < c.floor by {
        if a.pending[i].ext >= b.floor {
            let k = choose|k: int| 0 <= k < b.pending.len() && b.pending[k] == a.pending[i];
            assert(c.pending.contains(b.pending[k]) || b.pending[k].ext < c.floor);
        }
    }
}

proof fn lemma_filters_cover(p: Seq<Slot>, timestamp: u32)
    requires
        ordered(p),
    ensures
        forall|i: int|
            0 <= i < p.len() ==> kept(p, timestamp).contains(#[trigger] p[i]) || (doomed(
                p,
                timestamp,
            ).len() > 0 && p[i].ext <= doomed(p, timestamp).last().ext),
        doomed(p, timestamp).len() > 0 ==> p.contains(doomed(p, timestamp).last()),
    decreases p.len(),
{
    reveal_with_fuel(Seq::filter, 1);
    if p.len() > 0 {
        let q = p.drop_last();
        assert forall|i: int, j: int| 0 <= i < j < q.len() implies (#[trigger] q[i]).ext < (
        #[trigger] q[j]).ext by {
            assert(p[i].ext < p[j].ext);
        }
        lemma_filters_cover(q, timestamp);
        assert forall|i: int| 0 <= i < p.len() implies kept(p, timestamp).contains(
            #[trigger] p[i],
        ) || (doomed(p, timestamp).len() > 0 && p[i].ext <= doomed(p, timestamp).last().ext) by {
            if i < q.len() {
                assert(q[i] == p[i]);
                if kept(q, timestamp).contains(q[i]) {
                    let k = choose|k: int|
                        0 <= k < kept(q, timestamp).len() && kept(q, timestamp)[k] == q[i];
                    assert(kept(p, timestamp)[k] == p[i]);
                }
            } else if p[i].timestamp != timestamp {
                assert(kept(p, timestamp).last() == p[i]);
            }
        }
        if doomed(p, timestamp).len() > 0 {
            if p.last().timestamp == timestamp {
                assert(p[p.len() - 1] == doomed(p, timestamp).last());
            } else {
                let k = choose|k: int| 0 <= k < q.len() && q[k] == doomed(q, timestamp).last();
                assert(p[k] == doomed(p, timestamp).last());
            }
        }
    }
}

pub(crate) proof fn lemma_abandoned(b: Buffer, timestamp: u32)
    requires
        b.valid(),
    ensures
        b.abandoned(timestamp).valid(),
        gone_for_good(b, b.abandoned(timestamp)),
        b.bottom() <= b.abandoned(timestamp).bottom(),
{
    lemma_kept_valid(b.pending, timestamp);
    lemma_filters_cover(b.pending, timestamp);
    lemma_filters_split(b.pending, timestamp);
    let c = b.abandoned(timestamp);
    assert forall|i: int| 0 <= i < c.pending.len() implies (
    #[trigger] c.pending[i]).ext <= c.highest->0 && b.pending[0].ext <= c.pending[i].ext by {
        assert(b.pending.contains(kept(b.pending, timestamp)[i]));
        let k = choose|k: int| 0 <= k < b.pending.len() && b.pending[k] == c.pending[i];
        assert(b.pending[k].ext <= b.highest->0);
        assert(k == 0 || b.pending[0].ext < b.pending[k].ext);
    }
}

proof fn lemma_in_step(b: Buffer)
    requires
        b.valid(),
    ensures
        b.in_step().valid(),
        gone_for_good(b, b.in_step()),
        b.in_step().pending.len() <= b.pending.len(),
        b.bottom() <= b.in_step().bottom(),
        b.untangled() ==> b.in_step().untangled(),
{
    lemma_first_head_in_range(b.pending);
    let h = first_head(b.pending);
    let c = b.in_step();
    if b.next is None {
        if h < b.pending.len() {
            assert(c.pending[0] == b.pending[h]);
            assert(h == 0 || b.pending[0].ext < b.pending[h].ext);
        }
        if b.untangled() {
            lemma_suffix_untangled(b.pending, h);
        }
    }
    assert forall|i: int| 0 <= i < b.pending.len() implies c.pending.contains(
        #[trigger] b.pending[i],
    ) || b.pending[i].ext < c.floor by {
        if b.next is None {
            if i >= h {
                assert(c.pending[i - h] == b.pending[i]);
            }
        } else {
            assert(c.pending[i] == b.pending[i]);
        }
    }
}

proof fn lemma_consumed(b: Buffer, n: int)
    requires
        b.valid(),
        0 < n <= b.pending.len(),
    ensures
        b.consumed(n).valid(),
        b.floor <= b.pending[n - 1].ext + 1 ==> gone_for_good(b, b.consumed(n)),
        b.bottom() <= b.consumed(n).bottom(),
        b.consumed(n).bottom() == b.consumed(n).floor,
{
    let c = b.consumed(n);
    if n < b.pending.len() {
        assert(c.pending[0] == b.pending[n]);
    }
    assert forall|i: int| 0 <= i < b.pending.len() implies c.pending.contains(
        #[trigger] b.pending[i],
    ) || b.pending[i].ext < c.floor by {
        if i >= n {
            assert(c.pending[i - n] == b.pending[i]);
        }
    }
}

/// Dropping the unit at the head of an untangled buffer leaves an untangled one.
proof fn lemma_head_abandoned(b: Buffer)
    requires
        b.valid(),
        b.untangled(),
        b.pending.len() > 0,
    ensures
        b.abandoned(b.pending[0].timestamp).untangled(),
{
    let p = b.pending;
    let timestamp = p[0].timestamp;
    let k = block_end(p, 1);
    lemma_block_end(p, 1);
    lemma_kept_behind(p, timestamp, k);
    lemma_suffix_untangled(p, k);
    assert(p.take(k).last() == p[k - 1]);
    let c = b.abandoned(timestamp);
    if k < p.len() {
        assert(c.pending[0] == p[k]);
        assert(p[k - 1].ext < p[k].ext);
    }
}

/// The end of the packets at the head that share their timestamp.
spec fn block_end(p: Seq<Slot>, i: int) -> int
    decreases p.len() - i,
{
    if 0 < i < p.len() && p[i].timestamp == p[0].timestamp {
        block_end(p, i + 1)
    } else {
        i
    }
}

proof fn lemma_block_end(p: Seq<Slot>, i: int)
    requires
        0 < i <= p.len(),
        forall|a: int, b: int, c: int|
            0 <= a < b < c < p.len() && (#[trigger] p[a]).timestamp == (#[trigger] p[c]).timestamp
                ==> (#[trigger] p[b]).timestamp == p[a].timestamp,
        forall|a: int| 0 <= a < i ==> (#[trigger] p[a]).timestamp == p[0].timestamp,
    ensures
        i <= block_end(p, i) <= p.len(),
        forall|a: int|
            0 <= a < p.len() ==> ((#[trigger] p[a]).timestamp == p[0].timestamp <==> a < block_end(
                p,
                i,
            )),
    decreases p.len() - i,
{
    if i < p.len() && p[i].timestamp == p[0].timestamp {
        lemma_block_end(p, i + 1);
    } else {
        assert forall|a: int| 0 <= a < p.len() implies ((#[trigger] p[a]).timestamp
            == p[0].timestamp <==> a < i) by {
            if a > i && p[a].timestamp == p[0].timestamp {
                assert(p[i].timestamp == p[0].timestamp);
            }
        }
    }
}

/// A packet that leaves an untangled buffer in `pop`, emitted or dropped, lies below the floor
/// from then on, and the floor never goes down: no packet of a finished unit is ever taken up
/// again. The buffer stays untangled.
pub proof fn pop_finishes_packets_for_good(b: Buffer, now: Nanos)
    requires
        b.valid(),
        b.untangled(),
    ensures
        gone_for_good(b, b.popped(now).0),
        b.popped(now).0.untangled(),
    decreases b.pending.len(),
{
    let c = b.in_step();
    lemma_in_step(b);
    lemma_walk_in_range(c.pending, 0);
    match c.verdict(now) {
        Verdict::Wait => {},
        Verdict::Abandon(timestamp) => {
            lemma_kept_shrinks(c.pending);
            lemma_abandoned(c, timestamp);
            lemma_head_abandoned(c);
            pop_finishes_packets_for_good(c.abandoned(timestamp), now);
            lemma_gone_chains(b, c, c.abandoned(timestamp));
            lemma_gone_chains(b, c.abandoned(timestamp), b.popped(now).0);
        },
        Verdict::Take(n) => {
            let d = c.consumed(n);
            if n > 1 {
                assert(c.pending[0].ext < c.pending[n - 1].ext);
            }
            lemma_consumed(c, n);
            lemma_gone_chains(b, c, d);
            assert(d.untangled()) by {
                if n < c.pending.len() {
                    assert(d.pending[0] == c.pending[n]);
                }
                lemma_suffix_untangled(c.pending, n);
            }
            if crate::client::depacketizer::access_unit(payloads(c.pending.take(n))) is None {
                let e = d.one_dropped(n);
                pop_finishes_packets_for_good(e, now);
                lemma_gone_chains(b, e, b.popped(now).0);
            }
        },
    }
}

/// Whatever the order of the timestamps: no call lowers the bottom of the buffer, and all packets
/// up to the end of a unit that comes out lie below it. So no packet of such a unit is ever taken
/// up again.
pub proof fn emitted_packets_stay_out(b: Buffer, now: Nanos)
    requires
        b.valid(),
    ensures
        b.popped(now).0.valid(),
        b.bottom() <= b.popped(now).0.bottom(),
        b.popped(now).1 is Some ==> b.popped(now).0.next == Some(b.popped(now).0.floor)
            && b.popped(now).0.bottom() == b.popped(now).0.floor,
    decreases b.pending.len(),
{
    let c = b.in_step();
    lemma_in_step(b);
    lemma_walk_in_range(c.pending, 0);
    match c.verdict(now) {
        Verdict::Wait => {},
        Verdict::Abandon(timestamp) => {
            lemma_kept_shrinks(c.pending);
            lemma_abandoned(c, timestamp);
            emitted_packets_stay_out(c.abandoned(timestamp), now);
        },
        Verdict::Take(n) => {
            let d = c.consumed(n);
            lemma_consumed(c, n);
            if crate::client::depacketizer::access_unit(payloads(c.pending.take(n))) is None {
                emitted_packets_stay_out(d.one_dropped(n), now);
            }
        },
    }
}

/// The counters tell what a call of `pop` did: the units that came out are counted, one for each
/// call that returns one, and packets leave the buffer only with that unit or counted as
/// dropped. The drop counters never fall, the buffer never grows, and nothing counts as late.
pub proof fn pop_counts_what_it_does(b: Buffer, now: Nanos)
    requires
        b.valid(),
        b.has_room(),
    ensures
        ({
            let (c, unit) = b.popped(now);
            &&& c.stats.access_units == b.stats.access_units + if unit is Some {
                1int
            } else {
                0int
            }
            &&& c.stats.dropped_units >= b.stats.dropped_units
            &&& c.stats.dropped_packets >= b.stats.dropped_packets
            &&& c.stats.late_packets == b.stats.late_packets
            &&& c.pending.len() <= b.pending.len()
            &&& unit is None ==> c.stats.dropped_packets + c.pending.len()
                == b.stats.dropped_packets + b.pending.len()
            &&& unit is Some ==> c.stats.dropped_packets + c.pending.len()
                < b.stats.dropped_packets + b.pending.len()
        }),
    decreases b.pending.len(),
{
    let c = b.in_step();
    lemma_in_step(b);
    lemma_first_head_in_range(b.pending);
    lemma_walk_in_range(c.pending, 0);
    match c.verdict(now) {
        Verdict::Wait => {},
        Verdict::Abandon(timestamp) => {
            lemma_kept_shrinks(c.pending);
            lemma_filters_split(c.pending, timestamp);
            lemma_abandoned(c, timestamp);
            pop_counts_what_it_does(c.abandoned(timestamp), now);
        },
        Verdict::Take(n) => {
            let d = c.consumed(n);
            lemma_consumed(c, n);
            if crate::client::depacketizer::access_unit(payloads(c.pending.take(n))) is None {
                pop_counts_what_it_does(d.one_dropped(n), now);
            }
        },
    }
}

/// A packet below the floor, or of the unit abandoned last, changes nothing but the count of
/// late packets (and the highest sequence number seen): packets of consumed and abandoned units
/// are ignored.
pub proof fn late_packets_are_ignored(
    b: Buffer,
    now: Nanos,
    seq: u16,
    timestamp: u32,
    marker: bool,
    payload: Seq<u8>,
)
    requires
        b.valid(),
        b.has_room(),
        extended(b.highest, seq) < b.floor || b.given_up == Some(timestamp),
    ensures
        ({
            let c = b.pushed(now, seq, timestamp, marker, payload);
            &&& c.pending == b.pending
            &&& c.next == b.next
            &&& c.floor == b.floor
            &&& c.given_up == b.given_up
            &&& c.stats == (AssemblerStats {
                late_packets: (b.stats.late_packets + 1) as u64,
                ..b.stats
            })
        }),
{
}

/// A packet that is taken up keeps the buffer valid.
proof fn lemma_stored(b: Buffer, s: Slot)
    requires
        b.valid(),
        seq_room(b.highest),
        b.floor <= s.ext,
        b.given_up != Some(s.timestamp),
        b.highest is None ==> FIRST_EXTENDED <= s.ext,
        s.ext < u64::MAX,
    ensures
        (Buffer {
            pending: put(b.pending, s),
            highest: raised(b.highest, s.ext as int),
            ..b
        }).valid(),
{
    put_replaces_one_packet(b.pending, s);
    let c = Buffer {
        pending: put(b.pending, s),
        highest: raised(b.highest, s.ext as int),
        ..b
    };
    assert forall|i: int| 0 <= i < c.pending.len() implies (#[trigger] c.pending[i]).ext
        <= c.highest->0 && (b.next is Some ==> c.pending[i].ext >= b.next->0) && (b.given_up is Some
        ==> c.pending[i].timestamp != b.given_up->0) by {
        let x = c.pending[i];
        assert(put(b.pending, s).contains(x));
        if x.ext != s.ext {
            let k = choose|k: int| 0 <= k < b.pending.len() && b.pending[k] == x;
            assert(b.pending[k].ext <= b.highest->0);
        }
    }
}

/// A packet that leaves the buffer in `push` lies below the floor from then on, and neither the
/// floor nor the bottom goes down. The one exception is a packet replaced by another with its number.
pub proof fn push_finishes_packets_for_good(
    b: Buffer,
    now: Nanos,
    seq: u16,
    timestamp: u32,
    marker: bool,
    payload: Seq<u8>,
)
    requires
        b.valid(),
        b.has_room(),
    ensures
        ({
            let c = b.pushed(now, seq, timestamp, marker, payload);
            &&& c.valid()
            &&& b.floor <= c.floor
            &&& b.bottom() <= c.bottom()
            &&& forall|i: int|
                0 <= i < b.pending.len() && b.pending[i].ext != extended(b.highest, seq)
                    ==> c.pending.contains(#[trigger] b.pending[i]) || b.pending[i].ext < c.floor
        }),
{
    let c = b.pushed(now, seq, timestamp, marker, payload);
    let ext = extended(b.highest, seq);
    if ext < b.floor || b.given_up == Some(timestamp) {
        assert forall|i: int| 0 <= i < b.pending.len() implies c.pending.contains(
            #[trigger] b.pending[i],
        ) by {
            assert(c.pending[i] == b.pending[i]);
        }
    } else {
        let slot = Slot { ext: ext as u64, timestamp, marker, payload, at: now };
        let stored = Buffer {
            pending: put(b.pending, slot),
            highest: raised(b.highest, ext),
            ..b
        };
        let counted = if holds(b.pending, ext) {
            stored.one_late()
        } else {
            stored
        };
        put_replaces_one_packet(b.pending, slot);
        lemma_stored(b, slot);
        assert(counted.valid());
        assert(b.bottom() <= counted.bottom()) by {
            let x = counted.pending[0];
            assert(put(b.pending, slot).contains(x));
            if x.ext != slot.ext {
                let k = choose|k: int| 0 <= k < b.pending.len() && b.pending[k] == x;
                assert(k == 0 || b.pending[0].ext < b.pending[k].ext);
            }
        }
        if counted.pending.len() > b.max_pending {
            lemma_abandoned(counted, counted.pending[0].timestamp);
        }
        assert forall|i: int|
            0 <= i < b.pending.len() && b.pending[i].ext != ext implies c.pending.contains(
            #[trigger] b.pending[i],
        ) || b.pending[i].ext < c.floor by {
            assert(put(b.pending, slot).contains(b.pending[i]));
            let k = choose|k: int|
                0 <= k < counted.pending.len() && counted.pending[k] == b.pending[i];
            assert(counted.pending[k] == b.pending[i]);
        }
    }
}

/// The buffer never holds more than `max_pending` packets.
pub proof fn buffer_is_bounded(
    b: Buffer,
    now: Nanos,
    seq: u16,
    timestamp: u32,
    marker: bool,
    payload: Seq<u8>,
)
    requires
        b.valid(),
        b.pending.len() <= b.max_pending,
    ensures
        b.pushed(now, seq, timestamp, marker, payload).pending.len() <= b.max_pending,
{
    let ext = extended(b.highest, seq);
    let p = put(b.pending, Slot { ext: ext as u64, timestamp, marker, payload, at: now });
    lemma_position(b.pending, ext);
    lemma_position(b.pending, ext as u64 as int);
    lemma_kept_shrinks(p);
}

pub(crate) proof fn lemma_position(p: Seq<Slot>, ext: int)
    ensures
        0 <= position(p, ext) <= p.len(),
        forall|i: int| position(p, ext) <= i < p.len() ==> (#[trigger] p[i]).ext >= ext,
        position(p, ext) > 0 ==> p[position(p, ext) - 1].ext < ext,
        ordered(p) ==> forall|i: int|
            0 <= i < position(p, ext) ==> (#[trigger] p[i]).ext < ext,
    decreases p.len(),
{
    if p.len() > 0 && p.last().ext >= ext {
        let q = p.drop_last();
        lemma_position(q, ext);
        assert forall|i: int| position(p, ext) <= i < p.len() implies (#[trigger] p[i]).ext
            >= ext by {
            if i < q.len() {
                assert(q[i] == p[i]);
            }
        }
        if ordered(p) {
            assert forall|i: int, j: int| 0 <= i < j < q.len() implies (#[trigger] q[i]).ext < (
            #[trigger] q[j]).ext by {
                assert(p[i].ext < p[j].ext);
            }
            assert forall|i: int| 0 <= i < position(p, ext) implies (#[trigger] p[i]).ext < ext by {
                assert(q[i] == p[i]);
            }
        }
    }
}

/// What `put` does to the packets: the new one is there, those with another number stay, and
/// nothing else comes in.
pub proof fn put_replaces_one_packet(p: Seq<Slot>, s: Slot)
    requires
        ordered(p),
    ensures
        ordered(put(p, s)),
        put(p, s).contains(s),
        forall|x: Slot| x.ext != s.ext ==> (#[trigger] put(p, s).contains(x) <==> p.contains(x)),
        forall|x: Slot| x.ext == s.ext && #[trigger] put(p, s).contains(x) ==> x == s,
{
    let k = position(p, s.ext as int);
    let q = put(p, s);
    lemma_position(p, s.ext as int);
    assert(q[k] == s);
    if holds(p, s.ext as int) {
        assert forall|i: int, j: int| 0 <= i < j < q.len() implies (#[trigger] q[i]).ext < (
        #[trigger] q[j]).ext by {
            assert(p[i].ext < p[j].ext);
        }
    } else {
        assert forall|i: int, j: int| 0 <= i < j < q.len() implies (#[trigger] q[i]).ext < (
        #[trigger] q[j]).ext by {
            if i < k && j < k {
                assert(p[i].ext < p[j].ext);
            } else if i < k && j > k {
                assert(p[i].ext < p[j - 1].ext);
            } else if i == k {
                assert(p[j - 1].ext >= s.ext);
                assert(p[k].ext != s.ext);
                if j > k + 1 {
                    assert(p[k].ext < p[j - 1].ext);
                }
            } else if i > k {
                assert(p[i - 1].ext < p[j - 1].ext);
            } else {
                assert(p[i].ext < s.ext);
            }
        }
    }
    assert forall|x: Slot| x.ext != s.ext implies (#[trigger] q.contains(x) <==> p.contains(x)) by {
        if q.contains(x) {
            let i = choose|i: int| 0 <= i < q.len() && q[i] == x;
            if holds(p, s.ext as int) || i < k {
                assert(p[i] == x);
            } else {
                assert(p[i - 1] == x);
            }
        }
        if p.contains(x) {
            let i = choose|i: int| 0 <= i < p.len() && p[i] == x;
            if holds(p, s.ext as int) || i < k {
                assert(q[i] == x);
            } else {
                assert(q[i + 1] == x);
            }
        }
    }
    assert forall|x: Slot| x.ext == s.ext && #[trigger] q.contains(x) implies x == s by {
        let i = choose|i: int| 0 <= i < q.len() && q[i] == x;
        if i < k {
            assert(q[i].ext < q[k].ext);
        } else if i > k {
            assert(q[k].ext < q[i].ext);
        }
    }
}

proof fn lemma_ordered_same_packets(p: Seq<Slot>, q: Seq<Slot>)
    requires
        ordered(p),
        ordered(q),
        forall|x: Slot| #[trigger] p.contains(x) <==> q.contains(x),
    ensures
        p == q,
    decreases p.len(),
{
    if p.len() == 0 {
        if q.len() > 0 {
            assert(q.contains(q[0]));
            assert(p.contains(q[0]));
        }
        assert(p =~= q);
    } else {
        assert(p.contains(p.last()));
        let i = choose|i: int| 0 <= i < q.len() && q[i] == p.last();
        assert(q.contains(q.last()));
        assert(p.contains(q.last()));
        let j = choose|j: int| 0 <= j < p.len() && p[j] == q.last();
        assert(i == q.len() - 1) by {
            if i < q.len() - 1 {
                assert(q[i].ext < q[q.len() - 1].ext);
                if j < p.len() - 1 {
                    assert(p[j].ext < p[p.len() - 1].ext);
                }
            }
        }
        let (a, b) = (p.drop_last(), q.drop_last());
        assert forall|x: int, y: int| 0 <= x < y < a.len() implies (#[trigger] a[x]).ext < (
        #[trigger] a[y]).ext by {
            assert(p[x].ext < p[y].ext);
        }
        assert forall|x: int, y: int| 0 <= x < y < b.len() implies (#[trigger] b[x]).ext < (
        #[trigger] b[y]).ext by {
            assert(q[x].ext < q[y].ext);
        }
        assert forall|x: Slot| #[trigger] a.contains(x) <==> b.contains(x) by {
            if a.contains(x) {
                let k = choose|k: int| 0 <= k < a.len() && a[k] == x;
                assert(p[k] == x);
                assert(p[k].ext < p[p.len() - 1].ext);
                assert(p.contains(x));
                let m = choose|m: int| 0 <= m < q.len() && q[m] == x;
                assert(b[m] == x);
            }
            if b.contains(x) {
                let k = choose|k: int| 0 <= k < b.len() && b[k] == x;
                assert(q[k] == x);
                assert(q[k].ext < q[q.len() - 1].ext);
                assert(q.contains(x));
                assert(p.contains(x));
                let m = choose|m: int| 0 <= m < p.len() && p[m] == x;
                assert(a[m] == x);
            }
        }
        lemma_ordered_same_packets(a, b);
        assert(p =~= a.push(p.last()));
        assert(q =~= b.push(q.last()));
    }
}

/// The order in which two different packets arrive does not matter to what is buffered.
pub proof fn arrival_order_does_not_matter(p: Seq<Slot>, s: Slot, t: Slot)
    requires
        ordered(p),
        s.ext != t.ext,
    ensures
        put(put(p, s), t) == put(put(p, t), s),
{
    put_replaces_one_packet(p, s);
    put_replaces_one_packet(p, t);
    put_replaces_one_packet(put(p, s), t);
    put_replaces_one_packet(put(p, t), s);
    let a = put(put(p, s), t);
    let b = put(put(p, t), s);
    assert forall|x: Slot| #[trigger] a.contains(x) <==> b.contains(x) by {
        if x.ext == s.ext {
            assert(put(p, s).contains(x) <==> x == s) by {
                assert(put(p, s).contains(s));
            }
            assert(a.contains(x) <==> put(p, s).contains(x));
        } else if x.ext == t.ext {
            assert(put(p, t).contains(x) <==> x == t) by {
                assert(put(p, t).contains(t));
            }
            assert(b.contains(x) <==> put(p, t).contains(x));
        } else {
            assert(a.contains(x) <==> put(p, s).contains(x));
            assert(b.contains(x) <==> put(p, t).contains(x));
            assert(put(p, s).contains(x) <==> p.contains(x));
            assert(put(p, t).contains(x) <==> p.contains(x));
        }
    }
    lemma_ordered_same_packets(a, b);
}

/// The first `n` buffered packets are one whole unit: consecutive from `ext` on, of one
/// timestamp, with the marker on the last and only there.
pub open spec fn whole_unit(p: Seq<Slot>, ext: u64, n: int) -> bool {
    &&& 0 < n <= p.len()
    &&& forall|i: int|
        0 <= i < n ==> (#[trigger] p[i]).ext == ext + i && p[i].timestamp == p[0].timestamp && (
        p[i].marker <==> i == n - 1)
}

proof fn lemma_walk_whole(p: Seq<Slot>, ext: u64, n: int, i: int)
    requires
        whole_unit(p, ext, n),
        0 <= i < n,
    ensures
        walk(p, i) == Walk::Whole(n - 1),
    decreases n - i,
{
    assert(p[i].ext == ext + i);
    if i < n - 1 {
        assert(p[i + 1].ext == ext + i + 1);
        lemma_walk_whole(p, ext, n, i + 1);
    }
}

/// A unit whose packets are all there is emitted by the next `pop`, whatever the time and
/// whatever is buffered behind it, and reassembly goes on right behind it.
pub proof fn whole_unit_is_emitted(b: Buffer, now: Nanos, n: int)
    requires
        b.valid(),
        b.pending.len() > 0,
        whole_unit(b.pending, b.pending[0].ext, n),
        match b.next {
            Some(ext) => b.pending[0].ext == ext,
            None => partition_head(b.pending[0].payload),
        },
        crate::client::depacketizer::access_unit(payloads(b.pending.take(n))) is Some,
    ensures
        b.popped(now).1 == crate::client::depacketizer::access_unit(payloads(b.pending.take(n))),
        b.popped(now).0 == (Buffer {
            pending: b.pending.skip(n),
            next: Some((b.pending[0].ext + n) as u64),
            floor: (b.pending[0].ext + n) as u64,
            given_up: None,
            stats: AssemblerStats {
                access_units: (b.stats.access_units + 1) as u64,
                ..b.stats
            },
            ..b
        }),
{
    lemma_walk_whole(b.pending, b.pending[0].ext, n, 0);
    assert(b.pending[n - 1].ext == b.pending[0].ext + (n - 1));
    if b.next is None {
        reveal_with_fuel(first_head, 2);
        assert(b.pending.take(1).drop_last() =~= Seq::empty());
        assert(b.pending.take(1).last() == b.pending[0]);
        lemma_first_head_found(b.pending, 0);
        assert(b.pending.skip(0) =~= b.pending);
    }
}

/// A unit whose packets are all there comes out as it was sent: its NAL units in order, each
/// behind a start code, however they were spread over the packets.
pub proof fn sent_unit_comes_out(
    b: Buffer,
    now: Nanos,
    n: int,
    packings: Seq<crate::client::depacketizer::Packing>,
)
    requires
        b.valid(),
        b.pending.len() > 0,
        whole_unit(b.pending, b.pending[0].ext, n),
        match b.next {
            Some(ext) => b.pending[0].ext == ext,
            None => partition_head(b.pending[0].payload),
        },
        packings.len() > 0,
        forall|i: int| 0 <= i < packings.len() ==> (#[trigger] packings[i]).valid(),
        payloads(b.pending.take(n)) == crate::client::depacketizer::all_payloads(packings),
    ensures
        b.popped(now).1 == Some(
            crate::client::depacketizer::annex_b(crate::client::depacketizer::all_nals(packings)),
        ),
        b.popped(now).0.pending == b.pending.skip(n),
{
    crate::client::depacketizer::packed_units_come_back(packings);
    whole_unit_is_emitted(b, now, n);
}

/// The first `n` buffered packets are consecutive from `next` on, of one timestamp and without
/// the marker.
pub open spec fn unmarked_run(b: Buffer, n: int) -> bool {
    &&& 0 < n <= b.pending.len()
    &&& b.next == Some(b.pending[0].ext)
    &&& forall|i: int|
        0 <= i < n ==> (#[trigger] b.pending[i]).ext == b.pending[0].ext + i
            && b.pending[i].timestamp == b.pending[0].timestamp && !b.pending[i].marker
}

proof fn lemma_walk_unmarked(b: Buffer, n: int, i: int)
    requires
        unmarked_run(b, n),
        0 <= i < n,
    ensures
        walk(b.pending, i) == walk(b.pending, n - 1),
    decreases n - i,
{
    assert(b.pending[i].ext == b.pending[0].ext + i);
    if i < n - 1 {
        assert(b.pending[i + 1].ext == b.pending[0].ext + i + 1);
        lemma_walk_unmarked(b, n, i + 1);
    }
}

/// A missing packet is waited for: a unit with a gap stays buffered, untouched, as long as the
/// packet behind the gap is younger than `max_wait`. Then it is given up: its packets are
/// dropped, and reassembly goes on without them.
pub proof fn missing_packet_is_waited_for(b: Buffer, now: Nanos, n: int)
    requires
        b.valid(),
        unmarked_run(b, n),
        n < b.pending.len() ==> b.pending[n].ext != b.pending[n - 1].ext + 1,
    ensures
        n == b.pending.len() || crate::since(now, b.pending[n].at) < b.max_wait ==> b.popped(now)
            == (b, None::<Seq<u8>>),
        n < b.pending.len() && crate::since(now, b.pending[n].at) >= b.max_wait ==> b.popped(now)
            == b.abandoned(b.pending[0].timestamp).popped(now),
{
    lemma_walk_unmarked(b, n, 0);
}

/// Every packet of `p` is one of `q`.
#[verifier::opaque]
spec fn all_of(p: Seq<Slot>, q: Seq<Slot>) -> bool {
    forall|i: int| 0 <= i < p.len() ==> q.contains(#[trigger] p[i])
}

proof fn lemma_all_of_skip(p: Seq<Slot>, n: int)
    requires
        0 <= n <= p.len(),
    ensures
        all_of(p.skip(n), p),
{
    reveal(all_of);
    assert forall|i: int| 0 <= i < p.skip(n).len() implies p.contains(#[trigger] p.skip(n)[i]) by {
        assert(p[i + n] == p.skip(n)[i]);
    }
}

proof fn lemma_all_of_both(p: Seq<Slot>, q: Seq<Slot>, r: Seq<Slot>)
    requires
        all_of(p, q),
        all_of(q, r),
    ensures
        all_of(p, r),
{
    reveal(all_of);
    assert forall|i: int| 0 <= i < p.len() implies r.contains(#[trigger] p[i]) by {
        let j = choose|j: int| 0 <= j < q.len() && q[j] == p[i];
        assert(r.contains(q[j]));
    }
}

proof fn lemma_all_of_kept(p: Seq<Slot>, timestamp: u32)
    ensures
        all_of(kept(p, timestamp), p),
{
    reveal(all_of);
    lemma_kept_valid(p, timestamp);
}

#[verifier::spinoff_prover]
proof fn lemma_popped_subset(b: Buffer, now: Nanos)
    requires
        b.valid(),
    ensures
        all_of(b.popped(now).0.pending, b.pending),
    decreases b.pending.len(),
{
    let c = b.in_step();
    lemma_in_step(b);
    lemma_first_head_in_range(b.pending);
    let h = if b.next is None {
        first_head(b.pending)
    } else {
        0
    };
    assert(c.pending =~= b.pending.skip(h));
    lemma_all_of_skip(b.pending, h);
    let e = b.popped(now).0;
    match c.verdict(now) {
        Verdict::Wait => {
            assert(e.pending == c.pending);
        },
        Verdict::Abandon(timestamp) => {
            let d = c.abandoned(timestamp);
            lemma_walk_in_range(c.pending, 0);
            lemma_kept_shrinks(c.pending);
            lemma_abandoned(c, timestamp);
            lemma_all_of_kept(c.pending, timestamp);
            lemma_popped_subset(d, now);
            assert(e == d.popped(now).0);
            lemma_all_of_both(e.pending, d.pending, c.pending);
            lemma_all_of_both(e.pending, c.pending, b.pending);
        },
        Verdict::Take(n) => {
            let d = c.consumed(n);
            lemma_walk_in_range(c.pending, 0);
            lemma_consumed(c, n);
            lemma_all_of_skip(c.pending, n);
            if crate::client::depacketizer::access_unit(payloads(c.pending.take(n))) is None {
                let x = d.one_dropped(n);
                lemma_popped_subset(x, now);
                assert(e == x.popped(now).0);
                lemma_all_of_both(e.pending, d.pending, c.pending);
            }
            lemma_all_of_both(e.pending, c.pending, b.pending);
        },
    }
}

/// A missing first packet is waited for too: while the next packet in order is not there and the
/// first one behind it is younger than `max_wait`, nothing is handed out and the buffer stays as
/// it is. From then on that unit is given up, and none of it is left.
#[verifier::spinoff_prover]
pub proof fn missing_head_is_waited_for(b: Buffer, now: Nanos)
    requires
        b.valid(),
        b.has_room(),
        b.next is Some,
        b.pending.len() > 0,
        b.pending[0].ext > b.next->0,
    ensures
        b.max_wait > 0 && now < b.pending[0].at + b.max_wait ==> b.popped(now) == (
            b,
            None::<Seq<u8>>,
        ),
        now >= b.pending[0].at + b.max_wait ==> {
            let c = b.popped(now).0;
            &&& c.stats.dropped_units > b.stats.dropped_units
            &&& forall|i: int|
                0 <= i < c.pending.len() ==> (#[trigger] c.pending[i]).timestamp
                    != b.pending[0].timestamp
        },
{
    let timestamp = b.pending[0].timestamp;
    let d = b.abandoned(timestamp);
    if now >= b.pending[0].at + b.max_wait {
        lemma_kept_shrinks(b.pending);
        lemma_filters_split(b.pending, timestamp);
        lemma_kept_valid(b.pending, timestamp);
        lemma_abandoned(b, timestamp);
        pop_counts_what_it_does(d, now);
        lemma_popped_subset(d, now);
        let c = b.popped(now).0;
        assert(c == d.popped(now).0);
        reveal(all_of);
        assert forall|i: int| 0 <= i < c.pending.len() implies (
        #[trigger] c.pending[i]).timestamp != timestamp by {
            let j = choose|j: int| 0 <= j < d.pending.len() && d.pending[j] == c.pending[i];
            assert(kept(b.pending, timestamp)[j].timestamp != timestamp);
        }
    }
}

proof fn lemma_kept_has(p: Seq<Slot>, timestamp: u32, i: int)
    requires
        0 <= i < p.len(),
        p[i].timestamp != timestamp,
    ensures
        kept(p, timestamp).contains(p[i]),
    decreases p.len(),
{
    reveal_with_fuel(Seq::filter, 1);
    let f = kept(p, timestamp);
    if i == p.len() - 1 {
        assert(f[f.len() - 1] == p[i]);
    } else {
        let q = p.drop_last();
        lemma_kept_has(q, timestamp, i);
        let k = choose|k: int| 0 <= k < kept(q, timestamp).len() && kept(q, timestamp)[k] == q[i];
        assert(f[k] == p[i]);
    }
}

/// A packet too many costs the oldest unit: all packets with the timestamp of the lowest number
/// go, the others stay, and one more unit counts as dropped.
#[verifier::spinoff_prover]
pub proof fn overflow_drops_the_oldest_unit(
    b: Buffer,
    now: Nanos,
    seq: u16,
    timestamp: u32,
    marker: bool,
    payload: Seq<u8>,
)
    requires
        b.valid(),
        b.has_room(),
        0 < b.pending.len() == b.max_pending,
        extended(b.highest, seq) >= b.floor,
        b.given_up != Some(timestamp),
        forall|i: int|
            0 <= i < b.pending.len() ==> (#[trigger] b.pending[i]).ext != extended(b.highest, seq),
    ensures
        ({
            let c = b.pushed(now, seq, timestamp, marker, payload);
            let oldest = if extended(b.highest, seq) < b.pending[0].ext {
                timestamp
            } else {
                b.pending[0].timestamp
            };
            &&& forall|i: int|
                0 <= i < c.pending.len() ==> (#[trigger] c.pending[i]).timestamp != oldest
            &&& forall|i: int|
                0 <= i < b.pending.len() && b.pending[i].timestamp != oldest
                    ==> c.pending.contains(#[trigger] b.pending[i])
            &&& c.stats.dropped_units == b.stats.dropped_units + 1
        }),
{
    let ext = extended(b.highest, seq);
    let slot = Slot { ext: ext as u64, timestamp, marker, payload, at: now };
    let p = put(b.pending, slot);
    lemma_position(b.pending, ext);
    put_replaces_one_packet(b.pending, slot);
    let c = b.pushed(now, seq, timestamp, marker, payload);
    let oldest = p[0].timestamp;
    lemma_kept_valid(p, oldest);
    assert(p.len() == b.pending.len() + 1);
    assert(c.pending == kept(p, oldest));
    assert forall|i: int|
        0 <= i < b.pending.len() && b.pending[i].timestamp != oldest implies c.pending.contains(
        #[trigger] b.pending[i],
    ) by {
        assert(p.contains(b.pending[i]));
        let k = choose|k: int| 0 <= k < p.len() && p[k] == b.pending[i];
        lemma_kept_has(p, oldest, k);
    }
}

proof fn lemma_first_head(p: Seq<Slot>)
    ensures
        0 <= first_head(p) <= p.len(),
        first_head(p) < p.len() ==> partition_head(p[first_head(p)].payload),
        forall|j: int| 0 <= j < first_head(p) ==> !partition_head((#[trigger] p[j]).payload),
    decreases p.len(),
{
    if p.len() > 0 {
        let q = p.drop_last();
        lemma_first_head(q);
        assert forall|j: int| 0 <= j < first_head(p) implies !partition_head(
            (#[trigger] p[j]).payload,
        ) by {
            if j < q.len() {
                assert(q[j] == p[j]);
            }
        }
    }
}

/// Reassembly starts, and starts again after a loss, at the first buffered packet that starts a
/// NAL unit. What stands in front of it is dropped and counted; without one everything is.
pub proof fn resync_starts_at_the_first_head(b: Buffer)
    requires
        b.valid(),
        b.has_room(),
    ensures
        ({
            let c = b.resynced();
            let gone = b.pending.len() - c.pending.len();
            &&& c.pending == b.pending.skip(gone)
            &&& c.stats.dropped_packets == b.stats.dropped_packets + gone
            &&& forall|j: int|
                0 <= j < gone ==> !partition_head((#[trigger] b.pending[j]).payload)
            &&& c.pending.len() > 0 ==> partition_head(c.pending[0].payload) && c.next == Some(
                c.pending[0].ext,
            )
            &&& c.pending.len() == 0 ==> c.next is None
        }),
{
    lemma_first_head(b.pending);
    let h = first_head(b.pending);
    if h < b.pending.len() {
        assert(b.pending.skip(h)[0] == b.pending[h]);
    }
}

/// Of the fragments of a NAL unit, the first one and no other starts it, and the last one and no
/// other ends it.
pub proof fn fragments_start_and_end_their_unit(header: u8, first: bool, last: bool, piece: Seq<u8>)
    ensures
        ({
            let f = crate::client::depacketizer::fragment(header, first, last, piece);
            &&& partition_head(f) <==> first
            &&& nal_end(f) <==> last
        }),
{
    let f = crate::client::depacketizer::fragment(header, first, last, piece);
    assert(f[0] == 28u8 | header & 0x60u8);
    assert((28u8 | header & 0x60u8) & 0x1Fu8 == 28u8) by (bit_vector);
    let t = header & 0x1Fu8;
    assert((0x80u8 | 0x40u8 | t) & 0x80u8 != 0 && (0x80u8 | 0x40u8 | t) & 0x40u8 != 0
        && (0x80u8 | 0u8 | t) & 0x80u8 != 0 && (0x80u8 | 0u8 | t) & 0x40u8 == 0
        && (0u8 | 0x40u8 | t) & 0x80u8 == 0 && (0u8 | 0x40u8 | t) & 0x40u8 != 0
        && (0u8 | 0u8 | t) & 0x80u8 == 0 && (0u8 | 0u8 | t) & 0x40u8 == 0) by (bit_vector)
        requires
            t == header & 0x1Fu8,
    ;
}

/// A NAL unit in a payload of its own starts and ends there.
pub proof fn single_payloads_start_and_end_their_unit(nal: Seq<u8>)
    requires
        nal.len() >= 2,
        1 <= nal[0] & 0x1F <= 23,
    ensures
        partition_head(nal),
        nal_end(nal),
{
}

/// A packet that is taken up stands in the buffer as it came, with its time of arrival, and the
/// others stay. One that repeats a buffered number takes its place and counts as late; any other
/// adds one to the buffer and counts as nothing.
#[verifier::spinoff_prover]
pub proof fn packet_is_taken_up(
    b: Buffer,
    now: Nanos,
    seq: u16,
    timestamp: u32,
    marker: bool,
    payload: Seq<u8>,
)
    requires
        b.valid(),
        b.has_room(),
        b.pending.len() < b.max_pending,
        b.floor <= extended(b.highest, seq) <= u64::MAX,
        b.given_up != Some(timestamp),
    ensures
        ({
            let ext = extended(b.highest, seq);
            let c = b.pushed(now, seq, timestamp, marker, payload);
            let repeated = exists|i: int|
                0 <= i < b.pending.len() && (#[trigger] b.pending[i]).ext == ext;
            &&& exists|i: int|
                0 <= i < c.pending.len() && #[trigger] c.pending[i] == (Slot {
                    ext: ext as u64,
                    timestamp,
                    marker,
                    payload,
                    at: now,
                })
            &&& forall|i: int|
                0 <= i < b.pending.len() && b.pending[i].ext != ext ==> c.pending.contains(
                    #[trigger] b.pending[i],
                )
            &&& c.pending.len() == b.pending.len() + if repeated {
                0int
            } else {
                1
            }
            &&& c.stats == if repeated {
                AssemblerStats { late_packets: (b.stats.late_packets + 1) as u64, ..b.stats }
            } else {
                b.stats
            }
            &&& c.highest is Some
            &&& c.highest->0 >= ext
            &&& b.highest is Some ==> c.highest->0 >= b.highest->0
            &&& c.highest->0 == ext || c.highest == b.highest
            &&& c.next == b.next
            &&& c.floor == b.floor
        }),
{
    let ext = extended(b.highest, seq);
    let slot = Slot { ext: ext as u64, timestamp, marker, payload, at: now };
    lemma_position(b.pending, ext);
    put_replaces_one_packet(b.pending, slot);
    let c = b.pushed(now, seq, timestamp, marker, payload);
    assert(c.pending == put(b.pending, slot));
    assert(c.pending.contains(slot));
    if holds(b.pending, ext) {
        assert(b.pending[position(b.pending, ext)].ext == ext);
    }
}

/// The first packet gets a number from which all that can come before it are above zero.
pub proof fn first_number_leaves_room(seq: u16)
    ensures
        extended(None, seq) >= 0x8000,
        extended(None, seq) % 0x1_0000 == seq,
{
}

/// A lost marker is detected when the next timestamp starts: the unit is handed out if its last
/// packet closed a NAL unit, and given up otherwise.
pub proof fn lost_marker_is_detected(b: Buffer, now: Nanos, n: int)
    requires
        b.valid(),
        unmarked_run(b, n),
        n < b.pending.len(),
        b.pending[n].ext == b.pending[n - 1].ext + 1,
        b.pending[n].timestamp != b.pending[0].timestamp,
    ensures
        nal_end(b.pending[n - 1].payload) && crate::client::depacketizer::access_unit(
            payloads(b.pending.take(n)),
        ) is Some ==> b.popped(now).1 == crate::client::depacketizer::access_unit(
            payloads(b.pending.take(n)),
        ),
        !nal_end(b.pending[n - 1].payload) ==> b.popped(now) == b.abandoned(
            b.pending[0].timestamp,
        ).popped(now),
{
    lemma_walk_unmarked(b, n, 0);
    assert(b.pending[n - 1].timestamp == b.pending[0].timestamp);
}

/// Packets of an abandoned unit that are still on their way are ignored: none of the unit is
/// buffered, and none comes in any more.
pub proof fn abandoned_unit_stays_out(
    b: Buffer,
    timestamp: u32,
    now: Nanos,
    seq: u16,
    marker: bool,
    payload: Seq<u8>,
)
    requires
        b.valid(),
    ensures
        ({
            let c = b.abandoned(timestamp);
            let d = c.pushed(now, seq, timestamp, marker, payload);
            &&& forall|i: int|
                0 <= i < c.pending.len() ==> (#[trigger] c.pending[i]).timestamp != timestamp
            &&& d.pending == c.pending
            &&& d.given_up == c.given_up
            &&& d.stats == (AssemblerStats {
                late_packets: (b.stats.late_packets + 1) as u64,
                ..c.stats
            })
        }),
{
    lemma_kept_valid(b.pending, timestamp);
}

/// A call that finds nothing to hand out leaves nothing to do: the same call again changes
/// nothing and finds nothing.
pub proof fn nothing_more_at_the_same_time(b: Buffer, now: Nanos)
    requires
        b.valid(),
        b.popped(now).1 is None,
    ensures
        b.popped(now).0.popped(now) == b.popped(now),
    decreases b.pending.len(),
{
    let c = b.in_step();
    lemma_in_step(b);
    lemma_first_head_in_range(b.pending);
    lemma_walk_in_range(c.pending, 0);
    match c.verdict(now) {
        Verdict::Wait => {
            if c.next is None {
                assert(c.pending =~= Seq::empty());
                assert(c.pending.skip(0) =~= c.pending);
                assert(c.resynced() =~= c);
            }
        },
        Verdict::Abandon(timestamp) => {
            lemma_kept_shrinks(c.pending);
            lemma_abandoned(c, timestamp);
            nothing_more_at_the_same_time(c.abandoned(timestamp), now);
        },
        Verdict::Take(n) => {
            let d = c.consumed(n);
            lemma_consumed(c, n);
            nothing_more_at_the_same_time(d.one_dropped(n), now);
        },
    }
}

} // verus!
