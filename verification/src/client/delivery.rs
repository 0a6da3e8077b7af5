//! What comes out of an [`assembler::AccessUnitAssembler`] over several calls: a unit behind one
//! that lost a packet, and the units of a stream that arrives in order.
use vstd::prelude::*;

use crate::client::assembler;
use crate::client::assembler::{
    AccessUnitAssembler, AssemblerStats, Buffer, RtpPacket, Slot, FIRST_EXTENDED,
};
use crate::client::depacketizer;
use crate::Nanos;

verus! {

/// The buffer holds a unit with a gap, its first `n` packets in front of the gap, `k` in all,
/// and behind it a whole unit of `m` packets.
pub open spec fn gap_before_whole_unit(b: Buffer, n: int, k: int, m: int) -> bool {
    &&& b.valid()
    &&& assembler::unmarked_run(b, n)
    &&& n <= k < b.pending.len()
    &&& b.pending[n].ext != b.pending[n - 1].ext + 1
    &&& forall|i: int|
        0 <= i < b.pending.len() ==> ((#[trigger] b.pending[i]).timestamp == b.pending[0].timestamp
            <==> i < k)
    &&& assembler::whole_unit(b.pending.skip(k), b.pending[k].ext, m)
    &&& assembler::partition_head(b.pending[k].payload)
}

/// A lost packet is waited for, then its unit is abandoned, and the whole unit behind it comes
/// out in the same call. Nothing else of the buffer changes, and the counters say what happened.
#[verifier::spinoff_prover]
pub proof fn unit_behind_a_lost_packet_comes_out(b: Buffer, now: Nanos, n: int, k: int, m: int)
    requires
        gap_before_whole_unit(b, n, k, m),
        b.has_room(),
        depacketizer::access_unit(assembler::payloads(b.pending.subrange(k, k + m))) is Some,
    ensures
        crate::since(now, b.pending[n].at) < b.max_wait ==> b.popped(now) == (b, None::<Seq<u8>>),
        crate::since(now, b.pending[n].at) >= b.max_wait ==> {
            let (c, unit) = b.popped(now);
            &&& unit == depacketizer::access_unit(
                assembler::payloads(b.pending.subrange(k, k + m)),
            )
            &&& c.pending == b.pending.skip(k + m)
            &&& c.next == Some((b.pending[k].ext + m) as u64)
            &&& c.stats == (AssemblerStats {
                access_units: (b.stats.access_units + 1) as u64,
                dropped_units: (b.stats.dropped_units + 1) as u64,
                dropped_packets: (b.stats.dropped_packets + k) as u64,
                ..b.stats
            })
        },
{
    assembler::missing_packet_is_waited_for(b, now, n);
    let timestamp = b.pending[0].timestamp;
    let c = b.abandoned(timestamp);
    assembler::lemma_kept_behind(b.pending, timestamp, k);
    assembler::lemma_abandoned(b, timestamp);
    assert(c.pending[0] == b.pending[k]);
    assert(c.pending.take(m) =~= b.pending.subrange(k, k + m));
    assert(c.pending.skip(m) =~= b.pending.skip(k + m));
    assembler::whole_unit_is_emitted(c, now, m);
}

/// The missing packet, number `n` of the first unit, is the only one that keeps the two units of
/// [`gap_before_whole_unit`] from being whole and next to each other.
pub open spec fn one_packet_missing(b: Buffer, n: int, k: int) -> bool {
    &&& n < k
    &&& b.floor <= b.pending[0].ext + n
    &&& forall|i: int|
        n <= i < k ==> (#[trigger] b.pending[i]).ext == b.pending[0].ext + i + 1 && (
        b.pending[i].marker <==> i == k - 1)
    &&& b.pending[k].ext == b.pending[0].ext + k + 1
}

/// The payloads of the first unit with that of the missing packet in its place.
pub open spec fn filled(p: Seq<Slot>, n: int, k: int, payload: Seq<u8>) -> Seq<Seq<u8>> {
    assembler::payloads(p.take(n)).push(payload) + assembler::payloads(p.subrange(n, k))
}

/// Where the missing packet goes, and what the buffered packets are with it.
proof fn lemma_missing_packet_put(p: Seq<Slot>, n: int, k: int, s: Slot)
    requires
        assembler::ordered(p),
        0 < n < k < p.len(),
        s.ext == p[0].ext + n,
        s.timestamp == p[0].timestamp,
        !s.marker,
        forall|i: int|
            0 <= i < n ==> (#[trigger] p[i]).ext == p[0].ext + i && p[i].timestamp == p[0].timestamp
                && !p[i].marker,
        forall|i: int|
            n <= i < k ==> (#[trigger] p[i]).ext == p[0].ext + i + 1 && p[i].timestamp
                == p[0].timestamp && (p[i].marker <==> i == k - 1),
    ensures
        !assembler::holds(p, s.ext as int),
        ({
            let q = assembler::put(p, s);
            &&& q.len() == p.len() + 1
            &&& q[0] == p[0]
            &&& q.skip(k + 1) == p.skip(k)
            &&& assembler::whole_unit(q, p[0].ext, k + 1)
            &&& assembler::payloads(q.take(k + 1)) == filled(p, n, k, s.payload)
        }),
{
    let at = assembler::position(p, s.ext as int);
    assembler::lemma_position(p, s.ext as int);
    assert(p[n - 1].ext == p[0].ext + (n - 1));
    assert(p[n].ext == p[0].ext + n + 1);
    assert(at == n) by {
        if at > n {
            assert(p[n].ext < s.ext);
        }
        if at < n {
            assert(p[n - 1].ext >= s.ext);
        }
    }
    let q = p.insert(n, s);
    assert(assembler::put(p, s) == q);
    assert forall|i: int| 0 <= i < k + 1 implies (#[trigger] q[i]).ext == q[0].ext + i
        && q[i].timestamp == q[0].timestamp && (q[i].marker <==> i == k) by {
        if i < n {
            assert(q[i] == p[i]);
        } else if i > n {
            assert(q[i] == p[i - 1]);
        }
    }
    assert(assembler::payloads(q.take(k + 1)) =~= filled(p, n, k, s.payload));
    assert(q.skip(k + 1) =~= p.skip(k));
}

/// A packet that is new, not late and fits the buffer is put in its place.
proof fn lemma_taken_up(
    b: Buffer,
    now: Nanos,
    seq: u16,
    timestamp: u32,
    marker: bool,
    payload: Seq<u8>,
    ext: u64,
)
    requires
        ext == assembler::extended(b.highest, seq),
        b.floor <= ext,
        b.given_up != Some(timestamp),
        !assembler::holds(b.pending, ext as int),
        b.pending.len() < b.max_pending,
    ensures
        b.pushed(now, seq, timestamp, marker, payload) == (Buffer {
            pending: assembler::put(
                b.pending,
                Slot { ext, timestamp, marker, payload, at: now },
            ),
            highest: assembler::raised(b.highest, ext as int),
            ..b
        }),
{
    assembler::lemma_position(b.pending, ext as int);
}

#[verifier::spinoff_prover]
proof fn lemma_gap_filled(
    b: Buffer,
    now: Nanos,
    n: int,
    k: int,
    m: int,
    seq: u16,
    payload: Seq<u8>,
)
    requires
        gap_before_whole_unit(b, n, k, m),
        one_packet_missing(b, n, k),
        b.has_room(),
        b.pending.len() < b.max_pending,
        assembler::extended(b.highest, seq) == b.pending[0].ext + n,
    ensures
        ({
            let p = b.pending;
            let c = b.pushed(now, seq, p[0].timestamp, false, payload);
            &&& c.valid()
            &&& c.next == b.next
            &&& c.stats == b.stats
            &&& c.pending.len() == p.len() + 1
            &&& c.pending[0] == p[0]
            &&& c.pending.skip(k + 1) == p.skip(k)
            &&& assembler::whole_unit(c.pending, p[0].ext, k + 1)
            &&& assembler::payloads(c.pending.take(k + 1)) == filled(p, n, k, payload)
        }),
{
    let p = b.pending;
    let timestamp = p[0].timestamp;
    let ext = (p[0].ext + n) as u64;
    assert(p[n].ext <= b.highest->0);
    assert(b.given_up != Some(timestamp));
    let s = Slot { ext, timestamp, marker: false, payload, at: now };
    assert forall|i: int| n <= i < k implies (#[trigger] p[i]).timestamp == timestamp by {}
    lemma_missing_packet_put(p, n, k, s);
    lemma_taken_up(b, now, seq, timestamp, false, payload, ext);
    assembler::push_finishes_packets_for_good(b, now, seq, timestamp, false, payload);
}

/// The buffer after two calls of `pop`, and what the calls return.
#[verifier::opaque]
pub open spec fn popped_twice(b: Buffer, now: Nanos) -> (
    Buffer,
    Option<Seq<u8>>,
    Option<Seq<u8>>,
) {
    let (c, first) = b.popped(now);
    let (d, second) = c.popped(now);
    (d, first, second)
}

/// If the lost packet arrives after all, before its unit is abandoned, both units come out, one
/// after the other.
#[verifier::spinoff_prover]
pub proof fn retransmission_lets_both_units_out(
    b: Buffer,
    now: Nanos,
    n: int,
    k: int,
    m: int,
    seq: u16,
    payload: Seq<u8>,
)
    requires
        gap_before_whole_unit(b, n, k, m),
        one_packet_missing(b, n, k),
        b.has_room(),
        b.pending.len() < b.max_pending,
        assembler::extended(b.highest, seq) == b.pending[0].ext + n,
        depacketizer::access_unit(filled(b.pending, n, k, payload)) is Some,
        depacketizer::access_unit(assembler::payloads(b.pending.subrange(k, k + m))) is Some,
    ensures
        ({
            let c = b.pushed(now, seq, b.pending[0].timestamp, false, payload);
            let (e, first, second) = popped_twice(c, now);
            &&& first == depacketizer::access_unit(filled(b.pending, n, k, payload))
            &&& second == depacketizer::access_unit(
                assembler::payloads(b.pending.subrange(k, k + m)),
            )
            &&& e.pending == b.pending.skip(k + m)
            &&& e.stats == (AssemblerStats {
                access_units: (b.stats.access_units + 2) as u64,
                ..b.stats
            })
        }),
{
    let p = b.pending;
    let c = b.pushed(now, seq, p[0].timestamp, false, payload);
    lemma_gap_filled(b, now, n, k, m, seq, payload);
    let (behind, old_behind) = (c.pending.skip(k + 1), p.skip(k));
    assert(behind[0] == old_behind[0]);
    assert(c.pending.subrange(k + 1, k + 1 + m) =~= behind.take(m));
    assert(p.subrange(k, k + m) =~= old_behind.take(m));
    assert(c.pending.skip(k + 1 + m) =~= behind.skip(m));
    assert(p.skip(k + m) =~= old_behind.skip(m));
    lemma_two_units(c, now, k + 1, m);
}

/// If the first packet of a unit arrives after the others, before they are given up, the whole
/// unit comes out, and nothing counts as dropped.
#[verifier::spinoff_prover]
pub proof fn late_head_completes_its_unit(
    b: Buffer,
    now: Nanos,
    m: int,
    seq: u16,
    payload: Seq<u8>,
)
    requires
        b.valid(),
        b.has_room(),
        b.next is Some,
        b.floor <= b.next->0,
        b.pending.len() < b.max_pending,
        b.pending.len() > 0,
        b.pending[0].ext == b.next->0 + 1,
        assembler::whole_unit(b.pending, b.pending[0].ext, m),
        assembler::extended(b.highest, seq) == b.next->0,
        depacketizer::access_unit(
            seq![payload] + assembler::payloads(b.pending.take(m)),
        ) is Some,
    ensures
        ({
            let (c, unit) = b.pushed(now, seq, b.pending[0].timestamp, false, payload).popped(now);
            &&& unit == depacketizer::access_unit(
                seq![payload] + assembler::payloads(b.pending.take(m)),
            )
            &&& c.pending == b.pending.skip(m)
            &&& c.stats == (AssemblerStats {
                access_units: (b.stats.access_units + 1) as u64,
                ..b.stats
            })
        }),
{
    let p = b.pending;
    let ext = b.next->0;
    let timestamp = p[0].timestamp;
    let s = Slot { ext, timestamp, marker: false, payload, at: now };
    assembler::lemma_position(p, ext as int);
    let k = assembler::position(p, ext as int);
    if k > 0 {
        assert(p[k - 1].ext >= ext + 1);
    }
    assert(!assembler::holds(p, ext as int));
    lemma_taken_up(b, now, seq, timestamp, false, payload, ext);
    assembler::push_finishes_packets_for_good(b, now, seq, timestamp, false, payload);
    let c = b.pushed(now, seq, timestamp, false, payload);
    let q = c.pending;
    assert(q =~= seq![s] + p);
    assert forall|i: int| 0 <= i < m + 1 implies (#[trigger] q[i]).ext == ext + i && q[i].timestamp
        == q[0].timestamp && (q[i].marker <==> i == m) by {
        if i > 0 {
            assert(q[i] == p[i - 1]);
            assert(p[i - 1].timestamp == p[0].timestamp);
        }
    }
    assert(assembler::payloads(q.take(m + 1)) =~= seq![payload] + assembler::payloads(p.take(m)));
    assert(q.skip(m + 1) =~= p.skip(m));
    assembler::whole_unit_is_emitted(c, now, m + 1);
}

/// Two whole units next to each other come out in two calls.
#[verifier::spinoff_prover]
proof fn lemma_two_units(b: Buffer, now: Nanos, n: int, m: int)
    requires
        b.valid(),
        b.pending.len() > 0,
        b.stats.access_units < u64::MAX,
        b.next == Some(b.pending[0].ext),
        assembler::whole_unit(b.pending, b.pending[0].ext, n),
        n < b.pending.len(),
        b.pending[n].ext == b.pending[0].ext + n,
        assembler::whole_unit(b.pending.skip(n), b.pending[n].ext, m),
        depacketizer::access_unit(assembler::payloads(b.pending.take(n))) is Some,
        depacketizer::access_unit(assembler::payloads(b.pending.subrange(n, n + m))) is Some,
    ensures
        ({
            let (e, first, second) = popped_twice(b, now);
            &&& first == depacketizer::access_unit(assembler::payloads(b.pending.take(n)))
            &&& second == depacketizer::access_unit(
                assembler::payloads(b.pending.subrange(n, n + m)),
            )
            &&& e.pending == b.pending.skip(n + m)
            &&& e.stats == (AssemblerStats {
                access_units: (b.stats.access_units + 2) as u64,
                ..b.stats
            })
        }),
{
    reveal(popped_twice);
    assembler::whole_unit_is_emitted(b, now, n);
    assembler::emitted_packets_stay_out(b, now);
    let d = b.popped(now).0;
    assert(d.pending[0] == b.pending[n]);
    assert(d.pending.take(m) =~= b.pending.subrange(n, n + m));
    assert(d.pending.skip(m) =~= b.pending.skip(n + m));
    assembler::whole_unit_is_emitted(d, now, m);
}

// ------------------------------------------------------------------------------------------
// Streams that arrive in order
// ------------------------------------------------------------------------------------------
/// A packet as it arrives.
pub struct Arriving {
    pub seq: u16,
    pub timestamp: u32,
    pub marker: bool,
    pub payload: Seq<u8>,
    pub at: Nanos,
}

impl Buffer {
    /// The buffer after a packet has been pushed and `pop` been called, and what `pop` returned.
    #[verifier::opaque]
    pub open spec fn received(self, p: Arriving) -> (Buffer, Option<Seq<u8>>) {
        self.pushed(p.at, p.seq, p.timestamp, p.marker, p.payload).popped(p.at)
    }

    /// The buffer after several packets.
    pub open spec fn after_all(self, packets: Seq<Arriving>) -> Buffer
        decreases packets.len(),
    {
        if packets.len() == 0 {
            self
        } else {
            self.after_all(packets.drop_last()).received(packets.last()).0
        }
    }

    /// What `pop` returned behind each of several packets.
    pub open spec fn returned(self, packets: Seq<Arriving>) -> Seq<Option<Seq<u8>>>
        decreases packets.len(),
    {
        if packets.len() == 0 {
            Seq::empty()
        } else {
            self.returned(packets.drop_last()).push(
                self.after_all(packets.drop_last()).received(packets.last()).1,
            )
        }
    }

    /// Nothing is buffered, and the next packet in sequence order starts a unit.
    pub open spec fn between_units(self) -> bool {
        &&& self.valid()
        &&& self.pending.len() == 0
        &&& self.given_up is None
        &&& match self.highest {
            None => self.next is None && self.floor == 0,
            Some(h) => self.next == Some((h + 1) as u64) && self.floor == h + 1,
        }
    }
}

/// The payloads of arriving packets.
pub open spec fn arriving_payloads(packets: Seq<Arriving>) -> Seq<Seq<u8>> {
    Seq::new(packets.len(), |i: int| packets[i].payload)
}

/// The payloads of a unit make up an access unit.
#[verifier::opaque]
pub open spec fn can_be_depacketized(packets: Seq<Arriving>) -> bool {
    depacketizer::access_unit(arriving_payloads(packets)) is Some
}

/// The packets of one unit, in order: consecutive numbers from `seq` on, one timestamp, a
/// partition head first, the marker on the last and only there, and payloads that can be
/// depacketized.
pub open spec fn unit_packets(packets: Seq<Arriving>, seq: int) -> bool {
    &&& packets.len() > 0
    &&& assembler::partition_head(packets[0].payload)
    &&& forall|i: int|
        0 <= i < packets.len() ==> (#[trigger] packets[i]).seq == (seq + i) % 0x1_0000
            && packets[i].timestamp == packets[0].timestamp && (packets[i].marker <==> i
            == packets.len() - 1)
    &&& can_be_depacketized(packets)
}

/// What `pop` returns behind each packet of a unit: nothing, and the unit behind the last.
pub open spec fn on_the_marker(packets: Seq<Arriving>) -> Seq<Option<Seq<u8>>> {
    Seq::new(
        packets.len(),
        |i: int|
            if i == packets.len() - 1 {
                depacketizer::access_unit(arriving_payloads(packets))
            } else {
                None
            },
    )
}

/// The slots of arriving packets with extended numbers from `ext` on.
spec fn slots_from(packets: Seq<Arriving>, ext: int) -> Seq<Slot> {
    Seq::new(
        packets.len(),
        |i: int|
            Slot {
                ext: (ext + i) as u64,
                timestamp: packets[i].timestamp,
                marker: packets[i].marker,
                payload: packets[i].payload,
                at: packets[i].at,
            },
    )
}

/// The extended number of the first packet of a unit.
spec fn first_number(b: Buffer, packets: Seq<Arriving>) -> int {
    match b.highest {
        None => FIRST_EXTENDED + packets[0].seq,
        Some(h) => h + 1,
    }
}

/// The buffer in the middle of a unit that arrives in order.
spec fn mid_unit(b: Buffer, packets: Seq<Arriving>, k: int) -> Buffer {
    let ext = first_number(b, packets);
    Buffer {
        pending: slots_from(packets.take(k), ext),
        highest: Some((ext + k - 1) as u64),
        next: Some(ext as u64),
        floor: ext as u64,
        ..b
    }
}

proof fn lemma_put_at_end(p: Seq<Slot>, s: Slot)
    requires
        forall|i: int| 0 <= i < p.len() ==> (#[trigger] p[i]).ext < s.ext,
    ensures
        assembler::put(p, s) == p.push(s),
        !assembler::holds(p, s.ext as int),
{
    let k = assembler::position(p, s.ext as int);
    assembler::lemma_position(p, s.ext as int);
    if k < p.len() {
        assert(p[k].ext >= s.ext);
    }
    assert(p.insert(k, s) =~= p.push(s));
}

/// A unit can come in: it follows what was seen before, and fits the buffer.
spec fn can_come_in(b: Buffer, packets: Seq<Arriving>) -> bool {
    &&& b.between_units()
    &&& unit_packets(packets, first_number(b, packets))
    &&& packets.len() <= b.max_pending
    &&& first_number(b, packets) + packets.len() < u64::MAX - 0x8000
}

/// The buffer before packet number `k` of a unit.
spec fn before_packet(b: Buffer, packets: Seq<Arriving>, k: int) -> Buffer {
    if k == 0 {
        b
    } else {
        mid_unit(b, packets, k)
    }
}

/// The buffer once a unit that came in has been handed out.
spec fn behind_unit(b: Buffer, packets: Seq<Arriving>) -> Buffer {
    let end = first_number(b, packets) + packets.len();
    Buffer {
        highest: Some((end - 1) as u64),
        next: Some(end as u64),
        floor: end as u64,
        stats: AssemblerStats { access_units: (b.stats.access_units + 1) as u64, ..b.stats },
        ..b
    }
}

/// One more packet of a unit in order, but not the last one.
#[verifier::spinoff_prover]
proof fn lemma_received_mid(b: Buffer, packets: Seq<Arriving>, k: int)
    requires
        can_come_in(b, packets),
        0 <= k < packets.len() - 1,
    ensures
        before_packet(b, packets, k).received(packets[k]) == (
            mid_unit(b, packets, k + 1),
            None::<Seq<u8>>,
        ),
{
    reveal(Buffer::received);
    let x = packets[k];
    lemma_pushed_in_order(b, packets, k + 1);
    let pushed = before_packet(b, packets, k).pushed(x.at, x.seq, x.timestamp, x.marker, x.payload);
    let m = mid_unit(b, packets, k + 1);
    assert forall|i: int| 0 <= i < k + 1 implies (#[trigger] m.pending[i]).ext == m.pending[0].ext
        + i && m.pending[i].timestamp == m.pending[0].timestamp && !m.pending[i].marker by {
        assert(packets[i].timestamp == packets[0].timestamp);
    }
    assert(assembler::unmarked_run(m, k + 1));
    assembler::missing_packet_is_waited_for(m, x.at, k + 1);
    if k == 0 && b.highest is None {
        lemma_resync_at_head(pushed);
        assert(pushed.in_step() =~= m);
    } else {
        assert(pushed =~= m);
    }
}

/// The last packet of a unit in order.
#[verifier::spinoff_prover]
proof fn lemma_received_last(b: Buffer, packets: Seq<Arriving>)
    requires
        can_come_in(b, packets),
    ensures
        before_packet(b, packets, packets.len() - 1).received(packets.last()) == (
            behind_unit(b, packets),
            depacketizer::access_unit(arriving_payloads(packets)),
        ),
{
    reveal(Buffer::received);
    reveal(can_be_depacketized);
    let n = packets.len() as int;
    let ext = first_number(b, packets);
    let x = packets.last();
    lemma_pushed_in_order(b, packets, n);
    let pushed = before_packet(b, packets, n - 1).pushed(
        x.at,
        x.seq,
        x.timestamp,
        x.marker,
        x.payload,
    );
    assert(packets.take(n) =~= packets);
    assert forall|i: int| 0 <= i < n implies (#[trigger] pushed.pending[i]).ext == ext + i
        && pushed.pending[i].timestamp == pushed.pending[0].timestamp && (pushed.pending[i].marker
        <==> i == n - 1) by {
        assert(packets[i].timestamp == packets[0].timestamp);
    }
    assert(assembler::whole_unit(pushed.pending, pushed.pending[0].ext, n));
    assert(pushed.pending.take(n) =~= pushed.pending);
    assert(assembler::payloads(pushed.pending) =~= arriving_payloads(packets));
    assembler::whole_unit_is_emitted(pushed, x.at, n);
    assert(pushed.pending.skip(n) =~= b.pending);
    assert(pushed.popped(x.at).0 =~= behind_unit(b, packets));
}

proof fn lemma_mid_unit(b: Buffer, packets: Seq<Arriving>, k: int)
    requires
        can_come_in(b, packets),
        0 <= k < packets.len(),
    ensures
        b.after_all(packets.take(k)) == before_packet(b, packets, k),
        b.returned(packets.take(k)) == Seq::new(k as nat, |i: int| None::<Seq<u8>>),
    decreases k,
{
    let front = packets.take(k);
    if k > 0 {
        lemma_mid_unit(b, packets, k - 1);
        lemma_received_mid(b, packets, k - 1);
        assert(front.drop_last() =~= packets.take(k - 1));
        assert(front.last() == packets[k - 1]);
    } else {
        assert(front =~= Seq::empty());
    }
    assert(b.returned(front) =~= Seq::new(k as nat, |i: int| None::<Seq<u8>>));
}

/// The buffer with the first `k` packets of a unit in it, before `pop` is called.
#[verifier::spinoff_prover]
proof fn lemma_pushed_in_order(b: Buffer, packets: Seq<Arriving>, k: int)
    requires
        can_come_in(b, packets),
        0 < k <= packets.len(),
    ensures
        ({
            let before = before_packet(b, packets, k - 1);
            let x = packets[k - 1];
            let m = mid_unit(b, packets, k);
            &&& m.valid()
            &&& before.pushed(x.at, x.seq, x.timestamp, x.marker, x.payload) == (Buffer {
                next: before.next,
                floor: before.floor,
                ..m
            })
        }),
{
    let ext = first_number(b, packets);
    let before = before_packet(b, packets, k - 1);
    let x = packets[k - 1];
    let m = mid_unit(b, packets, k);
    let s = Slot {
        ext: (ext + k - 1) as u64,
        timestamp: x.timestamp,
        marker: x.marker,
        payload: x.payload,
        at: x.at,
    };
    assert(packets[0].seq == ext % 0x1_0000);
    assert(x.seq == (ext + (k - 1)) % 0x1_0000);
    assert(assembler::extended(before.highest, x.seq) == ext + k - 1);
    let p = before.pending;
    assert forall|i: int| 0 <= i < p.len() implies (#[trigger] p[i]).ext < s.ext by {}
    lemma_put_at_end(p, s);
    assert(p.push(s) =~= m.pending) by {
        assert(p.len() == k - 1);
        assert forall|i: int| 0 <= i < k - 1 implies p[i] == m.pending[i] by {
            assert(packets.take(k - 1)[i] == packets.take(k)[i]);
        }
    }
    assert(before.pushed(x.at, x.seq, x.timestamp, x.marker, x.payload) =~= (Buffer {
        next: before.next,
        floor: before.floor,
        ..m
    }));
}

proof fn lemma_resync_at_head(b: Buffer)
    requires
        b.pending.len() > 0,
        b.next is None,
        assembler::partition_head(b.pending[0].payload),
    ensures
        b.in_step() == (Buffer {
            next: Some(b.pending[0].ext),
            floor: assembler::larger(b.floor as int, b.pending[0].ext as int),
            ..b
        }),
{
    reveal_with_fuel(assembler::first_head, 2);
    assert(b.pending.take(1).drop_last() =~= Seq::empty());
    assert(b.pending.take(1).last() == b.pending[0]);
    assembler::lemma_first_head_found(b.pending, 0);
    assert(b.pending.skip(0) =~= b.pending);
}

/// A unit that arrives in order, with `pop` called behind each packet, comes out on its marker
/// and not before, and leaves nothing behind.
pub proof fn unit_in_order_comes_out_on_its_marker(b: Buffer, packets: Seq<Arriving>)
    requires
        b.between_units(),
        packets.len() > 0,
        unit_packets(
            packets,
            match b.highest {
                None => packets[0].seq as int,
                Some(h) => h + 1,
            },
        ),
        packets.len() <= b.max_pending,
        (match b.highest {
            None => FIRST_EXTENDED + packets[0].seq,
            Some(h) => h + 1,
        }) + packets.len() < u64::MAX - 0x8000,
    ensures
        b.returned(packets) == on_the_marker(packets),
        b.after_all(packets).between_units(),
        b.after_all(packets).highest == Some(
            (match b.highest {
                None => FIRST_EXTENDED + packets[0].seq + packets.len() - 1,
                Some(h) => h + packets.len(),
            }) as u64,
        ),
        b.after_all(packets).max_pending == b.max_pending,
        b.after_all(packets).stats == (AssemblerStats {
            access_units: (b.stats.access_units + 1) as u64,
            ..b.stats
        }),
{
    let n = packets.len() as int;
    let ext = first_number(b, packets);
    if b.highest is None {
        lemma_first_extended_is_even(packets[0].seq as int);
        lemma_renumbered(packets, packets[0].seq as int, ext);
    }
    lemma_mid_unit(b, packets, n - 1);
    lemma_received_last(b, packets);
    assert(packets.drop_last() =~= packets.take(n - 1));
    assert(b.returned(packets) =~= on_the_marker(packets));
}

/// The packets of several units, in order.
pub open spec fn all_packets(units: Seq<Seq<Arriving>>) -> Seq<Arriving>
    decreases units.len(),
{
    if units.len() == 0 {
        Seq::empty()
    } else {
        all_packets(units.drop_last()) + units.last()
    }
}

/// What `pop` returns behind each packet of several units.
pub open spec fn each_on_its_marker(units: Seq<Seq<Arriving>>) -> Seq<Option<Seq<u8>>>
    decreases units.len(),
{
    if units.len() == 0 {
        Seq::empty()
    } else {
        each_on_its_marker(units.drop_last()) + on_the_marker(units.last())
    }
}

/// A run of units, numbered through from `seq` on: each as [`unit_packets`] has it, and none
/// larger than `most`.
pub open spec fn run_of_units(units: Seq<Seq<Arriving>>, seq: int, most: int) -> bool {
    forall|i: int|
        0 <= i < units.len() ==> unit_packets(
            #[trigger] units[i],
            seq + all_packets(units.take(i)).len(),
        ) && units[i].len() <= most
}

proof fn lemma_after_all_add(b: Buffer, p: Seq<Arriving>, q: Seq<Arriving>)
    ensures
        b.after_all(p + q) == b.after_all(p).after_all(q),
        b.returned(p + q) == b.returned(p) + b.after_all(p).returned(q),
    decreases q.len(),
{
    if q.len() == 0 {
        assert(p + q =~= p);
        assert(b.returned(p) + b.after_all(p).returned(q) =~= b.returned(p));
    } else {
        lemma_after_all_add(b, p, q.drop_last());
        assert((p + q).drop_last() =~= p + q.drop_last());
        assert((p + q).last() == q.last());
        assert(b.returned(p + q) =~= b.returned(p) + b.after_all(p).returned(q));
    }
}

proof fn lemma_first_extended_is_even(x: int)
    ensures
        (FIRST_EXTENDED + x) % 0x1_0000 == x % 0x1_0000,
{
}

proof fn lemma_renumbered(packets: Seq<Arriving>, a: int, b: int)
    requires
        unit_packets(packets, a),
        a % 0x1_0000 == b % 0x1_0000,
    ensures
        unit_packets(packets, b),
{
    assert forall|i: int| 0 <= i < packets.len() implies (#[trigger] packets[i]).seq == (b + i)
        % 0x1_0000 by {
        assert(packets[i].seq == (a + i) % 0x1_0000);
    }
}

/// A fresh assembler gives every unit of a run that arrives in order back: once, in order, right
/// on its marker and before any packet of the next unit, across the wrap of the sequence number
/// too. In the end nothing is buffered and nothing was dropped.
#[verifier::spinoff_prover]
pub proof fn run_in_order_comes_out(fresh: Buffer, units: Seq<Seq<Arriving>>, seq: u16)
    requires
        fresh.between_units(),
        fresh.highest is None,
        fresh.stats == AssemblerStats::zero(),
        run_of_units(units, seq as int, fresh.max_pending as int),
        FIRST_EXTENDED + seq + all_packets(units).len() < u64::MAX - 0x1_0000,
    ensures
        fresh.returned(all_packets(units)) == each_on_its_marker(units),
        fresh.after_all(all_packets(units)).pending.len() == 0,
        fresh.after_all(all_packets(units)).between_units(),
        fresh.after_all(all_packets(units)).max_pending == fresh.max_pending,
        fresh.after_all(all_packets(units)).stats == (AssemblerStats {
            access_units: units.len() as u64,
            ..AssemblerStats::zero()
        }),
        fresh.after_all(all_packets(units)).highest == (if units.len() == 0 {
            None::<u64>
        } else {
            Some((FIRST_EXTENDED + seq + all_packets(units).len() - 1) as u64)
        }),
        units.len() <= all_packets(units).len(),
        units.len() > 0 ==> all_packets(units).len() > 0,
    decreases units.len(),
{
    let all = all_packets(units);
    if units.len() > 0 {
        let init = units.drop_last();
        let last = units.last();
        assert forall|i: int| 0 <= i < init.len() implies unit_packets(
            #[trigger] init[i],
            seq + all_packets(init.take(i)).len(),
        ) && init[i].len() <= fresh.max_pending by {
            assert(init[i] == units[i]);
            assert(init.take(i) =~= units.take(i));
        }
        run_in_order_comes_out(fresh, init, seq);
        let before = all_packets(init);
        assert(units[units.len() - 1] == last);
        assert(units.take(units.len() - 1) =~= init);
        let b = fresh.after_all(before);
        lemma_after_all_add(fresh, before, last);
        assert(last[0].seq == (seq + before.len()) % 0x1_0000);
        if init.len() == 0 {
            assert(before =~= Seq::empty());
        } else {
            lemma_first_extended_is_even(seq + before.len());
            lemma_renumbered(last, seq + before.len(), b.highest->0 + 1);
        }
        unit_in_order_comes_out_on_its_marker(b, last);
        assert(fresh.returned(all) =~= each_on_its_marker(units));
    } else {
        assert(fresh.returned(all) =~= each_on_its_marker(units));
    }
}

/// While the first packet of a unit is missing and those behind it are young, a call of `pop`
/// gives nothing and changes nothing; a call after the wait gives the unit up.
pub proof fn pop_waits_for_a_missing_head(
    a: &mut AccessUnitAssembler,
    now: Nanos,
    r: Option<Vec<u8>>,
)
    requires
        old(a)@.valid(),
        old(a)@.has_room(),
        old(a)@.next is Some,
        old(a)@.pending.len() > 0,
        old(a)@.pending[0].ext > old(a)@.next->0,
        old(a)@.max_wait > 0,
        call_ensures(AccessUnitAssembler::pop, (a, now), r),
    ensures
        now < old(a)@.pending[0].at + old(a)@.max_wait ==> r is None && final(a)@ == old(a)@,
        now >= old(a)@.pending[0].at + old(a)@.max_wait ==> final(a)@.stats.dropped_units > old(
            a,
        )@.stats.dropped_units,
{
    assembler::missing_head_is_waited_for(old(a)@, now);
}

/// The first packet of a unit that arrives in time, behind the others, completes it: the next
/// call of `pop` gives the whole unit.
pub proof fn missing_head_in_time_completes_the_unit(
    a: &mut AccessUnitAssembler,
    b: &mut AccessUnitAssembler,
    now: Nanos,
    packet: RtpPacket,
    m: int,
    r: Option<Vec<u8>>,
)
    requires
        old(a)@.valid(),
        old(a)@.has_room(),
        old(a)@.next is Some,
        old(a)@.floor <= old(a)@.next->0,
        0 < old(a)@.pending.len() < old(a)@.max_pending,
        old(a)@.pending[0].ext == old(a)@.next->0 + 1,
        assembler::whole_unit(old(a)@.pending, old(a)@.pending[0].ext, m),
        assembler::extended(old(a)@.highest, packet.sequence_number) == old(a)@.next->0,
        packet.timestamp == old(a)@.pending[0].timestamp,
        !packet.marker,
        depacketizer::access_unit(
            seq![packet.payload@] + assembler::payloads(old(a)@.pending.take(m)),
        ) is Some,
        call_ensures(AccessUnitAssembler::push, (a, now, packet), ()),
        old(b)@ == final(a)@,
        call_ensures(AccessUnitAssembler::pop, (b, now), r),
    ensures
        r is Some,
        depacketizer::access_unit(
            seq![packet.payload@] + assembler::payloads(old(a)@.pending.take(m)),
        ) == Some(r->0@),
        final(b)@.stats.dropped_units == old(a)@.stats.dropped_units,
        final(b)@.pending == old(a)@.pending.skip(m),
{
    late_head_completes_its_unit(
        old(a)@,
        now,
        m,
        packet.sequence_number,
        packet.payload@,
    );
}

} // verus!
