//! H.264 in RTP payloads (RFC 6184): what a payload carries, and how the payloads of one access
//! unit become an Annex B byte stream again.
//!
//! A payload is a whole NAL unit, an aggregate of several (STAP-A), or a fragment of one (FU-A).
use vstd::prelude::*;

use bytes::Bytes;
use rtc::rtp::codec::h264::H264Packet;
use rtc::rtp::packetizer::Depacketizer;

verus! {

pub const NALU_TYPE_MASK: u8 = 0x1F;

pub const NALU_REF_IDC_MASK: u8 = 0x60;

pub const NALU_AUD: u8 = 9;

pub const NALU_STAP_A: u8 = 24;

pub const NALU_FU_A: u8 = 28;

pub const NALU_FU_B: u8 = 29;

pub const FU_START_BIT: u8 = 0x80;

pub const FU_END_BIT: u8 = 0x40;

/// `rtc`'s H.264 depacketizer.
#[verifier::external_type_specification]
#[verifier::external_body]
pub struct ExH264Packet(rtc::rtp::codec::h264::H264Packet);

// ------------------------------------------------------------------------------------------
// What a payload stands for
// ------------------------------------------------------------------------------------------
/// The Annex B start code in front of a NAL unit.
pub open spec fn start_code() -> Seq<u8> {
    seq![0u8, 0u8, 0u8, 1u8]
}

/// NAL units one after the other, each behind a start code.
pub open spec fn annex_b(nals: Seq<Seq<u8>>) -> Seq<u8>
    decreases nals.len(),
{
    if nals.len() == 0 {
        Seq::empty()
    } else {
        annex_b(nals.drop_last()) + (start_code() + nals.last())
    }
}

/// The NAL units of a STAP-A payload from `at` on, each behind a start code. `None` if the
/// payload ends too early.
pub open spec fn aggregated(payload: Seq<u8>, at: int) -> Option<Seq<u8>>
    decreases payload.len() - at,
{
    if at < 0 || at >= payload.len() {
        Some(Seq::empty())
    } else {
        let end = at + 2 + payload[at] as int * 256 + payload[at + 1] as int;
        if at + 2 > payload.len() || end > payload.len() {
            None
        } else {
            match aggregated(payload, end) {
                Some(rest) => Some(start_code() + payload.subrange(at + 2, end) + rest),
                None => None,
            }
        }
    }
}

/// What one payload gives of the byte stream, with `open` the fragments of a NAL unit that has
/// not ended yet: a whole NAL unit behind a start code, the NAL units of an aggregate, the NAL
/// unit that the last fragment completes, nothing for another fragment. `None` for a payload
/// that is too short or of another kind.
pub open spec fn depacketized(open: Seq<u8>, payload: Seq<u8>) -> Option<Seq<u8>> {
    let kind = payload[0] & NALU_TYPE_MASK;
    if payload.len() < 2 || (payload.len() == 2 && kind != NALU_AUD) {
        None
    } else if 1 <= kind <= 23 {
        Some(start_code() + payload)
    } else if kind == NALU_STAP_A {
        aggregated(payload, 1)
    } else if kind == NALU_FU_A && payload[1] & FU_END_BIT != 0 {
        let header = payload[0] & NALU_REF_IDC_MASK | payload[1] & NALU_TYPE_MASK;
        Some(start_code() + (seq![header] + open + payload.skip(2)))
    } else if kind == NALU_FU_A {
        Some(Seq::empty())
    } else {
        None
    }
}

/// The fragments of a NAL unit that has not ended, after one more payload.
pub open spec fn open_after(open: Seq<u8>, payload: Seq<u8>) -> Seq<u8> {
    if payload.len() < 3 || payload[0] & NALU_TYPE_MASK != NALU_FU_A {
        open
    } else if payload[1] & FU_END_BIT != 0 {
        Seq::empty()
    } else {
        open + payload.skip(2)
    }
}

/// The fragments of a NAL unit that has not ended after all of `payloads`.
pub open spec fn open_fragments(payloads: Seq<Seq<u8>>) -> Seq<u8>
    decreases payloads.len(),
{
    if payloads.len() == 0 {
        Seq::empty()
    } else {
        open_after(open_fragments(payloads.drop_last()), payloads.last())
    }
}

/// The byte stream that `payloads` give; `None` if one of them gives none.
pub open spec fn byte_stream(payloads: Seq<Seq<u8>>) -> Option<Seq<u8>>
    decreases payloads.len(),
{
    if payloads.len() == 0 {
        Some(Seq::empty())
    } else {
        let front = payloads.drop_last();
        match (byte_stream(front), depacketized(open_fragments(front), payloads.last())) {
            (Some(stream), Some(bytes)) => Some(stream + bytes),
            _ => None,
        }
    }
}

/// The Annex B access unit that the payloads of one unit make up. `None` for a payload that
/// cannot be depacketized, and for a unit without a single byte.
pub open spec fn access_unit(payloads: Seq<Seq<u8>>) -> Option<Seq<u8>> {
    match byte_stream(payloads) {
        Some(bytes) if bytes.len() > 0 => Some(bytes),
        _ => None,
    }
}

/// Walking the aggregated NAL units of a STAP-A payload from `at` meets a length field of
/// which only the first byte is there.
pub open spec fn length_cut(payload: Seq<u8>, at: int) -> bool
    decreases payload.len() - at,
{
    if at < 0 || at >= payload.len() {
        false
    } else if at + 1 >= payload.len() {
        true
    } else {
        let size = payload[at] as int * 256 + payload[at + 1] as int;
        at + 2 + size <= payload.len() && length_cut(payload, at + 2 + size)
    }
}

/// The payload is a STAP-A aggregate that ends inside a length field.
pub open spec fn cut_aggregate(payload: Seq<u8>) -> bool {
    payload.len() > 2 && payload[0] & NALU_TYPE_MASK == NALU_STAP_A && length_cut(payload, 1)
}

proof fn lemma_cut_gives_none(payload: Seq<u8>, at: int)
    requires
        length_cut(payload, at),
    ensures
        aggregated(payload, at) is None,
    decreases payload.len() - at,
{
    if at + 1 < payload.len() {
        let size = payload[at] as int * 256 + payload[at + 1] as int;
        lemma_cut_gives_none(payload, at + 2 + size);
    }
}

/// Whether a payload is a STAP-A aggregate that ends inside a length field.
pub fn is_cut_aggregate(payload: &[u8]) -> (r: bool)
    ensures
        r == cut_aggregate(payload@),
{
    if payload.len() <= 2 || payload[0] & NALU_TYPE_MASK != NALU_STAP_A {
        return false;
    }
    let mut at: usize = 1;
    while at < payload.len()
        invariant
            payload.len() > 2,
            payload@[0] & NALU_TYPE_MASK == NALU_STAP_A,
            1 <= at <= payload.len(),
            length_cut(payload@, 1) == length_cut(payload@, at as int),
        decreases payload.len() - at,
    {
        if at == payload.len() - 1 {
            return true;
        }
        let size: usize = payload[at] as usize * 256 + payload[at + 1] as usize;
        let left: usize = payload.len() - at - 2;
        if size > left {
            return false;
        }
        at = at + 2 + size;
    }
    false
}

// ------------------------------------------------------------------------------------------
// The depacketizer
// ------------------------------------------------------------------------------------------
/// The fragments that a depacketizer holds of a NAL unit that has not ended yet.
pub uninterp spec fn held_fragments(h264: H264Packet) -> Seq<u8>;

/// Whether a depacketizer writes lengths in place of start codes.
pub uninterp spec fn writes_lengths(h264: H264Packet) -> bool;

/// A depacketizer that has seen no payload.
///
/// This is `H264Packet::default`: it holds no fragments and writes start codes.
#[verifier::external_body]
fn new_depacketizer() -> (r: H264Packet)
    ensures
        held_fragments(r) == Seq::<u8>::empty(),
        !writes_lengths(r),
{
    H264Packet::default()
}

/// Hands one payload to a depacketizer; an error becomes `None`.
///
/// This is `rtc`'s `H264Packet::depacketize`. It panics on an aggregate that ends inside a
/// length field, so those are left out. What it returns for each kind of payload, and which
/// fragments it holds afterwards, is stated in full for one that writes start codes.
#[verifier::external_body]
fn depacketize(h264: &mut H264Packet, payload: &[u8]) -> (r: Option<Vec<u8>>)
    requires
        !writes_lengths(*old(h264)),
        !cut_aggregate(payload@),
    ensures
        match r {
            Some(bytes) => depacketized(held_fragments(*old(h264)), payload@) == Some(bytes@),
            None => depacketized(held_fragments(*old(h264)), payload@) is None,
        },
        held_fragments(*final(h264)) == open_after(held_fragments(*old(h264)), payload@),
        writes_lengths(*final(h264)) == writes_lengths(*old(h264)),
{
    h264.depacketize(&Bytes::copy_from_slice(payload)).ok().map(|b| b.to_vec())
}

/// The byte strings that a list of vectors holds.
pub open spec fn byte_strings(v: Seq<Vec<u8>>) -> Seq<Seq<u8>> {
    Seq::new(v.len(), |i: int| v[i]@)
}

/// Turns the payloads of one unit into an Annex B access unit.
pub fn depacketize_unit(payloads: &Vec<Vec<u8>>) -> (r: Option<Vec<u8>>)
    ensures
        match r {
            Some(unit) => access_unit(byte_strings(payloads@)) == Some(unit@),
            None => access_unit(byte_strings(payloads@)) is None,
        },
{
    let ghost all = byte_strings(payloads@);
    let mut h264 = new_depacketizer();
    let mut out: Vec<u8> = Vec::new();
    let mut ok = true;
    assert(all.take(0) =~= Seq::empty());
    for i in 0..payloads.len()
        invariant
            all == byte_strings(payloads@),
            !writes_lengths(h264),
            held_fragments(h264) == open_fragments(all.take(i as int)),
            byte_stream(all.take(i as int)) == (if ok {
                Some(out@)
            } else {
                None
            }),
    {
        assert(all.take(i + 1).drop_last() =~= all.take(i as int));
        assert(all.take(i + 1).last() == payloads@[i as int]@);
        if is_cut_aggregate(payloads[i].as_slice()) {
            proof {
                lemma_cut_gives_none(all[i as int], 1);
            }
            ok = false;
        } else {
            match depacketize(&mut h264, payloads[i].as_slice()) {
                Some(bytes) => {
                    let ghost before = out@;
                    out.extend_from_slice(bytes.as_slice());
                    assert(out@ =~= before + bytes@);
                },
                None => {
                    ok = false;
                },
            }
        }
    }
    assert(all.take(all.len() as int) =~= all);
    if ok && out.len() > 0 {
        Some(out)
    } else {
        None
    }
}

// ------------------------------------------------------------------------------------------
// Packed NAL units come back
// ------------------------------------------------------------------------------------------
/// How NAL units travel in RTP payloads.
pub enum Packing {
    /// One NAL unit in a payload of its own.
    Single(Seq<u8>),
    /// Several NAL units in one payload behind this header byte, each with its length in front.
    Aggregate(u8, Seq<Seq<u8>>),
    /// One NAL unit cut into pieces behind its header byte, a payload for each.
    Fragments(Seq<u8>, Seq<Seq<u8>>),
}

/// A length in two bytes, most significant first.
pub open spec fn be16(n: int) -> Seq<u8> {
    seq![(n / 256) as u8, (n % 256) as u8]
}

/// NAL units one after the other, each behind its length.
pub open spec fn sized(nals: Seq<Seq<u8>>) -> Seq<u8>
    decreases nals.len(),
{
    if nals.len() == 0 {
        Seq::empty()
    } else {
        be16(nals.first().len() as int) + nals.first() + sized(nals.drop_first())
    }
}

/// Byte strings one after the other.
pub open spec fn joined(pieces: Seq<Seq<u8>>) -> Seq<u8>
    decreases pieces.len(),
{
    if pieces.len() == 0 {
        Seq::empty()
    } else {
        joined(pieces.drop_last()) + pieces.last()
    }
}

/// The FU-A payload with one piece of a NAL unit that starts with `header`.
pub open spec fn fragment(header: u8, first: bool, last: bool, piece: Seq<u8>) -> Seq<u8> {
    let start = if first {
        FU_START_BIT
    } else {
        0u8
    };
    let end = if last {
        FU_END_BIT
    } else {
        0u8
    };
    seq![NALU_FU_A | header & NALU_REF_IDC_MASK, start | end | header & NALU_TYPE_MASK] + piece
}

impl Packing {
    /// The packing follows the RFC: whole and aggregated NAL units of types 1 to 23, lengths
    /// that two bytes can hold, pieces that make up the NAL unit without its header.
    pub open spec fn valid(self) -> bool {
        match self {
            Packing::Single(nal) => {
                &&& nal.len() >= 3 || (nal.len() == 2 && nal[0] & NALU_TYPE_MASK == NALU_AUD)
                &&& 1 <= nal[0] & NALU_TYPE_MASK <= 23
            },
            Packing::Aggregate(header, nals) => {
                &&& header & NALU_TYPE_MASK == NALU_STAP_A
                &&& nals.len() > 0
                &&& forall|i: int| 0 <= i < nals.len() ==> (#[trigger] nals[i]).len() < 0x1_0000
            },
            Packing::Fragments(nal, pieces) => {
                &&& nal.len() > 0
                &&& nal[0] < 0x80
                &&& pieces.len() > 0
                &&& joined(pieces) == nal.skip(1)
                &&& forall|i: int| 0 <= i < pieces.len() ==> (#[trigger] pieces[i]).len() > 0
            },
        }
    }

    /// The NAL units.
    pub open spec fn nals(self) -> Seq<Seq<u8>> {
        match self {
            Packing::Single(nal) => seq![nal],
            Packing::Aggregate(_, nals) => nals,
            Packing::Fragments(nal, _) => seq![nal],
        }
    }

    /// The payloads.
    pub open spec fn payloads(self) -> Seq<Seq<u8>> {
        match self {
            Packing::Single(nal) => seq![nal],
            Packing::Aggregate(header, nals) => seq![seq![header] + sized(nals)],
            Packing::Fragments(nal, pieces) => Seq::new(
                pieces.len(),
                |i: int| fragment(nal[0], i == 0, i == pieces.len() - 1, pieces[i]),
            ),
        }
    }
}

/// The payloads of several packings, in order.
pub open spec fn all_payloads(packings: Seq<Packing>) -> Seq<Seq<u8>>
    decreases packings.len(),
{
    if packings.len() == 0 {
        Seq::empty()
    } else {
        all_payloads(packings.drop_last()) + packings.last().payloads()
    }
}

/// The NAL units of several packings, in order.
pub open spec fn all_nals(packings: Seq<Packing>) -> Seq<Seq<u8>>
    decreases packings.len(),
{
    if packings.len() == 0 {
        Seq::empty()
    } else {
        all_nals(packings.drop_last()) + packings.last().nals()
    }
}

proof fn lemma_annex_b_add(a: Seq<Seq<u8>>, b: Seq<Seq<u8>>)
    ensures
        annex_b(a + b) == annex_b(a) + annex_b(b),
    decreases b.len(),
{
    if b.len() == 0 {
        assert(a + b =~= a);
        assert(annex_b(a) + annex_b(b) =~= annex_b(a));
    } else {
        lemma_annex_b_add(a, b.drop_last());
        assert((a + b).drop_last() =~= a + b.drop_last());
        assert((a + b).last() == b.last());
        assert(annex_b(a + b) =~= annex_b(a) + annex_b(b));
    }
}

proof fn lemma_annex_b_one(nal: Seq<u8>)
    ensures
        annex_b(seq![nal]) == start_code() + nal,
{
    let nals = seq![nal];
    assert(nals.drop_last() =~= Seq::empty());
    assert(annex_b(nals.drop_last()) =~= Seq::<u8>::empty());
    assert(annex_b(nals) =~= start_code() + nal);
}

/// An aggregate gives its NAL units back.
proof fn lemma_aggregated(payload: Seq<u8>, at: int, nals: Seq<Seq<u8>>)
    requires
        0 <= at <= payload.len(),
        payload.skip(at) == sized(nals),
        forall|i: int| 0 <= i < nals.len() ==> (#[trigger] nals[i]).len() < 0x1_0000,
    ensures
        aggregated(payload, at) == Some(annex_b(nals)),
    decreases nals.len(),
{
    let left = payload.skip(at);
    if nals.len() > 0 {
        let (nal, rest) = (nals.first(), nals.drop_first());
        assert(nal == nals[0]);
        let n = nal.len() as int;
        let code = be16(n);
        assert(left =~= code + nal + sized(rest));
        assert(left[0] == payload[at] && left[1] == payload[at + 1]);
        assert(left[0] == code[0] && left[1] == code[1]);
        assert(n / 256 * 256 + n % 256 == n);
        let end = at + 2 + n;
        assert(payload.subrange(at + 2, end) =~= nal) by {
            assert forall|k: int| 0 <= k < n implies payload[at + 2 + k] == nal[k] by {
                assert(left[2 + k] == nal[k]);
            }
        }
        assert(payload.skip(end) =~= sized(rest)) by {
            assert forall|k: int| 0 <= k < sized(rest).len() implies payload[end + k]
                == sized(rest)[k] by {
                assert(left[2 + n + k] == sized(rest)[k]);
            }
        }
        assert forall|i: int| 0 <= i < rest.len() implies (#[trigger] rest[i]).len() < 0x1_0000 by {
            assert(rest[i] == nals[i + 1]);
        }
        lemma_aggregated(payload, end, rest);
        lemma_annex_b_one(nal);
        lemma_annex_b_add(seq![nal], rest);
        assert(seq![nal] + rest =~= nals);
        assert(start_code() + nal + annex_b(rest) =~= annex_b(nals));
    }
}

proof fn lemma_fragment_bits(header: u8, start: u8, end: u8)
    requires
        header < 0x80,
        start == 0 || start == FU_START_BIT,
        end == 0 || end == FU_END_BIT,
    ensures
        ({
            let indicator = NALU_FU_A | header & NALU_REF_IDC_MASK;
            let flags = start | end | header & NALU_TYPE_MASK;
            &&& indicator & NALU_TYPE_MASK == NALU_FU_A
            &&& (flags & FU_END_BIT != 0) == (end != 0)
            &&& indicator & NALU_REF_IDC_MASK | flags & NALU_TYPE_MASK == header
        }),
{
    assert((28u8 | header & 0x60u8) & 0x1Fu8 == 28u8) by (bit_vector);
    assert(((start | end | header & 0x1Fu8) & 0x40u8 != 0) == (end != 0)) by (bit_vector)
        requires
            start == 0u8 || start == 0x80u8,
            end == 0u8 || end == 0x40u8,
    ;
    assert((28u8 | header & 0x60u8) & 0x60u8 | (start | end | header & 0x1Fu8) & 0x1Fu8 == header)
        by (bit_vector)
        requires
            header < 0x80u8,
            start == 0u8 || start == 0x80u8,
            end == 0u8 || end == 0x40u8,
    ;
}

/// The first `k` fragments of a NAL unit, behind payloads that left nothing open.
proof fn lemma_fragments(before: Seq<Seq<u8>>, nal: Seq<u8>, pieces: Seq<Seq<u8>>, k: int)
    requires
        Packing::Fragments(nal, pieces).valid(),
        open_fragments(before) == Seq::<u8>::empty(),
        byte_stream(before) is Some,
        0 <= k <= pieces.len(),
    ensures
        ({
            let sent = before + Packing::Fragments(nal, pieces).payloads().take(k);
            if k < pieces.len() {
                &&& byte_stream(sent) == byte_stream(before)
                &&& open_fragments(sent) == joined(pieces.take(k))
            } else {
                &&& byte_stream(sent) == Some(byte_stream(before)->0 + (start_code() + nal))
                &&& open_fragments(sent) == Seq::<u8>::empty()
            }
        }),
    decreases k,
{
    let parts = Packing::Fragments(nal, pieces).payloads();
    let sent = before + parts.take(k);
    if k == 0 {
        assert(sent =~= before);
        assert(pieces.take(0) =~= Seq::empty());
    } else {
        lemma_fragments(before, nal, pieces, k - 1);
        let front = before + parts.take(k - 1);
        assert(sent.drop_last() =~= front);
        let p = sent.last();
        let (first, last) = (k == 1, k == pieces.len());
        assert(p == fragment(nal[0], first, last, pieces[k - 1]));
        lemma_fragment_bits(
            nal[0],
            if first {
                FU_START_BIT
            } else {
                0u8
            },
            if last {
                FU_END_BIT
            } else {
                0u8
            },
        );
        assert(pieces[k - 1].len() > 0);
        assert(p.skip(2) =~= pieces[k - 1]);
        assert(pieces.take(k).drop_last() =~= pieces.take(k - 1));
        assert(joined(pieces.take(k)) == joined(pieces.take(k - 1)) + pieces[k - 1]);
        let stream = byte_stream(before)->0;
        if last {
            assert(pieces.take(k) =~= pieces);
            assert(seq![nal[0]] + joined(pieces.take(k - 1)) + pieces[k - 1] =~= nal) by {
                assert(joined(pieces) == nal.skip(1));
                assert(seq![nal[0]] + nal.skip(1) =~= nal);
                assert(seq![nal[0]] + joined(pieces.take(k - 1)) + pieces[k - 1] =~= seq![nal[0]]
                    + joined(pieces));
            }
        } else {
            assert(stream + Seq::<u8>::empty() =~= stream);
        }
    }
}

proof fn lemma_packed(packings: Seq<Packing>)
    requires
        forall|i: int| 0 <= i < packings.len() ==> (#[trigger] packings[i]).valid(),
    ensures
        byte_stream(all_payloads(packings)) == Some(annex_b(all_nals(packings))),
        open_fragments(all_payloads(packings)) == Seq::<u8>::empty(),
        packings.len() > 0 ==> annex_b(all_nals(packings)).len() > 0,
    decreases packings.len(),
{
    if packings.len() > 0 {
        lemma_packed(packings.drop_last());
        let before = all_payloads(packings.drop_last());
        let sent = all_payloads(packings);
        let last = packings.last();
        assert(last == packings[packings.len() - 1]);
        lemma_annex_b_add(all_nals(packings.drop_last()), last.nals());
        match last {
            Packing::Single(nal) => {
                lemma_annex_b_one(nal);
                assert(sent.drop_last() =~= before);
            },
            Packing::Aggregate(header, nals) => {
                let payload = seq![header] + sized(nals);
                assert(sent.drop_last() =~= before);
                assert(sent.last() == payload);
                assert(payload.skip(1) =~= sized(nals));
                lemma_aggregated(payload, 1, nals);
                assert(sized(nals).len() >= 2);
                assert(annex_b(nals).len() >= 4);
            },
            Packing::Fragments(nal, pieces) => {
                lemma_annex_b_one(nal);
                lemma_fragments(before, nal, pieces, pieces.len() as int);
                assert(last.payloads().take(pieces.len() as int) =~= last.payloads());
            },
        }
    }
}

/// An access unit comes back as it was sent: however its NAL units are spread over single
/// payloads, aggregates and fragments, depacketizing gives them in order, each behind a start
/// code.
pub proof fn packed_units_come_back(packings: Seq<Packing>)
    requires
        packings.len() > 0,
        forall|i: int| 0 <= i < packings.len() ==> (#[trigger] packings[i]).valid(),
    ensures
        access_unit(all_payloads(packings)) == Some(annex_b(all_nals(packings))),
{
    lemma_packed(packings);
}

/// NAL units stand one after the other, each behind the bytes 0, 0, 0, 1.
pub proof fn nal_units_stand_behind_start_codes(a: Seq<Seq<u8>>, b: Seq<Seq<u8>>, nal: Seq<u8>)
    ensures
        annex_b(a + b) == annex_b(a) + annex_b(b),
        annex_b(seq![nal]) == seq![0u8, 0u8, 0u8, 1u8] + nal,
        annex_b(Seq::empty()) == Seq::<u8>::empty(),
    decreases b.len(),
{
    reveal_with_fuel(annex_b, 2);
    assert(seq![nal].drop_last() =~= Seq::<Seq<u8>>::empty());
    assert(annex_b(seq![nal]) =~= seq![0u8, 0u8, 0u8, 1u8] + nal);
    if b.len() == 0 {
        assert(a + b =~= a);
        assert(annex_b(a + b) =~= annex_b(a) + annex_b(b));
    } else {
        nal_units_stand_behind_start_codes(a, b.drop_last(), nal);
        assert((a + b).drop_last() =~= a + b.drop_last());
        assert(annex_b(a + b) =~= annex_b(a) + annex_b(b));
    }
}

proof fn lemma_length_cut(front: Seq<u8>, nals: Seq<Seq<u8>>, tail: Seq<u8>)
    requires
        front.len() > 0,
        tail.len() <= 1,
        forall|i: int| 0 <= i < nals.len() ==> (#[trigger] nals[i]).len() < 0x1_0000,
    ensures
        length_cut(front + sized(nals) + tail, front.len() as int) == (tail.len() == 1),
    decreases nals.len(),
{
    let p = front + sized(nals) + tail;
    let at = front.len() as int;
    if nals.len() > 0 {
        let n = nals.first();
        let size = n.len() as int;
        let next = front + be16(size) + n;
        assert(nals.drop_first().len() == nals.len() - 1);
        assert forall|i: int| 0 <= i < nals.drop_first().len() implies (
        #[trigger] nals.drop_first()[i]).len() < 0x1_0000 by {
            assert(nals.drop_first()[i] == nals[i + 1]);
        }
        lemma_length_cut(next, nals.drop_first(), tail);
        assert(p =~= next + sized(nals.drop_first()) + tail);
        assert(p[at] == (size / 256) as u8);
        assert(p[at + 1] == (size % 256) as u8);
        assert(p[at] as int * 256 + p[at + 1] as int == size);
    } else {
        assert(p =~= front + tail);
    }
}

/// An aggregate is cut exactly if one byte of a length field is left over behind its NAL units.
pub proof fn whole_aggregates_are_not_cut(header: u8, nals: Seq<Seq<u8>>, left: u8)
    requires
        header & 0x1F == 24,
        nals.len() > 0,
        forall|i: int| 0 <= i < nals.len() ==> (#[trigger] nals[i]).len() < 0x1_0000,
    ensures
        !cut_aggregate(seq![header] + sized(nals)),
        cut_aggregate(seq![header] + sized(nals) + seq![left]),
{
    lemma_length_cut(seq![header], nals, Seq::empty());
    lemma_length_cut(seq![header], nals, seq![left]);
    assert(seq![header] + sized(nals) + Seq::empty() =~= seq![header] + sized(nals));
    assert(sized(nals).len() >= 2);
}

} // verus!
