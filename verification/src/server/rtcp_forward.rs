//! Which inbound RTCP packets are handed to the application: keyframe requests (PLI / FIR).
//!
//! In rtc 0.21 inbound RTCP stops at the end of the interceptor chain unless an interceptor
//! marks a packet `DeliverToApplication`. Everything else in RTCP (receiver reports, NACKs,
//! transport feedback) is consumed by the default interceptors; keyframe requests are the one
//! thing only the encoder can answer, so this sits in the last slot and forwards exactly those.
use vstd::prelude::*;

verus! {

/// Registry slot: after every default interceptor (they use slots below 10_000).
pub const SLOT: usize = 14_000;

/// What an RTCP packet is.
#[derive(Debug, Clone, Copy, PartialEq, Eq, Structural)]
pub enum RtcpKind {
    PictureLossIndication,
    FullIntraRequest,
    Other,
}

/// True for PLI and FIR packets.
pub open spec fn asks_for_keyframe(kind: RtcpKind) -> bool {
    kind is PictureLossIndication || kind is FullIntraRequest
}

/// True for PLI and FIR packets.
pub fn is_keyframe_request(kind: RtcpKind) -> (r: bool)
    ensures
        r == asks_for_keyframe(kind),
{
    match kind {
        RtcpKind::PictureLossIndication => true,
        RtcpKind::FullIntraRequest => true,
        RtcpKind::Other => false,
    }
}

/// The positions of the keyframe requests among some packets, in order.
pub open spec fn request_positions(kinds: Seq<RtcpKind>) -> Seq<int>
    decreases kinds.len(),
{
    if kinds.len() == 0 {
        Seq::empty()
    } else if asks_for_keyframe(kinds.last()) {
        request_positions(kinds.drop_last()).push(kinds.len() - 1)
    } else {
        request_positions(kinds.drop_last())
    }
}

/// The numbers of a list of positions.
pub open spec fn positions(v: Seq<usize>) -> Seq<int> {
    Seq::new(v.len(), |i: int| v[i] as int)
}

/// What becomes of an inbound message of RTCP packets: `None` where no packet is a keyframe
/// request and the message ends here; else the positions of those that are, which are delivered
/// to the application.
pub fn requests_to_deliver(kinds: &Vec<RtcpKind>) -> (r: Option<Vec<usize>>)
    ensures
        match r {
            Some(v) => positions(v@) == request_positions(kinds@) && v@.len() > 0,
            None => request_positions(kinds@).len() == 0,
        },
        r is Some <==> exists|i: int| 0 <= i < kinds@.len() && asks_for_keyframe(
            #[trigger] kinds@[i],
        ),
{
    let mut out: Vec<usize> = Vec::new();
    assert(kinds@.take(0) =~= Seq::empty());
    assert(positions(out@) =~= request_positions(kinds@.take(0)));
    for i in 0..kinds.len()
        invariant
            positions(out@) == request_positions(kinds@.take(i as int)),
            out@.len() > 0 <==> exists|j: int| 0 <= j < i && asks_for_keyframe(
                #[trigger] kinds@[j],
            ),
    {
        let ghost before = positions(out@);
        assert(kinds@.take(i + 1).drop_last() =~= kinds@.take(i as int));
        if is_keyframe_request(kinds[i]) {
            out.push(i);
            assert(positions(out@) =~= before.push(i as int));
            assert(asks_for_keyframe(kinds@[i as int]));
        }
    }
    assert(kinds@.take(kinds@.len() as int) =~= kinds@);
    if out.len() == 0 {
        None
    } else {
        Some(out)
    }
}

/// Exactly the picture loss indications and full intra requests are delivered, each once and in
/// order.
pub proof fn keyframe_requests_are_delivered_in_order(kinds: Seq<RtcpKind>)
    ensures
        forall|i: int|
            #[trigger] request_positions(kinds).contains(i) <==> 0 <= i < kinds.len()
                && !(kinds[i] is Other),
        forall|a: int, b: int|
            0 <= a < b < request_positions(kinds).len() ==> #[trigger] request_positions(kinds)[a]
                < #[trigger] request_positions(kinds)[b],
    decreases kinds.len(),
{
    let all = request_positions(kinds);
    if kinds.len() > 0 {
        let init = kinds.drop_last();
        let before = request_positions(init);
        keyframe_requests_are_delivered_in_order(init);
        assert forall|i: int| #[trigger] all.contains(i) <==> 0 <= i < kinds.len() && !(
        kinds[i] is Other) by {
            if all.contains(i) {
                let k = choose|k: int| 0 <= k < all.len() && all[k] == i;
                if k < before.len() {
                    assert(before[k] == i);
                    assert(before.contains(i));
                }
            }
            if 0 <= i < init.len() && !(kinds[i] is Other) {
                assert(before.contains(i));
                let k = choose|k: int| 0 <= k < before.len() && before[k] == i;
                assert(all[k] == i);
            } else if i == kinds.len() - 1 && !(kinds[i] is Other) {
                assert(all[before.len() as int] == i);
            }
        }
        assert forall|a: int, b: int| 0 <= a < b < all.len() implies #[trigger] all[a]
            < #[trigger] all[b] by {
            if b == before.len() {
                assert(before.contains(before[a]));
            }
        }
    }
}

} // verus!
