//! Video encoder abstraction.
//!
//! The rest of the server only sees [`VideoEncoder`]; [`openh264`] holds the settings of the
//! encoder in use. Swapping in another encoder (e.g. a hardware encoder on a GPU VM) means
//! implementing this trait.
use vstd::prelude::*;

use crate::server::convert::I420Frame;

pub mod openh264;

verus! {

/// Static encoder settings chosen at construction time.
#[derive(Debug, Clone, Copy, PartialEq, Eq, Structural)]
pub struct EncoderSettings {
    pub width: u32,
    pub height: u32,
    pub fps: u32,
    pub bitrate_kbps: u32,
    /// IDR interval in frames, `0` = only on request.
    pub keyframe_interval: u32,
    /// Encoder threads, `0` = automatic.
    pub threads: u16,
}

/// One encoded access unit in Annex B byte-stream format (start codes included).
///
/// Keyframes carry SPS + PPS in front of the IDR slice so a client joining late can start
/// decoding from any keyframe.
#[derive(Debug, Clone, PartialEq, Eq)]
pub struct EncodedFrame {
    pub data: Vec<u8>,
    pub keyframe: bool,
    /// Presentation time in milliseconds (monotonic, as given to `encode`).
    pub pts_ms: u64,
}

pub trait VideoEncoder {
    /// Encodes one frame. Returns `None` when the encoder skipped the frame.
    fn encode(&mut self, frame: &I420Frame, pts_ms: u64, force_keyframe: bool) -> Result<
        Option<EncodedFrame>,
        String,
    >;

    /// Changes the target bitrate at runtime.
    fn set_bitrate(&mut self, kbps: u32) -> Result<(), String>;

    /// Human readable encoder name for logs.
    fn name(&self) -> &'static str;
}

/// A start code (0, 0, 1) ends at the end of `s`.
pub open spec fn ends_in_start_code(s: Seq<u8>) -> bool {
    s.len() >= 3 && s[s.len() - 3] == 0 && s[s.len() - 2] == 0 && s[s.len() - 1] == 1
}

/// Where the NAL units of an Annex B byte stream begin: behind each start code.
pub open spec fn nal_starts(s: Seq<u8>) -> Seq<int>
    decreases s.len(),
{
    if s.len() == 0 {
        Seq::empty()
    } else if ends_in_start_code(s) {
        nal_starts(s.drop_last()).push(s.len() as int)
    } else {
        nal_starts(s.drop_last())
    }
}

/// The end of `s[begin..end]` without the zero bytes at its end.
pub open spec fn without_zeros(s: Seq<u8>, begin: int, end: int) -> int
    decreases end - begin,
{
    if end > begin && s[end - 1] == 0 {
        without_zeros(s, begin, end - 1)
    } else {
        end
    }
}

/// Where NAL unit `k` ends: the last one at the end of the stream, the others in front of the
/// next start code and the zero bytes that lead up to it.
pub open spec fn nal_end(s: Seq<u8>, k: int) -> int {
    let starts = nal_starts(s);
    if k + 1 < starts.len() {
        without_zeros(s, starts[k], starts[k + 1] - 3)
    } else {
        s.len() as int
    }
}

/// NAL unit `k` of an Annex B byte stream.
pub open spec fn nal(s: Seq<u8>, k: int) -> Seq<u8> {
    s.subrange(nal_starts(s)[k], nal_end(s, k))
}

/// The NAL units of an Annex B byte stream.
pub open spec fn nals(s: Seq<u8>) -> Seq<Seq<u8>> {
    Seq::new(nal_starts(s).len(), |k: int| nal(s, k))
}

/// The byte strings that a list of slices holds.
pub open spec fn slices(v: Seq<&[u8]>) -> Seq<Seq<u8>> {
    Seq::new(v.len(), |i: int| v[i]@)
}

proof fn lemma_nal_starts(s: Seq<u8>)
    ensures
        forall|i: int| 0 <= i < nal_starts(s).len() ==> 3 <= #[trigger] nal_starts(s)[i] <= s.len(),
        forall|i: int|
            0 <= i < nal_starts(s).len() ==> ends_in_start_code(
                s.take(#[trigger] nal_starts(s)[i]),
            ),
        forall|i: int, j: int|
            0 <= i < j < nal_starts(s).len() ==> #[trigger] nal_starts(s)[i] + 3
                <= #[trigger] nal_starts(s)[j],
    decreases s.len(),
{
    if s.len() > 0 {
        let t = s.drop_last();
        lemma_nal_starts(t);
        let a = nal_starts(t);
        let b = nal_starts(s);
        assert forall|i: int| 0 <= i < b.len() implies ends_in_start_code(
            s.take(#[trigger] b[i]),
        ) by {
            if i < a.len() {
                assert(a[i] == b[i]);
                assert(s.take(b[i]) =~= t.take(a[i]));
            } else {
                assert(s.take(b[i]) =~= s);
            }
        }
        assert forall|i: int, j: int| 0 <= i < j < b.len() implies #[trigger] b[i] + 3
            <= #[trigger] b[j] by {
            if j < a.len() {
                assert(a[i] + 3 <= a[j]);
            } else {
                assert(b[j] == s.len());
                assert(b[i] == a[i]);
                let e = t.take(a[i]);
                assert(ends_in_start_code(e));
                assert(e[e.len() - 1] == s[b[i] - 1]);
                assert(e[e.len() - 2] == s[b[i] - 2]);
                assert(s[s.len() - 1] == 1 && s[s.len() - 2] == 0 && s[s.len() - 3] == 0);
            }
        }
    }
}

proof fn lemma_without_zeros(s: Seq<u8>, begin: int, end: int)
    requires
        begin <= end,
    ensures
        begin <= without_zeros(s, begin, end) <= end,
    decreases end - begin,
{
    if end > begin && s[end - 1] == 0 {
        lemma_without_zeros(s, begin, end - 1);
    }
}

/// The NAL units of an Annex B byte stream (3- or 4-byte start codes), in order.
pub fn nal_units<'a>(annexb: &'a [u8]) -> (r: Vec<&'a [u8]>)
    ensures
        slices(r@) == nals(annexb@),
{
    let ghost s = annexb@;
    let mut starts: Vec<usize> = Vec::new();
    assert(s.take(0) =~= Seq::empty());
    for i in 0..annexb.len()
        invariant
            s == annexb@,
            starts@.len() == nal_starts(s.take(i as int)).len(),
            forall|k: int| 0 <= k < starts@.len() ==> starts@[k] == nal_starts(s.take(i as int))[k],
    {
        assert(s.take(i + 1).drop_last() =~= s.take(i as int));
        if i >= 2 && annexb[i] == 1 && annexb[i - 1] == 0 && annexb[i - 2] == 0 {
            starts.push(i + 1);
        }
    }
    assert(s.take(s.len() as int) =~= s);
    proof {
        lemma_nal_starts(s);
    }
    let n = starts.len();
    let mut out: Vec<&'a [u8]> = Vec::new();
    for k in 0..n
        invariant
            s == annexb@,
            n == starts@.len(),
            n == nal_starts(s).len(),
            forall|j: int| 0 <= j < n ==> starts@[j] == nal_starts(s)[j],
            forall|j: int| 0 <= j < n ==> 3 <= #[trigger] nal_starts(s)[j] <= s.len(),
            forall|i: int, j: int|
                0 <= i < j < n ==> #[trigger] nal_starts(s)[i] + 3 <= #[trigger] nal_starts(s)[j],
            out@.len() == k,
            forall|j: int| 0 <= j < k ==> (#[trigger] out@[j])@ == nal(s, j),
    {
        let begin = starts[k];
        let mut end = annexb.len();
        if k + 1 < n {
            assert(nal_starts(s)[k as int] + 3 <= nal_starts(s)[k + 1]);
            end = starts[k + 1] - 3;
            // Strip the leading zero of a 4-byte start code belonging to the next NAL.
            while end > begin && annexb[end - 1] == 0
                invariant
                    begin <= end <= annexb.len(),
                    s == annexb@,
                    nal_end(s, k as int) == without_zeros(s, begin as int, end as int),
                decreases end,
            {
                end = end - 1;
            }
        }
        out.push(vstd::slice::slice_subrange(annexb, begin, end));
    }
    assert(slices(out@) =~= nals(s));
    out
}

/// H.264 NAL unit type of a NAL payload (first byte after the start code).
pub fn nal_type(nal: &[u8]) -> (r: Option<u8>)
    ensures
        r == if nal@.len() > 0 {
            Some(nal@[0] & 0x1F)
        } else {
            None
        },
{
    if nal.len() > 0 {
        Some(nal[0] & 0x1F)
    } else {
        None
    }
}

/// There is no start code inside.
pub open spec fn free_of_start_codes(n: Seq<u8>) -> bool {
    forall|i: int|
        0 <= i && i + 2 < n.len() ==> !(#[trigger] n[i] == 0 && n[i + 1] == 0 && n[i + 2] == 1)
}

/// A start code of four bytes, or of three.
pub open spec fn code(long: bool) -> Seq<u8> {
    if long {
        crate::client::depacketizer::start_code()
    } else {
        seq![0u8, 0u8, 1u8]
    }
}

/// NAL units one after the other, each behind a start code: a long one where `long` says so.
pub open spec fn stream(ns: Seq<Seq<u8>>, long: Seq<bool>) -> Seq<u8>
    decreases ns.len(),
{
    if ns.len() == 0 {
        Seq::empty()
    } else {
        stream(ns.drop_last(), long) + (code(long[ns.len() - 1]) + ns.last())
    }
}

/// What the NAL units of a byte stream are: not empty, without a start code inside (emulation
/// prevention), and, all but the last, not ending in a zero byte.
pub open spec fn proper_nals(ns: Seq<Seq<u8>>) -> bool {
    forall|i: int|
        0 <= i < ns.len() ==> (#[trigger] ns[i]).len() > 0 && free_of_start_codes(ns[i]) && (i
            < ns.len() - 1 ==> ns[i].last() != 0)
}

/// The start codes of a stream that grows by a start code and the first bytes of a NAL unit.
proof fn lemma_starts_of_sum(a: Seq<u8>, long: bool, n: Seq<u8>, k: int)
    requires
        free_of_start_codes(n),
        0 <= k <= n.len(),
    ensures
        nal_starts(a + code(long) + n.take(k)) == nal_starts(a).push(
            a.len() as int + code(long).len(),
        ),
    decreases k,
{
    let c = code(long);
    let s = a + c + n.take(k);
    if k > 0 {
        lemma_starts_of_sum(a, long, n, k - 1);
        assert(s.drop_last() =~= a + c + n.take(k - 1));
        assert(s.last() == n[k - 1]);
        assert(!ends_in_start_code(s)) by {
            if ends_in_start_code(s) {
                if k >= 3 {
                    assert(s[s.len() - 2] == n[k - 2]);
                    assert(s[s.len() - 3] == n[k - 3]);
                    assert(n[k - 3] == 0 && n[k - 2] == 0 && n[k - 3 + 2] == 1);
                } else if k == 2 {
                    assert(s[s.len() - 3] == c.last());
                } else {
                    assert(s[s.len() - 2] == c.last());
                }
            }
        }
    } else {
        let s1 = a.push(0);
        let s2 = s1.push(0);
        let s3 = s2.push(0);
        assert(s3.drop_last() =~= s2);
        assert(s2.drop_last() =~= s1);
        assert(s1.drop_last() =~= a);
        assert(nal_starts(s1) == nal_starts(a));
        assert(nal_starts(s2) == nal_starts(s1));
        assert(nal_starts(s3) == nal_starts(s2));
        if long {
            assert(s =~= s3.push(1));
            assert(s.drop_last() =~= s3);
        } else {
            assert(s =~= s2.push(1));
            assert(s.drop_last() =~= s2);
        }
    }
}

/// Where NAL unit `k` starts in a stream.
spec fn stream_start(ns: Seq<Seq<u8>>, long: Seq<bool>, k: int) -> int {
    stream(ns.take(k), long).len() as int + code(long[k]).len()
}

proof fn lemma_starts_of_stream(ns: Seq<Seq<u8>>, long: Seq<bool>)
    requires
        forall|i: int| 0 <= i < ns.len() ==> free_of_start_codes(#[trigger] ns[i]),
    ensures
        nal_starts(stream(ns, long)) == Seq::new(ns.len(), |k: int| stream_start(ns, long, k)),
    decreases ns.len(),
{
    let s = stream(ns, long);
    let want = Seq::new(ns.len(), |k: int| stream_start(ns, long, k));
    if ns.len() > 0 {
        let init = ns.drop_last();
        assert forall|i: int| 0 <= i < init.len() implies free_of_start_codes(
            #[trigger] init[i],
        ) by {
            assert(free_of_start_codes(ns[i]));
        }
        lemma_starts_of_stream(init, long);
        let a = stream(init, long);
        let n = ns.last();
        let l = long[ns.len() - 1];
        assert(free_of_start_codes(ns[ns.len() - 1]));
        lemma_starts_of_sum(a, l, n, n.len() as int);
        assert(n.take(n.len() as int) =~= n);
        assert(s =~= a + code(l) + n);
        assert(ns.take(ns.len() - 1) =~= init);
        assert forall|k: int| 0 <= k < ns.len() implies nal_starts(s)[k] == want[k] by {
            if k < init.len() {
                assert(init.take(k) =~= ns.take(k));
            }
        }
    }
    assert(nal_starts(s) =~= want);
}

/// The stream up to NAL unit `k` is a prefix of the whole stream.
proof fn lemma_stream_prefix(ns: Seq<Seq<u8>>, long: Seq<bool>, k: int)
    requires
        0 <= k <= ns.len(),
    ensures
        stream(ns.take(k), long).is_prefix_of(stream(ns, long)),
    decreases ns.len() - k,
{
    let whole = stream(ns, long);
    if k < ns.len() {
        lemma_stream_prefix(ns, long, k + 1);
        let a = stream(ns.take(k), long);
        let b = stream(ns.take(k + 1), long);
        assert(ns.take(k + 1).drop_last() =~= ns.take(k));
        assert(a =~= b.subrange(0, a.len() as int));
        assert(a =~= whole.subrange(0, a.len() as int));
    } else {
        assert(ns.take(k) =~= ns);
        assert(whole =~= whole.subrange(0, whole.len() as int));
    }
}

/// NAL unit `k` of a stream, found again.
proof fn lemma_nal_of_stream(ns: Seq<Seq<u8>>, long: Seq<bool>, k: int)
    requires
        proper_nals(ns),
        0 <= k < ns.len(),
        nal_starts(stream(ns, long)) == Seq::new(ns.len(), |k: int| stream_start(ns, long, k)),
    ensures
        nal(stream(ns, long), k) == ns[k],
{
    let s = stream(ns, long);
    let starts = nal_starts(s);
    let a = stream(ns.take(k), long);
    let b = stream(ns.take(k + 1), long);
    let n = ns[k];
    let c = code(long[k]);
    assert(ns.take(k + 1).drop_last() =~= ns.take(k));
    assert(b =~= a + (c + n));
    lemma_stream_prefix(ns, long, k + 1);
    let begin = a.len() as int + c.len();
    let end = begin + n.len();
    assert(starts[k] == begin);
    assert(b.len() == end);
    assert forall|i: int| 0 <= i < n.len() implies s[begin + i] == n[i] by {
        assert(s.subrange(0, b.len() as int)[begin + i] == b[begin + i]);
    }
    if k + 1 < ns.len() {
        lemma_stream_prefix(ns, long, k + 2);
        let d = stream(ns.take(k + 2), long);
        let e = code(long[k + 1]);
        assert(ns.take(k + 2).drop_last() =~= ns.take(k + 1));
        assert(d =~= b + (e + ns[k + 1]));
        assert(starts[k + 1] == end + e.len());
        assert(s[end] == 0) by {
            assert(s.subrange(0, d.len() as int)[end] == d[end]);
        }
        assert(s[end - 1] == s[begin + (n.len() - 1)]);
        assert(n.last() != 0);
        reveal_with_fuel(without_zeros, 2);
        assert(without_zeros(s, begin, starts[k + 1] - 3) == end);
    } else {
        assert(ns.take(k + 1) =~= ns);
    }
    assert(nal(s, k) =~= n);
}

/// Splitting undoes joining: NAL units written one after the other, each behind a start code of
/// either length, are found again as they were.
pub proof fn splitting_undoes_joining(ns: Seq<Seq<u8>>, long: Seq<bool>)
    requires
        proper_nals(ns),
    ensures
        nals(stream(ns, long)) == ns,
{
    let s = stream(ns, long);
    assert forall|i: int| 0 <= i < ns.len() implies free_of_start_codes(#[trigger] ns[i]) by {}
    lemma_starts_of_stream(ns, long);
    assert forall|k: int| 0 <= k < ns.len() implies #[trigger] nal(s, k) == ns[k] by {
        lemma_nal_of_stream(ns, long, k);
    }
    assert(nals(s) =~= ns);
}

/// What the depacketizer writes is such a stream, with long start codes throughout.
pub proof fn access_units_split_into_their_nal_units(ns: Seq<Seq<u8>>)
    requires
        proper_nals(ns),
    ensures
        nals(crate::client::depacketizer::annex_b(ns)) == ns,
{
    let long = Seq::new(ns.len(), |i: int| true);
    lemma_annex_b_is_a_stream(ns, long);
    splitting_undoes_joining(ns, long);
}

proof fn lemma_annex_b_is_a_stream(ns: Seq<Seq<u8>>, long: Seq<bool>)
    requires
        ns.len() <= long.len(),
        forall|i: int| 0 <= i < long.len() ==> #[trigger] long[i],
    ensures
        crate::client::depacketizer::annex_b(ns) == stream(ns, long),
    decreases ns.len(),
{
    if ns.len() > 0 {
        lemma_annex_b_is_a_stream(ns.drop_last(), long);
        assert(long[ns.len() - 1]);
    }
}

/// Without a start code there is no NAL unit.
pub proof fn no_start_code_no_nal_unit(s: Seq<u8>)
    requires
        free_of_start_codes(s),
    ensures
        nals(s).len() == 0,
    decreases s.len(),
{
    if s.len() > 0 {
        let t = s.drop_last();
        assert forall|i: int| 0 <= i && i + 2 < t.len() implies !(#[trigger] t[i] == 0 && t[i + 1]
            == 0 && t[i + 2] == 1) by {
            assert(!(s[i] == 0 && s[i + 1] == 0 && s[i + 2] == 1));
        }
        no_start_code_no_nal_unit(t);
        if ends_in_start_code(s) {
            assert(s[s.len() - 3] == 0);
        }
    }
}

} // verus!
