//! Video decoding behind a trait, and what becomes of the decoder when it fails.
//!
//! [`VideoDecoder`] turns H.264 access units into [`DecodedImage`]s (raw planar frames);
//! [`scaler`] plans how they are scaled to BGRA for presentation. [`ffmpeg`] decides for the
//! FFmpeg decoder (D3D11VA / VA-API with software fallback).
use vstd::prelude::*;

use crate::server::encoder::{nal_type, nal_units};
use crate::{elapsed_since, Nanos};

pub mod ffmpeg;
pub mod scaler;

verus! {

/// A decoded picture: planes packed back to back (`align = 1`), in the decoder's native
/// pixel format. `pixel_format` is an `AVPixelFormat` value, opaque to everything but the
/// scaler.
#[derive(Debug, PartialEq, Eq)]
pub struct DecodedImage {
    pub width: u32,
    pub height: u32,
    pub pixel_format: i32,
    pub data: Vec<u8>,
}

#[derive(Debug, Clone, Copy, PartialEq, Eq, Structural)]
pub enum HwPreference {
    /// Try the platform hardware decoder first, fall back to software.
    Auto,
    Software,
}

#[derive(Debug, PartialEq, Eq)]
pub enum DecodeError {
    /// The stream is damaged at this point (packet loss); ask for a keyframe and carry on.
    Corrupt(String),
    /// The decoder cannot continue; recreate it.
    Fatal(String),
}

impl DecodeError {
    /// The message for a reader.
    pub fn to_string(&self) -> (r: String)
        ensures
            r@ == (match *self {
                DecodeError::Corrupt(m) => "corrupt data: "@ + m@,
                DecodeError::Fatal(m) => "decoder failure: "@ + m@,
            }),
    {
        match self {
            DecodeError::Corrupt(m) => {
                let mut out = "corrupt data: ".to_owned();
                out.append(m.as_str());
                out
            },
            DecodeError::Fatal(m) => {
                let mut out = "decoder failure: ".to_owned();
                out.append(m.as_str());
                out
            },
        }
    }
}

pub trait VideoDecoder {
    /// Decodes one access unit (Annex B), appending every picture it produces to `out`.
    fn decode(&mut self, access_unit: &[u8], out: &mut Vec<DecodedImage>) -> Result<
        (),
        DecodeError,
    >;

    /// Short description for the title bar, e.g. `h264 (vaapi)`.
    fn name(&self) -> String;

    fn is_hardware(&self) -> bool;
}

/// Placeholder used when no decoder could be created at all.
pub struct BrokenDecoder;

impl VideoDecoder for BrokenDecoder {
    fn decode(&mut self, access_unit: &[u8], out: &mut Vec<DecodedImage>) -> (r: Result<
        (),
        DecodeError,
    >)
        ensures
            r matches Err(DecodeError::Fatal(m)) && m@ == "no decoder available"@,
            final(out)@ == old(out)@,
    {
        Err(DecodeError::Fatal("no decoder available".to_owned()))
    }

    fn name(&self) -> (r: String)
        ensures
            r@ == "none"@,
    {
        "none".to_owned()
    }

    fn is_hardware(&self) -> (r: bool)
        ensures
            r == false,
    {
        false
    }
}

// ------------------------------------------------------------------------------------------
// Failing decoders
// ------------------------------------------------------------------------------------------
/// Consecutive failures of a hardware decoder before falling back to software.
pub const HW_FAILURE_LIMIT: u32 = 4;

/// What is done with the decoder.
#[derive(Debug, Clone, Copy, PartialEq, Eq, Structural)]
pub enum DecoderStep {
    Keep,
    /// Switch from the hardware to the software decoder.
    FallBack,
    /// Make the software decoder anew.
    Recreate,
}

/// What came of decoding an access unit.
#[derive(Debug, Clone, Copy, PartialEq, Eq, Structural)]
pub enum DecodeOutcome {
    Decoded,
    Corrupt,
    Fatal,
}

/// Counts the failures of a hardware decoder that came one after the other.
#[derive(Debug, Clone, Copy, PartialEq, Eq, Structural)]
pub struct Supervisor {
    pub hw_failures: u32,
}

impl Supervisor {
    pub fn new() -> (r: Self)
        ensures
            r == (Supervisor { hw_failures: 0 }),
    {
        Supervisor { hw_failures: 0 }
    }

    /// What is done with the decoder after an access unit.
    pub open spec fn step(self, outcome: DecodeOutcome, hardware: bool) -> DecoderStep {
        match outcome {
            DecodeOutcome::Decoded => DecoderStep::Keep,
            DecodeOutcome::Corrupt => if hardware && self.hw_failures + 1 >= HW_FAILURE_LIMIT {
                DecoderStep::FallBack
            } else {
                DecoderStep::Keep
            },
            DecodeOutcome::Fatal => if hardware {
                DecoderStep::FallBack
            } else {
                DecoderStep::Recreate
            },
        }
    }

    /// The count after an access unit.
    pub open spec fn after(self, outcome: DecodeOutcome, hardware: bool) -> Supervisor {
        match outcome {
            DecodeOutcome::Decoded => Supervisor { hw_failures: 0 },
            DecodeOutcome::Corrupt => if !hardware {
                self
            } else if self.hw_failures + 1 >= HW_FAILURE_LIMIT {
                Supervisor { hw_failures: 0 }
            } else {
                Supervisor { hw_failures: (self.hw_failures + 1) as u32 }
            },
            DecodeOutcome::Fatal => self,
        }
    }

    /// An access unit was decoded, or could not be.
    pub fn on_outcome(&mut self, outcome: DecodeOutcome, hardware: bool) -> (r: DecoderStep)
        ensures
            r == old(self).step(outcome, hardware),
            *final(self) == old(self).after(outcome, hardware),
    {
        match outcome {
            DecodeOutcome::Decoded => {
                self.hw_failures = 0;
                DecoderStep::Keep
            },
            DecodeOutcome::Corrupt => {
                if !hardware {
                    DecoderStep::Keep
                } else if self.hw_failures >= HW_FAILURE_LIMIT - 1 {
                    self.hw_failures = 0;
                    DecoderStep::FallBack
                } else {
                    self.hw_failures = self.hw_failures + 1;
                    DecoderStep::Keep
                }
            },
            DecodeOutcome::Fatal => {
                if hardware {
                    DecoderStep::FallBack
                } else {
                    DecoderStep::Recreate
                }
            },
        }
    }

    /// The count after `n` damaged access units in a row.
    pub open spec fn after_corrupt(self, n: nat) -> Supervisor
        decreases n,
    {
        if n == 0 {
            self
        } else {
            self.after_corrupt((n - 1) as nat).after(DecodeOutcome::Corrupt, true)
        }
    }
}

/// After a picture, a hardware decoder is kept through fewer damaged access units in a row than
/// the limit, and given up at the one that reaches it.
pub proof fn hardware_is_given_up_at_the_limit(s: Supervisor, n: nat)
    requires
        n < HW_FAILURE_LIMIT,
    ensures
        ({
            let start = s.after(DecodeOutcome::Decoded, true);
            &&& start.after_corrupt(n).hw_failures == n
            &&& start.after_corrupt(n).step(DecodeOutcome::Corrupt, true) is FallBack <==> n + 1
                == HW_FAILURE_LIMIT
            &&& start.after_corrupt(n).step(DecodeOutcome::Corrupt, true) is Keep <==> n + 1
                < HW_FAILURE_LIMIT
        }),
    decreases n,
{
    if n > 0 {
        hardware_is_given_up_at_the_limit(s, (n - 1) as nat);
    }
}

// ------------------------------------------------------------------------------------------
// Recovery
// ------------------------------------------------------------------------------------------
/// The type of a coded slice of an IDR picture.
pub const NAL_IDR: u8 = 5;

/// The type of a sequence parameter set.
pub const NAL_SPS: u8 = 7;

/// The type of a picture parameter set.
pub const NAL_PPS: u8 = 8;

/// Which of the NAL units that decoding starts from an access unit holds.
#[derive(Debug, Clone, Copy, PartialEq, Eq, Structural)]
pub struct AccessUnitInfo {
    pub sps: bool,
    pub pps: bool,
    pub idr: bool,
}

/// An access unit holds a NAL unit of a type.
pub open spec fn has_type(au: Seq<u8>, t: u8) -> bool {
    exists|k: int|
        0 <= k < crate::server::encoder::nals(au).len() && is_type(
            #[trigger] crate::server::encoder::nals(au)[k],
            t,
        )
}

/// A NAL unit is of a type.
pub open spec fn is_type(nal: Seq<u8>, t: u8) -> bool {
    nal.len() > 0 && nal[0] & 0x1F == t
}

impl AccessUnitInfo {
    /// Looks through an access unit in Annex B format.
    pub fn scan(au: &[u8]) -> (r: Self)
        ensures
            r.sps == has_type(au@, NAL_SPS),
            r.pps == has_type(au@, NAL_PPS),
            r.idr == has_type(au@, NAL_IDR),
    {
        let units = nal_units(au);
        let ghost all = crate::server::encoder::nals(au@);
        let mut r = AccessUnitInfo { sps: false, pps: false, idr: false };
        for i in 0..units.len()
            invariant
                crate::server::encoder::slices(units@) == all,
                r.sps == exists|k: int| 0 <= k < i && is_type(#[trigger] all[k], NAL_SPS),
                r.pps == exists|k: int| 0 <= k < i && is_type(#[trigger] all[k], NAL_PPS),
                r.idr == exists|k: int| 0 <= k < i && is_type(#[trigger] all[k], NAL_IDR),
        {
            let t = nal_type(units[i]);
            assert(all[i as int] == units@[i as int]@);
            if t == Some(NAL_SPS) {
                r.sps = true;
                assert(is_type(all[i as int], NAL_SPS));
            }
            if t == Some(NAL_PPS) {
                r.pps = true;
                assert(is_type(all[i as int], NAL_PPS));
            }
            if t == Some(NAL_IDR) {
                r.idr = true;
                assert(is_type(all[i as int], NAL_IDR));
            }
        }
        r
    }
}

/// Why a keyframe is asked for.
#[derive(Debug, Clone, Copy, PartialEq, Eq, Structural)]
pub enum RequestReason {
    /// The decoder failed.
    DecodeFailed,
    /// Nothing has been decoded yet, and this is no keyframe.
    NoKeyframeYet,
    /// Nothing has been decoded yet: a keyframe without its parameter sets.
    NoParameterSets,
    /// Nothing has been decoded yet, though this is a whole keyframe.
    NoPictureYet,
}

/// Why a keyframe is needed after an access unit, if it is: the decoder failed, or nothing has
/// been decoded yet.
pub open spec fn need(
    info: AccessUnitInfo,
    pictures_before: u64,
    pictures_out: usize,
    failed: bool,
) -> Option<RequestReason> {
    if failed {
        Some(RequestReason::DecodeFailed)
    } else if pictures_before > 0 || pictures_out > 0 {
        None
    } else if !info.idr {
        Some(RequestReason::NoKeyframeYet)
    } else if !info.sps || !info.pps {
        Some(RequestReason::NoParameterSets)
    } else {
        Some(RequestReason::NoPictureYet)
    }
}

/// Decides when the decoder asks for a keyframe: while nothing has been decoded yet, once per
/// interval; later after a failure, but not more often than every [`FAILURE_INTERVAL`].
#[derive(Debug, Clone, Copy, PartialEq, Eq, Structural)]
pub struct RecoveryPolicy {
    /// Spacing of requests until the first picture is decoded.
    pub interval: Nanos,
    /// When a keyframe was last asked for.
    pub last: Option<Nanos>,
    /// Why it was.
    pub reason: Option<RequestReason>,
}

/// The client asks for a keyframe at most this often until the first picture is decoded.
pub const RECOVERY_INTERVAL: Nanos = 1_000_000_000;

/// Spacing of requests after failures once pictures have been decoded.
pub const FAILURE_INTERVAL: Nanos = 200_000_000;

impl RecoveryPolicy {
    pub fn new(interval: Nanos) -> (r: Self)
        ensures
            r == (RecoveryPolicy { interval, last: None, reason: None }),
    {
        RecoveryPolicy { interval, last: None, reason: None }
    }

    /// How far requests are apart; `decoding` once pictures have been decoded.
    pub open spec fn spacing(self, decoding: bool) -> Nanos {
        if decoding {
            FAILURE_INTERVAL
        } else {
            self.interval
        }
    }

    /// A keyframe may be asked for at this time.
    pub open spec fn may_ask(self, decoding: bool, now: Nanos) -> bool {
        match self.last {
            Some(t) => crate::since(now, t) >= self.spacing(decoding),
            None => true,
        }
    }

    /// Whether a keyframe is to be asked for after an access unit. `pictures_before` have been
    /// decoded before it, `pictures_out` came out of it.
    pub fn after_access_unit(
        &mut self,
        now: Nanos,
        info: AccessUnitInfo,
        pictures_before: u64,
        pictures_out: usize,
        failed: bool,
    ) -> (r: bool)
        ensures
            ({
                let why = need(info, pictures_before, pictures_out, failed);
                let decoding = pictures_before > 0 || pictures_out > 0;
                &&& r == (why is Some && old(self).may_ask(decoding, now))
                &&& *final(self) == if r {
                    RecoveryPolicy { last: Some(now), reason: why, ..*old(self) }
                } else {
                    *old(self)
                }
            }),
    {
        let decoding = pictures_before > 0 || pictures_out > 0;
        let why = if failed {
            RequestReason::DecodeFailed
        } else if decoding {
            return false;
        } else if !info.idr {
            RequestReason::NoKeyframeYet
        } else if !info.sps || !info.pps {
            RequestReason::NoParameterSets
        } else {
            RequestReason::NoPictureYet
        };
        let spacing = if decoding {
            FAILURE_INTERVAL
        } else {
            self.interval
        };
        let due = match self.last {
            Some(t) => elapsed_since(now, t) >= spacing,
            None => true,
        };
        if due {
            self.last = Some(now);
            self.reason = Some(why);
        }
        due
    }
}

/// Until the first picture is decoded a keyframe is asked for as soon as the interval since the
/// last request is over, whatever arrives, and never before.
pub proof fn asks_until_the_first_picture(p: RecoveryPolicy, info: AccessUnitInfo, now: Nanos)
    ensures
        need(info, 0, 0, false) is Some,
        need(info, 0, 0, true) is Some,
        p.last matches Some(t) ==> (p.may_ask(false, now) <==> now - t >= p.interval || p.interval
            == 0),
{
}

/// A sound stream is left alone: once a picture has been decoded, only a failure leads to a
/// request, and that as soon as [`FAILURE_INTERVAL`] has passed since the last one.
pub proof fn sound_stream_is_left_alone(
    p: RecoveryPolicy,
    info: AccessUnitInfo,
    pictures_before: u64,
    pictures_out: usize,
    now: Nanos,
)
    requires
        pictures_before > 0 || pictures_out > 0,
    ensures
        need(info, pictures_before, pictures_out, false) is None,
        need(info, pictures_before, pictures_out, true) is Some,
        p.last matches Some(t) ==> (p.may_ask(true, now) <==> now - t >= FAILURE_INTERVAL),
{
}

/// A decoder that cannot go on is replaced: a hardware decoder by software, a software decoder by
/// a new one. Damage never costs a software decoder its place.
pub proof fn failing_decoders_are_replaced(s: Supervisor, hardware: bool)
    ensures
        s.step(DecodeOutcome::Decoded, hardware) is Keep,
        s.step(DecodeOutcome::Fatal, true) is FallBack,
        s.step(DecodeOutcome::Fatal, false) is Recreate,
        s.step(DecodeOutcome::Corrupt, false) is Keep,
        s.after(DecodeOutcome::Corrupt, false) == s,
        s.after(DecodeOutcome::Fatal, hardware) == s,
        s.after(DecodeOutcome::Decoded, hardware).hw_failures == 0,
        s.hw_failures >= 3 ==> s.step(DecodeOutcome::Corrupt, true) is FallBack && s.after(
            DecodeOutcome::Corrupt,
            true,
        ).hw_failures == 0,
        s.hw_failures < 3 ==> s.step(DecodeOutcome::Corrupt, true) is Keep && s.after(
            DecodeOutcome::Corrupt,
            true,
        ).hw_failures == s.hw_failures + 1,
{
}

/// A look through an access unit finds the sequence parameter set, the picture parameter set and
/// the IDR slice by the types of its NAL units.
pub proof fn scan_finds_the_nal_units(ns: Seq<Seq<u8>>, au: &[u8], info: AccessUnitInfo)
    requires
        crate::server::encoder::proper_nals(ns),
        au@ == crate::client::depacketizer::annex_b(ns),
        call_ensures(AccessUnitInfo::scan, (au,), info),
    ensures
        info.sps <==> exists|k: int| 0 <= k < ns.len() && (#[trigger] ns[k])[0] & 0x1F == 7,
        info.pps <==> exists|k: int| 0 <= k < ns.len() && (#[trigger] ns[k])[0] & 0x1F == 8,
        info.idr <==> exists|k: int| 0 <= k < ns.len() && (#[trigger] ns[k])[0] & 0x1F == 5,
{
    crate::server::encoder::access_units_split_into_their_nal_units(ns);
    lemma_has_type(ns, au@, NAL_SPS);
    lemma_has_type(ns, au@, NAL_PPS);
    lemma_has_type(ns, au@, NAL_IDR);
}

proof fn lemma_has_type(ns: Seq<Seq<u8>>, au: Seq<u8>, t: u8)
    requires
        crate::server::encoder::proper_nals(ns),
        crate::server::encoder::nals(au) == ns,
    ensures
        has_type(au, t) <==> exists|k: int| 0 <= k < ns.len() && (#[trigger] ns[k])[0] & 0x1F == t,
{
    if exists|k: int| 0 <= k < ns.len() && (#[trigger] ns[k])[0] & 0x1F == t {
        let k = choose|k: int| 0 <= k < ns.len() && (#[trigger] ns[k])[0] & 0x1F == t;
        assert(is_type(crate::server::encoder::nals(au)[k], t));
    }
}

/// Why a keyframe is asked for, where it is: a failure goes before everything; then, as long as
/// there is no picture, what the access unit lacks.
pub proof fn reason_is_what_is_missing(
    info: AccessUnitInfo,
    before: u64,
    out: usize,
    failed: bool,
)
    ensures
        need(info, before, out, failed) == Some(RequestReason::DecodeFailed) <==> failed,
        need(info, before, out, failed) is None <==> !failed && before + out > 0,
        !failed && before + out == 0 ==> {
            let why = need(info, before, out, failed)->0;
            &&& why is NoKeyframeYet <==> !info.idr
            &&& why is NoParameterSets <==> info.idr && !(info.sps && info.pps)
            &&& why is NoPictureYet <==> info.idr && info.sps && info.pps
        },
{
}

/// The first request is never held back.
pub proof fn first_request_is_made(p: RecoveryPolicy, decoding: bool, now: Nanos)
    requires
        p.last is None,
    ensures
        p.may_ask(decoding, now),
{
}

/// A keyframe is asked for at once when decoding fails after pictures have come, and then not
/// again for 200 ms; until the first picture it is asked for once per interval.
pub proof fn keyframes_are_asked_for_in_time(
    p: &mut RecoveryPolicy,
    q: &mut RecoveryPolicy,
    first: Nanos,
    second: Nanos,
    info: AccessUnitInfo,
    before: u64,
    out: usize,
    failed: bool,
    x: bool,
    y: bool,
)
    requires
        first <= second,
        call_ensures(
            RecoveryPolicy::after_access_unit,
            (p, first, info, before, out, failed),
            x,
        ),
        *old(q) == *final(p),
        call_ensures(
            RecoveryPolicy::after_access_unit,
            (q, second, info, before, out, failed),
            y,
        ),
    ensures
        old(p).last is None && failed ==> x,
        before + out > 0 && !failed ==> !x && !y,
        x && before + out > 0 && failed ==> (y <==> second - first >= 200_000_000),
        x && before + out == 0 ==> (y <==> second - first >= old(p).interval),
{
}

} // verus!
