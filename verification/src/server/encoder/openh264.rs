//! OpenH264 encoder settings (Cisco's OpenH264 compiled from the bundled source by
//! `openh264-sys2`).
//!
//! Settings chosen for remote-desktop use:
//! * `SCREEN_CONTENT_REAL_TIME` usage, bitrate rate control, frame skipping off.
//! * High profile with CABAC, level 4.1, one reference frame, no B-frames (OpenH264 never
//!   produces them), so the decoder can output every frame immediately.
//! * `uiIntraPeriod` = configured keyframe interval; IDR frames additionally on request.
use vstd::prelude::*;

use super::{EncodedFrame, EncoderSettings};
use crate::server::convert::I420Frame;
use crate::text;

verus! {

/// Max bitrate is allowed to exceed the target by this factor (transient bursts after big
/// screen changes); OpenH264 requires `iMaxBitrate >= iTargetBitrate`.
pub const MAX_BITRATE_FACTOR: u32 = 3;

/// The lowest bitrate that is set at runtime, in kbit/s.
pub const MIN_BITRATE_KBPS: u32 = 100;

/// Human readable encoder name for logs.
pub const NAME: &'static str = "openh264";

/// A number of bits per second, as far as the encoder can take it.
pub open spec fn capped(bps: int) -> i32 {
    if bps <= i32::MAX {
        bps as i32
    } else {
        i32::MAX
    }
}

/// The target bitrate in bit/s for a rate in kbit/s.
pub open spec fn target_bps(kbps: u32) -> i32 {
    capped(kbps * 1000)
}

/// The bitrate ceiling in bit/s for a rate in kbit/s.
pub open spec fn max_bps(kbps: u32) -> i32 {
    capped(kbps * 1000 * MAX_BITRATE_FACTOR)
}

fn to_bps(kbps: u32, factor: u32) -> (r: i32)
    requires
        factor <= MAX_BITRATE_FACTOR,
    ensures
        r == capped(kbps * 1000 * factor),
{
    assert(kbps * 1000 * factor <= 0xffff_ffff * 3000) by (nonlinear_arith)
        requires
            kbps <= 0xffff_ffff,
            factor <= 3,
    ;
    assert(0 <= kbps * 1000 * factor) by (nonlinear_arith);
    let bps: u64 = kbps as u64 * 1000 * factor as u64;
    if bps <= 2147483647 {
        bps as i32
    } else {
        i32::MAX
    }
}

/// Why an encoder cannot be made.
pub open spec fn settings_error(s: EncoderSettings) -> Option<Seq<char>> {
    if s.width < 16 || s.height < 16 {
        Some(
            "frame too small: "@ + text::decimal(s.width as nat) + "x"@ + text::decimal(
                s.height as nat,
            ),
        )
    } else if s.width % 2 != 0 || s.height % 2 != 0 {
        Some("frame dimensions must be even"@)
    } else {
        None
    }
}

/// Checks the settings an encoder is to be made with.
pub fn check_settings(s: EncoderSettings) -> (r: Result<(), String>)
    ensures
        match r {
            Ok(_) => settings_error(s) is None,
            Err(e) => settings_error(s) == Some(e@),
        },
{
    if s.width < 16 || s.height < 16 {
        let mut e = "frame too small: ".to_owned();
        text::push_decimal(&mut e, s.width as u64);
        e.append("x");
        text::push_decimal(&mut e, s.height as u64);
        assert(e@ =~= settings_error(s)->0);
        return Err(e);
    }
    if s.width % 2 != 0 || s.height % 2 != 0 {
        return Err("frame dimensions must be even".to_owned());
    }
    Ok(())
}

/// Encoder threads for a setting (`0` = automatic) on a machine with `cores` cores.
pub open spec fn threads_for(setting: u16, cores: int) -> int {
    if setting != 0 {
        if setting <= 16 {
            setting as int
        } else {
            16
        }
    } else if cores < 1 {
        1
    } else if cores > 4 {
        4
    } else {
        cores
    }
}

/// Encoder threads for a setting (`0` = automatic) on a machine with `cores` cores.
pub fn threads(setting: u16, cores: usize) -> (r: u16)
    ensures
        r == threads_for(setting, cores as int),
{
    if setting != 0 {
        if setting <= 16 {
            setting
        } else {
            16
        }
    } else if cores < 1 {
        1
    } else if cores > 4 {
        4
    } else {
        cores as u16
    }
}

/// What is handed to the encoder besides the fixed choices.
#[derive(Debug, Clone, Copy, PartialEq, Eq, Structural)]
pub struct EncoderParams {
    pub width: u32,
    pub height: u32,
    pub fps: u32,
    pub target_bps: i32,
    pub max_bps: i32,
    pub intra_period: u32,
    pub threads: u16,
    /// Slices per frame: more than one calls for a fixed slice count, needed for real
    /// multi-threaded encoding.
    pub slices: u32,
}

impl EncoderParams {
    /// The parameters for some settings.
    pub open spec fn of(s: EncoderSettings, cores: int) -> EncoderParams {
        EncoderParams {
            width: s.width,
            height: s.height,
            fps: s.fps,
            target_bps: target_bps(s.bitrate_kbps),
            max_bps: max_bps(s.bitrate_kbps),
            intra_period: s.keyframe_interval,
            threads: threads_for(s.threads, cores) as u16,
            slices: threads_for(s.threads, cores) as u32,
        }
    }
}

/// The parameters for some settings on a machine with `cores` cores.
pub fn params(s: EncoderSettings, cores: usize) -> (r: EncoderParams)
    ensures
        r == EncoderParams::of(s, cores as int),
        1 <= r.slices <= 16,
        r.target_bps <= r.max_bps,
{
    let n = threads(s.threads, cores);
    EncoderParams {
        width: s.width,
        height: s.height,
        fps: s.fps,
        target_bps: to_bps(s.bitrate_kbps, 1),
        max_bps: to_bps(s.bitrate_kbps, MAX_BITRATE_FACTOR),
        intra_period: s.keyframe_interval,
        threads: n,
        slices: n as u32,
    }
}

/// The parameters carry the settings' own picture, frame rate and keyframe interval, so the frames
/// that [`check_frame`] lets through for some settings have exactly the encoder's picture size.
pub proof fn encoder_gets_the_settings_picture(
    s: EncoderSettings,
    cores: usize,
    p: EncoderParams,
    frame: I420Frame,
    checked: Result<(), String>,
)
    requires
        call_ensures(params, (s, cores), p),
        call_ensures(check_frame, (&frame, s), checked),
    ensures
        p.width == s.width,
        p.height == s.height,
        p.fps == s.fps,
        p.intra_period == s.keyframe_interval,
        checked is Ok ==> frame.width == p.width && frame.height == p.height,
{
}

/// One step of a bitrate change.
#[derive(Debug, Clone, Copy, PartialEq, Eq, Structural)]
pub enum BitrateStep {
    /// Set the ceiling, in bit/s.
    Max(i32),
    /// Set the target, in bit/s.
    Target(i32),
}

/// A rate in kbit/s, but at least the lowest that is set.
pub open spec fn at_least_min(kbps: u32) -> u32 {
    if kbps < MIN_BITRATE_KBPS {
        MIN_BITRATE_KBPS
    } else {
        kbps
    }
}

/// The steps from one rate to another. The ceiling is raised first, and lowered last, so the
/// target never exceeds it.
pub open spec fn bitrate_steps(from: u32, to: u32) -> Seq<BitrateStep> {
    if at_least_min(to) == from {
        Seq::empty()
    } else if max_bps(at_least_min(to)) > max_bps(from) {
        seq![
            BitrateStep::Max(max_bps(at_least_min(to))),
            BitrateStep::Target(target_bps(at_least_min(to))),
        ]
    } else {
        seq![
            BitrateStep::Target(target_bps(at_least_min(to))),
            BitrateStep::Max(max_bps(at_least_min(to))),
        ]
    }
}

/// The rate that is in force once the steps to `kbps` have been taken.
pub fn clamp_bitrate(kbps: u32) -> (r: u32)
    ensures
        r == at_least_min(kbps),
{
    if kbps < MIN_BITRATE_KBPS {
        MIN_BITRATE_KBPS
    } else {
        kbps
    }
}

/// The steps that change the bitrate from `current` to `kbps`, in order.
pub fn plan_bitrate(current: u32, kbps: u32) -> (r: Vec<BitrateStep>)
    ensures
        r@ == bitrate_steps(current, kbps),
{
    let kbps = clamp_bitrate(kbps);
    if kbps == current {
        let none: Vec<BitrateStep> = Vec::new();
        assert(none@ =~= bitrate_steps(current, kbps));
        return none;
    }
    let target = to_bps(kbps, 1);
    let max = to_bps(kbps, MAX_BITRATE_FACTOR);
    let r = if max > to_bps(current, MAX_BITRATE_FACTOR) {
        vec![BitrateStep::Max(max), BitrateStep::Target(target)]
    } else {
        vec![BitrateStep::Target(target), BitrateStep::Max(max)]
    };
    assert(r@ =~= bitrate_steps(current, kbps));
    r
}

/// Target and ceiling of an encoder.
pub struct Rates {
    pub target: i32,
    pub max: i32,
}

impl Rates {
    /// The rates of an encoder made for, or changed to, a rate in kbit/s.
    pub open spec fn at(kbps: u32) -> Rates {
        Rates { target: target_bps(kbps), max: max_bps(kbps) }
    }

    /// The rates after one step.
    pub open spec fn after(self, step: BitrateStep) -> Rates {
        match step {
            BitrateStep::Max(bps) => Rates { max: bps, ..self },
            BitrateStep::Target(bps) => Rates { target: bps, ..self },
        }
    }
}

/// The rates after the first `n` of some steps.
pub open spec fn rates_after(start: Rates, steps: Seq<BitrateStep>, n: int) -> Rates
    decreases n,
{
    if n <= 0 {
        start
    } else {
        rates_after(start, steps, n - 1).after(steps[n - 1])
    }
}

/// While the bitrate changes, the target never exceeds the ceiling; in the end both are those
/// of the new rate.
pub proof fn target_never_exceeds_ceiling(from: u32, to: u32, n: int)
    requires
        0 <= n <= bitrate_steps(from, to).len(),
    ensures
        ({
            let r = rates_after(Rates::at(from), bitrate_steps(from, to), n);
            r.target <= r.max
        }),
        rates_after(
            Rates::at(from),
            bitrate_steps(from, to),
            bitrate_steps(from, to).len() as int,
        ) == Rates::at(at_least_min(to)),
{
    reveal_with_fuel(rates_after, 3);
    let steps = bitrate_steps(from, to);
    if steps.len() > 0 {
        assert(steps.len() == 2);
    }
}

/// Why a frame cannot be encoded.
pub open spec fn frame_error(frame: I420Frame, s: EncoderSettings) -> Option<Seq<char>> {
    if frame.width != s.width || frame.height != s.height {
        Some(
            "frame size "@ + text::decimal(frame.width as nat) + "x"@ + text::decimal(
                frame.height as nat,
            ) + " does not match encoder "@ + text::decimal(s.width as nat) + "x"@ + text::decimal(
                s.height as nat,
            ),
        )
    } else if frame.y@.len() != frame.width * frame.height || frame.u@.len() != (frame.width / 2)
        * (frame.height / 2) || frame.v@.len() != (frame.width / 2) * (frame.height / 2) {
        Some("malformed I420 planes"@)
    } else {
        None
    }
}

/// Checks that a frame fits the encoder it is handed to.
pub fn check_frame(frame: &I420Frame, s: EncoderSettings) -> (r: Result<(), String>)
    ensures
        match r {
            Ok(_) => frame_error(*frame, s) is None,
            Err(e) => frame_error(*frame, s) == Some(e@),
        },
{
    if frame.width != s.width as usize || frame.height != s.height as usize {
        let mut e = "frame size ".to_owned();
        text::push_decimal(&mut e, frame.width as u64);
        e.append("x");
        text::push_decimal(&mut e, frame.height as u64);
        e.append(" does not match encoder ");
        text::push_decimal(&mut e, s.width as u64);
        e.append("x");
        text::push_decimal(&mut e, s.height as u64);
        assert(e@ =~= frame_error(*frame, s)->0);
        return Err(e);
    }
    assert(frame.width * frame.height <= 0xffff_ffff * 0xffff_ffff) by (nonlinear_arith)
        requires
            frame.width <= 0xffff_ffff,
            frame.height <= 0xffff_ffff,
    ;
    assert((frame.width / 2) * (frame.height / 2) <= 0xffff_ffff * 0xffff_ffff)
        by (nonlinear_arith)
        requires
            frame.width <= 0xffff_ffff,
            frame.height <= 0xffff_ffff,
    ;
    assert(0 <= frame.width * frame.height) by (nonlinear_arith);
    assert(0 <= (frame.width / 2) * (frame.height / 2)) by (nonlinear_arith);
    let luma: u64 = frame.width as u64 * frame.height as u64;
    let chroma: u64 = (frame.width / 2) as u64 * (frame.height / 2) as u64;
    if frame.y.len() as u64 != luma || frame.u.len() as u64 != chroma || frame.v.len() as u64
        != chroma {
        return Err("malformed I420 planes".to_owned());
    }
    Ok(())
}

/// What the encoder says a frame became.
#[derive(Debug, Clone, Copy, PartialEq, Eq, Structural)]
pub enum FrameType {
    /// Nothing: the frame was skipped, or the type is invalid.
    Skipped,
    Idr,
    Other,
}

/// The layers of a frame one after the other.
pub open spec fn joined_layers(layers: Seq<Vec<u8>>) -> Seq<u8>
    decreases layers.len(),
{
    if layers.len() == 0 {
        Seq::empty()
    } else {
        joined_layers(layers.drop_last()) + layers.last()@
    }
}

/// Makes the encoder's output an access unit: the layers one after the other. `None` for a
/// skipped frame and for one without a byte.
pub fn finish(frame_type: FrameType, layers: &Vec<Vec<u8>>, pts_ms: u64) -> (r: Option<
    EncodedFrame,
>)
    ensures
        r is Some <==> frame_type !is Skipped && joined_layers(layers@).len() > 0,
        r matches Some(f) ==> f.data@ == joined_layers(layers@) && f.pts_ms == pts_ms
            && f.keyframe == (frame_type is Idr),
{
    if let FrameType::Skipped = frame_type {
        return None;
    }
    let mut data: Vec<u8> = Vec::new();
    assert(layers@.take(0) =~= Seq::empty());
    for i in 0..layers.len()
        invariant
            data@ == joined_layers(layers@.take(i as int)),
    {
        assert(layers@.take(i + 1).drop_last() =~= layers@.take(i as int));
        let ghost before = data@;
        data.extend_from_slice(layers[i].as_slice());
        assert(data@ =~= before + layers@[i as int]@);
    }
    assert(layers@.take(layers@.len() as int) =~= layers@);
    if data.len() == 0 {
        return None;
    }
    let keyframe = matches!(frame_type, FrameType::Idr);
    Some(EncodedFrame { data, keyframe, pts_ms })
}

/// The encoder is given bits per second: the target rate, and a ceiling of three times that, each
/// as far as it can be expressed.
pub proof fn rates_are_in_bits_per_second(s: EncoderSettings, cores: usize, p: EncoderParams)
    requires
        call_ensures(params, (s, cores), p),
    ensures
        s.bitrate_kbps * 1000 <= 0x7FFF_FFFF ==> p.target_bps == s.bitrate_kbps * 1000,
        s.bitrate_kbps * 1000 > 0x7FFF_FFFF ==> p.target_bps == 0x7FFF_FFFF,
        s.bitrate_kbps * 3000 <= 0x7FFF_FFFF ==> p.max_bps == s.bitrate_kbps * 3000,
        s.bitrate_kbps * 3000 > 0x7FFF_FFFF ==> p.max_bps == 0x7FFF_FFFF,
{
}

/// There are as many threads as the setting says, up to sixteen, and without one as many as
/// cores, up to four; each thread has a slice.
pub proof fn threads_follow_the_setting(s: EncoderSettings, cores: usize, p: EncoderParams)
    requires
        call_ensures(params, (s, cores), p),
    ensures
        1 <= s.threads <= 16 ==> p.threads == s.threads,
        s.threads > 16 ==> p.threads == 16,
        s.threads == 0 && 1 <= cores <= 4 ==> p.threads == cores,
        s.threads == 0 && cores > 4 ==> p.threads == 4,
        s.threads == 0 && cores == 0 ==> p.threads == 1,
        p.slices == p.threads,
{
}

/// An encoder can be made for even sides of at least sixteen pixels.
pub proof fn sides_are_even_and_at_least_sixteen(s: EncoderSettings, r: Result<(), String>)
    requires
        call_ensures(check_settings, (s,), r),
    ensures
        r is Ok <==> s.width >= 16 && s.height >= 16 && s.width % 2 == 0 && s.height % 2 == 0,
        r matches Err(e) ==> (s.width >= 16 && s.height >= 16 ==> e@
            == "frame dimensions must be even"@) && (s.width < 16 || s.height < 16 ==> e@
            == "frame too small: "@ + text::decimal(s.width as nat) + "x"@ + text::decimal(
            s.height as nat,
        )),
{
}

/// A frame is let through exactly if it has the encoder's sides and its planes have the sizes
/// that go with them.
pub proof fn fitting_frames_pass(frame: I420Frame, s: EncoderSettings, r: Result<(), String>)
    requires
        call_ensures(check_frame, (&frame, s), r),
    ensures
        r is Ok <==> {
            &&& frame.width == s.width
            &&& frame.height == s.height
            &&& frame.y@.len() == frame.width * frame.height
            &&& frame.u@.len() == (frame.width / 2) * (frame.height / 2)
            &&& frame.v@.len() == (frame.width / 2) * (frame.height / 2)
        },
        r matches Err(e) ==> (frame.width == s.width && frame.height == s.height ==> e@
            == "malformed I420 planes"@),
        r matches Err(e) ==> (frame.width != s.width || frame.height != s.height ==> e@
            == "frame size "@ + text::decimal(frame.width as nat) + "x"@ + text::decimal(
            frame.height as nat,
        ) + " does not match encoder "@ + text::decimal(s.width as nat) + "x"@ + text::decimal(
            s.height as nat,
        )),
{
}

/// No rate below 100 kbit/s comes into force; any other comes as it is. Where it is in force
/// already there is nothing to do.
pub proof fn bitrate_is_taken_as_it_is(current: u32, kbps: u32, r: u32)
    requires
        call_ensures(clamp_bitrate, (kbps,), r),
    ensures
        kbps >= 100 ==> r == kbps,
        kbps < 100 ==> r == 100,
        bitrate_steps(current, kbps).len() == if current == r {
            0int
        } else {
            2
        },
{
}

/// Layers stand in their order: those of a list that is put together are those of its parts.
pub proof fn layers_keep_their_order(a: Seq<Vec<u8>>, b: Seq<Vec<u8>>, layer: Vec<u8>)
    ensures
        joined_layers(a + b) == joined_layers(a) + joined_layers(b),
        joined_layers(seq![layer]) == layer@,
        joined_layers(Seq::empty()) == Seq::<u8>::empty(),
    decreases b.len(),
{
    reveal_with_fuel(joined_layers, 2);
    assert(seq![layer].drop_last() =~= Seq::<Vec<u8>>::empty());
    assert(joined_layers(seq![layer]) =~= layer@);
    if b.len() == 0 {
        assert(a + b =~= a);
        assert(joined_layers(a + b) =~= joined_layers(a) + joined_layers(b));
    } else {
        layers_keep_their_order(a, b.drop_last(), layer);
        assert((a + b).drop_last() =~= a + b.drop_last());
        assert(joined_layers(a + b) =~= joined_layers(a) + joined_layers(b));
    }
}

} // verus!
