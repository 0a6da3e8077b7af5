//! What the FFmpeg H.264 decoder decides: hardware acceleration and software fallback.
//!
//! * Windows: D3D11VA, then DXVA2.  Linux: VA-API (Intel via `intel-media-va-driver`).
//! * The software path uses slice threading only (frame threading would add a frame of delay).
//! * Hardware frames are transferred to system memory (NV12) and handed to the scaler like
//!   software frames.
use vstd::prelude::*;

use crate::client::decoder::{DecodeError, HwPreference};
use crate::text;

verus! {

/// Where the client runs.
#[derive(Debug, Clone, Copy, PartialEq, Eq, Structural)]
pub enum Platform {
    Windows,
    Linux,
    Other,
}

/// A hardware device that can decode.
#[derive(Debug, Clone, Copy, PartialEq, Eq, Structural)]
pub enum HwDevice {
    D3d11va,
    Dxva2,
    Vaapi,
}

impl HwDevice {
    pub open spec fn name_text(self) -> Seq<char> {
        match self {
            HwDevice::D3d11va => "d3d11va"@,
            HwDevice::Dxva2 => "dxva2"@,
            HwDevice::Vaapi => "vaapi"@,
        }
    }

    pub fn name(self) -> (r: &'static str)
        ensures
            r@ == self.name_text(),
    {
        match self {
            HwDevice::D3d11va => "d3d11va",
            HwDevice::Dxva2 => "dxva2",
            HwDevice::Vaapi => "vaapi",
        }
    }
}

/// The devices to try on a platform, best first.
pub open spec fn devices(platform: Platform) -> Seq<HwDevice> {
    match platform {
        Platform::Windows => seq![HwDevice::D3d11va, HwDevice::Dxva2],
        Platform::Linux => seq![HwDevice::Vaapi],
        Platform::Other => Seq::empty(),
    }
}

/// The decoders to try, in order: the hardware decoders where they are wanted, and last the
/// software decoder (`None`).
pub fn candidates(preference: HwPreference, platform: Platform) -> (r: Vec<Option<HwDevice>>)
    ensures
        r@ == (if preference is Auto {
            devices(platform).map_values(|d: HwDevice| Some(d))
        } else {
            Seq::empty()
        }).push(None),
{
    let mut out: Vec<Option<HwDevice>> = Vec::new();
    if preference == HwPreference::Auto {
        match platform {
            Platform::Windows => {
                out.push(Some(HwDevice::D3d11va));
                out.push(Some(HwDevice::Dxva2));
            },
            Platform::Linux => {
                out.push(Some(HwDevice::Vaapi));
            },
            Platform::Other => {},
        }
        assert(out@ =~= devices(platform).map_values(|d: HwDevice| Some(d)));
    }
    out.push(None);
    out
}

/// A way in which the codec can be accelerated.
#[derive(Debug, Clone, Copy, PartialEq, Eq, Structural)]
pub struct HwConfig {
    /// Number of the device type.
    pub device_type: i32,
    /// It works through a device context.
    pub by_device: bool,
    pub pix_fmt: i32,
}

/// A way of acceleration serves a device type.
pub open spec fn serves(c: HwConfig, device_type: i32) -> bool {
    c.device_type == device_type && c.by_device
}

/// The pixel format of the first way of acceleration that serves the device type.
pub open spec fn hw_format_of(configs: Seq<HwConfig>, device_type: i32) -> Option<i32>
    decreases configs.len(),
{
    if configs.len() == 0 {
        None
    } else if serves(configs[0], device_type) {
        Some(configs[0].pix_fmt)
    } else {
        hw_format_of(configs.drop_first(), device_type)
    }
}

/// The pixel format of hardware frames for a device type, where the FFmpeg build has it.
pub fn hw_format(configs: &Vec<HwConfig>, device_type: i32) -> (r: Option<i32>)
    ensures
        r == hw_format_of(configs@, device_type),
{
    let mut i: usize = 0;
    assert(configs@.skip(0) =~= configs@);
    while i < configs.len()
        invariant
            i <= configs@.len(),
            hw_format_of(configs@, device_type) == hw_format_of(
                configs@.skip(i as int),
                device_type,
            ),
        decreases configs@.len() - i,
    {
        assert(configs@.skip(i as int).drop_first() =~= configs@.skip(i + 1));
        if configs[i].device_type == device_type && configs[i].by_device {
            return Some(configs[i].pix_fmt);
        }
        i = i + 1;
    }
    None
}

/// The message when the FFmpeg build cannot use a device.
pub fn no_hwaccel_text(device: HwDevice) -> (r: String)
    ensures
        r@ == device.name_text() + ": this FFmpeg build has no "@ + device.name_text()
            + " hwaccel for h264"@,
{
    let mut out = device.name().to_owned();
    out.append(": this FFmpeg build has no ");
    out.append(device.name());
    out.append(" hwaccel for h264");
    out
}

/// A pixel format that the decoder offers.
#[derive(Debug, Clone, Copy, PartialEq, Eq, Structural)]
pub struct OfferedFormat {
    pub pix_fmt: i32,
    /// Frames of this format stay on the hardware.
    pub hardware: bool,
}

/// The first software format.
pub open spec fn first_software(formats: Seq<OfferedFormat>) -> Option<i32>
    decreases formats.len(),
{
    if formats.len() == 0 {
        None
    } else if !formats[0].hardware {
        Some(formats[0].pix_fmt)
    } else {
        first_software(formats.drop_first())
    }
}

/// A format is offered.
pub open spec fn is_offered(formats: Seq<OfferedFormat>, pix_fmt: i32) -> bool {
    exists|i: int| 0 <= i < formats.len() && (#[trigger] formats[i]).pix_fmt == pix_fmt
}

/// Picks the hardware pixel format that was asked for, or the first software format if the
/// decoder cannot offer it. With the format, whether the decoder fell back. `wanted` is `None`
/// where no hardware format was asked for.
pub fn choose_format(wanted: Option<i32>, formats: &Vec<OfferedFormat>) -> (r: (Option<i32>, bool))
    ensures
        match wanted {
            Some(f) => r == if is_offered(formats@, f) {
                (Some(f), false)
            } else {
                (first_software(formats@), true)
            },
            None => r == (first_software(formats@), false),
        },
{
    if let Some(f) = wanted {
        for i in 0..formats.len()
            invariant
                wanted == Some(f),
                forall|j: int| 0 <= j < i ==> (#[trigger] formats@[j]).pix_fmt != f,
        {
            if formats[i].pix_fmt == f {
                assert(formats@[i as int].pix_fmt == f);
                return (Some(f), false);
            }
        }
    }
    let fell_back = wanted.is_some();
    let mut i: usize = 0;
    assert(formats@.skip(0) =~= formats@);
    while i < formats.len()
        invariant
            i <= formats@.len(),
            fell_back == wanted is Some,
            wanted matches Some(f) ==> !is_offered(formats@, f),
            first_software(formats@) == first_software(formats@.skip(i as int)),
        decreases formats@.len() - i,
    {
        assert(formats@.skip(i as int).drop_first() =~= formats@.skip(i + 1));
        if !formats[i].hardware {
            return (Some(formats[i].pix_fmt), fell_back);
        }
        i = i + 1;
    }
    (None, fell_back)
}

/// Number of decoder threads: one with hardware, else one per core, but at most four.
pub fn thread_count(hardware: bool, cores: usize) -> (r: u32)
    ensures
        hardware ==> r == 1,
        !hardware ==> r == if cores < 1 {
            1
        } else if cores > 4 {
            4
        } else {
            cores as int
        },
{
    if hardware || cores < 1 {
        1
    } else if cores > 4 {
        4
    } else {
        cores as u32
    }
}

/// Short description of the decoder for the title bar.
pub fn name(device: Option<HwDevice>, fell_back: bool) -> (r: String)
    ensures
        r@ == (match device {
            Some(d) => if fell_back {
                "h264 (software, "@ + d.name_text() + " rejected the stream)"@
            } else {
                "h264 ("@ + d.name_text() + ")"@
            },
            None => "h264 (software)"@,
        }),
{
    match device {
        Some(d) => {
            if fell_back {
                let mut out = "h264 (software, ".to_owned();
                out.append(d.name());
                out.append(" rejected the stream)");
                out
            } else {
                let mut out = "h264 (".to_owned();
                out.append(d.name());
                out.append(")");
                out
            }
        },
        None => "h264 (software)".to_owned(),
    }
}

/// Whether pictures are decoded in hardware.
pub fn is_hardware(device: Option<HwDevice>, fell_back: bool) -> (r: bool)
    ensures
        r == (device is Some && !fell_back),
{
    device.is_some() && !fell_back
}

// ------------------------------------------------------------------------------------------
// Return codes
// ------------------------------------------------------------------------------------------
/// Invalid data was found in the stream.
pub const AVERROR_INVALIDDATA: i32 = -1_094_995_529;

/// There is nothing more to come.
pub const AVERROR_EOF: i32 = -541_478_725;

/// An argument is invalid.
pub const AVERROR_EINVAL: i32 = -22;

/// A signed number in decimal.
pub open spec fn signed_text(n: i32) -> Seq<char> {
    if n < 0 {
        "-"@ + text::decimal((-n) as nat)
    } else {
        text::decimal(n as nat)
    }
}

pub(crate) fn push_signed(out: &mut String, n: i32)
    ensures
        final(out)@ == old(out)@ + signed_text(n),
{
    let ghost start = out@;
    if n < 0 {
        out.append("-");
        text::push_decimal(out, (-(n as i64)) as u64);
    } else {
        text::push_decimal(out, n as u64);
    }
    assert(out@ =~= start + signed_text(n));
}

/// The length of an access unit as the decoder takes it; an empty one needs no decoding.
pub fn packet_size(len: usize) -> (r: Result<Option<i32>, DecodeError>)
    ensures
        len == 0 ==> r == Ok::<Option<i32>, DecodeError>(None),
        0 < len <= i32::MAX ==> (r matches Ok(Some(n)) && n == len),
        len > i32::MAX ==> (r matches Err(DecodeError::Corrupt(m)) && m@
            == "access unit too large"@),
{
    if len == 0 {
        Ok(None)
    } else if len <= 0x7fff_ffff {
        Ok(Some(len as i32))
    } else {
        Err(DecodeError::Corrupt("access unit too large".to_owned()))
    }
}

/// The message for a call that failed.
pub open spec fn failure(what: Seq<char>, reason: Seq<char>, rc: i32) -> Seq<char> {
    what + ": "@ + reason + " ("@ + signed_text(rc) + ")"@
}

/// What a failed call means: damaged data, or the end of this decoder. `reason` is FFmpeg's
/// text for the code.
pub fn classify(rc: i32, what: &str, reason: &str) -> (r: DecodeError)
    ensures
        rc == AVERROR_INVALIDDATA || rc == AVERROR_EINVAL ==> (r matches DecodeError::Corrupt(m)
            && m@ == failure(what@, reason@, rc)),
        rc != AVERROR_INVALIDDATA && rc != AVERROR_EINVAL ==> (r matches DecodeError::Fatal(m) && m@
            == failure(what@, reason@, rc)),
{
    let mut m = what.to_owned();
    m.append(": ");
    m.append(reason);
    m.append(" (");
    push_signed(&mut m, rc);
    m.append(")");
    if rc == AVERROR_INVALIDDATA || rc == AVERROR_EINVAL {
        DecodeError::Corrupt(m)
    } else {
        DecodeError::Fatal(m)
    }
}

/// What sending a packet came to. `again` is the platform's code for a decoder that wants its
/// pictures taken first.
pub fn on_sent(rc: i32, again: i32, reason: &str) -> (r: Result<(), DecodeError>)
    ensures
        r is Ok <==> rc >= 0 || rc == again,
        r matches Err(DecodeError::Corrupt(m)) ==> (rc == AVERROR_INVALIDDATA || rc
            == AVERROR_EINVAL) && m@ == failure("avcodec_send_packet"@, reason@, rc),
        r matches Err(DecodeError::Fatal(m)) ==> rc != AVERROR_INVALIDDATA && rc != AVERROR_EINVAL
            && m@ == failure("avcodec_send_packet"@, reason@, rc),
{
    if rc >= 0 || rc == again {
        Ok(())
    } else {
        Err(classify(rc, "avcodec_send_packet", reason))
    }
}

/// What asking for a picture came to.
#[derive(Debug)]
pub enum Received {
    /// A picture.
    Picture,
    /// Nothing more for now.
    Done,
    Failed(DecodeError),
}

/// What asking for a picture came to. `again` is the platform's code for a decoder that wants
/// more input first.
pub fn on_received(rc: i32, again: i32, reason: &str) -> (r: Received)
    ensures
        r is Picture <==> rc >= 0 && rc != again,
        r is Done <==> rc == again || rc == AVERROR_EOF,
        r matches Received::Failed(DecodeError::Corrupt(m)) ==> (rc == AVERROR_INVALIDDATA || rc
            == AVERROR_EINVAL) && m@ == failure("avcodec_receive_frame"@, reason@, rc),
        r matches Received::Failed(DecodeError::Fatal(m)) ==> rc != AVERROR_INVALIDDATA && rc
            != AVERROR_EINVAL && m@ == failure("avcodec_receive_frame"@, reason@, rc),
{
    if rc == again || rc == AVERROR_EOF {
        Received::Done
    } else if rc < 0 {
        Received::Failed(classify(rc, "avcodec_receive_frame", reason))
    } else {
        Received::Picture
    }
}

/// A frame of the decoder can be copied: it has a size and a format.
pub fn check_frame(width: i32, height: i32, format: i32) -> (r: Result<(u32, u32), DecodeError>)
    ensures
        width > 0 && height > 0 && format >= 0 ==> (r matches Ok((w, h)) && w == width && h
            == height),
        width <= 0 || height <= 0 || format < 0 ==> (r matches Err(DecodeError::Corrupt(m)) && m@
            == "decoder produced an invalid frame "@ + signed_text(width) + "x"@ + signed_text(
            height,
        ) + " fmt "@ + signed_text(format)),
{
    if width <= 0 || height <= 0 || format < 0 {
        let mut m = "decoder produced an invalid frame ".to_owned();
        push_signed(&mut m, width);
        m.append("x");
        push_signed(&mut m, height);
        m.append(" fmt ");
        push_signed(&mut m, format);
        Err(DecodeError::Corrupt(m))
    } else {
        Ok((width as u32, height as u32))
    }
}

/// The size of the buffer for a frame, as FFmpeg computed it.
pub fn check_buffer_size(size: i32, format: i32, reason: &str) -> (r: Result<usize, DecodeError>)
    ensures
        size > 0 ==> (r matches Ok(n) && n == size),
        size <= 0 ==> (r matches Err(DecodeError::Fatal(m)) && m@
            == "av_image_get_buffer_size failed for fmt "@ + signed_text(format) + ": "@ + reason@),
{
    if size <= 0 {
        let mut m = "av_image_get_buffer_size failed for fmt ".to_owned();
        push_signed(&mut m, format);
        m.append(": ");
        m.append(reason);
        Err(DecodeError::Fatal(m))
    } else {
        Ok(size as usize)
    }
}

/// The decoders that are tried: on Windows D3D11VA before DXVA2, on Linux VAAPI, and software last
/// of all; where only software is wanted, that alone.
pub proof fn software_is_tried_last(
    preference: HwPreference,
    platform: Platform,
    r: Vec<Option<HwDevice>>,
)
    requires
        call_ensures(candidates, (preference, platform), r),
    ensures
        preference is Software || platform is Other ==> r@ == seq![None::<HwDevice>],
        preference is Auto && platform is Windows ==> r@ == seq![
            Some(HwDevice::D3d11va),
            Some(HwDevice::Dxva2),
            None,
        ],
        preference is Auto && platform is Linux ==> r@ == seq![Some(HwDevice::Vaapi), None],
{
    let f = |d: HwDevice| Some(d);
    assert(Seq::<HwDevice>::empty().map_values(f) =~= Seq::empty());
    assert(seq![HwDevice::D3d11va, HwDevice::Dxva2].map_values(f) =~= seq![
        Some(HwDevice::D3d11va),
        Some(HwDevice::Dxva2),
    ]);
    assert(seq![HwDevice::Vaapi].map_values(f) =~= seq![Some(HwDevice::Vaapi)]);
}

/// Devices go by FFmpeg's names.
pub proof fn devices_go_by_their_names(device: HwDevice, r: &'static str)
    requires
        call_ensures(HwDevice::name, (device,), r),
    ensures
        device is D3d11va ==> r@ == "d3d11va"@,
        device is Dxva2 ==> r@ == "dxva2"@,
        device is Vaapi ==> r@ == "vaapi"@,
{
}

/// The hardware format is that of the first way that is for the device and works through a
/// context; there is none only if there is no such way.
pub proof fn first_way_for_the_device_counts(configs: Seq<HwConfig>, device_type: i32, i: int)
    requires
        0 <= i < configs.len(),
        forall|j: int|
            0 <= j < i ==> !((#[trigger] configs[j]).device_type == device_type
                && configs[j].by_device),
    ensures
        configs[i].device_type == device_type && configs[i].by_device ==> hw_format_of(
            configs,
            device_type,
        ) == Some(configs[i].pix_fmt),
        i == configs.len() - 1 && !(configs[i].device_type == device_type && configs[i].by_device)
            ==> hw_format_of(configs, device_type) is None,
    decreases configs.len(),
{
    reveal_with_fuel(hw_format_of, 2);
    if i > 0 {
        let rest = configs.drop_first();
        assert(!(configs[0].device_type == device_type && configs[0].by_device));
        assert forall|j: int| 0 <= j < i - 1 implies !((#[trigger] rest[j]).device_type
            == device_type && rest[j].by_device) by {
            assert(rest[j] == configs[j + 1]);
        }
        first_way_for_the_device_counts(rest, device_type, i - 1);
        assert(rest[i - 1] == configs[i]);
    } else if configs.len() == 1 {
        assert(configs.drop_first() =~= Seq::empty());
    }
}

/// The first format that is not a hardware format is the first software format; there is none
/// only if all are hardware formats.
pub proof fn first_software_format_is_first(formats: Seq<OfferedFormat>, i: int)
    requires
        0 <= i < formats.len(),
        forall|j: int| 0 <= j < i ==> (#[trigger] formats[j]).hardware,
    ensures
        !formats[i].hardware ==> first_software(formats) == Some(formats[i].pix_fmt),
        i == formats.len() - 1 && formats[i].hardware ==> first_software(formats) is None,
    decreases formats.len(),
{
    reveal_with_fuel(first_software, 2);
    if i > 0 {
        let rest = formats.drop_first();
        assert(formats[0].hardware);
        assert forall|j: int| 0 <= j < i - 1 implies (#[trigger] rest[j]).hardware by {
            assert(rest[j] == formats[j + 1]);
        }
        first_software_format_is_first(rest, i - 1);
        assert(rest[i - 1] == formats[i]);
    } else if formats.len() == 1 {
        assert(formats.drop_first() =~= Seq::empty());
    }
}

/// A hardware format that is offered is taken, and nothing falls back; one that is not makes the
/// decoder fall back.
pub proof fn offered_hardware_format_is_taken(
    wanted: i32,
    formats: &Vec<OfferedFormat>,
    r: (Option<i32>, bool),
)
    requires
        call_ensures(choose_format, (Some(wanted), formats), r),
    ensures
        r.1 <==> forall|i: int|
            0 <= i < formats@.len() ==> (#[trigger] formats@[i]).pix_fmt != wanted,
        !r.1 ==> r.0 == Some(wanted),
{
}

/// Codes are shown with their sign, and a failure says what was called, why and with which code.
pub proof fn failures_show_their_code(what: Seq<char>, reason: Seq<char>, rc: i32)
    ensures
        rc < 0 ==> failure(what, reason, rc) == what + ": "@ + reason + " ("@ + ("-"@
            + text::decimal((-rc) as nat)) + ")"@,
        rc >= 0 ==> failure(what, reason, rc) == what + ": "@ + reason + " ("@ + text::decimal(
            rc as nat,
        ) + ")"@,
{
}

} // verus!
