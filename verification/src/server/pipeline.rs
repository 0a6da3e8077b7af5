//! Capture → convert → encode pipeline (two OS threads), decoupled from the WebRTC session.
//!
//! * The capture thread paces itself at the configured frame rate, reads the vkms scanout
//!   buffer, converts it to I420 and hands the frame to the encoder thread through a one-slot
//!   channel (the newest frame wins, nothing queues up). Unchanged frames are skipped, except
//!   once a second and whenever a keyframe was requested.
//! * The encoder thread owns the encoder, applies bitrate/keyframe requests and pushes the
//!   encoded access units into the sink installed by the active session.
//!
//! Both threads idle while no client is connected. This module holds their state and what they
//! decide; the threads perform it.
use vstd::prelude::*;

use xxhash_rust::xxh3::Xxh3;

use crate::server::convert::{xrgb_to_i420, I420Frame};
use crate::server::encoder::EncoderSettings;
use crate::server::config::Video;
use crate::text;
use crate::{elapsed_since, Nanos};

verus! {

/// How long the capture thread sleeps while no client is connected.
pub const IDLE_SLEEP: Nanos = 100_000_000;

/// How long the capture thread sleeps after the display could not be opened.
pub const DISPLAY_RETRY: Nanos = 2_000_000_000;

/// How long the capture thread sleeps after a frame could not be read.
pub const CAPTURE_RETRY: Nanos = 500_000_000;

/// How long the encoder thread sleeps after the encoder could not be created.
pub const ENCODER_RETRY: Nanos = 1_000_000_000;

/// An unchanged frame is sent again after this time.
pub const REFRESH_INTERVAL: Nanos = 1_000_000_000;

/// How often the pipeline logs its rates.
pub const STATS_INTERVAL: Nanos = 5_000_000_000;

/// State shared between the pipeline threads and the session layer.
pub struct Shared<S> {
    /// A client is connected: capture and encode.
    pub client_connected: bool,
    /// Encode the next frame as an IDR (set on connect and on PLI/FIR).
    pub force_keyframe: bool,
    /// Target bitrate in kbit/s (session changes it on `SetBitrate`).
    pub bitrate_kbps: u32,
    /// Id of the session that currently owns the pipeline output.
    pub active_session: u64,
    /// Where encoded frames go (installed by the active session).
    pub sink: Option<S>,
    pub frames_encoded: u64,
    pub bytes_encoded: u64,
}

impl<S> Shared<S> {
    pub fn new(bitrate_kbps: u32) -> (r: Self)
        ensures
            r == (Shared::<S> {
                client_connected: false,
                force_keyframe: false,
                bitrate_kbps,
                active_session: 0,
                sink: None,
                frames_encoded: 0,
                bytes_encoded: 0,
            }),
    {
        Shared {
            client_connected: false,
            force_keyframe: false,
            bitrate_kbps,
            active_session: 0,
            sink: None,
            frames_encoded: 0,
            bytes_encoded: 0,
        }
    }

    pub fn install_sink(&mut self, sink: S)
        ensures
            *final(self) == (Shared { sink: Some(sink), ..*old(self) }),
    {
        self.sink = Some(sink);
    }

    pub fn clear_sink(&mut self)
        ensures
            *final(self) == (Shared { sink: None, ..*old(self) }),
    {
        self.sink = None;
    }

    /// Reads the keyframe request and clears it.
    pub fn take_keyframe_request(&mut self) -> (r: bool)
        ensures
            r == old(self).force_keyframe,
            *final(self) == (Shared { force_keyframe: false, ..*old(self) }),
    {
        let requested = self.force_keyframe;
        self.force_keyframe = false;
        requested
    }
}

// ------------------------------------------------------------------------------------------
// Capture
// ------------------------------------------------------------------------------------------
/// Nanoseconds per frame, rounded to the nearest; halves go to the even number.
pub open spec fn nanos_per_frame(fps: int) -> int {
    let q = 1_000_000_000int / fps;
    let rest = 1_000_000_000int % fps;
    if 2 * rest > fps || (2 * rest == fps && q % 2 == 1) {
        q + 1
    } else {
        q
    }
}

/// Time per frame at a frame rate; a rate of zero counts as one.
pub fn frame_duration(fps: u32) -> (r: Nanos)
    ensures
        r == nanos_per_frame(if fps == 0 {
            1
        } else {
            fps as int
        }),
        r <= 1_000_000_000,
{
    let fps: u64 = if fps == 0 {
        1
    } else {
        fps as u64
    };
    let q: u64 = 1_000_000_000 / fps;
    let rest: u64 = 1_000_000_000 % fps;
    assert(q <= 1_000_000_000 && (rest > 0 ==> q < 1_000_000_000)) by (nonlinear_arith)
        requires
            fps >= 1,
            q == 1_000_000_000u64 / fps,
            rest == 1_000_000_000u64 % fps,
    ;
    if 2 * rest > fps || (2 * rest == fps && q % 2 == 1) {
        q + 1
    } else {
        q
    }
}

/// What the capture thread does next.
#[derive(Debug, Clone, Copy, PartialEq, Eq, Structural)]
pub enum CaptureStep {
    /// No client: sleep for [`IDLE_SLEEP`]. `stopped` if one was there before.
    Idle { stopped: bool },
    /// Sleep that long, then take a frame. `started` if the client has just come.
    Frame { sleep: Nanos, started: bool },
}

/// What the capture thread remembers.
#[derive(Debug, Clone, Copy, PartialEq, Eq, Structural)]
pub struct CaptureState {
    pub frame_duration: Nanos,
    /// When the thread started: frames are stamped with the time since then.
    pub epoch: Nanos,
    pub was_connected: bool,
    /// Hash of the last frame handed to the encoder.
    pub last_hash: Option<u64>,
    /// When it was handed over.
    pub last_sent: Nanos,
    /// When the next frame is due.
    pub next_tick: Nanos,
}

/// The hash of a frame's planes.
pub uninterp spec fn planes_hash(y: Seq<u8>, u: Seq<u8>, v: Seq<u8>) -> u64;

/// Hashes the three planes of a frame, one after the other.
///
/// This is `xxhash_rust`'s streaming `Xxh3`: `new`, three times `update`, and `digest`. The
/// result is named.
#[verifier::external_body]
fn hash_planes(y: &[u8], u: &[u8], v: &[u8]) -> (r: u64)
    ensures
        r == planes_hash(y@, u@, v@),
{
    let mut h = Xxh3::new();
    h.update(y);
    h.update(u);
    h.update(v);
    h.digest()
}

/// The hash of a frame.
pub fn frame_hash(frame: &I420Frame) -> (r: u64)
    ensures
        r == planes_hash(frame.y@, frame.u@, frame.v@),
{
    hash_planes(frame.y.as_slice(), frame.u.as_slice(), frame.v.as_slice())
}

impl CaptureState {
    pub fn new(fps: u32, now: Nanos) -> (r: Self)
        ensures
            r == (CaptureState {
                frame_duration: r.frame_duration,
                epoch: now,
                was_connected: false,
                last_hash: None,
                last_sent: now,
                next_tick: now,
            }),
            r.frame_duration == nanos_per_frame(if fps == 0 {
                1
            } else {
                fps as int
            }),
    {
        CaptureState {
            frame_duration: frame_duration(fps),
            epoch: now,
            was_connected: false,
            last_hash: None,
            last_sent: now,
            next_tick: now,
        }
    }

    /// Starts a round: idles without a client, else paces to the frame rate. A client that has
    /// just come is sent the next frame, changed or not.
    pub fn begin(&mut self, connected: bool, now: Nanos) -> (r: CaptureStep)
        ensures
            !connected ==> r == (CaptureStep::Idle { stopped: old(self).was_connected })
                && *final(self) == (CaptureState { was_connected: false, ..*old(self) }),
            connected ==> r == (CaptureStep::Frame {
                sleep: if now < old(self).next_tick {
                    (old(self).next_tick - now) as u64
                } else {
                    0
                },
                started: !old(self).was_connected,
            }) && *final(self) == (CaptureState {
                was_connected: true,
                last_hash: if old(self).was_connected {
                    old(self).last_hash
                } else {
                    None
                },
                ..*old(self)
            }),
    {
        let was = self.was_connected;
        if !connected {
            self.was_connected = false;
            return CaptureStep::Idle { stopped: was };
        }
        if !was {
            self.was_connected = true;
            self.last_hash = None;
        }
        let sleep: u64 = if now < self.next_tick {
            self.next_tick - now
        } else {
            0
        };
        CaptureStep::Frame { sleep, started: !was }
    }

    /// After the idle sleep: the next frame is due at once.
    pub fn after_idle(&mut self, now: Nanos)
        ensures
            *final(self) == (CaptureState { next_tick: now, ..*old(self) }),
    {
        self.next_tick = now;
    }

    /// The tick that follows one at `tick`, seen at `now`: a frame later; if that is more than a
    /// frame behind, `now`.
    pub open spec fn following_tick(tick: Nanos, duration: Nanos, now: Nanos) -> Nanos {
        if tick + 2 * duration < now {
            now
        } else {
            (tick + duration) as u64
        }
    }

    /// After the sleep that paces: sets the next tick. If we fell behind by more than a frame,
    /// resynchronises.
    pub fn after_sleep(&mut self, now: Nanos)
        requires
            old(self).next_tick + 2 * old(self).frame_duration <= u64::MAX,
        ensures
            *final(self) == (CaptureState {
                next_tick: Self::following_tick(
                    old(self).next_tick,
                    old(self).frame_duration,
                    now,
                ),
                ..*old(self)
            }),
    {
        self.next_tick = self.next_tick + self.frame_duration;
        if self.next_tick + self.frame_duration < now {
            self.next_tick = now;
        }
    }

    /// Whether a frame is handed to the encoder: one that differs from the last, one for a
    /// requested keyframe, and one a second.
    pub open spec fn wanted(self, hash: u64, keyframe: bool, now: Nanos) -> bool {
        self.last_hash != Some(hash) || keyframe || crate::since(now, self.last_sent)
            >= REFRESH_INTERVAL
    }

    /// Whether a frame with this hash is handed to the encoder.
    pub fn wants(&self, hash: u64, keyframe: bool, now: Nanos) -> (r: bool)
        ensures
            r == self.wanted(hash, keyframe, now),
    {
        let unchanged = match self.last_hash {
            Some(h) => h == hash,
            None => false,
        };
        !unchanged || keyframe || elapsed_since(now, self.last_sent) >= REFRESH_INTERVAL
    }

    /// Converts a captured image into `current` and decides whether the encoder gets it: its
    /// hash if so.
    pub fn take_frame(
        &self,
        src: &[u8],
        width: usize,
        height: usize,
        pitch: usize,
        current: &mut I420Frame,
        keyframe: bool,
        now: Nanos,
    ) -> (r: Option<u64>)
        requires
            old(current).wf(),
            4 * crate::server::convert::even(width) <= pitch,
            crate::server::convert::holds_rows(
                src@.len(),
                crate::server::convert::even(width) as int,
                crate::server::convert::even(height) as int,
                pitch as int,
            ),
        ensures
            final(current).wf(),
            final(current).shows(src@, pitch as int),
            width >= 2 && height >= 2 ==> final(current).width == crate::server::convert::even(
                width,
            ) && final(current).height == crate::server::convert::even(height),
            width < 2 || height < 2 ==> final(current).width == 0 && final(current).height == 0,
            ({
                let hash = planes_hash(final(current).y@, final(current).u@, final(current).v@);
                r == if self.wanted(hash, keyframe, now) {
                    Some(hash)
                } else {
                    None
                }
            }),
    {
        xrgb_to_i420(src, width, height, pitch, current);
        let hash = frame_hash(current);
        if self.wants(hash, keyframe, now) {
            Some(hash)
        } else {
            None
        }
    }

    /// Presentation time of a frame taken at `now`, in milliseconds.
    pub fn pts_ms(&self, now: Nanos) -> (r: u64)
        ensures
            r == crate::since(now, self.epoch) / 1_000_000,
    {
        elapsed_since(now, self.epoch) / 1_000_000
    }

    /// A frame was put in the slot to the encoder.
    pub fn on_sent(&mut self, hash: u64, now: Nanos)
        ensures
            *final(self) == (CaptureState {
                last_hash: Some(hash),
                last_sent: now,
                ..*old(self)
            }),
    {
        self.last_hash = Some(hash);
        self.last_sent = now;
    }
}

/// Pacing never falls more than a frame behind the clock.
pub proof fn pacing_keeps_up(tick: Nanos, duration: Nanos, now: Nanos)
    requires
        tick + 2 * duration <= u64::MAX,
    ensures
        CaptureState::following_tick(tick, duration, now) + duration >= now,
        CaptureState::following_tick(tick, duration, now) >= tick,
{
}

/// A frame that was sent is not sent again within a second, unless a keyframe is requested or
/// another frame was sent in between; after a second it is.
pub proof fn unchanged_frames_are_sent_once_a_second(s: CaptureState, hash: u64, sent: Nanos, now: Nanos)
    requires
        sent <= now,
    ensures
        ({
            let t = CaptureState { last_hash: Some(hash), last_sent: sent, ..s };
            &&& t.wanted(hash, false, now) <==> now - sent >= REFRESH_INTERVAL
            &&& t.wanted(hash, true, now)
            &&& forall|other: u64| other != hash ==> #[trigger] t.wanted(other, false, now)
        }),
{
}

// ------------------------------------------------------------------------------------------
// Encoding
// ------------------------------------------------------------------------------------------
/// What the encoder thread remembers.
#[derive(Debug, Clone, Copy, PartialEq, Eq)]
pub struct EncodeState {
    /// Frame size the encoder was made for; `None` without an encoder.
    pub size: Option<(usize, usize)>,
    /// Bitrate the encoder works with, in kbit/s.
    pub bitrate_kbps: u32,
    /// When the last keyframe came out.
    pub last_keyframe: Option<Nanos>,
}

/// What the encoder thread does with a frame.
#[derive(Debug, Clone, Copy, PartialEq, Eq, Structural)]
pub struct FramePlan {
    /// Make an encoder with these settings first.
    pub create: Option<EncoderSettings>,
    /// Encode the frame as an IDR.
    pub force: bool,
}

/// What came of a call to the encoder.
#[derive(Debug, Clone, Copy, PartialEq, Eq, Structural)]
pub enum EncodeOutcome {
    /// An access unit of this many bytes.
    Unit { bytes: usize, keyframe: bool },
    /// The encoder skipped the frame.
    Skipped,
    Failed,
}

impl EncodeState {
    pub fn new(bitrate_kbps: u32) -> (r: Self)
        ensures
            r == (EncodeState { size: None, bitrate_kbps, last_keyframe: None }),
    {
        EncodeState { size: None, bitrate_kbps, last_keyframe: None }
    }

    /// A keyframe is due by time: the interval is set, and has passed since the last one or no
    /// keyframe has come out yet.
    pub open spec fn due(self, interval_secs: u32, now: Nanos) -> bool {
        interval_secs > 0 && match self.last_keyframe {
            Some(t) => crate::since(now, t) >= interval_secs * 1_000_000_000,
            None => true,
        }
    }

    /// Whether a keyframe is due by time.
    pub fn keyframe_due(&self, interval_secs: u32, now: Nanos) -> (r: bool)
        ensures
            r == self.due(interval_secs, now),
    {
        match self.last_keyframe {
            Some(t) => interval_secs > 0 && elapsed_since(now, t) >= interval_secs as u64
                * 1_000_000_000,
            None => interval_secs > 0,
        }
    }

    /// The settings of the encoder for a frame size.
    pub open spec fn settings(
        width: usize,
        height: usize,
        video: Video,
        bitrate_kbps: u32,
    ) -> EncoderSettings {
        EncoderSettings {
            width: width as u32,
            height: height as u32,
            fps: video.fps,
            bitrate_kbps,
            keyframe_interval: video.keyframe_interval,
            threads: video.encoder_threads,
        }
    }

    /// Plans what to do with a frame: nothing with an empty one. An encoder is made for the
    /// first frame and for every change of size, and starts with an IDR; so does a frame for
    /// which a keyframe was requested, and one at which the interval has passed.
    pub fn plan(
        &self,
        width: usize,
        height: usize,
        requested: bool,
        wanted_kbps: u32,
        video: Video,
        now: Nanos,
    ) -> (r: Option<FramePlan>)
        requires
            width <= u32::MAX,
            height <= u32::MAX,
        ensures
            r is None <==> width == 0 || height == 0,
            r matches Some(p) ==> {
                &&& p.create == if self.size == Some((width, height)) {
                    None
                } else {
                    Some(Self::settings(width, height, video, wanted_kbps))
                }
                &&& p.force == (requested || self.size != Some((width, height)) || self.due(
                    video.keyframe_interval_secs,
                    now,
                ))
            },
    {
        if width == 0 || height == 0 {
            return None;
        }
        let ready = match self.size {
            Some((w, h)) => w == width && h == height,
            None => false,
        };
        if ready {
            let due = self.keyframe_due(video.keyframe_interval_secs, now);
            Some(FramePlan { create: None, force: requested || due })
        } else {
            let settings = EncoderSettings {
                width: width as u32,
                height: height as u32,
                fps: video.fps,
                bitrate_kbps: wanted_kbps,
                keyframe_interval: video.keyframe_interval,
                threads: video.encoder_threads,
            };
            Some(FramePlan { create: Some(settings), force: true })
        }
    }

    /// The encoder has been made.
    pub fn on_created(&mut self, settings: EncoderSettings)
        ensures
            *final(self) == (EncodeState {
                size: Some((settings.width as usize, settings.height as usize)),
                bitrate_kbps: settings.bitrate_kbps,
                ..*old(self)
            }),
    {
        self.size = Some((settings.width as usize, settings.height as usize));
        self.bitrate_kbps = settings.bitrate_kbps;
    }

    /// The bitrate to set, if another one is wanted than the encoder works with.
    pub fn bitrate_change(&self, wanted_kbps: u32) -> (r: Option<u32>)
        ensures
            r == if wanted_kbps != self.bitrate_kbps {
                Some(wanted_kbps)
            } else {
                None
            },
    {
        if wanted_kbps != self.bitrate_kbps {
            Some(wanted_kbps)
        } else {
            None
        }
    }

    /// The encoder took a bitrate. One that it refused is tried again with the next frame.
    pub fn on_bitrate_set(&mut self, kbps: u32)
        ensures
            *final(self) == (EncodeState { bitrate_kbps: kbps, ..*old(self) }),
    {
        self.bitrate_kbps = kbps;
    }

    /// Takes note of what the encoder returned. True if the unit goes to the sink. While nobody
    /// is listening, a forced keyframe is requested again. After a failure the encoder is made
    /// anew.
    pub fn on_encoded<S>(
        &mut self,
        shared: &mut Shared<S>,
        outcome: EncodeOutcome,
        force: bool,
        now: Nanos,
    ) -> (r: bool)
        requires
            old(shared).frames_encoded < u64::MAX,
            outcome matches EncodeOutcome::Unit { bytes, .. } ==> old(shared).bytes_encoded + bytes
                <= u64::MAX,
        ensures
            match outcome {
                EncodeOutcome::Unit { bytes, keyframe } => {
                    &&& r == old(shared).sink is Some
                    &&& *final(shared) == (Shared {
                        frames_encoded: (old(shared).frames_encoded + 1) as u64,
                        bytes_encoded: (old(shared).bytes_encoded + bytes) as u64,
                        force_keyframe: old(shared).force_keyframe || (force && old(
                            shared,
                        ).sink is None),
                        ..*old(shared)
                    })
                    &&& *final(self) == (EncodeState {
                        last_keyframe: if keyframe {
                            Some(now)
                        } else {
                            old(self).last_keyframe
                        },
                        ..*old(self)
                    })
                },
                EncodeOutcome::Skipped => !r && *final(shared) == *old(shared) && *final(self)
                    == *old(self),
                EncodeOutcome::Failed => !r && *final(shared) == *old(shared) && *final(self) == (
                EncodeState { size: None, ..*old(self) }),
            },
    {
        match outcome {
            EncodeOutcome::Unit { bytes, keyframe } => {
                shared.frames_encoded = shared.frames_encoded + 1;
                shared.bytes_encoded = shared.bytes_encoded + bytes as u64;
                if keyframe {
                    self.last_keyframe = Some(now);
                }
                if shared.sink.is_some() {
                    true
                } else {
                    if force {
                        shared.force_keyframe = true;
                    }
                    false
                }
            },
            EncodeOutcome::Skipped => false,
            EncodeOutcome::Failed => {
                self.size = None;
                false
            },
        }
    }
}

/// Keyframes recur: every frame is forced to be one until the first has come out, and from then
/// on the next one is forced by the time the interval has passed.
pub proof fn keyframes_recur(s: EncodeState, interval_secs: u32, now: Nanos)
    requires
        interval_secs > 0,
        s.last_keyframe matches Some(last) ==> now >= last + interval_secs * 1_000_000_000,
    ensures
        s.due(interval_secs, now),
{
}

/// An interval of zero never forces a keyframe by time.
pub proof fn zero_interval_forces_nothing(s: EncodeState, now: Nanos)
    ensures
        !s.due(0, now),
{
}

// ------------------------------------------------------------------------------------------
// The slot between the threads
// ------------------------------------------------------------------------------------------
/// A frame on its way to the encoder.
pub struct Captured {
    pub frame: I420Frame,
    pub pts_ms: u64,
    /// True when the capture thread saw the keyframe flag (avoids a race where the encoder
    /// thread clears it before this frame arrives).
    pub keyframe: bool,
}

/// What became of a frame that was put in the slot.
pub enum Handed {
    /// The slot was free.
    Taken,
    /// The encoder is busy: the frame took the place of an older one, whose buffer this is.
    Replaced(I420Frame),
    /// The encoder thread is gone.
    Gone,
}

/// The one-slot channel from the capture thread to the encoder thread: the newest frame wins,
/// nothing queues up.
pub struct FrameSlot {
    pub waiting: Option<Captured>,
    /// One of the threads is gone.
    pub closed: bool,
}

impl FrameSlot {
    pub fn new() -> (r: Self)
        ensures
            r == (FrameSlot { waiting: None, closed: false }),
    {
        FrameSlot { waiting: None, closed: false }
    }

    /// Puts a frame in. One that still waits makes room for it and leaves it its keyframe
    /// request.
    pub fn put(&mut self, new: Captured) -> (r: Handed)
        ensures
            old(self).closed ==> r is Gone && *final(self) == *old(self),
            !old(self).closed ==> *final(self) == (FrameSlot {
                waiting: Some(
                    Captured {
                        keyframe: new.keyframe || (old(self).waiting matches Some(w)
                            && w.keyframe),
                        ..new
                    },
                ),
                closed: false,
            }),
            !old(self).closed ==> r == match old(self).waiting {
                Some(w) => Handed::Replaced(w.frame),
                None => Handed::Taken,
            },
    {
        if self.closed {
            return Handed::Gone;
        }
        match self.waiting.take() {
            Some(w) => {
                self.waiting =
                Some(
                    Captured {
                        frame: new.frame,
                        pts_ms: new.pts_ms,
                        keyframe: new.keyframe || w.keyframe,
                    },
                );
                Handed::Replaced(w.frame)
            },
            None => {
                self.waiting = Some(new);
                Handed::Taken
            },
        }
    }

    /// Takes the waiting frame out.
    pub fn take(&mut self) -> (r: Option<Captured>)
        ensures
            r == old(self).waiting,
            *final(self) == (FrameSlot { waiting: None, ..*old(self) }),
    {
        self.waiting.take()
    }

    /// One of the threads ends.
    pub fn close(&mut self)
        ensures
            *final(self) == (FrameSlot { closed: true, ..*old(self) }),
    {
        self.closed = true;
    }
}

/// What became of an access unit that was handed to the sink.
#[derive(Debug, Clone, Copy, PartialEq, Eq, Structural)]
pub enum Delivery {
    Taken,
    /// The sink holds as many as it can.
    Full,
    /// The session is gone.
    Closed,
}

impl<S> Shared<S> {
    /// An access unit was handed to the sink. One that a full sink drops is counted, and as
    /// later ones refer to it, the next frame has to be a keyframe.
    pub fn on_delivered(&mut self, delivery: Delivery, stats: &mut PipelineStats)
        ensures
            *final(self) == (Shared {
                force_keyframe: old(self).force_keyframe || delivery is Full,
                ..*old(self)
            }),
            *final(stats) == (PipelineStats {
                full: raised(
                    old(stats).full,
                    if delivery is Full {
                        1
                    } else {
                        0
                    },
                ),
                ..*old(stats)
            }),
    {
        match delivery {
            Delivery::Full => {
                self.force_keyframe = true;
                raise(&mut stats.full, 1);
            },
            _ => {},
        }
    }
}

// ------------------------------------------------------------------------------------------
// Statistics
// ------------------------------------------------------------------------------------------
/// Times that one stage of the pipeline took.
#[derive(Debug, Clone, Copy, PartialEq, Eq, Structural)]
pub struct Timing {
    pub count: u32,
    pub total: Nanos,
    pub max: Nanos,
}

/// A number of tenths as a decimal fraction with one digit.
pub open spec fn tenths_text(n: int) -> Seq<char> {
    text::decimal((n / 10) as nat) + "."@ + text::decimal((n % 10) as nat)
}

pub(crate) fn push_tenths(out: &mut String, n: u64)
    ensures
        final(out)@ == old(out)@ + tenths_text(n as int),
{
    let ghost before = out@;
    text::push_decimal(out, n / 10);
    out.append(".");
    text::push_decimal(out, n % 10);
    assert(out@ =~= before + tenths_text(n as int));
}

/// A counter raised by `by`; it stops at its largest value.
pub open spec fn raised(count: u32, by: nat) -> u32 {
    if count + by <= u32::MAX {
        (count + by) as u32
    } else {
        u32::MAX
    }
}

/// Raises a counter.
pub(crate) fn raise(count: &mut u32, by: usize)
    ensures
        *final(count) == raised(*old(count), by as nat),
{
    let room: u32 = u32::MAX - *count;
    *count = if by as u128 <= room as u128 {
        *count + by as u32
    } else {
        u32::MAX
    };
}

impl Timing {
    /// Nothing timed yet.
    pub open spec fn none() -> Timing {
        Timing { count: 0, total: 0, max: 0 }
    }

    pub fn new() -> (r: Self)
        ensures
            r == Timing::none(),
    {
        Timing { count: 0, total: 0, max: 0 }
    }

    /// With one more time; sums stop at their largest value.
    pub open spec fn recorded(self, time: Nanos) -> Timing {
        Timing {
            count: raised(self.count, 1),
            total: if self.total + time <= u64::MAX {
                (self.total + time) as u64
            } else {
                u64::MAX
            },
            max: if time > self.max {
                time
            } else {
                self.max
            },
        }
    }

    /// Takes one time in.
    pub fn record(&mut self, time: Nanos)
        ensures
            *final(self) == old(self).recorded(time),
    {
        raise(&mut self.count, 1);
        self.total = if time <= u64::MAX - self.total {
            self.total + time
        } else {
            u64::MAX
        };
        if time > self.max {
            self.max = time;
        }
    }

    /// Average time in tenths of a millisecond.
    pub open spec fn average(self) -> int {
        if self.count == 0 {
            0
        } else {
            text::rounded(self.total as int, self.count * 100_000)
        }
    }

    /// `average/largest`, in milliseconds.
    pub open spec fn shown(self) -> Seq<char> {
        tenths_text(self.average()) + "/"@ + tenths_text(text::rounded(self.max as int, 100_000))
    }

    fn push_to(&self, out: &mut String)
        ensures
            final(out)@ == old(out)@ + self.shown(),
    {
        let ghost before = out@;
        let average: u64 = if self.count == 0 {
            0
        } else {
            let d: u128 = self.count as u128 * 100_000;
            text::rounded_quotient(self.total as u128, d) as u64
        };
        let max: u64 = text::rounded_quotient(self.max as u128, 100_000) as u64;
        push_tenths(out, average);
        out.append("/");
        push_tenths(out, max);
        assert(out@ =~= before + self.shown());
    }
}

/// What the pipeline did since the last report.
#[derive(Debug, Clone, Copy, PartialEq, Eq, Structural)]
pub struct PipelineStats {
    pub since: Nanos,
    pub captured: u32,
    pub encoded: u32,
    pub sent: u32,
    pub keyframes: u32,
    /// Frames dropped because the encoder was busy.
    pub busy: u32,
    /// Frames dropped because the sink was full.
    pub full: u32,
    pub bytes: u32,
    /// Capture and copy.
    pub capture: Timing,
    pub convert: Timing,
    pub encode: Timing,
    /// Packetize and send.
    pub send: Timing,
}

impl PipelineStats {
    /// Nothing counted since `now`.
    pub open spec fn fresh(now: Nanos) -> PipelineStats {
        PipelineStats {
            since: now,
            captured: 0,
            encoded: 0,
            sent: 0,
            keyframes: 0,
            busy: 0,
            full: 0,
            bytes: 0,
            capture: Timing::none(),
            convert: Timing::none(),
            encode: Timing::none(),
            send: Timing::none(),
        }
    }

    pub fn new(now: Nanos) -> (r: Self)
        ensures
            r == PipelineStats::fresh(now),
    {
        PipelineStats {
            since: now,
            captured: 0,
            encoded: 0,
            sent: 0,
            keyframes: 0,
            busy: 0,
            full: 0,
            bytes: 0,
            capture: Timing::new(),
            convert: Timing::new(),
            encode: Timing::new(),
            send: Timing::new(),
        }
    }

    /// A frame was captured and converted; each took some time.
    pub fn on_captured(&mut self, capture: Nanos, convert: Nanos)
        ensures
            *final(self) == (PipelineStats {
                captured: raised(old(self).captured, 1),
                capture: old(self).capture.recorded(capture),
                convert: old(self).convert.recorded(convert),
                ..*old(self)
            }),
    {
        raise(&mut self.captured, 1);
        self.capture.record(capture);
        self.convert.record(convert);
    }

    /// A frame was dropped because the encoder was busy.
    pub fn on_busy(&mut self)
        ensures
            *final(self) == (PipelineStats { busy: raised(old(self).busy, 1), ..*old(self) }),
    {
        raise(&mut self.busy, 1);
    }

    /// An access unit came out of the encoder.
    pub fn on_encoded(&mut self, bytes: usize, keyframe: bool, time: Nanos)
        ensures
            *final(self) == (PipelineStats {
                encoded: raised(old(self).encoded, 1),
                keyframes: raised(
                    old(self).keyframes,
                    if keyframe {
                        1
                    } else {
                        0
                    },
                ),
                bytes: raised(old(self).bytes, bytes as nat),
                encode: old(self).encode.recorded(time),
                ..*old(self)
            }),
    {
        raise(&mut self.encoded, 1);
        if keyframe {
            raise(&mut self.keyframes, 1);
        }
        raise(&mut self.bytes, bytes);
        self.encode.record(time);
    }

    /// An access unit went out to the client.
    pub fn on_sent(&mut self, time: Nanos)
        ensures
            *final(self) == (PipelineStats {
                sent: raised(old(self).sent, 1),
                send: old(self).send.recorded(time),
                ..*old(self)
            }),
    {
        raise(&mut self.sent, 1);
        self.send.record(time);
    }

    /// Whether a report is due.
    pub fn due(&self, now: Nanos) -> (r: bool)
        ensures
            r == (crate::since(now, self.since) >= STATS_INTERVAL),
    {
        elapsed_since(now, self.since) >= STATS_INTERVAL
    }

    /// A count per second over a time, in tenths.
    pub open spec fn rate(count: int, elapsed: int) -> int {
        text::rounded(count * 10_000_000_000, elapsed)
    }

    /// Kilobits per second over a time.
    pub open spec fn kbps(bytes: int, elapsed: int) -> int {
        text::rounded(bytes * 8_000_000, elapsed)
    }

    /// The line with the rates.
    pub open spec fn rates_text(self, target_kbps: u32, now: Nanos) -> Seq<char> {
        let e = crate::since(now, self.since);
        "pipeline: captured "@ + tenths_text(Self::rate(self.captured as int, e))
            + " fps, encoded "@ + tenths_text(Self::rate(self.encoded as int, e)) + " fps, sent "@
            + tenths_text(Self::rate(self.sent as int, e)) + " fps, "@ + text::decimal(
            Self::kbps(self.bytes as int, e) as nat,
        ) + " kbit/s (target "@ + text::decimal(target_kbps as nat) + "), "@ + text::decimal(
            self.keyframes as nat,
        ) + " IDR, dropped "@ + text::decimal(self.busy as nat) + " (encoder busy) + "@
            + text::decimal(self.full as nat) + " (sink full)"@
    }

    /// The line with the times.
    pub open spec fn timings_text(self) -> Seq<char> {
        "pipeline timings avg/max ms: capture+copy "@ + self.capture.shown() + ", convert "@
            + self.convert.shown() + ", encode "@ + self.encode.shown() + ", packetize+send "@
            + self.send.shown()
    }

    /// The two lines of a report, and a fresh start.
    pub fn report(&mut self, target_kbps: u32, now: Nanos) -> (r: (String, String))
        requires
            crate::since(now, old(self).since) >= STATS_INTERVAL,
        ensures
            r.0@ == old(self).rates_text(target_kbps, now),
            r.1@ == old(self).timings_text(),
            *final(self) == PipelineStats::fresh(now),
    {
        let e = elapsed_since(now, self.since);
        let mut rates = "pipeline: captured ".to_owned();
        push_tenths(&mut rates, per_second(self.captured, 10_000_000_000, e));
        rates.append(" fps, encoded ");
        push_tenths(&mut rates, per_second(self.encoded, 10_000_000_000, e));
        rates.append(" fps, sent ");
        push_tenths(&mut rates, per_second(self.sent, 10_000_000_000, e));
        rates.append(" fps, ");
        text::push_decimal(&mut rates, per_second(self.bytes, 8_000_000, e));
        rates.append(" kbit/s (target ");
        text::push_decimal(&mut rates, target_kbps as u64);
        rates.append("), ");
        text::push_decimal(&mut rates, self.keyframes as u64);
        rates.append(" IDR, dropped ");
        text::push_decimal(&mut rates, self.busy as u64);
        rates.append(" (encoder busy) + ");
        text::push_decimal(&mut rates, self.full as u64);
        rates.append(" (sink full)");
        assert(rates@ =~= self.rates_text(target_kbps, now));
        let mut times = "pipeline timings avg/max ms: capture+copy ".to_owned();
        self.capture.push_to(&mut times);
        times.append(", convert ");
        self.convert.push_to(&mut times);
        times.append(", encode ");
        self.encode.push_to(&mut times);
        times.append(", packetize+send ");
        self.send.push_to(&mut times);
        assert(times@ =~= self.timings_text());
        *self = PipelineStats::new(now);
        (rates, times)
    }
}

/// `count` times `factor` over a time of at least [`STATS_INTERVAL`], rounded.
fn per_second(count: u32, factor: u64, elapsed: Nanos) -> (r: u64)
    requires
        factor <= 10_000_000_000,
        elapsed >= STATS_INTERVAL,
    ensures
        r == text::rounded(count * factor, elapsed as int),
{
    assert(0 <= count * factor <= 0xffff_ffff * 10_000_000_000) by (nonlinear_arith)
        requires
            count <= 0xffff_ffff,
            factor <= 10_000_000_000,
            count >= 0,
            factor >= 0,
    ;
    let n: u128 = count as u128 * factor as u128;
    let q: u128 = text::rounded_quotient(n, elapsed as u128);
    assert(n as int / elapsed as int <= 0xffff_ffff * 10) by (nonlinear_arith)
        requires
            0 <= n <= 0xffff_ffff * 10_000_000_000,
            elapsed >= 5_000_000_000,
    ;
    q as u64
}

// ------------------------------------------------------------------------------------------
// Laws
// ------------------------------------------------------------------------------------------
/// The time per frame is the nearest whole number of nanoseconds: as many frames take a second,
/// but for half a nanosecond each.
pub proof fn frames_fill_a_second(fps: u32, r: Nanos)
    requires
        call_ensures(frame_duration, (fps,), r),
    ensures
        fps == 0 ==> r == 1_000_000_000,
        fps > 0 ==> -fps <= 2 * (r * fps - 1_000_000_000) <= fps,
        fps > 0 && (2 * (r * fps - 1_000_000_000) == fps || 2 * (r * fps - 1_000_000_000) == -fps)
            ==> r % 2 == 0,
{
    if fps > 0 {
        let q = 1_000_000_000int / (fps as int);
        let rest = 1_000_000_000int % (fps as int);
        vstd::arithmetic::div_mod::lemma_fundamental_div_mod(1_000_000_000, fps as int);
        assert(fps * q == q * fps) by (nonlinear_arith);
        assert((q + 1) * fps == q * fps + fps) by (nonlinear_arith);
    } else {
        assert(1_000_000_000int % 1 == 0);
    }
}

/// On time, ticks are exactly a frame apart; more than a frame late, the next one is now.
pub proof fn ticks_are_a_frame_apart(tick: Nanos, duration: Nanos, now: Nanos)
    requires
        tick + 2 * duration <= u64::MAX,
    ensures
        now <= tick + 2 * duration ==> CaptureState::following_tick(tick, duration, now) == tick
            + duration,
        now > tick + 2 * duration ==> CaptureState::following_tick(tick, duration, now) == now,
{
}

/// The first frame is always handed on.
pub proof fn first_frame_is_wanted(s: CaptureState, hash: u64, keyframe: bool, now: Nanos)
    requires
        s.last_hash is None,
    ensures
        s.wanted(hash, keyframe, now),
{
}

/// No keyframe is forced by time before the interval has passed.
pub proof fn keyframes_keep_their_interval(s: EncodeState, interval_secs: u32, now: Nanos)
    requires
        s.last_keyframe is Some,
        now < s.last_keyframe->0 + interval_secs * 1_000_000_000,
    ensures
        !s.due(interval_secs, now),
{
}

/// An encoder is made for exactly the size of the frame, with the bitrate that is wanted and what
/// the configuration says.
pub proof fn encoder_is_made_for_the_frame(
    s: EncodeState,
    width: usize,
    height: usize,
    requested: bool,
    wanted_kbps: u32,
    video: Video,
    now: Nanos,
    plan: Option<FramePlan>,
)
    requires
        width <= u32::MAX,
        height <= u32::MAX,
        call_ensures(
            EncodeState::plan,
            (&s, width, height, requested, wanted_kbps, video, now),
            plan,
        ),
        plan is Some,
    ensures
        plan->0.create is None <==> s.size == Some((width, height)),
        plan->0.create matches Some(made) ==> {
            &&& made.width == width
            &&& made.height == height
            &&& made.fps == video.fps
            &&& made.bitrate_kbps == wanted_kbps
            &&& made.keyframe_interval == video.keyframe_interval
            &&& made.threads == video.encoder_threads
            &&& plan->0.force
        },
{
}

/// Counters count until they are full, and stay there.
pub proof fn counters_stop_when_full(count: u32, by: nat)
    ensures
        count + by <= 0xFFFF_FFFF ==> raised(count, by) == count + by,
        count + by > 0xFFFF_FFFF ==> raised(count, by) == 0xFFFF_FFFF,
{
}

/// A time that is taken in counts once, adds to the total and raises the largest.
pub proof fn times_add_up(t: Timing, time: Nanos)
    requires
        t.count < u32::MAX,
        t.total + time <= u64::MAX,
    ensures
        t.recorded(time).count == t.count + 1,
        t.recorded(time).total == t.total + time,
        t.recorded(time).max >= t.max,
        t.recorded(time).max >= time,
        t.recorded(time).max == t.max || t.recorded(time).max == time,
{
}

/// A stage is shown by its average and its largest time, in milliseconds with one digit: both to
/// the nearest tenth.
pub proof fn average_and_largest_are_shown(t: Timing, average: int, largest: int)
    requires
        t.count > 0,
        2 * (average * (t.count * 100_000) - t.total) < t.count * 100_000,
        -(t.count * 100_000) < 2 * (average * (t.count * 100_000) - t.total),
        2 * (largest * 100_000 - t.max) < 100_000,
        -100_000 < 2 * (largest * 100_000 - t.max),
    ensures
        t.shown() == text::decimal((average / 10) as nat) + "."@ + text::decimal(
            (average % 10) as nat,
        ) + "/"@ + (text::decimal((largest / 10) as nat) + "."@ + text::decimal(
            (largest % 10) as nat,
        )),
{
    text::rounding_is_to_the_nearest(t.total as int, t.count * 100_000, average);
    text::rounding_is_to_the_nearest(t.max as int, 100_000, largest);
}

/// A rate is the count per second to the nearest tenth, and a bitrate the bits per millisecond to
/// the nearest whole: times are in nanoseconds.
pub proof fn rates_are_per_second(count: int, bytes: int, elapsed: int, rate: int, kbps: int)
    requires
        elapsed > 0,
        count >= 0,
        bytes >= 0,
        -elapsed < 2 * (rate * elapsed - count * 10_000_000_000) < elapsed,
        -elapsed < 2 * (kbps * elapsed - bytes * 8_000_000) < elapsed,
    ensures
        PipelineStats::rate(count, elapsed) == rate,
        PipelineStats::kbps(bytes, elapsed) == kbps,
{
    text::rounding_is_to_the_nearest(count * 10_000_000_000, elapsed, rate);
    text::rounding_is_to_the_nearest(bytes * 8_000_000, elapsed, kbps);
}

/// The first line of a report says each count behind its own label.
pub proof fn rates_stand_behind_their_labels(s: PipelineStats, target_kbps: u32, elapsed: Nanos)
    requires
        s.since + elapsed <= u64::MAX,
    ensures
        s.rates_text(target_kbps, (s.since + elapsed) as u64) == "pipeline: captured "@
            + tenths_text(PipelineStats::rate(s.captured as int, elapsed as int))
            + " fps, encoded "@ + tenths_text(
            PipelineStats::rate(s.encoded as int, elapsed as int),
        ) + " fps, sent "@ + tenths_text(PipelineStats::rate(s.sent as int, elapsed as int))
            + " fps, "@ + text::decimal(
            PipelineStats::kbps(s.bytes as int, elapsed as int) as nat,
        ) + " kbit/s (target "@ + text::decimal(target_kbps as nat) + "), "@ + text::decimal(
            s.keyframes as nat,
        ) + " IDR, dropped "@ + text::decimal(s.busy as nat) + " (encoder busy) + "@
            + text::decimal(s.full as nat) + " (sink full)"@,
        s.timings_text() == "pipeline timings avg/max ms: capture+copy "@ + s.capture.shown()
            + ", convert "@ + s.convert.shown() + ", encode "@ + s.encode.shown()
            + ", packetize+send "@ + s.send.shown(),
{
}

/// A report starts all counts anew.
pub proof fn nothing_is_counted_twice(now: Nanos)
    ensures
        ({
            let s = PipelineStats::fresh(now);
            &&& s.since == now
            &&& s.captured == 0 && s.encoded == 0 && s.sent == 0 && s.keyframes == 0
            &&& s.busy == 0 && s.full == 0 && s.bytes == 0
            &&& s.capture.count == 0 && s.capture.total == 0 && s.capture.max == 0
            &&& s.convert == s.capture && s.encode == s.capture && s.send == s.capture
        }),
{
}

/// A keyframe request is honoured once: reading it clears it.
pub proof fn keyframe_request_is_honoured_once<S>(
    x: &mut Shared<S>,
    y: &mut Shared<S>,
    a: bool,
    b: bool,
)
    requires
        call_ensures(Shared::<S>::take_keyframe_request, (x,), a),
        *old(y) == *final(x),
        call_ensures(Shared::<S>::take_keyframe_request, (y,), b),
    ensures
        a == old(x).force_keyframe,
        !b,
        final(x).sink == old(x).sink,
        final(x).client_connected == old(x).client_connected,
{
}

/// A client that has just come is sent the next frame, whatever it shows; without a client the
/// thread idles.
pub proof fn new_client_gets_a_frame(
    s: &mut CaptureState,
    connected: bool,
    now: Nanos,
    step: CaptureStep,
    hash: u64,
    later: Nanos,
    wants: bool,
)
    requires
        call_ensures(CaptureState::begin, (s, connected, now), step),
        call_ensures(CaptureState::wants, (final(s), hash, false, later), wants),
    ensures
        step is Idle <==> !connected,
        connected && !old(s).was_connected ==> wants,
        connected && now >= old(s).next_tick ==> step->sleep == 0,
        connected && now < old(s).next_tick ==> now + step->sleep == old(s).next_tick,
        connected ==> (step->started <==> !old(s).was_connected),
        !connected ==> (step->stopped <==> old(s).was_connected),
{
}

/// A frame that was handed on is not handed on again within a second, unless it changes or a
/// keyframe is asked for.
pub proof fn frame_is_handed_on_once(
    s: &mut CaptureState,
    hash: u64,
    sent: Nanos,
    other: u64,
    keyframe: bool,
    now: Nanos,
    wants: bool,
)
    requires
        sent <= now,
        call_ensures(CaptureState::on_sent, (s, hash, sent), ()),
        call_ensures(CaptureState::wants, (final(s), other, keyframe, now), wants),
    ensures
        wants <==> other != hash || keyframe || now - sent >= 1_000_000_000,
{
}

/// Frames are stamped with the whole milliseconds since the start.
pub proof fn frames_are_stamped_in_milliseconds(s: CaptureState, now: Nanos, r: u64)
    requires
        s.epoch <= now,
        call_ensures(CaptureState::pts_ms, (&s, now), r),
    ensures
        r * 1_000_000 <= now - s.epoch < (r + 1) * 1_000_000,
{
}

/// An encoder that was made for a frame serves all frames of its size, and only those.
pub proof fn encoder_serves_its_size(
    s: &mut EncodeState,
    settings: EncoderSettings,
    width: usize,
    height: usize,
    kbps: u32,
    video: Video,
    now: Nanos,
    plan: Option<FramePlan>,
    change: Option<u32>,
)
    requires
        0 < width <= u32::MAX,
        0 < height <= u32::MAX,
        call_ensures(EncodeState::on_created, (s, settings), ()),
        call_ensures(EncodeState::plan, (final(s), width, height, false, kbps, video, now), plan),
        call_ensures(EncodeState::bitrate_change, (final(s), kbps), change),
    ensures
        plan is Some,
        plan->0.create is None <==> width == settings.width && height == settings.height,
        change is None <==> kbps == settings.bitrate_kbps,
        change is Some ==> change->0 == kbps,
{
}

/// After a failure the encoder is made anew for the next frame, which is a keyframe.
pub proof fn failed_encoder_is_made_anew<S>(
    s: &mut EncodeState,
    shared: &mut Shared<S>,
    force: bool,
    now: Nanos,
    sent: bool,
    width: usize,
    height: usize,
    kbps: u32,
    video: Video,
    later: Nanos,
    plan: Option<FramePlan>,
)
    requires
        0 < width <= u32::MAX,
        0 < height <= u32::MAX,
        call_ensures(
            EncodeState::on_encoded::<S>,
            (s, shared, EncodeOutcome::Failed, force, now),
            sent,
        ),
        call_ensures(EncodeState::plan, (final(s), width, height, false, kbps, video, later), plan),
    ensures
        !sent,
        plan is Some && plan->0.create is Some && plan->0.force,
        final(shared).frames_encoded == old(shared).frames_encoded,
{
}

/// An access unit goes to the sink if there is one and is counted with its bytes; a forced
/// keyframe that nobody got is asked for again.
pub proof fn keyframe_that_nobody_got_is_asked_for_again<S>(
    s: &mut EncodeState,
    shared: &mut Shared<S>,
    bytes: usize,
    keyframe: bool,
    force: bool,
    now: Nanos,
    sent: bool,
)
    requires
        old(shared).frames_encoded < u64::MAX,
        old(shared).bytes_encoded + bytes <= u64::MAX,
        call_ensures(
            EncodeState::on_encoded::<S>,
            (s, shared, EncodeOutcome::Unit { bytes, keyframe }, force, now),
            sent,
        ),
    ensures
        sent <==> old(shared).sink is Some,
        final(shared).frames_encoded == old(shared).frames_encoded + 1,
        final(shared).bytes_encoded == old(shared).bytes_encoded + bytes,
        force && !sent ==> final(shared).force_keyframe,
        sent ==> final(shared).force_keyframe == old(shared).force_keyframe,
        keyframe ==> final(s).last_keyframe == Some(now),
        !keyframe ==> final(s).last_keyframe == old(s).last_keyframe,
        final(s).size == old(s).size,
{
}

/// The slot holds the newest frame, and a keyframe request of one that it replaces is not lost.
pub proof fn newest_frame_wins(
    a: &mut FrameSlot,
    b: &mut FrameSlot,
    c: &mut FrameSlot,
    first: Captured,
    second: Captured,
    x: Handed,
    y: Handed,
    r: Option<Captured>,
)
    requires
        !old(a).closed,
        old(a).waiting is None,
        call_ensures(FrameSlot::put, (a, first), x),
        *old(b) == *final(a),
        call_ensures(FrameSlot::put, (b, second), y),
        *old(c) == *final(b),
        call_ensures(FrameSlot::take, (c,), r),
    ensures
        x is Taken,
        y == Handed::Replaced(first.frame),
        r is Some,
        r->0.frame == second.frame,
        r->0.pts_ms == second.pts_ms,
        r->0.keyframe <==> first.keyframe || second.keyframe,
        final(c).waiting is None,
{
}

/// A sink that drops a unit makes the next frame a keyframe, and one more unit counts as dropped.
pub proof fn dropped_unit_calls_for_a_keyframe<S>(
    shared: &mut Shared<S>,
    delivery: Delivery,
    stats: &mut PipelineStats,
)
    requires
        call_ensures(Shared::<S>::on_delivered, (shared, delivery, stats), ()),
        old(stats).full < u32::MAX,
    ensures
        delivery is Full ==> final(shared).force_keyframe && final(stats).full == old(stats).full
            + 1,
        delivery !is Full ==> final(shared).force_keyframe == old(shared).force_keyframe,
        delivery !is Full ==> *final(stats) == *old(stats),
        final(stats).busy == old(stats).busy,
{
}

/// Every stage is counted on its own.
pub proof fn stages_are_counted_on_their_own(
    a: &mut PipelineStats,
    b: &mut PipelineStats,
    c: &mut PipelineStats,
    capture: Nanos,
    convert: Nanos,
    bytes: usize,
    keyframe: bool,
    encode: Nanos,
    send: Nanos,
)
    requires
        old(a).captured < u32::MAX && old(a).encoded < u32::MAX && old(a).sent < u32::MAX,
        old(a).keyframes < u32::MAX && old(a).bytes + bytes <= u32::MAX,
        call_ensures(PipelineStats::on_captured, (a, capture, convert), ()),
        *old(b) == *final(a),
        call_ensures(PipelineStats::on_encoded, (b, bytes, keyframe, encode), ()),
        *old(c) == *final(b),
        call_ensures(PipelineStats::on_sent, (c, send), ()),
    ensures
        final(c).captured == old(a).captured + 1,
        final(c).encoded == old(a).encoded + 1,
        final(c).sent == old(a).sent + 1,
        final(c).bytes == old(a).bytes + bytes,
        final(c).keyframes == old(a).keyframes + if keyframe {
            1int
        } else {
            0
        },
        final(c).capture == old(a).capture.recorded(capture),
        final(c).convert == old(a).convert.recorded(convert),
        final(c).encode == old(a).encode.recorded(encode),
        final(c).send == old(a).send.recorded(send),
        final(c).busy == old(a).busy && final(c).full == old(a).full,
{
}

/// Tenths are shown with a point in front of the last digit.
pub proof fn tenths_have_one_digit_behind_the_point(whole: nat, tenth: nat)
    requires
        tenth < 10,
    ensures
        tenths_text((10 * whole + tenth) as int) == text::decimal(whole) + "."@ + text::decimal(tenth),
{
}

} // verus!
