//! Conversion, test pattern, encoder settings, PNG and the pipeline.
use std::io::Cursor;

use vmdesk::server::config::Video;
use vmdesk::server::convert::{
    copy_xrgb, kernel_name, xrgb_to_i420, xrgb_to_i420_scalar, xrgb_to_rgb8, I420Frame, XrgbImage,
};
use vmdesk::server::encoder::openh264::{
    check_frame, check_settings, clamp_bitrate, finish, params, plan_bitrate, threads, BitrateStep,
    FrameType,
};
use vmdesk::server::encoder::{nal_type, nal_units, EncoderSettings};
use vmdesk::server::pipeline::{
    frame_duration, frame_hash, CaptureState, CaptureStep, Captured, Delivery, EncodeOutcome,
    EncodeState, FrameSlot, Handed, PipelineStats, Shared, REFRESH_INTERVAL, STATS_INTERVAL,
};
use vmdesk::server::png_out::xrgb_png;
use vmdesk::server::testpattern::{i420, xrgb};
use xxhash_rust::xxh3::xxh3_64;

const MS: u64 = 1_000_000;
const SECOND: u64 = 1_000_000_000;

fn solid(width: usize, height: usize, pitch: usize, rgb: (u8, u8, u8)) -> Vec<u8> {
    let mut v = vec![0xAAu8; pitch * height];
    for row in 0..height {
        for x in 0..width {
            let o = row * pitch + x * 4;
            v[o] = rgb.2;
            v[o + 1] = rgb.1;
            v[o + 2] = rgb.0;
            v[o + 3] = 0xFF;
        }
    }
    v
}

/// Deterministic pseudo-random image (xorshift) covering the whole 0..=255 range; `pitch`
/// bytes per row (which is why the width does not appear).
fn noise(height: usize, pitch: usize, seed: u64) -> Vec<u8> {
    let mut s = seed | 1;
    let mut v = vec![0u8; pitch * height];
    for byte in v.iter_mut() {
        s ^= s << 13;
        s ^= s >> 7;
        s ^= s << 17;
        *byte = (s >> 24) as u8;
    }
    v
}

fn assert_planes(frame: &I420Frame, y: u8, u: u8, v: u8) {
    assert!(
        frame.y.iter().all(|&p| p == y),
        "Y plane: {:?}",
        &frame.y[..8]
    );
    assert!(
        frame.u.iter().all(|&p| p == u),
        "U plane: {:?}",
        &frame.u[..4]
    );
    assert!(
        frame.v.iter().all(|&p| p == v),
        "V plane: {:?}",
        &frame.v[..4]
    );
}

#[test]
fn primaries_match_bt601_limited_range() {
    let mut frame = I420Frame::new(0, 0);
    // (R, G, B) -> expected (Y, U, V) for BT.601 limited range.
    let cases = [
        ((0, 0, 0), (16, 128, 128)),
        ((255, 255, 255), (235, 128, 128)),
        ((255, 0, 0), (82, 90, 240)),
        ((0, 255, 0), (145, 54, 34)),
        ((0, 0, 255), (41, 240, 110)),
        ((128, 128, 128), (126, 128, 128)),
    ];
    for (rgb, (ey, eu, ev)) in cases {
        // 32 pixels wide so a vector kernel handles two full blocks.
        let src = solid(32, 4, 32 * 4 + 16, rgb);
        xrgb_to_i420(&src, 32, 4, 32 * 4 + 16, &mut frame);
        assert_eq!((frame.width, frame.height), (32, 4));
        assert_eq!(frame.y.len(), 128);
        assert_eq!(frame.u.len(), 32);
        assert_eq!(frame.v.len(), 32);
        let (y, u, v) = (frame.y[0], frame.u[0], frame.v[0]);
        assert!((i32::from(y) - ey).abs() <= 1, "{rgb:?}: Y {y} != {ey}");
        assert!((i32::from(u) - eu).abs() <= 1, "{rgb:?}: U {u} != {eu}");
        assert!((i32::from(v) - ev).abs() <= 1, "{rgb:?}: V {v} != {ev}");
        assert_planes(&frame, y, u, v);
    }
}

#[test]
fn chroma_is_averaged_over_2x2_blocks() {
    // Left block red, right block blue; averaging inside a block must not bleed across.
    let width = 4;
    let pitch = width * 4;
    let mut src = vec![0u8; pitch * 2];
    for row in 0..2 {
        for x in 0..width {
            let o = row * pitch + x * 4;
            if x < 2 {
                src[o + 2] = 255; // R
            } else {
                src[o] = 255; // B
            }
        }
    }
    let mut frame = I420Frame::new(4, 2);
    xrgb_to_i420(&src, width, 2, pitch, &mut frame);
    assert_eq!(frame.u.len(), 2);
    assert!((i32::from(frame.u[0]) - 90).abs() <= 1 && (i32::from(frame.v[0]) - 240).abs() <= 1);
    assert!((i32::from(frame.u[1]) - 240).abs() <= 1 && (i32::from(frame.v[1]) - 110).abs() <= 1);
    // A block mixing black and white rows averages to mid grey chroma with distinct luma rows.
    let mut src = vec![0u8; pitch * 2];
    for x in 0..width {
        let o = pitch + x * 4;
        src[o] = 255;
        src[o + 1] = 255;
        src[o + 2] = 255;
    }
    xrgb_to_i420(&src, width, 2, pitch, &mut frame);
    assert_eq!(frame.y[0], 16);
    assert_eq!(frame.y[width], 235);
    assert_eq!(frame.u[0], 128);
    assert_eq!(frame.v[0], 128);
}

#[test]
fn odd_dimensions_are_cropped_and_large_frames_work() {
    let (w, h, pitch) = (1921, 1081, 1921 * 4 + 64);
    let src = solid(w, h, pitch, (10, 200, 30));
    let mut frame = I420Frame::new(0, 0);
    xrgb_to_i420(&src, w, h, pitch, &mut frame);
    assert_eq!((frame.width, frame.height), (1920, 1080));
    assert_eq!(frame.y.len(), 1920 * 1080);
    assert_eq!(frame.u.len(), 960 * 540);
    assert_planes(&frame, frame.y[0], frame.u[0], frame.v[0]);
    assert_eq!(frame.strides(), (1920, 960, 960));
}

/// The parallel conversion must match the scalar reference bit for bit, including the
/// non-multiple-of-16 tail and a padded pitch.
#[test]
fn platform_kernel_matches_scalar_reference() {
    for &(w, h) in &[
        (2usize, 2usize),
        (16, 2),
        (18, 4),
        (46, 6),
        (1920, 8),
        (1930, 4),
    ] {
        let pitch = w * 4 + 32;
        let src = noise(h, pitch, 0x1234_5678 + w as u64);
        let mut fast = I420Frame::new(0, 0);
        let mut reference = I420Frame::new(0, 0);
        xrgb_to_i420(&src, w, h, pitch, &mut fast);
        xrgb_to_i420_scalar(&src, w, h, pitch, &mut reference);
        assert_eq!(fast, reference, "{w}x{h} mismatch between kernels");
    }
    assert!(!kernel_name().is_empty());
}

#[test]
fn copy_xrgb_packs_rows_and_matches_direct_conversion() {
    let (w, h, pitch) = (100usize, 6usize, 100 * 4 + 48);
    let src = noise(h, pitch, 99);
    let mut copy = XrgbImage::default();
    copy_xrgb(&src, w, h, pitch, &mut copy);
    assert_eq!((copy.width, copy.height, copy.pitch()), (w, h, w * 4));
    assert_eq!(copy.data.len(), w * 4 * h);
    for row in 0..h {
        assert_eq!(
            &copy.data[row * w * 4..][..w * 4],
            &src[row * pitch..][..w * 4]
        );
    }
    let mut from_copy = I420Frame::new(0, 0);
    let mut direct = I420Frame::new(0, 0);
    xrgb_to_i420(&copy.data, w, h, copy.pitch(), &mut from_copy);
    xrgb_to_i420(&src, w, h, pitch, &mut direct);
    assert_eq!(from_copy, direct);
    // Contiguous source (pitch == width * 4) takes the chunked path.
    let tight = noise(h, w * 4, 7);
    copy_xrgb(&tight, w, h, w * 4, &mut copy);
    assert_eq!(copy.data, tight);
    // Reuses the buffer when the size is unchanged, reallocates otherwise.
    let ptr = copy.data.as_ptr();
    copy_xrgb(&tight, w, h, w * 4, &mut copy);
    assert_eq!(copy.data.as_ptr(), ptr);
    copy_xrgb(&tight[..w * 4 * 2], w, 2, w * 4, &mut copy);
    assert_eq!((copy.width, copy.height), (w, 2));
}

#[test]
fn large_copies_go_through_the_pool() {
    // Far beyond a piece per thread, with an odd number of rows.
    let (w, h) = (1000usize, 333usize);
    let tight = noise(h, w * 4, 3);
    let mut copy = XrgbImage::default();
    copy_xrgb(&tight, w, h, w * 4, &mut copy);
    assert_eq!(copy.data, tight);
    let padded = noise(h, w * 4 + 12, 4);
    copy_xrgb(&padded, w, h, w * 4 + 12, &mut copy);
    for row in 0..h {
        assert_eq!(&copy.data[row * w * 4..][..w * 4], &padded[row * (w * 4 + 12)..][..w * 4]);
    }
}

#[test]
fn rgb8_conversion_drops_padding_and_reorders_channels() {
    let src = solid(2, 1, 16, (1, 2, 3));
    assert_eq!(xrgb_to_rgb8(&src, 2, 1, 16), vec![1, 2, 3, 1, 2, 3]);
}

#[test]
fn grey_has_neutral_chroma_and_limited_luma() {
    let mut frame = I420Frame::new(0, 0);
    for g in 0..=255u8 {
        xrgb_to_i420(&solid(2, 2, 8, (g, g, g)), 2, 2, 8, &mut frame);
        assert!((16..=235).contains(&frame.y[0]));
        assert_eq!((frame.u[0], frame.v[0]), (128, 128));
    }
    // A frame with no pixel in it stays empty.
    xrgb_to_i420(&[], 1, 1, 4, &mut frame);
    assert_eq!((frame.width, frame.height, frame.y.len()), (0, 0, 0));
}

#[test]
fn pattern_is_deterministic_and_moves() {
    let a = xrgb(64, 32, 64 * 4 + 16, 0);
    let b = xrgb(64, 32, 64 * 4 + 16, 0);
    let c = xrgb(64, 32, 64 * 4 + 16, 1);
    assert_eq!(a, b);
    assert_ne!(a, c);
    assert_eq!(a.len(), (64 * 4 + 16) * 32);
    let f = i420(64, 32, 3);
    assert_eq!((f.width, f.height), (64, 32));
    // Not a flat image.
    let (min, max) =
        f.y.iter()
            .fold((255u8, 0u8), |(lo, hi), &p| (lo.min(p), hi.max(p)));
    assert!(max - min > 100, "luma range {min}..{max}");
}

// ---- PNG ----

#[test]
fn png_holds_the_pixels() {
    let src = noise(3, 40, 5);
    let bytes = xrgb_png(&src, 7, 3, 40).unwrap();
    let mut reader = png::Decoder::new(Cursor::new(bytes)).read_info().unwrap();
    assert_eq!(reader.info().size(), (7, 3));
    assert_eq!(reader.info().color_type, png::ColorType::Rgb);
    let mut pixels = vec![0; reader.output_buffer_size().unwrap()];
    reader.next_frame(&mut pixels).unwrap();
    assert_eq!(pixels, xrgb_to_rgb8(&src, 7, 3, 40));
    // A PNG has at least one pixel.
    assert_eq!(xrgb_png(&[], 0, 0, 0), None);
}

// ---- encoder ----

fn settings() -> EncoderSettings {
    EncoderSettings {
        width: 320,
        height: 240,
        fps: 30,
        bitrate_kbps: 1500,
        keyframe_interval: 0,
        threads: 2,
    }
}

#[test]
fn nal_splitting_handles_both_start_code_lengths() {
    let stream = [
        0, 0, 0, 1, 0x67, 1, 2, // SPS (4-byte start code)
        0, 0, 1, 0x68, 3, // PPS (3-byte start code)
        0, 0, 0, 1, 0x65, 4, 5, 6, 0, // IDR, payload ending in a zero byte
    ];
    let nals: Vec<&[u8]> = nal_units(&stream);
    assert_eq!(nals.len(), 3);
    assert_eq!(nals[0], &[0x67, 1, 2]);
    assert_eq!(nals[1], &[0x68, 3]);
    assert_eq!(nals[2], &[0x65, 4, 5, 6, 0]);
    assert_eq!(nal_type(nals[0]), Some(7));
    assert_eq!(nal_type(nals[1]), Some(8));
    assert_eq!(nal_type(nals[2]), Some(5));
    assert_eq!(nal_units(&[]).len(), 0);
    assert_eq!(nal_units(&[0, 0]).len(), 0);
}

#[test]
fn splitting_gives_back_what_was_joined() {
    let nals: [&[u8]; 3] = [&[0x67, 1], &[0x68], &[0x65, 9, 0, 9]];
    let mut stream = Vec::new();
    for n in nals {
        stream.extend_from_slice(&[0, 0, 0, 1]);
        stream.extend_from_slice(n);
    }
    assert_eq!(nal_units(&stream), nals);
    assert_eq!(nal_type(&[]), None);
}

#[test]
fn rejects_mismatched_frame_size() {
    let wrong = I420Frame::new(320 / 2, 240 / 2);
    assert!(check_frame(&wrong, settings()).is_err());
    assert_eq!(
        check_frame(&wrong, settings()),
        Err("frame size 160x120 does not match encoder 320x240".to_string())
    );
    assert_eq!(check_frame(&I420Frame::new(320, 240), settings()), Ok(()));
}

#[test]
fn encoder_settings_are_checked_and_planned() {
    assert_eq!(check_settings(settings()), Ok(()));
    let small = EncoderSettings {
        width: 8,
        ..settings()
    };
    assert_eq!(check_settings(small), Err("frame too small: 8x240".to_string()));
    let odd = EncoderSettings {
        height: 241,
        ..settings()
    };
    assert_eq!(check_settings(odd), Err("frame dimensions must be even".to_string()));
    assert_eq!(threads(0, 8), 4);
    assert_eq!(threads(0, 2), 2);
    assert_eq!(threads(40, 2), 16);
    let p = params(settings(), 8);
    assert_eq!((p.target_bps, p.max_bps, p.threads, p.slices), (1_500_000, 4_500_000, 2, 2));
    // Raising: the ceiling first; lowering: the target first.
    assert_eq!(
        plan_bitrate(1500, 4000),
        vec![BitrateStep::Max(12_000_000), BitrateStep::Target(4_000_000)]
    );
    assert_eq!(
        plan_bitrate(4000, 500),
        vec![BitrateStep::Target(500_000), BitrateStep::Max(1_500_000)]
    );
    // Clamped to the minimum.
    assert_eq!(
        plan_bitrate(500, 50),
        vec![BitrateStep::Target(100_000), BitrateStep::Max(300_000)]
    );
    assert_eq!(clamp_bitrate(50), 100);
    assert_eq!(plan_bitrate(100, 50), vec![]);
}

#[test]
fn layers_become_an_access_unit() {
    let layers = vec![vec![0, 0, 0, 1, 0x67], vec![0, 0, 0, 1, 0x65]];
    let f = finish(FrameType::Idr, &layers, 33).unwrap();
    assert_eq!(f.data, [0, 0, 0, 1, 0x67, 0, 0, 0, 1, 0x65]);
    assert!(f.keyframe);
    assert_eq!(f.pts_ms, 33);
    assert!(!finish(FrameType::Other, &layers, 0).unwrap().keyframe);
    assert_eq!(finish(FrameType::Skipped, &layers, 0), None);
    assert_eq!(finish(FrameType::Idr, &vec![], 0), None);
}

// ---- pipeline ----

#[test]
fn frame_hash_covers_the_three_planes() {
    let f = i420(64, 32, 0);
    let mut all = f.y.clone();
    all.extend_from_slice(&f.u);
    all.extend_from_slice(&f.v);
    assert_eq!(frame_hash(&f), xxh3_64(&all));
    assert_ne!(frame_hash(&f), frame_hash(&i420(64, 32, 1)));
}

#[test]
fn capture_is_paced_and_catches_up() {
    assert_eq!(frame_duration(30), 33_333_333);
    assert_eq!(frame_duration(0), SECOND);
    let mut c = CaptureState::new(50, 0);
    assert_eq!(c.begin(false, 0), CaptureStep::Idle { stopped: false });
    c.after_idle(0);
    assert_eq!(
        c.begin(true, 0),
        CaptureStep::Frame {
            sleep: 0,
            started: true
        }
    );
    c.after_sleep(0);
    assert_eq!(
        c.begin(true, 5 * MS),
        CaptureStep::Frame {
            sleep: 15 * MS,
            started: false
        }
    );
    // Far behind: the next tick is not in the past for long.
    c.after_sleep(SECOND);
    assert!(c.next_tick >= SECOND);
    assert_eq!(c.begin(false, SECOND), CaptureStep::Idle { stopped: true });
    assert_eq!(c.pts_ms(1234 * MS), 1234);
}

#[test]
fn unchanged_frames_are_skipped_except_once_a_second() {
    let src = xrgb(64, 32, 256, 0);
    let mut frame = I420Frame::new(0, 0);
    let mut c = CaptureState::new(30, 0);
    c.begin(true, 0);
    let hash = c.take_frame(&src, 64, 32, 256, &mut frame, false, 0).unwrap();
    c.on_sent(hash, 0);
    assert_eq!(c.take_frame(&src, 64, 32, 256, &mut frame, false, 10 * MS), None);
    // A keyframe was asked for, a second has passed, or the picture has changed.
    assert_eq!(c.take_frame(&src, 64, 32, 256, &mut frame, true, 10 * MS), Some(hash));
    assert_eq!(
        c.take_frame(&src, 64, 32, 256, &mut frame, false, REFRESH_INTERVAL),
        Some(hash)
    );
    let moved = xrgb(64, 32, 256, 1);
    let other = c.take_frame(&moved, 64, 32, 256, &mut frame, false, 10 * MS);
    assert!(other.is_some() && other != Some(hash));
    assert!(!c.wants(hash, false, 10 * MS));
}

#[test]
fn keyframes_recur_and_encoders_follow_the_frame_size() {
    let video = Video::default();
    let mut shared: Shared<()> = Shared::new(12_000);
    let mut e = EncodeState::new(12_000);
    assert_eq!(e.plan(0, 5, false, 12_000, video, 0), None);
    let p = e.plan(1920, 1080, false, 12_000, video, 0).unwrap();
    assert!(p.force);
    let s = p.create.unwrap();
    assert_eq!((s.width, s.height, s.bitrate_kbps), (1920, 1080, 12_000));
    e.on_created(s);
    shared.install_sink(());
    let unit = EncodeOutcome::Unit {
        bytes: 1000,
        keyframe: true,
    };
    assert!(e.on_encoded(&mut shared, unit, true, SECOND));
    assert_eq!((shared.frames_encoded, shared.bytes_encoded), (1, 1000));
    let p = e.plan(1920, 1080, false, 12_000, video, 2 * SECOND).unwrap();
    assert_eq!((p.create, p.force), (None, false));
    assert!(e.plan(1920, 1080, true, 12_000, video, 2 * SECOND).unwrap().force);
    assert!(!e.keyframe_due(10, 11 * SECOND - 1));
    assert!(e.plan(1920, 1080, false, 12_000, video, 11 * SECOND).unwrap().force);
    assert!(!e.keyframe_due(0, 1000 * SECOND));
    // Until the first keyframe has come out every frame is to be one.
    let fresh = EncodeState::new(12_000);
    assert!(fresh.keyframe_due(10, 0));
    assert!(!fresh.keyframe_due(0, 1000 * SECOND));
    assert!(e.plan(1280, 720, false, 12_000, video, 2 * SECOND).unwrap().create.is_some());
    assert_eq!(e.bitrate_change(12_000), None);
    assert_eq!(e.bitrate_change(6000), Some(6000));
    e.on_bitrate_set(6000);
    assert_eq!(e.bitrate_kbps, 6000);
    // A keyframe that found no sink is owed to the next session.
    shared.clear_sink();
    assert!(!e.on_encoded(&mut shared, unit, true, 3 * SECOND));
    assert!(shared.take_keyframe_request());
    assert!(!shared.take_keyframe_request());
    assert!(!e.on_encoded(&mut shared, EncodeOutcome::Skipped, false, 0));
    assert!(!e.on_encoded(&mut shared, EncodeOutcome::Failed, false, 0));
    assert_eq!(e.size, None);
}

#[test]
fn rates_are_reported_every_five_seconds() {
    let mut s = PipelineStats::new(0);
    assert!(!s.due(STATS_INTERVAL - 1));
    assert!(s.due(STATS_INTERVAL));
    s.captured = 148;
    s.encoded = 149;
    s.sent = 149;
    s.bytes = 7_370_000;
    s.on_captured(2 * MS, 0);
    s.on_captured(4 * MS, 0);
    s.on_encoded(5_000, true, 9_740_000);
    let (rates, times) = s.report(12_000, 5 * SECOND);
    assert_eq!(
        rates,
        "pipeline: captured 30.0 fps, encoded 30.0 fps, sent 29.8 fps, 11800 kbit/s (target 12000), 1 IDR, dropped 0 (encoder busy) + 0 (sink full)"
    );
    assert_eq!(
        times,
        "pipeline timings avg/max ms: capture+copy 3.0/4.0, convert 0.0/0.0, encode 9.7/9.7, packetize+send 0.0/0.0"
    );
    assert_eq!((s.captured, s.since), (0, 5 * SECOND));
}

#[test]
fn counters_follow_the_frames_and_stop_at_their_limit() {
    let mut s = PipelineStats::new(7);
    s.on_captured(2, 3);
    s.on_busy();
    s.on_encoded(100, false, 5);
    s.on_encoded(900, true, 4);
    s.on_sent(6);
    assert_eq!((s.captured, s.busy, s.encoded, s.sent), (1, 1, 2, 1));
    assert_eq!((s.keyframes, s.bytes, s.full, s.since), (1, 1000, 0, 7));
    assert_eq!((s.capture.total, s.convert.total, s.send.max), (2, 3, 6));
    assert_eq!((s.encode.count, s.encode.total, s.encode.max), (2, 9, 5));
    s.bytes = u32::MAX - 1;
    s.on_encoded(2, false, u64::MAX);
    assert_eq!((s.bytes, s.encode.total, s.encode.max), (u32::MAX, u64::MAX, u64::MAX));
    s.busy = u32::MAX;
    s.on_busy();
    assert_eq!(s.busy, u32::MAX);
}

#[test]
fn the_newest_frame_wins() {
    let captured = |width: usize, pts_ms: u64, keyframe: bool| Captured {
        frame: I420Frame::new(width, 2),
        pts_ms,
        keyframe,
    };
    let mut slot = FrameSlot::new();
    assert!(slot.take().is_none());
    assert!(matches!(slot.put(captured(2, 1, true)), Handed::Taken));
    match slot.put(captured(4, 2, false)) {
        Handed::Replaced(older) => assert_eq!(older.width, 2),
        _ => panic!("not replaced"),
    }
    let newest = slot.take().expect("a frame waits");
    assert_eq!((newest.frame.width, newest.pts_ms, newest.keyframe), (4, 2, true));
    assert!(slot.take().is_none());
    assert!(matches!(slot.put(captured(6, 3, false)), Handed::Taken));
    slot.close();
    assert!(matches!(slot.put(captured(8, 4, false)), Handed::Gone));
    assert_eq!(slot.take().map(|c| c.pts_ms), Some(3));
}

#[test]
fn a_full_sink_is_counted_and_asks_for_a_keyframe() {
    let mut shared: Shared<u8> = Shared::new(1000);
    let mut s = PipelineStats::new(0);
    shared.on_delivered(Delivery::Taken, &mut s);
    shared.on_delivered(Delivery::Closed, &mut s);
    assert_eq!((s.full, shared.force_keyframe), (0, false));
    shared.on_delivered(Delivery::Full, &mut s);
    assert_eq!((s.full, shared.force_keyframe), (1, true));
    shared.on_delivered(Delivery::Taken, &mut s);
    assert_eq!((s.full, shared.take_keyframe_request()), (1, true));
}
