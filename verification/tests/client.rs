//! The client: window, decoder supervision, recovery and the network session.
use vmdesk::client::app::{
    blit, fit_aspect, title_text, video_rect, FpsCounter, Held, KeyStep, RgbFrame, SharedView,
};
use vmdesk::client::decoder::ffmpeg::{
    candidates, check_buffer_size, check_frame, choose_format, classify, hw_format, is_hardware,
    name, no_hwaccel_text, on_received, on_sent, packet_size, thread_count, HwConfig, HwDevice,
    OfferedFormat, Platform, Received, AVERROR_EINVAL, AVERROR_EOF,
    AVERROR_INVALIDDATA,
};
use vmdesk::client::decoder::scaler::{finish, no_context_text, plan};
use vmdesk::client::decoder::{
    AccessUnitInfo, BrokenDecoder, DecodeError, DecodeOutcome, DecoderStep, HwPreference,
    RecoveryPolicy, RequestReason, Supervisor, VideoDecoder, FAILURE_INTERVAL, HW_FAILURE_LIMIT,
    RECOVERY_INTERVAL,
};
use vmdesk::client::keymap::{button_to_proto, to_proto, WindowButton};
use vmdesk::client::net::{
    check_answer, goodbye, offer_url, on_control_open, path_text, post_failed_text, read_answer,
    rejected_text, unreadable_answer, CommandStep, ConnectionStep, PliLimiter, Session, UiCommand,
    ICE_FAILED, PLI_INTERVAL,
};
use vmdesk::e2e::{nal_types, LogCapture};
use vmdesk::proto::keycode::KeyCode;
use vmdesk::proto::logging::Level;
use vmdesk::proto::message::{ControlMessage, MouseButton, MouseMove};
use vmdesk::proto::signalling::{ErrorResponse, SessionDescription};
use vmdesk::server::session::PeerState;
use webrtc::peer_connection::RTCSdpType;
use winit::event::MouseButton as WinitButton;
use winit::keyboard::KeyCode as WinitKey;

const SECOND: u64 = 1_000_000_000;

// ---- window ----

#[test]
fn aspect_fit() {
    assert_eq!(fit_aspect((1920, 1080), (1920, 1080)), (1920, 1080));
    assert_eq!(fit_aspect((1280, 720), (1920, 1080)), (1280, 720));
    assert_eq!(fit_aspect((1280, 1024), (1920, 1080)), (1280, 720));
    assert_eq!(fit_aspect((3000, 1080), (1920, 1080)), (1920, 1080));
    assert_eq!(fit_aspect((10, 10), (1920, 1080)), (10, 6));
    assert_eq!(fit_aspect((0, 0), (1920, 1080)), (2, 2));
}

#[test]
fn aspect_fit_stays_within_the_window() {
    for target in [(1, 1), (2, 700), (33, 7), (u32::MAX, 1), (u32::MAX, u32::MAX)] {
        for src in [(0, 0), (1, 1), (640, 480), (1, u32::MAX), (u32::MAX, u32::MAX)] {
            let (w, h) = fit_aspect(target, src);
            assert!(w >= 2 && w <= target.0.max(2), "{target:?} {src:?} {w}");
            assert!(h >= 2 && h <= target.1.max(2), "{target:?} {src:?} {h}");
            assert!(w == target.0.max(2) || h == target.1.max(2));
        }
    }
}

#[test]
fn blit_centres_and_clips() {
    let frame = RgbFrame {
        width: 2,
        height: 2,
        pixels: vec![1, 2, 3, 4],
    };
    let mut dst = vec![9u32; 16];
    blit(&frame, &mut dst, 4, 4);
    assert_eq!(dst, vec![0, 0, 0, 0, 0, 1, 2, 0, 0, 3, 4, 0, 0, 0, 0, 0]);
    // Same size: straight copy.
    let mut dst = vec![0u32; 4];
    blit(&frame, &mut dst, 2, 2);
    assert_eq!(dst, vec![1, 2, 3, 4]);
    // Frame larger than the window: clipped around the centre.
    let mut dst = vec![9u32; 1];
    blit(&frame, &mut dst, 1, 1);
    assert_eq!(dst, vec![1]);
}

#[test]
fn blit_clips_one_way_and_centres_the_other() {
    let frame = RgbFrame {
        width: 4,
        height: 1,
        pixels: vec![1, 2, 3, 4],
    };
    let mut dst = vec![9u32; 6];
    blit(&frame, &mut dst, 2, 3);
    assert_eq!(dst, vec![0, 0, 2, 3, 0, 0]);
    let mut none: Vec<u32> = Vec::new();
    blit(&frame, &mut none, 0, 3);
    assert!(none.is_empty());
}

#[test]
fn shared_view_keeps_what_is_set() {
    let mut v = SharedView::new();
    assert_eq!(v.target_size(), (1280, 720));
    assert_eq!(v.source_size(), None);
    assert_eq!(v.decoder_name(), "starting");
    assert!(v.latest().is_none());
    v.set_target_size(0, 5);
    assert_eq!(v.target_size(), (1, 5));
    v.set_target_size(u32::MAX, 0x8000_0001);
    assert_eq!(v.target_size(), (u32::MAX, 0x8000_0001));
    v.set_source_size(1920, 0);
    assert_eq!(v.source_size(), None);
    v.set_source_size(1920, 1080);
    assert_eq!(v.source_size(), Some((1920, 1080)));
    assert_eq!(v.target_size(), (u32::MAX, 0x8000_0001));
    v.set_decoder_name("h264 (vaapi)");
    assert_eq!(v.decoder_name(), "h264 (vaapi)");
    v.publish(RgbFrame {
        width: 1,
        height: 1,
        pixels: vec![7],
    });
    assert_eq!(v.decoded_frames(), 1);
    assert_eq!(v.latest().as_ref().unwrap().pixels, vec![7]);
}

#[test]
fn video_is_centred_in_the_window() {
    assert_eq!(video_rect((100, 50), Some((80, 50))), (10, 0, 80, 50));
    assert_eq!(video_rect((101, 50), Some((80, 47))), (10, 1, 80, 47));
    assert_eq!(video_rect((100, 50), Some((101, 50))), (0, 0, 100, 50));
    assert_eq!(video_rect((100, 50), None), (0, 0, 100, 50));
    assert_eq!(video_rect((0, 0), None), (0, 0, 1, 1));
}

#[test]
fn keys_and_buttons_are_forwarded_and_released() {
    let mut held = Held::new();
    let sent = |step: KeyStep| match step {
        KeyStep::Send(m) => Some(m),
        _ => None,
    };
    let key = |code: KeyCode, pressed: bool| ControlMessage::Key { code, pressed };
    assert_eq!(
        sent(held.on_key(Some(KeyCode::KeyA), true, false)),
        Some(key(KeyCode::KeyA, true))
    );
    // The VM repeats by itself.
    assert_eq!(sent(held.on_key(Some(KeyCode::KeyA), true, true)), None);
    assert_eq!(sent(held.on_key(None, true, false)), None);
    assert!(matches!(
        held.on_key(Some(KeyCode::F11), true, false),
        KeyStep::ToggleFullscreen
    ));
    assert!(matches!(held.on_key(Some(KeyCode::F11), true, true), KeyStep::Nothing));
    assert!(matches!(held.on_key(Some(KeyCode::F11), false, false), KeyStep::Nothing));
    assert_eq!(
        held.on_button(Some(MouseButton::Left), true),
        Some(ControlMessage::Button {
            button: MouseButton::Left,
            pressed: true
        })
    );
    assert_eq!(held.on_button(None, true), None);
    assert_eq!(held.on_focus(true), None);
    assert_eq!(held.release_all(), (ControlMessage::ReleaseAll, 1, 1));
    assert_eq!(held.release_all(), (ControlMessage::ReleaseAll, 0, 0));
    held.on_key(Some(KeyCode::KeyB), true, false);
    held.on_key(Some(KeyCode::KeyB), true, false);
    held.on_key(Some(KeyCode::KeyC), true, false);
    held.on_key(Some(KeyCode::KeyC), false, false);
    assert_eq!(held.release_all(), (ControlMessage::ReleaseAll, 1, 0));
    assert_eq!(held.on_focus(false), Some(ControlMessage::ReleaseAll));
    assert_eq!(
        held.on_close(),
        vec![UiCommand::Control(ControlMessage::ReleaseAll), UiCommand::Quit]
    );
}

#[test]
fn title_shows_state_and_rate() {
    assert_eq!(
        title_text("connected", "h264 (vaapi)", Some((1920, 1080)), 30),
        "vmdesk - connected - h264 (vaapi) 1920x1080 - 30 fps - F11 fullscreen"
    );
    assert_eq!(
        title_text("connecting", "starting", None, 0),
        "vmdesk - connecting - starting - 0 fps - F11 fullscreen"
    );
    let mut fps = FpsCounter::new(0);
    fps.update(SECOND / 4, 10);
    assert_eq!(fps.fps, 0);
    fps.update(SECOND / 2, 15);
    assert_eq!((fps.fps, fps.frames), (30, 15));
    fps.update(2 * SECOND, 59);
    assert_eq!(fps.fps, 29); // 44 frames in 1.5 s
}

// ---- keys ----

fn by_name(code: WinitKey) -> Option<KeyCode> {
    to_proto(&format!("{code:?}"))
}

fn button(b: WinitButton) -> WindowButton {
    match b {
        WinitButton::Left => WindowButton::Left,
        WinitButton::Right => WindowButton::Right,
        WinitButton::Middle => WindowButton::Middle,
        WinitButton::Back => WindowButton::Back,
        WinitButton::Forward => WindowButton::Forward,
        WinitButton::Other(n) => WindowButton::Other(n),
    }
}

#[test]
fn names_line_up() {
    assert_eq!(by_name(WinitKey::KeyA), Some(KeyCode::KeyA));
    assert_eq!(by_name(WinitKey::F11), Some(KeyCode::F11));
    assert_eq!(by_name(WinitKey::SuperLeft), Some(KeyCode::SuperLeft));
    assert_eq!(by_name(WinitKey::NumpadEnter), Some(KeyCode::NumpadEnter));
    assert_eq!(by_name(WinitKey::F35), Some(KeyCode::F35));
    assert_eq!(button_to_proto(button(WinitButton::Back)), Some(MouseButton::Back));
    assert_eq!(button_to_proto(button(WinitButton::Other(7))), None);
}

#[test]
fn every_key_is_found_under_its_name() {
    for k in KeyCode::all() {
        assert_eq!(to_proto(k.name()), Some(k));
    }
    assert_eq!(to_proto("Unidentified"), None);
    assert_eq!(to_proto(""), None);
    assert_eq!(button_to_proto(WindowButton::Left), Some(MouseButton::Left));
    assert_eq!(button_to_proto(WindowButton::Right), Some(MouseButton::Right));
    assert_eq!(button_to_proto(WindowButton::Middle), Some(MouseButton::Middle));
    assert_eq!(button_to_proto(WindowButton::Forward), Some(MouseButton::Forward));
}

// ---- decoder ----

#[test]
fn hardware_decoder_is_given_up_after_repeated_failures() {
    let mut s = Supervisor::new();
    for _ in 1..HW_FAILURE_LIMIT {
        assert_eq!(s.on_outcome(DecodeOutcome::Corrupt, true), DecoderStep::Keep);
    }
    assert_eq!(s.on_outcome(DecodeOutcome::Decoded, true), DecoderStep::Keep);
    for _ in 1..HW_FAILURE_LIMIT {
        assert_eq!(s.on_outcome(DecodeOutcome::Corrupt, true), DecoderStep::Keep);
    }
    assert_eq!(s.on_outcome(DecodeOutcome::Corrupt, true), DecoderStep::FallBack);
    for _ in 0..10 {
        assert_eq!(s.on_outcome(DecodeOutcome::Corrupt, false), DecoderStep::Keep);
    }
    assert_eq!(s.on_outcome(DecodeOutcome::Fatal, true), DecoderStep::FallBack);
    assert_eq!(s.on_outcome(DecodeOutcome::Fatal, false), DecoderStep::Recreate);
}

#[test]
fn broken_decoder_only_fails() {
    let mut out = Vec::new();
    let e = BrokenDecoder.decode(&[1], &mut out).unwrap_err();
    assert_eq!(e, DecodeError::Fatal("no decoder available".to_string()));
    assert_eq!(e.to_string(), "decoder failure: no decoder available");
    assert_eq!(DecodeError::Corrupt("x".to_string()).to_string(), "corrupt data: x");
    assert!(out.is_empty());
    assert_eq!(BrokenDecoder.name(), "none");
    assert!(!BrokenDecoder.is_hardware());
}

#[test]
fn access_units_are_scanned() {
    let key = [0, 0, 0, 1, 0x67, 1, 0, 0, 1, 0x68, 2, 0, 0, 1, 0x65, 3];
    assert_eq!(
        AccessUnitInfo::scan(&key),
        AccessUnitInfo {
            sps: true,
            pps: true,
            idr: true
        }
    );
    assert_eq!(nal_types(&key), vec![7, 8, 5]);
    assert_eq!(
        AccessUnitInfo::scan(&[0, 0, 1, 0x65, 3]),
        AccessUnitInfo {
            sps: false,
            pps: false,
            idr: true
        }
    );
    // Empty NAL units have no type.
    assert_eq!(nal_types(&[0, 0, 1, 0, 0, 1, 0x41]), vec![1]);
    assert!(nal_types(&[]).is_empty());
}

/// Without parameter sets nothing decodes: the client asks for a keyframe once per interval
/// until the first picture, and again after a failure.
#[test]
fn keyframes_are_asked_for_until_the_first_picture() {
    let mut policy = RecoveryPolicy::new(RECOVERY_INTERVAL);
    let idr_only = AccessUnitInfo::scan(&[0, 0, 1, 0x65, 3]);
    let slice = AccessUnitInfo::scan(&[0, 0, 1, 0x61, 3]);
    let mut requests = Vec::new();
    for i in 0..40u64 {
        let info = if i == 0 { idr_only } else { slice };
        if policy.after_access_unit(i * 33_000_000, info, 0, 0, false) {
            requests.push(i);
        }
        if i == 0 {
            assert_eq!(policy.reason, Some(RequestReason::NoParameterSets));
        }
    }
    assert_eq!(requests, vec![0, 31]);
    assert_eq!(policy.reason, Some(RequestReason::NoKeyframeYet));
    // The first picture is there.
    assert!(!policy.after_access_unit(10 * SECOND, slice, 0, 1, false));
    assert!(!policy.after_access_unit(20 * SECOND, slice, 1, 0, false));
    assert!(policy.after_access_unit(30 * SECOND, slice, 1, 0, true));
    assert_eq!(policy.reason, Some(RequestReason::DecodeFailed));
    assert!(!policy.after_access_unit(30 * SECOND + 1, slice, 1, 0, true));
    // Failures are answered sooner once pictures have been decoded.
    assert!(!policy.after_access_unit(30 * SECOND + FAILURE_INTERVAL - 1, slice, 1, 0, true));
    assert!(policy.after_access_unit(30 * SECOND + FAILURE_INTERVAL, slice, 1, 0, true));
    assert!(!policy.after_access_unit(30 * SECOND + 3 * FAILURE_INTERVAL, slice, 0, 0, true));
}

#[test]
fn half_frames_go_to_the_even_number() {
    let mut fps = FpsCounter::new(0);
    fps.update(2 * SECOND, 5);
    assert_eq!(fps.fps, 2);
    fps.update(4 * SECOND, 12);
    assert_eq!(fps.fps, 4);
}

#[test]
fn hardware_is_tried_first_where_it_is_wanted() {
    assert_eq!(
        candidates(HwPreference::Auto, Platform::Windows),
        vec![Some(HwDevice::D3d11va), Some(HwDevice::Dxva2), None]
    );
    assert_eq!(
        candidates(HwPreference::Auto, Platform::Linux),
        vec![Some(HwDevice::Vaapi), None]
    );
    assert_eq!(candidates(HwPreference::Auto, Platform::Other), vec![None]);
    assert_eq!(candidates(HwPreference::Software, Platform::Linux), vec![None]);
    let configs = vec![
        HwConfig {
            device_type: 3,
            by_device: false,
            pix_fmt: 10,
        },
        HwConfig {
            device_type: 3,
            by_device: true,
            pix_fmt: 11,
        },
    ];
    assert_eq!(hw_format(&configs, 3), Some(11));
    assert_eq!(hw_format(&configs, 4), None);
    assert_eq!(
        no_hwaccel_text(HwDevice::Vaapi),
        "vaapi: this FFmpeg build has no vaapi hwaccel for h264"
    );
    let offered = vec![
        OfferedFormat {
            pix_fmt: 11,
            hardware: true,
        },
        OfferedFormat {
            pix_fmt: 0,
            hardware: false,
        },
    ];
    assert_eq!(choose_format(Some(11), &offered), (Some(11), false));
    assert_eq!(choose_format(Some(12), &offered), (Some(0), true));
    assert_eq!(choose_format(None, &offered), (Some(0), false));
    assert_eq!(choose_format(Some(12), &vec![]), (None, true));
    assert_eq!(name(Some(HwDevice::Vaapi), false), "h264 (vaapi)");
    assert_eq!(
        name(Some(HwDevice::D3d11va), true),
        "h264 (software, d3d11va rejected the stream)"
    );
    assert_eq!(name(None, false), "h264 (software)");
    assert!(is_hardware(Some(HwDevice::Dxva2), false));
    assert!(!is_hardware(Some(HwDevice::Dxva2), true) && !is_hardware(None, false));
    assert_eq!(
        [thread_count(true, 8), thread_count(false, 0), thread_count(false, 3), thread_count(false, 64)],
        [1, 1, 3, 4]
    );
}

#[test]
fn return_codes_are_classified() {
    assert_eq!(
        classify(AVERROR_INVALIDDATA, "x", "bad"),
        DecodeError::Corrupt("x: bad (-1094995529)".to_string())
    );
    assert!(matches!(classify(AVERROR_EINVAL, "x", "bad"), DecodeError::Corrupt(_)));
    assert_eq!(classify(-12, "x", "oom"), DecodeError::Fatal("x: oom (-12)".to_string()));
    assert_eq!(on_sent(0, -11, ""), Ok(()));
    assert_eq!(on_sent(-11, -11, ""), Ok(()));
    assert_eq!(on_sent(-35, -35, ""), Ok(()));
    assert!(matches!(on_sent(-11, -35, ""), Err(DecodeError::Fatal(_))));
    assert_eq!(
        on_sent(-12, -11, "oom"),
        Err(DecodeError::Fatal("avcodec_send_packet: oom (-12)".to_string()))
    );
    assert!(matches!(on_received(0, -11, ""), Received::Picture));
    assert!(matches!(on_received(-11, -11, ""), Received::Done));
    assert!(matches!(on_received(AVERROR_EOF, -11, ""), Received::Done));
    assert!(matches!(
        on_received(AVERROR_INVALIDDATA, -11, ""),
        Received::Failed(DecodeError::Corrupt(_))
    ));
    assert_eq!(packet_size(0), Ok(None));
    assert_eq!(packet_size(7), Ok(Some(7)));
    assert_eq!(
        packet_size(0x8000_0000),
        Err(DecodeError::Corrupt("access unit too large".to_string()))
    );
    assert_eq!(check_frame(2, 3, 0), Ok((2, 3)));
    assert_eq!(
        check_frame(-1, 3, 0),
        Err(DecodeError::Corrupt(
            "decoder produced an invalid frame -1x3 fmt 0".to_string()
        ))
    );
    assert_eq!(check_buffer_size(6, 0, ""), Ok(6));
    assert_eq!(
        check_buffer_size(-22, 23, "bad"),
        Err(DecodeError::Fatal(
            "av_image_get_buffer_size failed for fmt 23: bad".to_string()
        ))
    );
}

#[test]
fn scaling_is_planned() {
    let p = plan(0, 720).unwrap();
    assert_eq!((p.width, p.height, p.stride, p.pixels), (1, 720, 4, 720));
    assert!(plan(0x2000_0000, 1).is_none());
    assert!(plan(1, 0x8000_0000).is_none());
    let f = finish(plan(2, 1).unwrap(), 1, vec![5, 6]).unwrap();
    assert_eq!((f.width, f.height, f.pixels), (2, 1, vec![5, 6]));
    assert_eq!(
        finish(p, -1, vec![]),
        Err("sws_scale produced no rows (-1)".to_string())
    );
    assert_eq!(
        no_context_text(1, 2, -1, 3, 4),
        "sws_getCachedContext failed (1x2 fmt -1 -> 3x4)"
    );
}

// ---- network ----

#[test]
fn offers_are_posted_and_answers_checked() {
    assert_eq!(offer_url("http://127.0.0.1:8080"), "http://127.0.0.1:8080/offer");
    assert_eq!(offer_url("http://vm//"), "http://vm/offer");
    assert_eq!(
        post_failed_text("http://vm/offer"),
        "POST http://vm/offer failed. Is the SSH tunnel up? (ssh -L 8080:127.0.0.1:8080 <vm>)"
    );
    let error = ErrorResponse {
        error: "no video".to_string(),
    };
    assert_eq!(
        rejected_text("400 Bad Request", Some(error), "{}".to_string()),
        "server rejected the offer (400 Bad Request): no video"
    );
    assert_eq!(
        rejected_text("500", None, "oops".to_string()),
        "server rejected the offer (500): oops"
    );
    assert_eq!(
        check_answer(SessionDescription::answer("v=0".to_string())),
        Ok("v=0".to_string())
    );
    assert_eq!(
        check_answer(SessionDescription::offer("v=0".to_string())),
        Err("expected an answer, got type \"offer\"".to_string())
    );
    assert_eq!(path_text("2001:db8::1", 50000), "IPv6 to [2001:db8::1]:50000");
    assert_eq!(path_text("82.70.62.40", 50000), "IPv4 to 82.70.62.40:50000");
}

#[test]
fn answers_are_read_by_the_webrtc_stack() {
    let sdp = "v=0\r\no=- 1 2 IN IP4 127.0.0.1\r\ns=-\r\nt=0 0\r\n";
    let read = read_answer(sdp.to_string()).expect("a readable answer");
    assert_eq!((read.sdp.as_str(), read.sdp_type), (sdp, RTCSdpType::Answer));
    assert_eq!(
        read_answer("v=1\r\n".to_string()).err().as_deref(),
        Some("parsing answer: SdpInvalidSyntax: 1")
    );
    assert_eq!(unreadable_answer("x"), "parsing answer: x");
}

#[test]
fn session_reports_its_connection() {
    let mut s = Session::new();
    assert!(matches!(s.on_connection(PeerState::Other), ConnectionStep::Nothing));
    assert!(matches!(
        s.on_connection(PeerState::Failed),
        ConnectionStep::End(e) if e == ICE_FAILED
    ));
    assert!(matches!(
        s.on_connection(PeerState::Connected),
        ConnectionStep::Connected("connected")
    ));
    assert!(matches!(
        s.on_connection(PeerState::Disconnected),
        ConnectionStep::Status("disconnected (waiting)")
    ));
    assert!(matches!(
        s.on_connection(PeerState::Failed),
        ConnectionStep::End("connection lost (ICE failed)")
    ));
    assert!(matches!(
        s.on_connection(PeerState::Closed),
        ConnectionStep::End("connection closed by server")
    ));
}

#[test]
fn plis_are_kept_apart() {
    let mut s = Session::new();
    // Nothing to ask before there is a track.
    assert_eq!(s.on_keyframe_wanted(0), None);
    assert_eq!(s.on_track(0, None), None);
    assert_eq!(s.on_track(1, Some(7)), Some(7));
    assert_eq!(s.on_keyframe_wanted(PLI_INTERVAL), None);
    assert_eq!(s.on_keyframe_wanted(PLI_INTERVAL + 1), Some(7));
    assert_eq!(s.on_keyframe_wanted(PLI_INTERVAL + 2), None);
    // A new track is asked right away.
    assert_eq!(s.on_track(PLI_INTERVAL + 3, Some(8)), Some(8));
    let mut p = PliLimiter::new(10);
    assert!(p.request(5));
    assert!(!p.request(14));
    assert!(p.request(15));
}

#[test]
fn mouse_moves_are_coalesced() {
    let mut s = Session::new();
    assert_eq!(s.on_mouse_tick(), None);
    for x in 0..5 {
        assert_eq!(
            s.on_command(Some(UiCommand::Mouse(MouseMove { x, y: 1 }))),
            CommandStep::Nothing
        );
    }
    assert_eq!(s.on_mouse_tick(), Some(MouseMove { x: 4, y: 1 }));
    assert_eq!(s.on_mouse_tick(), None);
    assert_eq!(
        s.on_command(Some(UiCommand::Control(ControlMessage::ReleaseAll))),
        CommandStep::Send(ControlMessage::ReleaseAll)
    );
    assert_eq!(s.on_command(Some(UiCommand::Quit)), CommandStep::Quit);
    assert_eq!(s.on_command(None), CommandStep::Quit);
    assert_eq!(goodbye(), ControlMessage::ReleaseAll);
    assert_eq!(on_control_open(None), vec![ControlMessage::Hello { version: 1 }]);
    assert_eq!(
        on_control_open(Some(6000)),
        vec![
            ControlMessage::Hello { version: 1 },
            ControlMessage::SetBitrate { kbps: 6000 }
        ]
    );
}

// ---- log capture ----

#[test]
fn warnings_are_captured_and_found() {
    let mut logs = LogCapture::install(true);
    assert_eq!(
        logs.log(Level::Warn, "rtc::srtp", "index=3: duplicated"),
        Some("[WARN] rtc::srtp: index=3: duplicated".to_string())
    );
    assert_eq!(logs.log(Level::Info, "rtc", "duplicated info"), None);
    assert_eq!(logs.log(Level::Debug, "rtc", "duplicated debug"), None);
    assert!(logs.log(Level::Error, "rtc", "broken").is_some());
    assert_eq!(logs.records().len(), 3);
    let found = logs.warnings_containing("duplicated");
    assert_eq!(found.len(), 1);
    assert_eq!(found[0].target, "rtc::srtp");
    assert_eq!(found[0].level, Level::Warn);
    logs.clear();
    assert!(logs.records().is_empty());
    let mut quiet = LogCapture::install(false);
    assert_eq!(quiet.log(Level::Error, "rtc", "broken"), None);
    assert_eq!(quiet.records().len(), 1);
}
