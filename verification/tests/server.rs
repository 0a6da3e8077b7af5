//! Configuration, addressing, sessions, display choice, setup, doctor and input.
use std::collections::HashMap;

use evdev::KeyCode as Ev;
use vmdesk::ip::read_ipv6;
use vmdesk::proto::keycode::KeyCode as K;
use vmdesk::proto::message::{ControlMessage, DecodeError, MouseButton, MouseMove};
use vmdesk::proto::signalling::SessionDescription;
use vmdesk::server::capture::{
    card_paths, check_scanout, choose_card, choose_connector, choose_plane, connector_name,
    frame_range, is_supported, legacy_format, needs_mapping, CardChoice, CardFacts, DisplayState,
    DisplayWait, PixelFormat, PlaneFacts, Scanout, WaitStep, LOG_INTERVAL,
};
use vmdesk::server::config::Config;
use vmdesk::server::doctor::{
    capture_fails, capture_works, check_capability, check_convert, check_firewall, check_groups,
    check_ipv6, check_service, check_signalling_port, check_uinput, check_vkms_module,
    check_xorg_conf, configured_ipv4, detected_ipv4, display_active, display_missing,
    effective_capabilities, encoder_missing, encoder_test_settings, health_request, judge_encoder,
    judge_test_frame, report, runtime_failed, vkms_card_found, vkms_card_missing, EncoderTest,
    RuleListing, Status, Uinput,
};
use vmdesk::server::input::keymap::{button_to_evdev, keyboard_keys, pointer_buttons, to_evdev};
use vmdesk::server::input::uinput::{
    Device, DeviceEvent, Emit, UinputState, ABS_X, ABS_Y, EV_ABSOLUTE, EV_KEY, EV_RELATIVE,
    REL_HWHEEL, REL_WHEEL,
};
use vmdesk::server::input::{InputEvent, InputSink, LogInput};
use vmdesk::server::metadata::{parse_public_ip, pick_public_ip, read_reply, Listing};
use vmdesk::server::netinfo::{first_global, is_global, InterfaceAddress};
use vmdesk::server::pipeline::{EncodeOutcome, Shared};
use vmdesk::server::rtcp_forward::{is_keyframe_request, requests_to_deliver, RtcpKind};
use vmdesk::server::session::{
    activate, channel, check_offer, end_text, gather, nominal_duration, on_message, on_peer_state,
    path_text, pseudo_random_ssrc, read_offer, replace_client, tear_down, Channel, FrameClock,
    GatherEvent, GatherStep, MessageStep, NetInfo, OfferFailure, PeerState, SessionError,
    SessionManager, SessionStep,
};
use vmdesk::server::setup::{
    apt_packages, firewall_check, firewall_insert, home_dir, lightdm_conf, monitor_name,
    new_config, no_blank_files, public_ip_warning, service_unit, user_exists, xorg_conf,
    UDEV_RULE_TEXT, VKMS_BY_PATH,
};
use vmdesk::server::signalling::{refuse_non_offer, reply, ReplyBody};
use webrtc::peer_connection::RTCSdpType;

const MS: u64 = 1_000_000;
const SECOND: u64 = 1_000_000_000;

fn strings(v: &[&str]) -> Vec<String> {
    v.iter().map(|s| s.to_string()).collect()
}

// ---- configuration ----

/// The value under `section.key` of a configuration file.
fn value(text: &str, section: &str, key: &str) -> toml::Value {
    let table: toml::Table = text.parse().unwrap();
    table[section][key].clone()
}

fn assert_reads_back(cfg: &Config) {
    let text = cfg.to_commented_toml();
    let int = |section: &str, key: &str| value(&text, section, key).as_integer().unwrap();
    let string = |section: &str, key: &str| value(&text, section, key).as_str().unwrap().to_string();
    assert_eq!(int("video", "fps"), i64::from(cfg.video.fps));
    assert_eq!(int("video", "bitrate_kbps"), i64::from(cfg.video.bitrate_kbps));
    assert_eq!(int("video", "keyframe_interval"), i64::from(cfg.video.keyframe_interval));
    assert_eq!(
        int("video", "keyframe_interval_secs"),
        i64::from(cfg.video.keyframe_interval_secs)
    );
    assert_eq!(int("video", "encoder_threads"), i64::from(cfg.video.encoder_threads));
    assert_eq!(string("network", "public_ip"), cfg.network.public_ip);
    assert_eq!(string("network", "metadata_url"), cfg.network.metadata_url);
    assert_eq!(value(&text, "network", "ipv6").as_bool(), Some(cfg.network.ipv6));
    assert_eq!(string("network", "public_ipv6"), cfg.network.public_ipv6);
    assert_eq!(int("network", "udp_port_min"), i64::from(cfg.network.udp_port_min));
    assert_eq!(int("network", "udp_port_max"), i64::from(cfg.network.udp_port_max));
    assert_eq!(string("network", "signalling_addr"), cfg.network.signalling_addr);
    assert_eq!(string("capture", "card"), cfg.capture.card);
    assert_eq!(string("capture", "connector"), cfg.capture.connector);
}

#[test]
fn defaults_round_trip_through_commented_toml() {
    let cfg = Config::default();
    assert_reads_back(&cfg);
    cfg.validate().unwrap();
    assert!(cfg.network.ipv6);
    assert!(cfg.capture.connector.is_empty());
}

#[test]
fn values_survive_the_commented_round_trip() {
    let mut cfg = Config::default();
    cfg.network.public_ip = "82.70.62.40".into();
    cfg.network.public_ipv6 = "2001:db8::1".into();
    cfg.network.ipv6 = false;
    cfg.capture.connector = "Virtual-2".into();
    assert_reads_back(&cfg);
    cfg.validate().unwrap();
}

#[test]
fn validation() {
    let mut cfg = Config::default();
    cfg.network.udp_port_min = 60_000;
    assert!(cfg.validate().is_err());
    let mut cfg = Config::default();
    cfg.video.fps = 0;
    assert!(cfg.validate().is_err());
    let mut cfg = Config::default();
    cfg.network.public_ip = "not-an-ip".into();
    assert!(cfg.validate().is_err());
    let mut cfg = Config::default();
    cfg.network.public_ipv6 = "82.70.62.40".into();
    assert!(cfg.validate().is_err());
}

#[test]
fn validation_says_what_is_wrong() {
    let mut cfg = Config::default();
    cfg.video.fps = 121;
    assert_eq!(cfg.validate(), Err("video.fps must be within 1..=120".to_string()));
    cfg = Config::default();
    cfg.video.bitrate_kbps = 99;
    assert_eq!(
        cfg.validate(),
        Err("video.bitrate_kbps must be at least 100".to_string())
    );
    cfg = Config::default();
    cfg.network.public_ip = "a\"b".into();
    assert_eq!(
        cfg.validate(),
        Err("network.public_ip must be an IPv4 address (got \"a\\\"b\")".to_string())
    );
}

// ---- addressing ----

fn number(text: &str) -> u128 {
    read_ipv6(text)
        .unwrap()
        .into_iter()
        .fold(0, |n, g| n << 16 | u128::from(g))
}

#[test]
fn global_range_only() {
    assert!(is_global(number("2603:c020:4000:1::5")));
    assert!(is_global(number("2a01:4f8::1")));
    assert!(!is_global(number("fe80::1")));
    assert!(!is_global(number("fd00::1")));
    assert!(!is_global(number("::1")));
    assert!(!is_global(number("ff02::1")));
}

#[test]
fn first_global_address_is_taken() {
    let interface = |loopback: bool, ipv6: Option<&str>| InterfaceAddress {
        loopback,
        ipv6: ipv6.map(number),
    };
    let all = vec![
        interface(true, Some("2001::1")),
        interface(false, None),
        interface(false, Some("fe80::1")),
        interface(false, Some("2603::5")),
        interface(false, Some("2a01::1")),
    ];
    assert_eq!(first_global(&all), Some(number("2603::5")));
    assert_eq!(first_global(&vec![]), None);
}

#[test]
fn parses_oci_vnic_listing() {
    let json = r#"[{"vnicId":"ocid1.vnic.oc1..x","privateIp":"10.0.0.7","vlanTag":1,
            "macAddr":"02:00:17:00:00:01","virtualRouterIp":"10.0.0.1","subnetCidrBlock":"10.0.0.0/24",
            "nicIndex":0,"publicIp":"129.146.10.20"}]"#;
    assert_eq!(parse_public_ip(json), Some("129.146.10.20".to_string()));
}

#[test]
fn skips_vnics_without_public_ip() {
    let json = r#"[{"privateIp":"10.0.0.7"},{"privateIp":"10.0.1.7","publicIp":""},
            {"privateIp":"10.0.2.7","publicIp":" 203.0.113.5 "}]"#;
    assert_eq!(parse_public_ip(json), Some("203.0.113.5".to_string()));
    assert_eq!(parse_public_ip(r#"[{"privateIp":"10.0.0.7"}]"#), None);
    assert_eq!(parse_public_ip("not json"), None);
    assert_eq!(parse_public_ip(r#"[{"publicIp":"garbage"}]"#), None);
}

#[test]
fn single_objects_and_other_values() {
    assert_eq!(
        parse_public_ip(r#"{"publicIp":"1.2.3.4"}"#),
        Some("1.2.3.4".to_string())
    );
    assert_eq!(parse_public_ip("7"), None);
    assert_eq!(parse_public_ip(r#"[{"publicIp":7}]"#), None);
    assert_eq!(
        pick_public_ip(&Listing::Array(vec![None, Some("::1".to_string())])),
        Some("::1".to_string())
    );
    assert_eq!(pick_public_ip(&Listing::Other), None);
    assert_eq!(
        read_reply(true, "200 OK", r#"[{"publicIp":"1.2.3.4"}]"#),
        Ok("1.2.3.4".to_string())
    );
    assert_eq!(
        read_reply(true, "200 OK", " [] "),
        Err("no publicIp in metadata response: []".to_string())
    );
    assert_eq!(
        read_reply(false, "404 Not Found", " gone\n"),
        Err("metadata service returned 404 Not Found: gone".to_string())
    );
}

// ---- sessions ----

fn manager(min: u16, max: u16) -> SessionManager {
    let net = NetInfo {
        public_ipv4: None,
        public_ipv6: None,
        local_ipv6: Some(number("2603::5")),
        ipv6_enabled: true,
    };
    SessionManager::new(min, max, String::new(), net)
}

#[test]
fn ports_and_numbers_are_handed_out_in_turn() {
    let mut m = manager(50_000, 50_002);
    let ports: Vec<u16> = (0..5).map(|_| m.allocate_port()).collect();
    assert_eq!(ports, [50_000, 50_001, 50_002, 50_000, 50_001]);
    assert_eq!((m.allocate_session_id(), m.allocate_session_id()), (1, 2));
    assert_eq!(m.known_ipv4(), None);
    m.on_ipv4_detected("1.2.3.4".to_string());
    assert_eq!(m.known_ipv4(), Some("1.2.3.4".to_string()));
    assert!(m.net.use_ipv6());
    assert_eq!(m.udp_addrs(50_000), strings(&["0.0.0.0:50000", "[::]:50000"]));
    m.net.ipv6_enabled = false;
    assert_eq!(m.udp_addrs(50_000), strings(&["0.0.0.0:50000"]));
}

#[test]
fn answers_advertise_the_public_address() {
    let m = manager(50_000, 50_100);
    let local = "v=0\r\na=candidate:1 1 udp 1 10.0.0.7 50000 typ host\r\n";
    assert_eq!(
        m.finish_answer(local, 50_000, Some("129.146.1.2")),
        Ok("v=0\r\na=candidate:1 1 udp 1 129.146.1.2 50000 typ host\r\n".to_string())
    );
    assert_eq!(
        m.finish_answer("v=0\r\n", 50_000, None),
        Err(SessionError::Internal(
            "no ICE candidates gathered on UDP port 50000; is the port free and does the VM have a non-loopback interface?"
                .to_string()
        ))
    );
    assert_eq!(check_offer("m=video 9 x\r\nm=application 9 x\r\n"), Ok(()));
    assert_eq!(
        check_offer("m=application 9 x\r\n"),
        Err(SessionError::BadOffer("offer has no video media section".to_string()))
    );
    assert_eq!(
        check_offer("m=video 9 x\r\n"),
        Err(SessionError::BadOffer(
            "offer has no data channel (application) media section".to_string()
        ))
    );
}

#[test]
fn offers_are_read_by_the_webrtc_stack() {
    let sdp = "v=0\r\no=- 1 2 IN IP4 127.0.0.1\r\ns=-\r\nt=0 0\r\nm=video 9 UDP/TLS/RTP/SAVPF 102\r\n";
    let read = read_offer(sdp.to_string()).expect("a readable offer");
    assert_eq!((read.sdp.as_str(), read.sdp_type), (sdp, RTCSdpType::Offer));
    let fault = |sdp: &str| match read_offer(sdp.to_string()) {
        Ok(_) => panic!("read"),
        Err(e) => e,
    };
    assert_eq!(
        fault("garbage"),
        SessionError::BadOffer("unparseable SDP: SdpInvalidSyntax: garbage".to_string())
    );
    assert_eq!(
        fault(""),
        SessionError::BadOffer("unparseable SDP: SdpInvalidSyntax: ".to_string())
    );
    // Both media sections are there, and it still cannot be read.
    let bare = "m=video 9 x\r\nm=application 9 x\r\n";
    assert_eq!(check_offer(bare), Ok(()));
    assert_eq!(
        fault(bare),
        SessionError::BadOffer("unparseable SDP: SdpInvalidSyntax: m=".to_string())
    );
}

#[test]
fn only_an_unusable_offer_is_the_clients_fault() {
    let e = || "e".to_string();
    let bad = |m: &str| SessionError::BadOffer(m.to_string());
    let ours = |m: &str| SessionError::Internal(m.to_string());
    assert_eq!(OfferFailure::Connect(e()).error(), ours("e"));
    assert_eq!(OfferFailure::Unparseable(e()).error(), bad("unparseable SDP: e"));
    assert_eq!(OfferFailure::RemoteRefused(e()).error(), bad("set_remote_description: e"));
    assert_eq!(OfferFailure::CreateAnswer(e()).error(), ours("create_answer: e"));
    assert_eq!(OfferFailure::SetLocal(e()).error(), ours("set_local_description: e"));
    assert_eq!(
        OfferFailure::GatheringStopped.error(),
        ours("peer connection driver stopped during gathering")
    );
    assert_eq!(
        OfferFailure::NoLocalDescription.error(),
        ours("no local description after create_answer")
    );
}

#[test]
fn configured_addresses_go_before_found_ones() {
    let mut config = Config::default();
    let found = || Some("203.0.113.5".to_string());
    let net = NetInfo::for_config(&config, found(), Some(7));
    assert_eq!(
        net,
        NetInfo {
            public_ipv4: found(),
            public_ipv6: None,
            local_ipv6: Some(7),
            ipv6_enabled: config.network.ipv6,
        }
    );
    assert_eq!(NetInfo::for_config(&config, None, None).public_ipv4, None);
    config.network.public_ip = "129.146.1.2".to_string();
    config.network.public_ipv6 = "2001:db8::42".to_string();
    config.network.ipv6 = false;
    let net = NetInfo::for_config(&config, found(), None);
    assert_eq!(net.public_ipv4.as_deref(), Some("129.146.1.2"));
    assert_eq!(net.public_ipv6.as_deref(), Some("2001:db8::42"));
    assert_eq!((net.local_ipv6, net.ipv6_enabled), (None, false));
}

#[test]
fn gathering_waits_for_all_candidates() {
    assert_eq!(gather(GatherEvent::Complete), GatherStep::Done);
    assert_eq!(gather(GatherEvent::TimedOut), GatherStep::Done);
    assert_eq!(gather(GatherEvent::Progress), GatherStep::Wait);
    assert_eq!(gather(GatherEvent::Session), GatherStep::Keep);
    assert_eq!(gather(GatherEvent::Stopped), GatherStep::Fail);
}

#[test]
fn the_newest_session_owns_the_pipeline() {
    let mut shared: Shared<u8> = Shared::new(12_000);
    activate(&mut shared, 1);
    assert_eq!(
        on_peer_state(&mut shared, 1, PeerState::Connected, 8000, 7),
        SessionStep::Streaming
    );
    assert_eq!((shared.bitrate_kbps, shared.sink), (8000, Some(7)));
    assert!(shared.client_connected && shared.force_keyframe);
    assert_eq!(
        on_peer_state(&mut shared, 1, PeerState::Disconnected, 8000, 7),
        SessionStep::ReleaseInput
    );
    replace_client(&mut shared);
    assert_eq!(shared.sink, None);
    activate(&mut shared, 2);
    assert_eq!(
        on_peer_state(&mut shared, 1, PeerState::Connected, 8000, 7),
        SessionStep::End
    );
    assert_eq!(shared.sink, None);
    assert!(!tear_down(&mut shared, 1));
    assert!(tear_down(&mut shared, 2));
    assert!(!shared.client_connected);
    assert_eq!(end_text(3, true), "session 3 ended");
    assert_eq!(end_text(3, false), "session 3 ended (never connected)");
    assert_eq!(
        path_text("2603::5", 50_000, "2a01::1", 4000),
        "IPv6: local [2603::5]:50000 <-> remote [2a01::1]:4000"
    );
}

#[test]
fn frames_are_spaced_by_their_presentation_time() {
    assert_eq!(nominal_duration(30), 33_333_000);
    let mut c = FrameClock::new(33 * MS);
    assert_eq!(c.next(100), 33 * MS);
    assert_eq!(c.next(150), 50 * MS);
    assert_eq!(c.next(150), 33 * MS);
    assert_eq!(c.next(10_000), 2 * SECOND);
    assert_ne!(pseudo_random_ssrc(0, 1), 0);
    assert_eq!(pseudo_random_ssrc(5, 1) % 2, 1);
    assert_ne!(pseudo_random_ssrc(5, 1), pseudo_random_ssrc(5, 2));
}

#[test]
fn messages_reach_the_input_sink() {
    let mut shared: Shared<u8> = Shared::new(12_000);
    activate(&mut shared, 4);
    assert_eq!(channel("control"), Some(Channel::Control));
    assert_eq!(channel("mouse"), Some(Channel::Mouse));
    assert_eq!(channel("chat"), None);
    let key = ControlMessage::Key {
        code: K::KeyA,
        pressed: true,
    };
    assert_eq!(
        on_message(&mut shared, 4, Channel::Control, &key.encode()),
        MessageStep::Input(InputEvent::Control(key))
    );
    let m = MouseMove { x: 3, y: 4 };
    assert_eq!(
        on_message(&mut shared, 4, Channel::Mouse, &m.encode()),
        MessageStep::Input(InputEvent::Mouse(m))
    );
    let low = ControlMessage::SetBitrate { kbps: 1 }.encode();
    assert_eq!(on_message(&mut shared, 4, Channel::Control, &low), MessageStep::Bitrate(200));
    let high = ControlMessage::SetBitrate { kbps: u32::MAX }.encode();
    assert_eq!(
        on_message(&mut shared, 4, Channel::Control, &high),
        MessageStep::Bitrate(100_000)
    );
    assert_eq!(shared.bitrate_kbps, 100_000);
    let hello = ControlMessage::Hello { version: 9 }.encode();
    assert_eq!(
        on_message(&mut shared, 4, Channel::Control, &hello),
        MessageStep::Hello {
            version: 9,
            same: false
        }
    );
    assert_eq!(
        on_message(&mut shared, 4, Channel::Mouse, &[]),
        MessageStep::Bad(DecodeError::Empty)
    );
    assert_eq!(on_message(&mut shared, 3, Channel::Control, &low), MessageStep::Ignore);
    assert_eq!(shared.bitrate_kbps, 100_000);
}

#[test]
fn offers_are_answered_over_http() {
    let offer = SessionDescription::offer("v=0".to_string());
    assert_eq!(refuse_non_offer(&offer), None);
    let refused = refuse_non_offer(&SessionDescription::answer("v=0".to_string())).unwrap();
    assert_eq!(refused.status, 400);
    assert_eq!(
        refused.body,
        ReplyBody::Error("expected type \"offer\", got \"answer\"".to_string())
    );
    let ok = reply(Ok("v=0".to_string()));
    assert_eq!(ok.status, 200);
    assert_eq!(
        ok.body,
        ReplyBody::Answer(SessionDescription::answer("v=0".to_string()))
    );
    let bad = SessionError::BadOffer("x".to_string());
    assert_eq!(bad.to_string(), "bad offer: x");
    assert_eq!(reply(Err(bad)).status, 400);
    assert_eq!(reply(Err(SessionError::Internal("x".to_string()))).status, 500);
}

#[test]
fn only_keyframe_requests_are_delivered() {
    assert!(is_keyframe_request(RtcpKind::PictureLossIndication));
    assert!(is_keyframe_request(RtcpKind::FullIntraRequest));
    assert!(!is_keyframe_request(RtcpKind::Other));
    let mixed = vec![RtcpKind::Other, RtcpKind::PictureLossIndication, RtcpKind::FullIntraRequest];
    assert_eq!(requests_to_deliver(&mixed), Some(vec![1, 2]));
    assert_eq!(requests_to_deliver(&vec![RtcpKind::Other]), None);
}

// ---- input ----

#[test]
fn spot_checks() {
    assert_eq!(to_evdev(K::KeyA), Some(Ev::KEY_A.0));
    assert_eq!(to_evdev(K::Digit0), Some(Ev::KEY_0.0));
    assert_eq!(to_evdev(K::F11), Some(Ev::KEY_F11.0));
    assert_eq!(to_evdev(K::ArrowUp), Some(Ev::KEY_UP.0));
    assert_eq!(to_evdev(K::SuperLeft), Some(Ev::KEY_LEFTMETA.0));
    assert_eq!(to_evdev(K::Numpad0), Some(Ev::KEY_KP0.0));
    assert_eq!(to_evdev(K::ContextMenu), Some(Ev::KEY_COMPOSE.0));
    assert_eq!(to_evdev(K::F35), None);
    assert_eq!(button_to_evdev(MouseButton::Left), Ev::BTN_LEFT.0);
    assert_eq!(button_to_evdev(MouseButton::Forward), Ev::BTN_EXTRA.0);
}

#[test]
fn mapping_is_injective_except_documented_duplicates() {
    // Lang3/Lang4 (W3C) and Katakana/Hiragana (legacy) name the same physical keys.
    let allowed: [(K, K); 2] = [(K::Lang3, K::Katakana), (K::Lang4, K::Hiragana)];
    let mut seen: HashMap<u16, K> = HashMap::new();
    let mut mapped = 0;
    for k in K::all() {
        let Some(ev) = to_evdev(k) else { continue };
        mapped += 1;
        if let Some(prev) = seen.insert(ev, k) {
            assert!(
                allowed.contains(&(prev, k)) || allowed.contains(&(k, prev)),
                "{prev:?} and {k:?} both map to {ev:?}"
            );
        }
    }
    assert!(mapped >= 160, "only {mapped} keys mapped");
}

#[test]
fn every_key_is_classified() {
    // The match is exhaustive by construction; this guards the `None` list against
    // accidentally swallowing common keys.
    for k in K::all() {
        let name = k.name();
        let fkey = name
            .strip_prefix('F')
            .and_then(|n| n.parse::<u32>().ok())
            .is_some_and(|n| (1..=24).contains(&n));
        let common = name.starts_with("Key")
            || name.starts_with("Digit")
            || name.starts_with("Arrow")
            || fkey;
        if common {
            assert!(to_evdev(k).is_some(), "{name} must be mapped");
        }
    }
}

#[test]
fn devices_announce_what_they_can_send() {
    let keys = keyboard_keys();
    for k in K::all() {
        if let Some(code) = to_evdev(k) {
            assert!(keys.contains(&code));
        }
    }
    assert_eq!(to_evdev(K::Fn), None);
    let in_order: Vec<u16> = K::all().into_iter().filter_map(to_evdev).collect();
    assert_eq!(keys, in_order);
    let buttons = pointer_buttons();
    for b in MouseButton::all() {
        assert!(buttons.contains(&button_to_evdev(b)));
        assert!(!keys.contains(&button_to_evdev(b)));
    }
}

fn one(device: Device, events: Vec<DeviceEvent>) -> Vec<Emit> {
    vec![Emit { device, events }]
}

fn event(kind: u16, code: u16, value: i32) -> DeviceEvent {
    DeviceEvent { kind, code, value }
}

#[test]
fn input_is_emitted_and_released() {
    let mut u = UinputState::new();
    let press = |code: K, pressed: bool| InputEvent::Control(ControlMessage::Key { code, pressed });
    assert_eq!(
        u.handle(press(K::KeyA, true)),
        one(Device::Keyboard, vec![event(EV_KEY, Ev::KEY_A.0, 1)])
    );
    assert_eq!(u.handle(press(K::F35, true)), vec![]);
    let left = InputEvent::Control(ControlMessage::Button {
        button: MouseButton::Left,
        pressed: true,
    });
    assert_eq!(
        u.handle(left),
        one(Device::Pointer, vec![event(EV_KEY, Ev::BTN_LEFT.0, 1)])
    );
    assert_eq!(
        u.handle(InputEvent::Mouse(MouseMove { x: 7, y: 65_535 })),
        one(
            Device::Pointer,
            vec![event(EV_ABSOLUTE, ABS_X, 7), event(EV_ABSOLUTE, ABS_Y, 65_535)]
        )
    );
    let wheel = |horizontal: i16, vertical: i16| {
        InputEvent::Control(ControlMessage::Wheel {
            horizontal,
            vertical,
        })
    };
    assert_eq!(
        u.handle(wheel(0, -2)),
        one(Device::Pointer, vec![event(EV_RELATIVE, REL_WHEEL, -2)])
    );
    assert!(u.handle(wheel(1, 0))[0].events.contains(&event(EV_RELATIVE, REL_HWHEEL, 1)));
    assert_eq!(u.handle(wheel(0, 0)), vec![]);
    let released = u.release_all();
    assert_eq!(
        released,
        vec![
            Emit {
                device: Device::Keyboard,
                events: vec![event(EV_KEY, Ev::KEY_A.0, 0)]
            },
            Emit {
                device: Device::Pointer,
                events: vec![event(EV_KEY, Ev::BTN_LEFT.0, 0)]
            }
        ]
    );
    assert_eq!(u.release_all(), vec![]);
    let mut sink = LogInput;
    assert_eq!(sink.handle(left), Ok(()));
    assert_eq!(sink.release_all(), Ok(()));
}

// ---- display ----

fn open_card(path: &str, driver: &str, connectors: &[&str]) -> CardFacts {
    CardFacts::Open {
        path: path.to_string(),
        driver: driver.to_string(),
        connectors: strings(connectors),
    }
}

#[test]
fn vkms_card_is_preferred() {
    assert_eq!(
        card_paths(&strings(&["renderD128", "card1", "card0", "by-path"])),
        strings(&["/dev/dri/card0", "/dev/dri/card1"])
    );
    assert_eq!(connector_name("Virtual", 2), "Virtual-2");
    let virtio = || open_card("/dev/dri/card0", "virtio_gpu", &["Virtual-1"]);
    let vkms = || open_card("/dev/dri/card1", "vkms", &["Virtual-2"]);
    assert_eq!(choose_card(&vec![virtio(), vkms()], ""), CardChoice::Vkms(1));
    assert_eq!(choose_card(&vec![virtio()], "Virtual-1"), CardChoice::ByConnector(0));
    // Without a name, another driver's Virtual connector does not make a card the vkms card.
    assert_eq!(
        choose_card(&vec![virtio()], ""),
        CardChoice::Nothing(
            "no DRM card with driver vkms or connector  found. Cards seen:\n  \
             /dev/dri/card0: driver virtio_gpu, connectors [\"Virtual-1\"]"
                .to_string()
        )
    );
    assert_eq!(
        choose_card(&vec![], ""),
        CardChoice::Nothing(
            "no /dev/dri/card* nodes found: is the vkms module loaded? (sudo modprobe vkms)"
                .to_string()
        )
    );
    let closed = CardFacts::Closed {
        path: "/dev/dri/card0".to_string(),
        reason: "permission denied".to_string(),
    };
    assert!(matches!(
        choose_card(&vec![closed, virtio()], "DP-1"),
        CardChoice::Nothing(m) if m.contains("connector DP-1") && m.contains("permission denied")
    ));
    assert_eq!(choose_connector(&strings(&["DP-1", "Virtual-3"]), ""), Some(1));
    assert_eq!(choose_connector(&strings(&["DP-1", "Virtual-3"]), "DP-1"), Some(0));
    assert_eq!(choose_connector(&strings(&["DP-1"]), ""), None);
}

#[test]
fn display_has_to_be_scanned_out() {
    let all = Scanout {
        encoder: true,
        crtc: true,
        mode: true,
        framebuffer: true,
    };
    assert_eq!(check_scanout("Virtual-1", all), Ok(()));
    let inactive = check_scanout("Virtual-1", Scanout { crtc: false, ..all }).unwrap_err();
    assert_eq!(
        inactive.to_string(),
        "connector Virtual-1 has no active CRTC (no X server / mode set yet)"
    );
    let dark = check_scanout("Virtual-1", Scanout { framebuffer: false, ..all }).unwrap_err();
    assert_eq!(
        dark.to_string(),
        "CRTC of Virtual-1 has no framebuffer (nothing scanned out yet)"
    );
    assert_eq!(
        DisplayState::NoConnector("DP-1".into(), "/dev/dri/card0".into(), strings(&["Virtual-1"]))
            .to_string(),
        "connector DP-1 not found on /dev/dri/card0; connectors present: [\"Virtual-1\"]"
    );
    assert_eq!(
        DisplayState::NoPlane("Virtual-1".into()).to_string(),
        "no primary plane attached to the CRTC of Virtual-1"
    );
    let plane = |attached: bool, primary: bool, framebuffer: bool| PlaneFacts {
        attached,
        primary,
        framebuffer,
    };
    let planes = vec![plane(false, true, true), plane(true, false, true), plane(true, true, false)];
    assert_eq!(choose_plane(&planes), Some(2));
    assert_eq!(choose_plane(&vec![plane(true, false, true)]), Some(0));
    assert_eq!(choose_plane(&vec![plane(true, false, false)]), None);
}

#[test]
fn framebuffers_are_mapped_where_they_are_understood() {
    assert_eq!(legacy_format(32, 24), Ok(PixelFormat::Xrgb8888));
    assert_eq!(legacy_format(32, 32), Ok(PixelFormat::Argb8888));
    assert_eq!(
        legacy_format(16, 16),
        Err("unsupported legacy framebuffer format bpp 16 depth 16".to_string())
    );
    assert!(is_supported(PixelFormat::Argb8888) && !is_supported(PixelFormat::Other));
    assert_eq!(frame_range(7680, 1080, 64), Some((64, 64 + 7680 * 1080)));
    assert_eq!(frame_range(u32::MAX, u32::MAX, usize::MAX), None);
    assert!(needs_mapping(None, 3) && needs_mapping(Some(2), 3) && !needs_mapping(Some(3), 3));
}

#[test]
fn waiting_for_the_display_logs_now_and_then() {
    let mut w = DisplayWait::new(0, Some(20 * SECOND));
    assert_eq!(w.on_failure(0), WaitStep::Retry { log: true });
    assert_eq!(w.on_failure(SECOND), WaitStep::Retry { log: false });
    assert_eq!(w.on_failure(LOG_INTERVAL), WaitStep::Retry { log: false });
    assert_eq!(w.on_failure(LOG_INTERVAL + 1), WaitStep::Retry { log: true });
    assert_eq!(w.on_failure(20 * SECOND), WaitStep::GiveUp);
    let mut forever = DisplayWait::new(0, None);
    assert_eq!(forever.on_failure(1000 * SECOND), WaitStep::Retry { log: true });
}

// ---- setup ----

#[test]
fn templates_contain_the_moving_parts() {
    let x = xorg_conf("/dev/dri/card0", "Virtual-1");
    assert!(x.contains("Option     \"kmsdev\"      \"/dev/dri/card0\""));
    assert!(x.contains("Identifier \"Virtual-1\""));
    assert!(x.contains("\"AccelMethod\" \"none\""));
    assert!(x.contains("PreferredMode\" \"1920x1080\""));
    let l = lightdm_conf("ubuntu");
    assert!(l.contains("autologin-user=ubuntu"));
    let s = service_unit(
        "ubuntu",
        "/usr/local/bin/vmdesk-server",
        "/etc/vmdesk/config.toml",
    );
    assert!(s.contains(
        "ExecStart=/usr/local/bin/vmdesk-server run --config /etc/vmdesk/config.toml"
    ));
    assert!(s.contains("User=ubuntu"));
    assert!(s.contains("AmbientCapabilities=CAP_SYS_ADMIN"));
    assert!(UDEV_RULE_TEXT.contains("GROUP=\"input\""));
}

const PASSWD: &str = "root:x:0:0:root:/root:/bin/bash\nubuntu:x:1000:1000:Ubuntu:/home/ubuntu:/bin/bash\nshort:x\n";

#[test]
fn setup_keeps_what_is_configured() {
    let mut cfg = Config::default();
    cfg.network.public_ip = "82.70.62.40".into();
    cfg.capture.card = "/dev/dri/card3".into();
    let before = cfg.to_commented_toml();
    let again = new_config(cfg, false, true, None, None);
    assert_eq!(again.to_commented_toml(), before);
    let moved = new_config(again, false, true, Some("1.2.3.4".into()), Some("::1".into()));
    assert_eq!(moved.network.public_ip, "1.2.3.4");
    assert_eq!(moved.network.public_ipv6, "::1");
    let first = new_config(Config::default(), true, true, None, None);
    assert_eq!(first.capture.card, VKMS_BY_PATH);
    assert_eq!(new_config(Config::default(), true, false, None, None), Config::default());
    assert!(apt_packages().contains(&"lightdm"));
    assert_eq!(no_blank_files().len(), 3);
    assert_eq!(monitor_name(&strings(&["Virtual-2"]), ""), "Virtual-2");
    assert_eq!(monitor_name(&strings(&["Virtual-2"]), "DP-1"), "DP-1");
    assert_eq!(monitor_name(&strings(&["DP-1", "Virtual-2", "Virtual-3"]), ""), "Virtual-2");
    assert_eq!(monitor_name(&vec![], ""), "Virtual-1");
    assert!(user_exists(PASSWD, "ubuntu") && !user_exists(PASSWD, "ubunt"));
    assert_eq!(home_dir(PASSWD, "ubuntu"), Some("/home/ubuntu".to_string()));
    assert_eq!(home_dir(PASSWD, "short"), None);
    assert_eq!(
        firewall_insert(50_000, 50_100).join(" "),
        "-I INPUT 1 -p udp -m udp --dport 50000:50100 -j ACCEPT"
    );
    assert_eq!(
        firewall_check(50_000, 50_100).join(" "),
        "-C INPUT -p udp -m udp --dport 50000:50100 -j ACCEPT"
    );
}

// ---- doctor ----

#[test]
fn report_shows_every_check_with_its_fix() {
    let checks = vec![
        check_vkms_module(true),
        check_xorg_conf(false),
        display_missing("no display".to_string(), ""),
    ];
    let (lines, ok) = report(&checks);
    assert!(!ok);
    assert_eq!(
        lines,
        [
            "PASS  vkms module            loaded",
            "WARN  xorg.conf.d            /etc/X11/xorg.conf.d/10-vkms.conf missing",
            "      fix: sudo ./server setup",
            "FAIL  Xorg on vkms           no display",
            "      fix: Is the desktop up? systemctl status lightdm; journalctl -u lightdm -b; grep -E '\\(EE\\)|vkms' /var/log/Xorg.0.log",
            "      fix: After `sudo ./server setup` a reboot is needed once.",
            "",
            "1 check(s) failed.",
        ]
    );
    // Warnings fail nothing.
    let (lines, ok) = report(&vec![check_xorg_conf(false)]);
    assert!(ok);
    assert_eq!(lines.last().unwrap(), "All checks passed.");
}

#[test]
fn display_checks_read_well() {
    assert_eq!(check_vkms_module(false).status, Status::Fail);
    assert_eq!(
        vkms_card_found("/dev/dri/card1", "vkms", &strings(&["Virtual-1"])).detail,
        "/dev/dri/card1 (driver vkms, connectors [\"Virtual-1\"])"
    );
    assert_eq!(vkms_card_missing("x".to_string()).status, Status::Fail);
    assert_eq!(
        display_active("Virtual-1", 1920, 1080, 60, "").detail,
        "Virtual-1 active, 1920x1080@60Hz (connector selected by type)"
    );
    assert_eq!(
        display_active("DP-1", 800, 600, 75, "DP-1").detail,
        "DP-1 active, 800x600@75Hz"
    );
    assert!(display_missing("x".to_string(), "DP-1")
        .fix
        .unwrap()
        .starts_with("capture.connector = \"DP-1\" is set"));
    assert_eq!(
        capture_works(1920, 1080, "Xrgb8888", 7680, 2_149_000).detail,
        "1920x1080 Xrgb8888 pitch 7680 in 2.1 ms"
    );
    assert_eq!(capture_fails("x".to_string()).status, Status::Fail);
}

#[test]
fn permissions_are_checked() {
    assert_eq!(check_capability(true, "", "./server").detail, "running as root");
    let status = "Name:\tserver\nCapEff:\t0000000000200000\nCapEff:\t0\n";
    assert_eq!(effective_capabilities(status), 0x20_0000);
    assert_eq!(check_capability(false, status, "./server").status, Status::Pass);
    let refused = check_capability(false, "CapEff:\t00000000001fffff\n", "./server");
    assert_eq!(refused.status, Status::Fail);
    assert_eq!(
        refused.fix.unwrap(),
        "sudo setcap cap_sys_admin+ep ./server   (the systemd service gets it via AmbientCapabilities)"
    );
    assert_eq!(effective_capabilities("CapEff: +fF\n"), 255);
    assert_eq!(effective_capabilities("CapEff:\txyz\n"), 0);
    assert_eq!(effective_capabilities("CapEff:\t1ffffffffffffffff\n"), 0);
    assert_eq!(effective_capabilities("CapEff:\t+\n"), 0);
    assert_eq!(effective_capabilities(""), 0);
    assert_eq!(check_uinput(Uinput::Writable).status, Status::Pass);
    assert_eq!(check_uinput(Uinput::Missing).detail, "missing");
    assert_eq!(
        check_uinput(Uinput::Refused("denied".to_string())).detail,
        "not writable: denied"
    );
    let groups = "input:x:104:ubuntu\nvideo:x:44:alice,ubuntu,bob\n";
    assert_eq!(
        check_groups(false, groups, "ubuntu").detail,
        "ubuntu is in input and video"
    );
    assert_eq!(check_groups(false, groups, "alice").detail, "alice is not in input");
    assert_eq!(
        check_groups(false, groups, "carol").detail,
        "carol is not in input, video"
    );
    assert_eq!(check_groups(false, "", "x").status, Status::Warn);
    assert_eq!(check_groups(true, "", "x").status, Status::Pass);
}

#[test]
fn network_is_checked() {
    let mut cfg = Config::default();
    assert!(configured_ipv4(&cfg).is_none());
    assert_eq!(check_ipv6(&cfg, None).status, Status::Warn);
    assert_eq!(
        check_ipv6(&cfg, Some("2603::5")).detail,
        "2603::5 (interface, advertised as a host candidate)"
    );
    cfg.network.public_ip = "1.2.3.4".into();
    cfg.network.public_ipv6 = "::1".into();
    assert_eq!(configured_ipv4(&cfg).unwrap().detail, "1.2.3.4 (config)");
    assert_eq!(check_ipv6(&cfg, None).detail, "::1 (config override)");
    cfg.network.ipv6 = false;
    assert_eq!(check_ipv6(&cfg, None).detail, "disabled in config (IPv4 only)");
    assert_eq!(
        detected_ipv4(Ok("1.2.3.4".to_string())).detail,
        "1.2.3.4 (OCI metadata)"
    );
    assert_eq!(detected_ipv4(Err("x".to_string())).status, Status::Fail);
    assert_eq!(
        health_request("127.0.0.1:8080"),
        "GET /health HTTP/1.1\r\nHost: 127.0.0.1:8080\r\nConnection: close\r\n\r\n"
    );
    let addr = "127.0.0.1:8080";
    assert_eq!(
        check_signalling_port(addr, None).detail,
        "127.0.0.1:8080 free (server not running)"
    );
    assert_eq!(
        check_signalling_port(addr, Some("HTTP/1.1 200 OK\r\n\r\nvmdesk")).status,
        Status::Pass
    );
    assert_eq!(
        check_signalling_port(addr, Some("HTTP/1.1 200 OK\r\n\r\nother")).status,
        Status::Fail
    );
    assert_eq!(check_signalling_port(addr, Some("vmdesk")).status, Status::Fail);
    assert_eq!(check_service("active", "enabled").status, Status::Pass);
    assert_eq!(
        check_service("inactive", "enabled").detail,
        "active: inactive, enabled: enabled"
    );
}

#[test]
fn firewall_rules_are_read_in_order() {
    let accept = "-A INPUT -p udp -m udp --dport 50000:50100 -j ACCEPT";
    let reject = "-A INPUT -j REJECT --reject-with icmp-host-prohibited";
    let tcp = "-A INPUT -p tcp -m tcp --dport 22 -j DROP";
    let check = |rules: &[&str]| {
        check_firewall("iptables", 50_000, 50_100, RuleListing::Rules(rules.join("\n")))
    };
    assert_eq!(check(&[accept, reject]).detail, "UDP 50000:50100 accepted");
    assert_eq!(check(&[tcp, accept]).status, Status::Pass);
    let late = check(&[reject, accept]);
    assert_eq!(
        late.detail,
        "UDP 50000:50100 ACCEPT rule comes after a REJECT/DROP rule"
    );
    assert_eq!(
        late.fix.unwrap(),
        "sudo iptables -I INPUT 1 -p udp -m udp --dport 50000:50100 -j ACCEPT && sudo netfilter-persistent save"
    );
    assert_eq!(check(&[reject]).detail, "no ACCEPT rule for UDP 50000:50100");
    let refused = RuleListing::Refused(" denied\n".to_string());
    assert_eq!(
        check_firewall("ip6tables", 1, 2, refused).detail,
        "cannot list rules (denied)"
    );
    let missing = RuleListing::NotRunnable("not found".to_string());
    assert_eq!(
        check_firewall("ip6tables", 1, 2, missing).detail,
        "ip6tables not runnable: not found"
    );
}

#[test]
fn speed_is_judged() {
    let c = check_convert(21 * MS, 11 * MS, 4);
    assert_eq!(
        c.detail,
        "1080p copy 2.1 ms + XRGB->I420 1.1 ms (scalar kernel, 4 threads)"
    );
    assert_eq!(c.status, Status::Pass);
    assert_eq!(check_convert(60 * MS, 60 * MS, 4).status, Status::Warn);
    let cfg = Config::default();
    let s = encoder_test_settings(&cfg);
    assert_eq!((s.width, s.height, s.fps, s.bitrate_kbps), (1920, 1080, 30, 12_000));
    assert_eq!(encoder_missing("x".to_string()).status, Status::Fail);
    let unit = |keyframe: bool| EncodeOutcome::Unit { bytes: 9, keyframe };
    assert!(judge_test_frame(0, unit(true), String::new()).is_none());
    assert!(judge_test_frame(1, unit(false), String::new()).is_none());
    assert_eq!(
        judge_test_frame(0, unit(false), String::new()).unwrap().detail,
        "first frame is not an IDR"
    );
    assert_eq!(
        judge_test_frame(7, EncodeOutcome::Skipped, String::new()).unwrap().detail,
        "frame 7 skipped"
    );
    assert_eq!(
        judge_test_frame(7, EncodeOutcome::Failed, "x".to_string()).unwrap().detail,
        "x"
    );
    let test = |total: u64| EncoderTest {
        total,
        max: 24 * MS,
        idr_bytes: 90_000,
        total_bytes: 1_500_000,
        fps: 30,
    };
    let fast = judge_encoder(test(300 * MS));
    assert_eq!(fast.status, Status::Pass);
    assert_eq!(
        fast.detail,
        "OpenH264 1080p: 100 fps sustained (10.0 ms/frame avg, 24 ms max), IDR 90000 bytes, 12000 kbit/s at 30 fps target"
    );
    assert_eq!(judge_encoder(test(SECOND)).status, Status::Pass);
    assert_eq!(judge_encoder(test(SECOND + 1)).status, Status::Warn);
    assert_eq!(judge_encoder(test(1515 * MS)).status, Status::Warn);
    assert_eq!(judge_encoder(test(1516 * MS)).status, Status::Fail);
}

#[test]
fn the_encoder_test_adds_up_its_frames() {
    let mut t = EncoderTest::new(30);
    t.record(0, 90_000, 24 * MS);
    t.record(1, 10_000, 9 * MS);
    assert_eq!((t.pts_ms(0), t.pts_ms(1), t.pts_ms(29)), (0, 33, 966));
    let done = t.finish(SECOND);
    assert_eq!(
        done,
        EncoderTest {
            total: SECOND,
            max: 24 * MS,
            idr_bytes: 90_000,
            total_bytes: 100_000,
            fps: 30,
        }
    );
}

#[test]
fn a_runtime_error_asks_to_retry() {
    let check = runtime_failed("no threads");
    assert_eq!(check.status, Status::Fail);
    assert_eq!(check.detail, "runtime error: no threads");
    assert_eq!(check.fix.as_deref(), Some("retry"));
}

#[test]
fn setup_warns_without_a_public_address() {
    let none = || Err("no publicIp in metadata response: []".to_string());
    assert_eq!(
        public_ip_warning("", none()).as_deref(),
        Some("warning: no public IPv4 (no publicIp in metadata response: []); run: sudo ./server setup --skip-apt --public-ip <VM public IPv4>")
    );
    assert_eq!(public_ip_warning("129.146.1.2", none()), None);
    assert_eq!(public_ip_warning("", Ok("129.146.1.2".to_string())), None);
}
