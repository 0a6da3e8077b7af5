//! The wire protocol: key codes, messages, SDP, signalling and log limiting.
use vmdesk::ip::{is_ip, is_ipv4, is_ipv6, read_ipv4, read_ipv6};
use vmdesk::proto::keycode::KeyCode;
use vmdesk::proto::logging::{
    default_filter, max_level, rounded_seconds, Level, RateLimitedLogger, BURST, WINDOW,
};
use vmdesk::proto::message::{
    ControlMessage, DecodeError, MouseButton, MouseMove, TAG_BUTTON, TAG_KEY, TAG_MOUSE_MOVE,
    TAG_RELEASE_ALL,
};
use vmdesk::proto::sdp::{
    address_family, candidate_count, format_endpoint, has_media, host_candidate_addresses,
    is_ice_lite, rewrite_host_candidates,
};
use vmdesk::proto::signalling::SessionDescription;

const SECOND: u64 = 1_000_000_000;

// ---- key codes ----

#[test]
fn wire_values_are_dense_and_round_trip() {
    assert_eq!(KeyCode::all().len(), 194, "winit 0.30 has 194 key codes");
    for (i, &k) in KeyCode::all().iter().enumerate() {
        assert_eq!(k.as_u16() as usize, i);
        assert_eq!(KeyCode::from_u16(k.as_u16()), Some(k));
    }
    assert_eq!(KeyCode::from_u16(KeyCode::all().len() as u16), None);
    assert_eq!(KeyCode::from_u16(u16::MAX), None);
}

#[test]
fn stable_anchor_values() {
    // Guard against accidental reordering: these values are part of the wire format.
    assert_eq!(KeyCode::Backquote.as_u16(), 0);
    assert_eq!(KeyCode::KeyA.as_u16(), 19);
    assert_eq!(KeyCode::Escape.as_u16(), 114);
    assert_eq!(KeyCode::F1.as_u16(), 159);
    assert_eq!(KeyCode::F35.as_u16(), 193);
    assert_eq!(KeyCode::KeyA.name(), "KeyA");
    assert_eq!(KeyCode::F11.to_string(), "F11");
}

#[test]
fn every_name_is_the_name_of_the_variant() {
    let mut names = Vec::new();
    for k in KeyCode::all() {
        assert_eq!(k.name(), format!("{k:?}"));
        assert!(!names.contains(&k.name()), "{} twice", k.name());
        names.push(k.name());
    }
}

// ---- messages ----

fn all_control_messages() -> Vec<ControlMessage> {
    let mut v = vec![
        ControlMessage::Hello { version: 1 },
        ControlMessage::Hello { version: u16::MAX },
        ControlMessage::Wheel {
            horizontal: -3,
            vertical: 7,
        },
        ControlMessage::Wheel {
            horizontal: i16::MIN,
            vertical: i16::MAX,
        },
        ControlMessage::SetBitrate { kbps: 12_000 },
        ControlMessage::SetBitrate { kbps: u32::MAX },
        ControlMessage::ReleaseAll,
    ];
    for code in KeyCode::all() {
        v.push(ControlMessage::Key {
            code,
            pressed: true,
        });
        v.push(ControlMessage::Key {
            code,
            pressed: false,
        });
    }
    for button in MouseButton::all() {
        v.push(ControlMessage::Button {
            button,
            pressed: true,
        });
        v.push(ControlMessage::Button {
            button,
            pressed: false,
        });
    }
    v
}

#[test]
fn control_round_trip() {
    for msg in all_control_messages() {
        let bytes = msg.encode();
        assert!(bytes.len() <= ControlMessage::MAX_ENCODED_LEN, "{msg:?}");
        assert_eq!(ControlMessage::decode(&bytes), Ok(msg), "{msg:?}");
    }
}

#[test]
fn control_rejects_bad_input() {
    assert_eq!(ControlMessage::decode(&[]), Err(DecodeError::Empty));
    assert_eq!(
        ControlMessage::decode(&[0xEE]),
        Err(DecodeError::UnknownTag(0xEE))
    );
    assert_eq!(
        ControlMessage::decode(&[TAG_KEY, 0x00]),
        Err(DecodeError::Truncated {
            expected: 4,
            actual: 2
        })
    );
    assert_eq!(
        ControlMessage::decode(&[TAG_RELEASE_ALL, 0x00]),
        Err(DecodeError::Trailing(1))
    );
    assert_eq!(
        ControlMessage::decode(&[TAG_KEY, 0xFF, 0xFF, 0x01]),
        Err(DecodeError::UnknownKey(0xFFFF))
    );
    assert_eq!(
        ControlMessage::decode(&[TAG_BUTTON, 0x09, 0x01]),
        Err(DecodeError::UnknownButton(9))
    );
}

#[test]
fn mouse_round_trip() {
    for m in [
        MouseMove { x: 0, y: 0 },
        MouseMove {
            x: u16::MAX,
            y: u16::MAX,
        },
        MouseMove {
            x: 0x1234,
            y: 0xABCD,
        },
    ] {
        assert_eq!(MouseMove::decode(&m.encode()), Ok(m));
    }
    assert_eq!(MouseMove::decode(&[]), Err(DecodeError::Empty));
    assert_eq!(
        MouseMove::decode(&[TAG_MOUSE_MOVE, 1, 2]),
        Err(DecodeError::Truncated {
            expected: 5,
            actual: 3
        })
    );
    assert_eq!(
        MouseMove::decode(&[TAG_MOUSE_MOVE, 1, 2, 3, 4, 5]),
        Err(DecodeError::Trailing(1))
    );
    // Control tags are never valid on the mouse channel and vice versa.
    assert_eq!(
        MouseMove::decode(&[TAG_RELEASE_ALL]),
        Err(DecodeError::UnknownTag(TAG_RELEASE_ALL))
    );
    assert_eq!(
        ControlMessage::decode(&MouseMove { x: 1, y: 1 }.encode()),
        Err(DecodeError::UnknownTag(TAG_MOUSE_MOVE))
    );
}

#[test]
fn message_bytes_are_little_endian() {
    assert_eq!(ControlMessage::Hello { version: 0x0102 }.encode(), [0x01, 0x02, 0x01]);
    assert_eq!(
        ControlMessage::Key {
            code: KeyCode::F35,
            pressed: true
        }
        .encode(),
        [0x02, 193, 0, 1]
    );
    assert_eq!(
        ControlMessage::Wheel {
            horizontal: -1,
            vertical: 2
        }
        .encode(),
        [0x04, 0xFF, 0xFF, 2, 0]
    );
    assert_eq!(
        ControlMessage::SetBitrate { kbps: 0x0102_0304 }.encode(),
        [0x05, 4, 3, 2, 1]
    );
    assert_eq!(MouseMove { x: 0x1234, y: 0xABCD }.encode(), [0x10, 0x34, 0x12, 0xCD, 0xAB]);
    // Any byte but zero means pressed.
    assert_eq!(
        ControlMessage::decode(&[TAG_BUTTON, 0, 7]),
        Ok(ControlMessage::Button {
            button: MouseButton::Left,
            pressed: true
        })
    );
    let mut buf = vec![9];
    ControlMessage::ReleaseAll.encode_into(&mut buf);
    assert_eq!(buf, [9, TAG_RELEASE_ALL]);
}

#[test]
fn decode_errors_read_well() {
    assert_eq!(DecodeError::Empty.to_string(), "message is empty");
    assert_eq!(DecodeError::UnknownTag(0xEE).to_string(), "unknown message tag 238");
    assert_eq!(
        DecodeError::Truncated {
            expected: 4,
            actual: 2
        }
        .to_string(),
        "message truncated: expected 4 bytes, got 2"
    );
    assert_eq!(DecodeError::Trailing(3).to_string(), "trailing bytes after message: 3");
    assert_eq!(DecodeError::UnknownKey(500).to_string(), "unknown key code 500");
    assert_eq!(DecodeError::UnknownButton(9).to_string(), "unknown mouse button 9");
}

#[test]
fn buttons_have_dense_wire_values() {
    for (i, b) in MouseButton::all().into_iter().enumerate() {
        assert_eq!(b.as_u8() as usize, i);
        assert_eq!(MouseButton::from_u8(b.as_u8()), Some(b));
    }
    assert_eq!(MouseButton::from_u8(5), None);
}

// ---- SDP ----

const ANSWER: &str = "v=0\r\n\
o=- 3901 2 IN IP4 127.0.0.1\r\n\
s=-\r\n\
t=0 0\r\n\
a=ice-lite\r\n\
a=group:BUNDLE 0 1\r\n\
m=video 9 UDP/TLS/RTP/SAVPF 102\r\n\
c=IN IP4 10.0.0.7\r\n\
a=rtcp:9 IN IP4 0.0.0.0\r\n\
a=candidate:1234 1 udp 2130706431 10.0.0.7 50000 typ host generation 0\r\n\
a=candidate:5678 1 UDP 2130706175 172.17.0.1 50000 typ host generation 0\r\n\
a=candidate:abcd 1 udp 2130705919 2603:c020:4000:1::5 50000 typ host generation 0\r\n\
a=candidate:9999 1 udp 1694498815 203.0.113.9 50000 typ srflx raddr 10.0.0.7 rport 50000\r\n\
a=end-of-candidates\r\n\
a=mid:0\r\n\
a=sendonly\r\n\
m=application 9 UDP/DTLS/SCTP webrtc-datachannel\r\n\
c=IN IP4 0.0.0.0\r\n\
a=mid:1\r\n";

#[test]
fn inspection() {
    assert!(has_media(ANSWER, "video"));
    assert!(has_media(ANSWER, "application"));
    assert!(!has_media(ANSWER, "audio"));
    assert_eq!(candidate_count(ANSWER), 4);
    assert!(is_ice_lite(ANSWER));
    assert!(!is_ice_lite("v=0\r\na=ice-options:trickle\r\n"));
    assert_eq!(
        host_candidate_addresses(ANSWER),
        vec![
            "10.0.0.7".to_string(),
            "172.17.0.1".to_string(),
            "2603:c020:4000:1::5".to_string()
        ]
    );
    assert_eq!(address_family("10.0.0.7"), "IPv4");
    assert_eq!(address_family("2603:c020:4000:1::5"), "IPv6");
    assert_eq!(format_endpoint("10.0.0.7", 50000), "10.0.0.7:50000");
    assert_eq!(format_endpoint("2603::5", 50001), "[2603::5]:50001");
}

#[test]
fn rewrite_replaces_ipv4_hosts_and_keeps_ipv6() {
    let out = rewrite_host_candidates(ANSWER, Some("129.146.1.2"), None);
    assert!(out.contains(
        "a=candidate:1234 1 udp 2130706431 129.146.1.2 50000 typ host generation 0\r\n"
    ));
    // The second IPv4 host candidate (other interface, same port) collapses into the first.
    assert!(!out.contains("172.17.0.1"));
    assert!(!out.contains("10.0.0.7 50000"));
    // The IPv6 host candidate is global: kept verbatim.
    assert!(out.contains(
        "a=candidate:abcd 1 udp 2130705919 2603:c020:4000:1::5 50000 typ host generation 0\r\n"
    ));
    assert_eq!(candidate_count(&out), 3);
    // srflx candidate untouched.
    assert!(out.contains(
        "a=candidate:9999 1 udp 1694498815 203.0.113.9 50000 typ srflx raddr 10.0.0.7 rport 50000\r\n"
    ));
    // c= lines: real address rewritten, 0.0.0.0 placeholder kept.
    assert!(out.contains("c=IN IP4 129.146.1.2\r\n"));
    assert!(out.contains("c=IN IP4 0.0.0.0\r\n"));
    // Everything else identical, CRLF preserved.
    assert!(out.contains("a=ice-lite\r\n"));
    assert!(out.contains("a=end-of-candidates\r\n"));
    assert!(out.ends_with("a=mid:1\r\n"));
    assert_eq!(
        host_candidate_addresses(&out),
        vec!["129.146.1.2".to_string(), "2603:c020:4000:1::5".to_string()]
    );
}

#[test]
fn rewrite_with_ipv6_override_and_without_ipv4() {
    let out = rewrite_host_candidates(ANSWER, None, Some("2001:db8::42"));
    // No IPv4 replacement: private IPv4 candidates stay (deduped by address, so both remain).
    assert!(out.contains("10.0.0.7 50000 typ host"));
    assert!(out.contains("172.17.0.1 50000 typ host"));
    assert!(out.contains("c=IN IP4 10.0.0.7\r\n"));
    // IPv6 replaced.
    assert!(out.contains(
        "a=candidate:abcd 1 udp 2130705919 2001:db8::42 50000 typ host generation 0\r\n"
    ));
    assert!(!out.contains("2603:c020"));
    assert_eq!(candidate_count(&out), 4);
    let both = rewrite_host_candidates(ANSWER, Some("129.146.1.2"), Some("2001:db8::42"));
    assert_eq!(
        host_candidate_addresses(&both),
        vec!["129.146.1.2".to_string(), "2001:db8::42".to_string()]
    );
}

#[test]
fn rewrite_keeps_lf_endings_and_untouched_input() {
    let lf = "v=0\na=candidate:1 1 udp 1 192.168.1.5 50001 typ host\n";
    let out = rewrite_host_candidates(lf, Some("8.8.4.4"), None);
    assert_eq!(out, "v=0\na=candidate:1 1 udp 1 8.8.4.4 50001 typ host\n");
    let plain = "v=0\r\ns=-\r\n";
    assert_eq!(rewrite_host_candidates(plain, Some("1.2.3.4"), None), plain);
    // Nothing to replace: identical output.
    assert_eq!(rewrite_host_candidates(lf, None, None), lf);
    let v6 = "c=IN IP6 2001:db8::1\r\nc=IN IP6 ::\r\n";
    assert_eq!(
        rewrite_host_candidates(v6, None, Some("2001:db8::9")),
        "c=IN IP6 2001:db8::9\r\nc=IN IP6 ::\r\n"
    );
}

#[test]
fn blanks_between_extensions_do_not_hide_a_host_candidate() {
    let sdp = "a=candidate:1 1 udp 1 10.0.0.7 50000 typ host generation  0\r\n";
    let out = rewrite_host_candidates(sdp, Some("129.146.1.2"), None);
    assert_eq!(
        out,
        "a=candidate:1 1 udp 1 129.146.1.2 50000 typ host generation  0\r\n"
    );
    assert_eq!(host_candidate_addresses(sdp), vec!["10.0.0.7"]);
    // Extensions that look like the words in front of them.
    let sdp = "a=candidate:1 1 udp 1 10.0.0.7 50000 typ host 1  udp\n";
    let out = rewrite_host_candidates(sdp, Some("129.146.1.2"), None);
    assert_eq!(out, "a=candidate:1 1 udp 1 129.146.1.2 50000 typ host 1  udp\n");
    // Blanks elsewhere become single spaces, those at the end stay.
    let sdp = "a=candidate:1  1 udp 1 10.0.0.7 50000  typ host  generation 0 \n";
    let out = rewrite_host_candidates(sdp, Some("129.146.1.2"), None);
    assert_eq!(
        out,
        "a=candidate:1 1 udp 1 129.146.1.2 50000 typ host generation 0 \n"
    );
    let bare = "a=candidate:1 1 udp 1 10.0.0.7 50000 typ host  \n";
    assert_eq!(
        rewrite_host_candidates(bare, Some("129.146.1.2"), None),
        "a=candidate:1 1 udp 1 129.146.1.2 50000 typ host\n"
    );
}

#[test]
fn rewriting_twice_is_rewriting_once() {
    let (v4, v6) = (Some("129.146.1.2"), Some("2001:db8::42"));
    let mixed = "a=x\r\r\n\nc=IN IP4 10.0.0.7\na=candidate:1 1 udp 1 10.0.0.7 5 typ host \r";
    for sdp in [ANSWER, "c=IN IP4 10.0.0.7\nm=video 9\n", mixed, ""] {
        for (a, b) in [(v4, v6), (v4, None), (None, v6), (None, None)] {
            let once = rewrite_host_candidates(sdp, a, b);
            assert_eq!(rewrite_host_candidates(&once, a, b), once);
        }
    }
}

#[test]
fn rewrite_keeps_blank_lines_and_each_line_ending() {
    let sdp = "v=0\r\n\r\n\na=candidate:1 1 udp 1 10.0.0.7 50000 typ host\ns=-\r\n\r\r\nt=0 0";
    assert_eq!(
        rewrite_host_candidates(sdp, Some("129.146.1.2"), None),
        "v=0\r\n\r\n\na=candidate:1 1 udp 1 129.146.1.2 50000 typ host\ns=-\r\n\r\r\nt=0 0"
    );
    assert_eq!(rewrite_host_candidates("", Some("129.146.1.2"), None), "");
    assert_eq!(rewrite_host_candidates("v=0\r", Some("129.146.1.2"), None), "v=0\r");
    assert_eq!(rewrite_host_candidates("\n\n", Some("129.146.1.2"), None), "\n\n");
}

#[test]
fn repeated_hosts_share_transport_address_and_port() {
    let sdp = "a=candidate:1 1 udp 9 10.0.0.7 50000 typ host generation 0\r\n\
a=candidate:2 1 UDP 8 10.0.0.8 50000 typ host generation 1\r\n\
a=candidate:3 1 tcp 7 10.0.0.8 50000 typ host\r\n\
a=candidate:4 2 udp 6 10.0.0.8 50001 typ host\r\n";
    assert_eq!(
        rewrite_host_candidates(sdp, Some("129.146.1.2"), None),
        "a=candidate:1 1 udp 9 129.146.1.2 50000 typ host generation 0\r\n\
a=candidate:3 1 tcp 7 129.146.1.2 50000 typ host\r\n\
a=candidate:4 2 udp 6 129.146.1.2 50001 typ host\r\n"
    );
    let odd = "a=candidate:1 1 u|a 1 b 50000 typ host\na=candidate:2 1 u 1 a|b 50000 typ host\n";
    assert_eq!(rewrite_host_candidates(odd, None, None), odd);
}

#[test]
fn malformed_candidate_lines_pass_through() {
    let bad = "a=candidate:garbage\r\n";
    assert_eq!(rewrite_host_candidates(bad, Some("1.2.3.4"), None), bad);
    assert_eq!(candidate_count(bad), 1);
    assert!(host_candidate_addresses(bad).is_empty());
}

// ---- addresses ----

#[test]
fn addresses_are_read() {
    let chars: Vec<char> = "82.70.62.40".chars().collect();
    assert_eq!(read_ipv4(&chars), Some([82, 70, 62, 40]));
    assert!(is_ipv4("0.0.0.0"));
    assert!(!is_ipv4("256.0.0.1"));
    assert!(!is_ipv4("1.2.3"));
    assert!(!is_ipv4("01.2.3.4"));
    assert!(!is_ipv4(" 1.2.3.4"));
    assert_eq!(read_ipv6("::1"), Some(vec![0, 0, 0, 0, 0, 0, 0, 1]));
    assert_eq!(
        read_ipv6("2001:db8::ffff:1.2.3.4"),
        Some(vec![0x2001, 0xdb8, 0, 0, 0, 0xffff, 0x0102, 0x0304])
    );
    assert_eq!(read_ipv6("1:2:3:4:5:6:7:8"), Some(vec![1, 2, 3, 4, 5, 6, 7, 8]));
    assert!(!is_ipv6("1:2:3"));
    assert!(!is_ipv6("1::2::3"));
    assert!(!is_ipv6("82.70.62.40"));
    assert!(is_ip("::") && is_ip("1.2.3.4") && !is_ip("not-an-ip"));
}

// ---- signalling ----

#[test]
fn descriptions_know_their_kind() {
    let d = SessionDescription::offer("v=0\r\n".to_string());
    assert_eq!((d.kind.as_str(), d.sdp.as_str()), ("offer", "v=0\r\n"));
    assert!(d.is_offer());
    let a = SessionDescription::answer("x".to_string());
    assert_eq!(a.kind, "answer");
    assert!(!a.is_offer());
}

// ---- log limiting ----

fn pass_warning(
    limiter: &mut RateLimitedLogger<()>,
    target: &str,
    msg: &str,
    now: u64,
) -> (bool, Option<String>) {
    limiter.admit_record(Level::Warn, target, msg, now)
}

#[test]
fn burst_passes_then_suppresses_and_summarises() {
    let mut limiter = RateLimitedLogger::with_limits((), vec!["server"], 3, 5 * SECOND);
    let t0 = 100 * SECOND;
    let mut passed = 0;
    for i in 0..10 {
        let msg = format!("srtp index={i}: duplicated");
        let (pass, summary) = pass_warning(&mut limiter, "rtc::srtp", &msg, t0);
        assert!(summary.is_none());
        if pass {
            passed += 1;
        }
    }
    assert_eq!(passed, 3);
    // Our own targets are never limited.
    for _ in 0..20 {
        let (pass, _) = pass_warning(&mut limiter, "server::pipeline", "x", t0);
        assert!(pass);
    }
    // Next window: one summary naming the count and an example, then records pass again.
    let (pass, summary) = pass_warning(&mut limiter, "rtc::srtp", "later", t0 + 6 * SECOND);
    assert!(pass);
    let summary = summary.expect("summary after a window with suppressed records");
    assert!(
        summary.contains("7 more warn message(s) from rtc::srtp"),
        "{summary}"
    );
    assert!(summary.contains("index=3: duplicated"), "{summary}");
    // A quiet window produces no summary.
    let (_, summary) = pass_warning(&mut limiter, "rtc::srtp", "quiet", t0 + 12 * SECOND);
    assert!(summary.is_none());
}

#[test]
fn logger_forwards_summary_then_record() {
    let mut limiter = RateLimitedLogger::with_limits((), vec![], 1, 1_000_000);
    let mut lines: Vec<String> = Vec::new();
    for (msg, now) in [("first", 0), ("second", 0), ("third", 5_000_000)] {
        let (summary, pass) = limiter.route(true, Level::Warn, "webrtc", msg, now);
        if let Some(s) = summary {
            lines.push(format!("webrtc {s}"));
        }
        if pass {
            lines.push(format!("webrtc {msg}"));
        }
    }
    assert_eq!(lines.len(), 3, "{lines:?}");
    assert_eq!(lines[0], "webrtc first");
    assert!(lines[1].starts_with("webrtc 1 more warn message(s) from webrtc"));
    assert_eq!(lines[2], "webrtc third");
    // What is not enabled is not counted.
    assert_eq!(limiter.route(false, Level::Debug, "webrtc", "x", 6_000_000), (None, false));
}

#[test]
fn default_filters_quiet_the_libraries_by_default() {
    assert!(default_filter(0).contains("rtc=warn"));
    assert!(default_filter(1).contains("rtc=info"));
    assert_eq!(default_filter(5), "trace");
}

#[test]
fn default_limits_apply() {
    let mut limiter = RateLimitedLogger::new(7u8, vec!["server"]);
    assert_eq!(*limiter.inner(), 7);
    for i in 0..20 {
        let (pass, _) = limiter.admit_record(Level::Info, "rtc", "x", 0);
        assert_eq!(pass, i < BURST);
    }
    // Another level and another target are counted apart.
    assert!(limiter.admit_record(Level::Warn, "rtc", "x", 0).0);
    assert!(limiter.admit_record(Level::Info, "ice", "x", 0).0);
    let (pass, summary) = limiter.admit_record(Level::Info, "rtc", "x", WINDOW);
    assert!(pass && summary.is_some());
}

#[test]
fn a_summary_quotes_plain_text_as_it_is() {
    let plain: String = (' '..='~').filter(|c| *c != '"' && *c != '\\').collect();
    for (message, quoted) in [
        (plain.as_str(), format!("\"{plain}\"")),
        ("", "\"\"".to_string()),
        ("a\"b\\c\n", "\"a\\\"b\\\\c\\n\"".to_string()),
    ] {
        let mut limiter = RateLimitedLogger::with_limits((), vec![], 0, SECOND);
        assert_eq!(limiter.admit_record(Level::Warn, "rtc", message, 0), (false, None));
        let (_, summary) = limiter.admit_record(Level::Warn, "rtc", "x", SECOND);
        assert_eq!(
            summary,
            Some(format!(
                "1 more warn message(s) from rtc suppressed in the last 1s, e.g. {quoted}"
            ))
        );
    }
}

#[test]
fn levels_and_seconds() {
    assert_eq!(max_level(0), Level::Info);
    assert_eq!(max_level(1), Level::Debug);
    assert_eq!(max_level(2), Level::Trace);
    assert_eq!(Level::Warn.name(), "warn");
    assert_eq!(rounded_seconds(5_400_000_000), 5);
    assert_eq!(rounded_seconds(5_600_000_000), 6);
}
