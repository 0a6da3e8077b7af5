//! Reassembly of access units from RTP packets, with packets made by a real packetizer.
use std::time::Instant;

use bytes::Bytes;
use rtc::rtp::codec::h264::H264Payloader;
use rtc::rtp::Packet;
use rtc::rtp::packetizer::{new_packetizer, Packetizer};
use rtc::rtp::sequence::new_fixed_sequencer;
use vmdesk::client::assembler::{
    ends_nal_unit, is_partition_head, AccessUnitAssembler, RtpPacket, SeqUnwrapper,
};
use vmdesk::client::depacketizer::{depacketize_unit, is_cut_aggregate};
use vmdesk::client::net::{new_assembler, LossReport};
use vmdesk::e2e::nal_types as types_in;

const MTU: usize = 1200;
const MS: u64 = 1_000_000;

/// A NAL unit with a 4-byte start code. `fill` must be non-zero: a real bitstream never
/// contains `00 00 0x` inside a NAL unit (emulation prevention), and the payloader relies
/// on that to find NAL boundaries.
fn nal(nal_type: u8, len: usize, fill: u8) -> Vec<u8> {
    assert_ne!(fill, 0);
    let mut v = vec![0, 0, 0, 1, 0x60 | nal_type];
    v.extend(std::iter::repeat_n(fill, len));
    v
}

/// Access unit `index`: SPS + PPS + two big IDR slices for keyframes, two P slices
/// otherwise.
fn access_unit(index: usize) -> Vec<u8> {
    let fill = (index % 250) as u8 + 1;
    let mut au = Vec::new();
    if index % 10 == 0 {
        au.extend(nal(7, 12, 0x11));
        au.extend(nal(8, 4, 0x22));
        au.extend(nal(5, 30_000 + index * 7, fill));
        au.extend(nal(5, 20_000, 0x33));
    } else {
        au.extend(nal(1, 900 + (index * 131) % 2_500, fill));
        au.extend(nal(1, 300, 0x44));
    }
    au
}

fn nal_types(annexb: &[u8]) -> Vec<u8> {
    let mut types = Vec::new();
    let mut i = 0;
    while i + 4 <= annexb.len() {
        if annexb[i..i + 4] == [0, 0, 0, 1] {
            types.push(annexb[i + 4] & 0x1F);
            i += 5;
        } else {
            i += 1;
        }
    }
    types
}

fn packetize(units: usize, first_seq: u16) -> Vec<Vec<Packet>> {
    let mut p = new_packetizer(
        Instant::now(),
        MTU,
        102,
        7,
        Box::new(H264Payloader::default()),
        Box::new(new_fixed_sequencer(first_seq)),
        90_000,
    );
    (0..units)
        .map(|i| {
            p.packetize(Instant::now(), &Bytes::from(access_unit(i)), 3000)
                .unwrap()
        })
        .collect()
}

/// What the assembler reads of a packet.
fn plain(p: &Packet) -> RtpPacket {
    RtpPacket {
        sequence_number: p.header.sequence_number,
        timestamp: p.header.timestamp,
        marker: p.header.marker,
        payload: p.payload.to_vec(),
    }
}

fn assembler() -> AccessUnitAssembler {
    AccessUnitAssembler::new(500 * MS, 4096)
}

#[test]
fn units_come_out_on_the_marker_without_waiting_for_the_next_frame() {
    let mut a = assembler();
    let now = 1000 * MS;
    for (i, packets) in packetize(12, 100).into_iter().enumerate() {
        let expected = access_unit(i);
        assert!(packets.len() > 1 || i % 10 != 0, "IDR must span packets");
        let n = packets.len();
        for (k, p) in packets.into_iter().enumerate() {
            a.push(now, plain(&p));
            let popped = a.pop(now);
            if k + 1 < n {
                assert!(popped.is_none(), "unit {i} emitted before its marker");
            } else {
                let au = popped.unwrap_or_else(|| panic!("unit {i} not emitted on marker"));
                assert_eq!(&au[..], &expected[..], "unit {i} differs");
            }
        }
    }
    assert_eq!(a.stats.access_units, 12);
    assert_eq!(a.stats.dropped_units, 0);
    assert_eq!(a.pending(), 0);
}

#[test]
fn large_units_are_not_truncated_or_duplicated() {
    // 50 KB IDR = ~43 packets, far beyond the old 64-packet window when several queue up.
    let mut a = AccessUnitAssembler::new(500 * MS, 4096);
    let now = 1000 * MS;
    let frames = packetize(21, 60_000); // crosses the u16 wrap-around too
    let mut out = Vec::new();
    for packets in frames {
        for p in packets {
            a.push(now, plain(&p));
            while let Some(au) = a.pop(now) {
                out.push(au);
            }
        }
    }
    assert_eq!(out.len(), 21);
    for (i, au) in out.iter().enumerate() {
        assert_eq!(&au[..], &access_unit(i)[..], "unit {i}");
    }
    assert_eq!(nal_types(&out[0]), vec![7, 8, 5, 5]);
    assert_eq!(nal_types(&out[10]), vec![7, 8, 5, 5]);
    assert_eq!(types_in(&out[0]), vec![7, 8, 5, 5]);
}

#[test]
fn reordered_packets_within_a_unit_are_fine() {
    let mut a = assembler();
    let now = 1000 * MS;
    let mut frames = packetize(2, 500);
    let idr = frames.remove(0);
    let n = idr.len();
    assert!(n > 4);
    // Deliver the IDR with two packets swapped and the marker packet early.
    let mut order: Vec<usize> = (0..n).collect();
    order.swap(1, 2);
    let marker = order.remove(n - 1);
    order.insert(3, marker);
    let mut emitted = None;
    for idx in order {
        a.push(now, plain(&idr[idx]));
        if let Some(au) = a.pop(now) {
            emitted = Some(au);
        }
    }
    assert_eq!(&emitted.unwrap()[..], &access_unit(0)[..]);
    assert_eq!(a.stats.late_packets, 0);
}

#[test]
fn a_lost_packet_is_waited_for_then_the_unit_is_abandoned() {
    let mut a = assembler();
    let t0 = 1000 * MS;
    let frames = packetize(3, 10);
    // Unit 0 (IDR) loses its third packet.
    for (k, p) in frames[0].iter().enumerate() {
        if k != 2 {
            a.push(t0, plain(p));
        }
    }
    assert!(a.pop(t0).is_none());
    // Unit 1 arrives 33 ms later: still waiting for the retransmission.
    let t1 = t0 + 33 * MS;
    for p in &frames[1] {
        a.push(t1, plain(p));
    }
    assert!(a.pop(t1).is_none(), "must not skip ahead before max_wait");
    // The retransmission arrives in time: both units come out, in order.
    let t2 = t0 + 60 * MS;
    a.push(t2, plain(&frames[0][2]));
    assert_eq!(&a.pop(t2).unwrap()[..], &access_unit(0)[..]);
    assert_eq!(&a.pop(t2).unwrap()[..], &access_unit(1)[..]);
    assert!(a.pop(t2).is_none());
    assert_eq!(a.stats.dropped_units, 0);

    // Same scenario, but the retransmission never comes.
    let mut a = assembler();
    let frames = packetize(3, 10);
    for (k, p) in frames[0].iter().enumerate() {
        if k != 2 {
            a.push(t0, plain(p));
        }
    }
    for p in &frames[1] {
        a.push(t1, plain(p));
    }
    assert!(a.pop(t1).is_none());
    let late = t1 + 600 * MS;
    for p in &frames[2] {
        a.push(late, plain(p));
    }
    // Unit 0 is abandoned, units 1 and 2 come out.
    assert_eq!(&a.pop(late).unwrap()[..], &access_unit(1)[..]);
    assert_eq!(&a.pop(late).unwrap()[..], &access_unit(2)[..]);
    assert_eq!(a.stats.dropped_units, 1);
    assert_eq!(a.stats.dropped_packets as usize, frames[0].len() - 1);
    // The retransmission arriving now is ignored.
    a.push(late, plain(&frames[0][2]));
    assert!(a.pop(late).is_none());
    assert_eq!(a.stats.late_packets, 1);
}

#[test]
fn lost_marker_completes_on_the_next_timestamp_when_the_nal_is_closed() {
    let mut a = assembler();
    let now = 1000 * MS;
    let frames = packetize(3, 1000);
    // Unit 1 has two single-NAL packets; drop its second (the marker) entirely.
    for p in &frames[0] {
        a.push(now, plain(p));
    }
    assert!(a.pop(now).is_some());
    a.push(now, plain(&frames[1][0]));
    assert!(a.pop(now).is_none());
    // Unit 2 starts: unit 1 is still incomplete because packet frames[1][1] is missing,
    // not just its marker -> wait, then abandon.
    for p in &frames[2] {
        a.push(now + MS, plain(p));
    }
    assert!(a.pop(now + MS).is_none());
    let later = now + 700 * MS;
    assert_eq!(&a.pop(later).unwrap()[..], &access_unit(2)[..]);
    assert_eq!(a.stats.dropped_units, 1);

    // A unit whose *marker bit* was cleared (not lost) still completes on the next start.
    let mut a = assembler();
    let mut frames = packetize(2, 2000);
    let last = frames[0].len() - 1;
    frames[0][last].header.marker = false;
    for p in &frames[0] {
        a.push(now, plain(p));
    }
    assert!(a.pop(now).is_none());
    a.push(now, plain(&frames[1][0]));
    assert_eq!(&a.pop(now).unwrap()[..], &access_unit(0)[..]);
}

#[test]
fn stream_joined_mid_unit_starts_at_the_next_partition_head() {
    let mut a = assembler();
    let now = 1000 * MS;
    let frames = packetize(2, 77);
    // Skip the first 3 packets of the IDR (STAP-A and two fragments).
    for p in frames[0].iter().skip(3) {
        a.push(now, plain(p));
    }
    // The remaining fragments are not a head... except the second slice's FU-A start,
    // which is a partition head: that slice comes out alone (the decoder will reject it
    // and ask for a keyframe, which is the right outcome).
    let mut got = Vec::new();
    while let Some(au) = a.pop(now) {
        got.push(au);
    }
    assert!(got.len() <= 1);
    for p in &frames[1] {
        a.push(now, plain(p));
    }
    assert_eq!(&a.pop(now).unwrap()[..], &access_unit(1)[..]);
    assert!(a.stats.dropped_packets >= 1);
}

#[test]
fn duplicates_and_buffer_bound() {
    let mut a = AccessUnitAssembler::new(10_000 * MS, 8);
    let now = 1000 * MS;
    let frames = packetize(2, 5);
    a.push(now, plain(&frames[1][0]));
    a.push(now, plain(&frames[1][0]));
    assert_eq!(a.stats.late_packets, 1);
    // Fill beyond the bound with fragments of a unit whose head never arrives.
    for p in frames[0].iter().skip(1).take(12) {
        a.push(now, plain(p));
    }
    assert!(a.pending() <= 9, "pending {}", a.pending());
    assert!(a.stats.dropped_units >= 1);
}

#[test]
fn helpers_classify_payloads() {
    assert!(is_partition_head(&[0x65, 0x88])); // single NAL
    assert!(is_partition_head(&[0x78, 0x05, 0x00])); // STAP-A
    assert!(is_partition_head(&[0x7C, 0x85, 0x00])); // FU-A with S bit
    assert!(!is_partition_head(&[0x7C, 0x05, 0x00])); // FU-A middle
    assert!(ends_nal_unit(&[0x65, 0x88]));
    assert!(ends_nal_unit(&[0x7C, 0x45, 0x00])); // FU-A with E bit
    assert!(!ends_nal_unit(&[0x7C, 0x05, 0x00]));
    assert!(!ends_nal_unit(&[]));
    let mut u = SeqUnwrapper::default();
    let a = u.extend(65_534);
    assert_eq!(u.extend(65_535), a + 1);
    assert_eq!(u.extend(0), a + 2);
    assert_eq!(u.extend(1), a + 3);
    assert_eq!(u.extend(65_535), a + 1); // late packet keeps its old position
    assert_eq!(u.extend(2), a + 4);
}

#[test]
fn short_payloads_are_no_heads() {
    assert!(!is_partition_head(&[]));
    assert!(!is_partition_head(&[0x65]));
    assert!(is_partition_head(&[0x7D, 0x80])); // FU-B with S bit
    assert!(!is_partition_head(&[0x7D, 0x00]));
    assert!(ends_nal_unit(&[0x65]));
    assert!(!ends_nal_unit(&[0x7C]));
}

#[test]
fn payloads_are_joined_with_start_codes() {
    assert_eq!(depacketize_unit(&vec![vec![0x65, 1, 2]]), Some(vec![0, 0, 0, 1, 0x65, 1, 2]));
    // A STAP-A with two NAL units.
    assert_eq!(
        depacketize_unit(&vec![vec![0x78, 0, 2, 0x67, 9, 0, 1, 0x68]]),
        Some(vec![0, 0, 0, 1, 0x67, 9, 0, 0, 0, 1, 0x68])
    );
    // Two fragments of one NAL unit.
    assert_eq!(
        depacketize_unit(&vec![vec![0x7C, 0x85, 7], vec![0x7C, 0x45, 8]]),
        Some(vec![0, 0, 0, 1, 0x65, 7, 8])
    );
    // An aggregate that is cut off inside a length field cannot be read.
    let cut = vec![0x78, 0, 1, 0x67, 0];
    assert!(is_cut_aggregate(&cut));
    assert_eq!(depacketize_unit(&vec![cut]), None);
    // A NAL unit type that is not handled.
    assert_eq!(depacketize_unit(&vec![vec![0x7E, 1, 2]]), None);
}

#[test]
fn mixed_payloads_come_back_as_the_unit_that_was_sent() {
    // SPS and PPS in an aggregate, one slice whole, one slice in three fragments.
    let payloads = vec![
        vec![0x78, 0, 3, 0x67, 1, 2, 0, 2, 0x68, 3],
        vec![0x65, 4, 5],
        vec![0x7C, 0x85, 6],
        vec![0x7C, 0x05, 7, 8],
        vec![0x7C, 0x45, 9],
    ];
    let mut unit = Vec::new();
    for nal in [&[0x67, 1, 2][..], &[0x68, 3], &[0x65, 4, 5], &[0x65, 6, 7, 8, 9]] {
        unit.extend([0, 0, 0, 1]);
        unit.extend(nal);
    }
    assert_eq!(depacketize_unit(&payloads), Some(unit));
    // An access unit delimiter of two bytes is long enough, another NAL unit is not.
    assert_eq!(depacketize_unit(&vec![vec![0x09, 0xF0]]), Some(vec![0, 0, 0, 1, 0x09, 0xF0]));
    assert_eq!(depacketize_unit(&vec![vec![0x65, 0xF0]]), None);
    // Fragments that never end give nothing; an aggregate that promises too much is refused.
    assert_eq!(depacketize_unit(&vec![vec![0x7C, 0x85, 6]]), None);
    assert_eq!(depacketize_unit(&vec![vec![0x78, 0, 9, 0x67]]), None);
    assert_eq!(depacketize_unit(&vec![]), None);
}

#[test]
fn damaged_unit_is_dropped_and_the_next_comes_out() {
    let mut a = new_assembler();
    let packet = |sequence_number: u16, timestamp: u32, payload: Vec<u8>| RtpPacket {
        sequence_number,
        timestamp,
        marker: true,
        payload,
    };
    a.push(0, packet(1, 10, vec![0x78, 0, 1, 0x67, 0]));
    a.push(0, packet(2, 20, vec![0x61, 3, 4]));
    assert_eq!(a.pop(0), Some(vec![0, 0, 0, 1, 0x61, 3, 4]));
    assert_eq!(a.stats.dropped_units, 1);
    assert_eq!(a.stats.access_units, 1);
    // An old packet stays out for good.
    a.push(0, packet(1, 10, vec![0x61, 3, 4]));
    assert_eq!(a.pop(0), None);
    assert_eq!(a.stats.late_packets, 1);
}

#[test]
fn packets_of_an_abandoned_unit_are_ignored() {
    let mut a = AccessUnitAssembler::new(500 * MS, 2);
    let packet = |sequence_number: u16, timestamp: u32, marker: bool| RtpPacket {
        sequence_number,
        timestamp,
        marker,
        payload: vec![0x61, 3, 4],
    };
    for seq in 1..=3 {
        a.push(0, packet(seq, 10, false));
    }
    assert_eq!(a.stats.dropped_units, 1);
    assert_eq!(a.pending(), 0);
    // The rest of the unit comes too late, though it starts a NAL unit.
    a.push(0, packet(4, 10, true));
    assert_eq!(a.pending(), 0);
    assert_eq!(a.stats.late_packets, 1);
    assert_eq!(a.pop(0), None);
    // The next unit comes out.
    a.push(0, packet(5, 20, true));
    assert_eq!(a.pop(0), Some(vec![0, 0, 0, 1, 0x61, 3, 4]));
    assert!(a.has_room());
}

#[test]
fn losses_are_reported_every_ten_seconds() {
    let mut a = new_assembler();
    let mut report = LossReport::new(0);
    let second = 1_000 * MS;
    assert_eq!(report.update(10 * second, &a.stats), None);
    let packet = RtpPacket {
        sequence_number: 1,
        timestamp: 10,
        marker: true,
        payload: vec![0x61, 3, 4],
    };
    a.push(0, packet);
    assert!(a.pop(0).is_some());
    let again = RtpPacket {
        sequence_number: 1,
        timestamp: 10,
        marker: true,
        payload: vec![0x61, 3, 4],
    };
    a.push(0, again);
    assert_eq!(report.update(19 * second, &a.stats), None);
    assert_eq!(
        report.update(20 * second, &a.stats),
        Some("video: 1 access units, 0 dropped (packet loss), 1 late/duplicate packets".to_string())
    );
    // Nothing new was lost.
    assert_eq!(report.update(30 * second, &a.stats), None);
}

#[test]
fn a_unit_between_the_packets_of_another_sets_the_floor() {
    let mut a = AccessUnitAssembler::new(500 * MS, 100);
    let packet = |sequence_number: u16, timestamp: u32, marker: bool| RtpPacket {
        sequence_number,
        timestamp,
        marker,
        payload: vec![0x61, 3, timestamp as u8],
    };
    a.push(0, packet(10, 1, false));
    a.push(0, packet(12, 2, true));
    a.push(0, packet(14, 1, false));
    assert_eq!(a.pop(499 * MS), None);
    assert_eq!(a.pop(500 * MS), Some(vec![0, 0, 0, 1, 0x61, 3, 2]));
    assert_eq!((a.stats().dropped_units, a.stats().dropped_packets), (1, 2));
    // Right behind it, a third unit goes on.
    a.push(500 * MS, packet(13, 3, true));
    assert_eq!(a.stats().late_packets, 0);
    assert_eq!(a.pop(500 * MS), Some(vec![0, 0, 0, 1, 0x61, 3, 3]));
    a.push(500 * MS, packet(12, 2, true));
    assert_eq!(a.stats().late_packets, 1);
    assert_eq!((a.stats().access_units, a.pending()), (2, 0));
}
