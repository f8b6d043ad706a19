use sip::echo::{
    data_len, icmp_pack, ping_recv, shows_code, starts_with_digit, EchoVerdict, ECHO_LEN,
};
use sip::error::NetError;
use sip::header::{Header, IPv4};
use sip::ip::inet_cksum;
use sip::ping::{RequestRecord, Stats, StatsGroup};
use sip::scan::{recv_arp, send_arp, SCAN_LEN};
use sip::wire::ipv4;

fn group() -> StatsGroup {
    StatsGroup::new(ipv4(10, 0, 0, 1), 1_000, 5_000, 500)
}

#[test]
fn new_session_is_empty() {
    let g = group();
    assert_eq!((g.sent_cnt, g.recv_cnt, g.lost_cnt), (0, 0, 0));
    assert_eq!(g.sent_time, 1_000);
    assert_eq!(g.dst_ip, ipv4(10, 0, 0, 1));
    assert!(g.tbl.is_empty());
    assert_eq!(g.cwnd(), 0);
    // An interval that does not divide the timeout is as good.
    assert!(StatsGroup::new(1, 0, 7, 3).tbl.is_empty());
}

#[test]
fn push_counts_a_request() {
    let mut g = group();
    g.push(RequestRecord { seq: 1, sent: 10 });
    g.push(RequestRecord { seq: 2, sent: 20 });
    assert_eq!(g.sent_cnt, 2);
    assert_eq!(g.cwnd(), 2);
    assert_eq!(g.tbl, vec![RequestRecord { seq: 1, sent: 10 }, RequestRecord { seq: 2, sent: 20 }]);
}

#[test]
fn remove_takes_the_oldest_request_of_the_number() {
    let mut g = group();
    g.push(RequestRecord { seq: 1, sent: 10 });
    g.push(RequestRecord { seq: 2, sent: 20 });
    g.push(RequestRecord { seq: 1, sent: 30 });
    assert_eq!(g.remove(7), None);
    assert_eq!(g.recv_cnt, 0);
    assert_eq!(g.remove(1), Some(RequestRecord { seq: 1, sent: 10 }));
    assert_eq!(g.recv_cnt, 1);
    assert_eq!(g.tbl, vec![RequestRecord { seq: 2, sent: 20 }, RequestRecord { seq: 1, sent: 30 }]);
    assert_eq!(g.cwnd(), 2);
}

#[test]
fn remove_expired_gives_up_the_oldest() {
    let ms = 1_000_000u128;
    let mut g = group();
    g.push(RequestRecord { seq: 1, sent: 0 });
    g.push(RequestRecord { seq: 2, sent: 1_000 * ms });
    g.push(RequestRecord { seq: 3, sent: 2_000 * ms });
    // At 5.5 s with a timeout of 5 s only the first request timed out.
    let gone = g.remove_expired(5_500 * ms, 5_000);
    assert_eq!(gone, vec![RequestRecord { seq: 1, sent: 0 }]);
    assert_eq!(g.lost_cnt, 1);
    assert_eq!(g.tbl.len(), 2);
    // Nothing more at the same time.
    assert!(g.remove_expired(5_500 * ms, 5_000).is_empty());
    assert_eq!(g.lost_cnt, 1);
    // Once the youngest timed out all are given up.
    let gone = g.remove_expired(7_000 * ms, 5_000);
    assert_eq!(gone.len(), 2);
    assert_eq!(gone[0].seq, 2);
    assert_eq!(g.lost_cnt, 3);
    assert!(g.tbl.is_empty());
    assert_eq!(g.cwnd(), 0);
    assert!(g.remove_expired(8_000 * ms, 5_000).is_empty());
}

#[test]
fn remove_expired_stops_at_the_first_pending_request() {
    let ms = 1_000_000u128;
    let mut g = group();
    // Out of order: the second request is younger than the third.
    g.push(RequestRecord { seq: 1, sent: 0 });
    g.push(RequestRecord { seq: 2, sent: 3_000 * ms });
    g.push(RequestRecord { seq: 3, sent: 100 * ms });
    g.push(RequestRecord { seq: 4, sent: 4_000 * ms });
    let gone = g.remove_expired(5_200 * ms, 5_000);
    assert_eq!(gone, vec![RequestRecord { seq: 1, sent: 0 }]);
    assert_eq!(g.tbl.len(), 3);
}

#[test]
fn elapsed_reports_the_counters() {
    let mut g = group();
    g.push(RequestRecord { seq: 1, sent: 1_100 });
    g.remove(1);
    let stats = g.elapsed(4_000);
    assert_eq!(
        stats,
        Stats { dst_ip: ipv4(10, 0, 0, 1), sent_cnt: 1, recv_cnt: 1, lost_cnt: 0, diff_time: 3_000 }
    );
    assert_eq!(g.elapsed(1_000).diff_time, 0);
}

#[test]
fn loss_rate_in_whole_percent() {
    let stats = |recv_cnt, lost_cnt| Stats { dst_ip: 0, sent_cnt: 0, recv_cnt, lost_cnt, diff_time: 0 };
    assert_eq!(stats(0, 0).loss_rate(), None);
    assert_eq!(stats(3, 0).loss_rate(), Some(0));
    assert_eq!(stats(0, 3).loss_rate(), Some(100));
    assert_eq!(stats(2, 1).loss_rate(), Some(33));
    assert_eq!(stats(1, 2).loss_rate(), Some(66));
}

#[test]
fn echo_request_bytes() {
    let packet = icmp_pack(0x0102, 0x0f0e0d0c0b0a09080706050403020100);
    assert_eq!(packet.len(), ECHO_LEN);
    assert_eq!(packet.len(), 32);
    assert_eq!(&packet[..2], &[8, 0]);
    assert_eq!(&packet[4..8], &[0, 0, 0x01, 0x02]);
    assert_eq!(&packet[8..16], &[0u8; 8]);
    assert_eq!(
        &packet[16..],
        &[0u8, 1, 2, 3, 4, 5, 6, 7, 8, 9, 10, 11, 12, 13, 14, 15]
    );
    // Words: 0800 + 0102 + 0001 + 0203 + ... + 0e0f = 0x4142, complemented.
    assert_eq!(&packet[2..4], &[0xbe, 0xbd]);
    assert_eq!(inet_cksum(&packet), 0);
}

fn datagram(src: u32, ty: u8, seq: u16, sent: u128) -> Vec<u8> {
    let header = IPv4 {
        ihl_v: 0x45,
        tos: 0,
        totlen: 52,
        id: 7,
        flags_off: 0,
        ttl: 57,
        proto: 1,
        cksum: 0,
        src,
        dst: ipv4(192, 168, 1, 10),
    }
    .checksummed();
    let mut buf = Vec::new();
    header.encode(&mut buf);
    let mut echo = icmp_pack(seq, sent);
    echo[0] = ty;
    echo[2] = 0;
    echo[3] = 0;
    let cksum = inet_cksum(&echo);
    echo[2] = (cksum >> 8) as u8;
    echo[3] = cksum as u8;
    buf.extend_from_slice(&echo);
    buf
}

#[test]
fn echo_reply_is_read() {
    let peer = ipv4(192, 168, 1, 1);
    let buf = datagram(peer, 0, 0x0203, 123_456_789);
    assert_eq!(
        ping_recv(&buf, peer),
        EchoVerdict::Reply { totlen: 52, seq: 0x0203, ttl: 57, sent: 123_456_789 }
    );
    // Bytes behind the packet do not matter.
    let mut longer = buf.clone();
    longer.extend_from_slice(&[0xaa; 9]);
    assert_eq!(
        ping_recv(&longer, peer),
        EchoVerdict::Reply { totlen: 52, seq: 0x0203, ttl: 57, sent: 123_456_789 }
    );
}

#[test]
fn datagrams_not_for_the_session_are_ignored() {
    let peer = ipv4(192, 168, 1, 1);
    let buf = datagram(peer, 0, 1, 5);
    assert_eq!(ping_recv(&buf[..51], peer), EchoVerdict::Ignore);
    assert_eq!(ping_recv(&[], peer), EchoVerdict::Ignore);
    assert_eq!(ping_recv(&buf, ipv4(192, 168, 1, 2)), EchoVerdict::Ignore);
    let mut bad = buf.clone();
    bad[8] = 56;
    assert_eq!(ping_recv(&bad, peer), EchoVerdict::Ignore);
    // A zero header checksum is not verified.
    let mut offloaded = bad.clone();
    offloaded[10] = 0;
    offloaded[11] = 0;
    assert_eq!(
        ping_recv(&offloaded, peer),
        EchoVerdict::Reply { totlen: 52, seq: 1, ttl: 56, sent: 5 }
    );
    // The session's own request on the loopback.
    let lo = ipv4(127, 0, 0, 1);
    assert_eq!(ping_recv(&datagram(lo, 8, 1, 5), lo), EchoVerdict::Ignore);
    assert_eq!(
        ping_recv(&datagram(lo, 0, 1, 5), lo),
        EchoVerdict::Reply { totlen: 52, seq: 1, ttl: 57, sent: 5 }
    );
}

#[test]
fn other_messages_and_bad_checksums() {
    let peer = ipv4(192, 168, 1, 1);
    let mut buf = datagram(peer, 3, 1, 5);
    buf[21] = 1;
    assert_eq!(ping_recv(&buf, peer), EchoVerdict::Other { totlen: 52, ty: 3, code: 1 });
    assert_eq!(
        ping_recv(&datagram(peer, 8, 1, 5), peer),
        EchoVerdict::Other { totlen: 52, ty: 8, code: 0 }
    );
    let mut bad = datagram(peer, 0, 1, 5);
    bad[40] ^= 0x10;
    assert_eq!(ping_recv(&bad, peer), EchoVerdict::BadChecksum { totlen: 52 });
    assert!(shows_code(3) && shows_code(9) && shows_code(10) && shows_code(11) && shows_code(12));
    assert!(!shows_code(0) && !shows_code(8) && !shows_code(13) && !shows_code(5));
}

#[test]
fn scan_request_bytes() {
    let frame = send_arp(ipv4(192, 168, 1, 10), ipv4(192, 168, 1, 1));
    assert_eq!(frame.len(), SCAN_LEN);
    let mut expected = vec![0xffu8; 12];
    expected.extend_from_slice(&[0x08, 0x06, 0x00, 0x01, 0x08, 0x00, 0x06, 0x04, 0x00, 0x01]);
    expected.extend_from_slice(&[0xff; 6]);
    expected.extend_from_slice(&[192, 168, 1, 10]);
    expected.extend_from_slice(&[0; 6]);
    expected.extend_from_slice(&[192, 168, 1, 1]);
    assert_eq!(frame, expected);
}

#[test]
fn scan_reply_names_its_sender() {
    let me = ipv4(192, 168, 1, 10);
    let mut frame = vec![0u8; 60];
    frame[14 + 8..14 + 14].copy_from_slice(&[2, 0, 0, 0, 0, 7]);
    frame[14 + 14..14 + 18].copy_from_slice(&[192, 168, 1, 1]);
    frame[14 + 24..14 + 28].copy_from_slice(&[192, 168, 1, 10]);
    let (ip, mac) = recv_arp(&frame, me).unwrap().expect("a reply for the scanner");
    assert_eq!(ip, ipv4(192, 168, 1, 1));
    assert_eq!(mac.octets, [2, 0, 0, 0, 0, 7]);
    assert!(recv_arp(&frame, ipv4(192, 168, 1, 11)).unwrap().is_none());
    assert!(recv_arp(&frame[..42], me).unwrap().is_some());
    assert_eq!(recv_arp(&frame[..41], me).unwrap_err(), NetError::TruncatedFrame);
}

#[test]
fn payload_length_and_host_form() {
    assert_eq!(data_len(52), 32);
    assert_eq!(data_len(20), 0);
    assert_eq!(data_len(19), 0);
    assert_eq!(data_len(u16::MAX), u16::MAX - 20);
    assert!(starts_with_digit("10.0.0.1"));
    assert!(starts_with_digit("9"));
    assert!(!starts_with_digit("example.org"));
    assert!(!starts_with_digit("/0"));
    assert!(!starts_with_digit(":1"));
}
