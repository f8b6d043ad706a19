use sip::arp::{ARPRecTbl, ARP_TBL_SZ};
use sip::dev::{
    find_inet_addr, find_packet_addr, make_bind_address, IfAddr, LinkInfo, NetDevice, AF_PACKET,
    PACKET_HOST,
};
use sip::error::NetError;
use sip::eth::{LinkAction, LinkCursor};
use sip::header::{ARPOpKind, IPv4};
use sip::skbuff::SkBuff;
use sip::wire::{ipv4, Mac};

const MY_MAC: [u8; 6] = [0x02, 0xaa, 0xbb, 0xcc, 0xdd, 0x01];
const PEER_MAC: [u8; 6] = [0x02, 0x11, 0x22, 0x33, 0x44, 0x55];

fn table() -> Vec<IfAddr> {
    vec![
        IfAddr::Packet { name: "lo".to_string(), ifindex: 1, addr: Mac::zero() },
        IfAddr::Inet { name: "lo".to_string(), addr: ipv4(127, 0, 0, 1), mask: ipv4(255, 0, 0, 0) },
        IfAddr::Other { name: "eth0".to_string() },
        IfAddr::Packet { name: "eth0".to_string(), ifindex: 2, addr: Mac::new(MY_MAC) },
        IfAddr::Inet {
            name: "eth0".to_string(),
            addr: ipv4(192, 168, 1, 10),
            mask: ipv4(255, 255, 255, 0),
        },
        IfAddr::Inet {
            name: "eth0".to_string(),
            addr: ipv4(10, 9, 8, 7),
            mask: ipv4(255, 255, 0, 0),
        },
        IfAddr::Packet { name: "wlan0".to_string(), ifindex: 3, addr: Mac::new(PEER_MAC) },
    ]
}

fn link() -> LinkInfo {
    LinkInfo { gateway: Some(ipv4(192, 168, 1, 1)), hwt: 1, mtu: 1500 }
}

fn device() -> NetDevice {
    NetDevice::init("eth0", &table(), link()).expect("known interface")
}

fn valid_count(tbl: &ARPRecTbl) -> usize {
    (0..ARP_TBL_SZ).filter(|i| tbl.get(*i).is_valid).count()
}

fn who_has(dst: [u8; 6], op: u16, target: [u8; 4]) -> Vec<u8> {
    let mut f = Vec::new();
    f.extend_from_slice(&dst);
    f.extend_from_slice(&PEER_MAC);
    f.extend_from_slice(&[0x08, 0x06]);
    f.extend_from_slice(&[0x00, 0x01, 0x08, 0x00, 0x06, 0x04]);
    f.extend_from_slice(&op.to_be_bytes());
    f.extend_from_slice(&PEER_MAC);
    f.extend_from_slice(&[192, 168, 1, 20]);
    f.extend_from_slice(&[0u8; 6]);
    f.extend_from_slice(&target);
    f
}

fn request_frame(target: [u8; 4]) -> Vec<u8> {
    let mut f = vec![0xffu8; 6];
    f.extend_from_slice(&MY_MAC);
    f.extend_from_slice(&[0x08, 0x06, 0x00, 0x01, 0x08, 0x00, 0x06, 0x04, 0x00, 0x01]);
    f.extend_from_slice(&MY_MAC);
    f.extend_from_slice(&[192, 168, 1, 10]);
    f.extend_from_slice(&[0u8; 6]);
    f.extend_from_slice(&target);
    f.extend_from_slice(&[0u8; 18]);
    f
}

fn segment_of(skb: &SkBuff) -> Vec<u8> {
    skb.phy.unwrap().cur_slice(skb.data.as_ref().unwrap())
}

#[test]
fn init_resolves_the_interface() {
    let dev = device();
    assert_eq!(dev.name, "eth0");
    assert_eq!(dev.ip, ipv4(192, 168, 1, 10));
    assert_eq!(dev.netmask, ipv4(255, 255, 255, 0));
    assert_eq!(dev.gateway, ipv4(192, 168, 1, 1));
    assert_eq!(dev.hwa.octets, MY_MAC);
    assert_eq!(dev.hwt, 1);
    assert_eq!(dev.mtu, 1500);
    assert_eq!(dev.to.family, AF_PACKET);
    assert_eq!(dev.to.family, 17);
    assert_eq!(dev.to.protocol, 0x0806);
    assert_eq!(dev.to.ifindex, 2);
    assert_eq!(dev.to.hatype, 1);
    assert_eq!(dev.to.pkttype, PACKET_HOST);
    assert_eq!(dev.to.halen, 6);
    assert_eq!(dev.to.addr, [0x02, 0xaa, 0xbb, 0xcc, 0xdd, 0x01, 0, 0]);
}

#[test]
fn init_fails_for_unknown_interface() {
    assert_eq!(NetDevice::init("eth1", &table(), link()).unwrap_err(), NetError::InterfaceNotFound);
    assert_eq!(NetDevice::init("", &table(), link()).unwrap_err(), NetError::InterfaceNotFound);
    assert_eq!(NetDevice::init("eth0", &Vec::new(), link()).unwrap_err(), NetError::InterfaceNotFound);
}

#[test]
fn init_fails_for_interface_without_ipv4_address() {
    assert_eq!(
        NetDevice::init("wlan0", &table(), link()).unwrap_err(),
        NetError::InterfaceNotFound
    );
}

#[test]
fn init_fails_without_gateway() {
    let no_route = LinkInfo { gateway: None, hwt: 1, mtu: 1500 };
    assert_eq!(NetDevice::init("eth0", &table(), no_route).unwrap_err(), NetError::NoGateway);
    // An unknown interface is reported before a missing route.
    assert_eq!(
        NetDevice::init("nope", &table(), no_route).unwrap_err(),
        NetError::InterfaceNotFound
    );
}

#[test]
fn table_lookups_take_the_first_entry_of_the_name() {
    let t = table();
    let (ifindex, hwa) = find_packet_addr(&t, "eth0").unwrap();
    assert_eq!((ifindex, hwa.octets), (2, MY_MAC));
    assert_eq!(find_inet_addr(&t, "eth0"), Some((ipv4(192, 168, 1, 10), ipv4(255, 255, 255, 0))));
    assert_eq!(find_inet_addr(&t, "lo"), Some((ipv4(127, 0, 0, 1), ipv4(255, 0, 0, 0))));
    assert!(find_packet_addr(&t, "eth").is_none());
    assert!(find_inet_addr(&t, "wlan0").is_none());
    assert_eq!(make_bind_address(7, &Mac::new(PEER_MAC)).addr, [0x02, 0x11, 0x22, 0x33, 0x44, 0x55, 0, 0]);
}

#[test]
fn arp_output_builds_a_minimum_length_frame() {
    let dev = device();
    let skb = dev.arp_output(
        ARPOpKind::Reply,
        ipv4(192, 168, 1, 10),
        ipv4(192, 168, 1, 20),
        Mac::new(MY_MAC),
        Mac::new(PEER_MAC),
        Mac::new(PEER_MAC),
    );
    let mut expected = Vec::new();
    expected.extend_from_slice(&PEER_MAC);
    expected.extend_from_slice(&MY_MAC);
    expected.extend_from_slice(&[0x08, 0x06, 0x00, 0x01, 0x08, 0x00, 0x06, 0x04, 0x00, 0x02]);
    expected.extend_from_slice(&MY_MAC);
    expected.extend_from_slice(&[192, 168, 1, 10]);
    expected.extend_from_slice(&PEER_MAC);
    expected.extend_from_slice(&[192, 168, 1, 20]);
    expected.extend_from_slice(&[0u8; 18]);
    assert_eq!(expected.len(), 60);
    assert_eq!(segment_of(&skb), expected);
    assert_eq!(skb.data.as_ref().unwrap().bytes, expected);
    let nh = skb.nh.expect("network-header view");
    assert_eq!((nh.start(), nh.rem_len()), (14, 46));
    assert!(skb.th.is_none());
    assert!(skb.next.is_none());
    assert_eq!(dev.linkoutput(&skb), vec![expected]);
}

#[test]
fn arp_request_inside_the_subnet_asks_for_the_address() {
    let dev = device();
    let skb = dev.arp_request(ipv4(192, 168, 1, 77));
    assert_eq!(segment_of(&skb), request_frame([192, 168, 1, 77]));
}

#[test]
fn arp_request_outside_the_subnet_asks_for_the_netmask() {
    let dev = device();
    let skb = dev.arp_request(ipv4(8, 8, 8, 8));
    assert_eq!(segment_of(&skb), request_frame([255, 255, 255, 0]));
    let skb = dev.arp_request(ipv4(192, 168, 2, 10));
    assert_eq!(segment_of(&skb), request_frame([255, 255, 255, 0]));
}

#[test]
fn who_has_request_teaches_the_cache() {
    let dev = device();
    let mut tbl = ARPRecTbl::new();
    let frame = who_has(MY_MAC, 1, [192, 168, 1, 10]);
    assert_eq!(frame.len(), 42);
    let out = dev.input_at(&frame, &mut tbl, 5_000).expect("a well-formed request");
    let rec = tbl.get(0);
    assert!(rec.is_valid);
    assert_eq!(rec.ip, ipv4(192, 168, 1, 20));
    assert_eq!(rec.mac.octets, PEER_MAC);
    assert_eq!(rec.ctime, 5_000);
    assert_eq!(valid_count(&tbl), 1);
    // A request is answered with a request of the device for the target.
    let out = out.expect("a frame to send");
    assert_eq!(segment_of(&out), request_frame([192, 168, 1, 10]));
}

#[test]
fn who_has_request_through_the_clock() {
    let dev = device();
    let mut tbl = ARPRecTbl::new();
    let frame = who_has(MY_MAC, 1, [192, 168, 1, 10]);
    assert!(dev.input(&frame, &mut tbl).is_ok());
    assert_eq!(tbl.get(0).ip, ipv4(192, 168, 1, 20));
    assert_eq!(tbl.get(0).mac.octets, PEER_MAC);
    assert!(tbl.get(0).ctime > 1_577_836_800_000_000_000);
}

#[test]
fn arp_reply_teaches_the_cache_and_sends_nothing() {
    let dev = device();
    let mut tbl = ARPRecTbl::new();
    let frame = who_has([0xff; 6], 2, [192, 168, 1, 10]);
    let out = dev.input_at(&frame, &mut tbl, 1).unwrap();
    assert!(out.is_none());
    assert_eq!(tbl.get(0).ip, ipv4(192, 168, 1, 20));
    let frame = who_has([0xff; 6], 9, [192, 168, 1, 10]);
    assert!(dev.input_at(&frame, &mut tbl, 2).unwrap().is_none());
    assert_eq!(valid_count(&tbl), 1);
}

#[test]
fn request_for_a_foreign_target_is_answered_with_the_netmask() {
    let dev = device();
    let mut tbl = ARPRecTbl::new();
    let frame = who_has([0xff; 6], 1, [10, 1, 2, 3]);
    let out = dev.input_at(&frame, &mut tbl, 1).unwrap().expect("a frame to send");
    assert_eq!(segment_of(&out), request_frame([255, 255, 255, 0]));
    assert_eq!(valid_count(&tbl), 1);
}

#[test]
fn short_frame_is_truncated_and_leaves_the_cache() {
    let dev = device();
    let mut tbl = ARPRecTbl::new();
    tbl.insert_at(5, Mac::new(PEER_MAC), 1);
    for len in [0usize, 1, 13] {
        let frame = vec![0xffu8; len];
        assert_eq!(dev.input_at(&frame, &mut tbl, 2).unwrap_err(), NetError::TruncatedFrame);
        assert_eq!(dev.input(&frame, &mut tbl).unwrap_err(), NetError::TruncatedFrame);
    }
    assert_eq!(valid_count(&tbl), 1);
    assert_eq!(tbl.get(0).ip, 5);
    assert_eq!(tbl.get(0).age, 0);
    assert_eq!(tbl.get(0).ctime, 1);
}

#[test]
fn short_arp_packet_is_truncated() {
    let dev = device();
    let mut tbl = ARPRecTbl::new();
    let mut frame = who_has(MY_MAC, 1, [192, 168, 1, 10]);
    frame.truncate(41);
    assert_eq!(dev.input_at(&frame, &mut tbl, 2).unwrap_err(), NetError::TruncatedPacket);
    frame.truncate(14);
    assert_eq!(dev.input_at(&frame, &mut tbl, 2).unwrap_err(), NetError::TruncatedPacket);
    assert_eq!(valid_count(&tbl), 0);
}

#[test]
fn frame_for_another_station_is_dropped() {
    let dev = device();
    let mut tbl = ARPRecTbl::new();
    let frame = who_has([0x02, 0, 0, 0, 0, 9], 1, [192, 168, 1, 10]);
    assert!(dev.input_at(&frame, &mut tbl, 2).unwrap().is_none());
    assert_eq!(valid_count(&tbl), 0);
    // Even a frame cut short behind the Ethernet header is no error then.
    assert!(dev.input_at(&frame[..20], &mut tbl, 2).unwrap().is_none());
}

fn ipv4_frame(dst: [u8; 6], payload: usize) -> Vec<u8> {
    let mut f = Vec::new();
    f.extend_from_slice(&dst);
    f.extend_from_slice(&PEER_MAC);
    f.extend_from_slice(&[0x08, 0x00]);
    f.extend_from_slice(&[
        0x45, 0x00, 0x00, 0x73, 0x00, 0x00, 0x40, 0x00, 0x40, 0x11, 0xb8, 0x61, 0xc0, 0xa8, 0x00,
        0x01, 0xc0, 0xa8, 0x00, 0xc7,
    ]);
    f.truncate(14 + payload);
    f
}

#[test]
fn ipv4_frame_teaches_the_cache() {
    let dev = device();
    let mut tbl = ARPRecTbl::new();
    let out = dev.input_at(&ipv4_frame(MY_MAC, 20), &mut tbl, 77).unwrap();
    assert!(out.is_none());
    let rec = tbl.get(0);
    assert!(rec.is_valid);
    assert_eq!(rec.ip, ipv4(192, 168, 0, 1));
    assert_eq!(rec.mac.octets, PEER_MAC);
    assert_eq!(rec.ctime, 77);
}

#[test]
fn short_ipv4_header_is_truncated() {
    let dev = device();
    let mut tbl = ARPRecTbl::new();
    assert_eq!(
        dev.input_at(&ipv4_frame([0xff; 6], 19), &mut tbl, 77).unwrap_err(),
        NetError::TruncatedFrame
    );
    assert_eq!(valid_count(&tbl), 0);
}

#[test]
fn other_protocols_are_dropped() {
    let dev = device();
    let mut tbl = ARPRecTbl::new();
    for proto in [[0x00u8, 0x2e], [0x05, 0xdd], [0x86, 0xdd], [0x88, 0xcc]] {
        let mut frame = who_has(MY_MAC, 1, [192, 168, 1, 10]);
        frame[12] = proto[0];
        frame[13] = proto[1];
        assert!(dev.input_at(&frame, &mut tbl, 2).unwrap().is_none());
    }
    assert_eq!(valid_count(&tbl), 0);
}

#[test]
fn arp_input_reads_the_network_header_view() {
    let dev = device();
    let mut tbl = ARPRecTbl::new();
    let frame = who_has(MY_MAC, 2, [192, 168, 1, 10]);
    let mut skb = SkBuff::from_received(&frame);
    let mut view = skb.phy.unwrap();
    view.consume::<sip::header::Eth>().unwrap();
    skb.set_nh(view).unwrap();
    assert!(dev.arp_input_at(skb, &mut tbl, 9).unwrap().is_none());
    assert_eq!(tbl.get(0).ip, ipv4(192, 168, 1, 20));

    let mut skb = SkBuff::from_received(&frame[..30]);
    let mut view = skb.phy.unwrap();
    view.consume::<sip::header::Eth>().unwrap();
    skb.set_nh(view).unwrap();
    assert_eq!(dev.arp_input(skb, &mut tbl).unwrap_err(), NetError::TruncatedPacket);
}

#[test]
fn linkoutput_sends_three_segments_in_chain_order() {
    let dev = device();
    let a = SkBuff::from_received(&[1u8, 1, 1, 1]);
    let b = SkBuff::from_received(&[2u8, 2]);
    let c = SkBuff::from_received(&[3u8, 3, 3]);
    let chain = SkBuff::chained(a, SkBuff::chained(b, c));
    let segments = dev.linkoutput(&chain);
    assert_eq!(segments, vec![vec![1u8, 1, 1, 1], vec![2, 2], vec![3, 3, 3]]);

    // A socket that takes every segment whole is called three times.
    let mut calls = Vec::new();
    let mut action = dev.link_begin(&segments);
    while let LinkAction::Transmit(at) = action {
        calls.push(segments[at.segment][at.offset..].to_vec());
        let taken = segments[at.segment].len() - at.offset;
        action = dev.link_sent(&segments, at, Ok(taken));
    }
    assert_eq!(action, LinkAction::Finished);
    assert_eq!(calls, vec![vec![1u8, 1, 1, 1], vec![2, 2], vec![3, 3, 3]]);
}

#[test]
fn linkoutput_sends_only_the_bytes_under_the_view() {
    let dev = device();
    let mut skb = SkBuff::default();
    skb.set_data(sip::rawbuf::RawBuf::new_from_slice(&[9u8, 8, 7, 6, 5])).unwrap();
    skb.set_phy(sip::rawbuf::RawBufRef::new(1, 3).unwrap()).unwrap();
    assert_eq!(dev.linkoutput(&skb), vec![vec![8u8, 7, 6]]);
}

#[test]
fn short_writes_are_retried_from_where_they_stopped() {
    let dev = device();
    let segments = vec![vec![0u8; 10], vec![1u8; 4]];
    let start = LinkCursor { segment: 0, offset: 0 };
    assert_eq!(dev.link_begin(&segments), LinkAction::Transmit(start));
    let next = dev.link_sent(&segments, start, Ok(6));
    assert_eq!(next, LinkAction::Transmit(LinkCursor { segment: 0, offset: 6 }));
    let same = dev.link_sent(&segments, LinkCursor { segment: 0, offset: 6 }, Ok(0));
    assert_eq!(same, LinkAction::Transmit(LinkCursor { segment: 0, offset: 6 }));
    let next = dev.link_sent(&segments, LinkCursor { segment: 0, offset: 6 }, Ok(4));
    assert_eq!(next, LinkAction::Transmit(LinkCursor { segment: 1, offset: 0 }));
    let end = dev.link_sent(&segments, LinkCursor { segment: 1, offset: 0 }, Ok(4));
    assert_eq!(end, LinkAction::Finished);
    assert_eq!(dev.link_begin(&Vec::new()), LinkAction::Finished);
}

#[test]
fn socket_error_aborts_the_chain() {
    let dev = device();
    let segments = vec![vec![0u8; 10], vec![1u8; 4]];
    let at = LinkCursor { segment: 0, offset: 3 };
    assert_eq!(
        dev.link_sent(&segments, at, Err(32)),
        LinkAction::Abort(NetError::SocketError(32))
    );
}

#[test]
fn ip_output_builds_the_header() {
    let dev = device();
    let skb = dev.arp_request(ipv4(192, 168, 1, 1));
    let h = dev.ip_output(&skb, ipv4(192, 168, 0, 1), ipv4(192, 168, 0, 199));
    assert_eq!(
        h,
        IPv4 {
            ihl_v: 0x45,
            tos: 0,
            totlen: 20,
            id: 0,
            flags_off: 0,
            ttl: 64,
            proto: 17,
            cksum: 0xf8c0,
            src: ipv4(192, 168, 0, 1),
            dst: ipv4(192, 168, 0, 199),
        }
    );
    assert!(h.verify_cksum());
    // The buffer is left as it was.
    assert_eq!(segment_of(&skb), request_frame([192, 168, 1, 1]));
}
