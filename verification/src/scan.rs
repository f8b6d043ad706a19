//! Address scanning: the request that asks who holds an address, and the
//! reading of what is received in answer.

use vstd::prelude::*;
use crate::arp_handler::{arp_eth_header, arp_packet};
use crate::error::NetError;
use crate::header::{ARPOpKind, Eth, Header, ARP, ETH_P_ARP, ETH_P_IPV4, HTYPE_ETHERNET};
use crate::wire::Mac;

verus! {

/// Length of a scan request: the Ethernet header and the ARP packet, without
/// padding.
pub const SCAN_LEN: usize = 42;

/// The bytes of the request by which `src_ip` asks who holds `dst_ip`. It is
/// broadcast, and names the broadcast address as the hardware address of
/// its sender too.
pub open spec fn scan_request(src_ip: u32, dst_ip: u32) -> Seq<u8> {
    arp_eth_header(Mac::broadcast(), Mac::broadcast()).spec_encode() + arp_packet(
        ARPOpKind::Request,
        src_ip,
        dst_ip,
        Mac::broadcast(),
        Mac::zero(),
    ).spec_encode()
}

/// Builds the request by which `src_ip` asks who holds `dst_ip`.
pub fn send_arp(src_ip: u32, dst_ip: u32) -> (frame: Vec<u8>)
    ensures
        frame@ == scan_request(src_ip, dst_ip),
        frame@.len() == SCAN_LEN,
{
    let src_mac = Mac::broadcast();
    let eth = Eth { dst: Mac::broadcast(), src: src_mac, proto: ETH_P_ARP };
    let arp = ARP {
        htype: HTYPE_ETHERNET,
        ptype: ETH_P_IPV4,
        hlen: 6,
        plen: 4,
        op: ARPOpKind::Request.code(),
        sha: src_mac,
        spa: src_ip,
        tha: Mac::zero(),
        tpa: dst_ip,
    };
    let mut frame: Vec<u8> = Vec::with_capacity(SCAN_LEN);
    eth.encode(&mut frame);
    arp.encode(&mut frame);
    assert(frame@ =~= scan_request(src_ip, dst_ip));
    frame
}

/// What a received frame tells a scan from `src_ip`: a frame shorter than the
/// two headers is refused; a packet for another target tells nothing; any
/// other names its sender.
pub open spec fn scan_reading(buf: Seq<u8>, src_ip: u32) -> Result<Option<(u32, Mac)>, NetError> {
    if buf.len() < SCAN_LEN {
        Err(NetError::TruncatedFrame)
    } else {
        let packet = ARP::spec_decode(buf.subrange(Eth::spec_size() as int, SCAN_LEN as int));
        if packet.tpa != src_ip {
            Ok(None)
        } else {
            Ok(Some((packet.spa, packet.sha)))
        }
    }
}

/// Reads a frame received during a scan from `src_ip`.
pub fn recv_arp(buf: &[u8], src_ip: u32) -> (r: Result<Option<(u32, Mac)>, NetError>)
    ensures
        r == scan_reading(buf@, src_ip),
{
    if buf.len() < SCAN_LEN {
        return Err(NetError::TruncatedFrame);
    }
    let packet = ARP::decode(buf, Eth::SIZE);
    if packet.tpa != src_ip {
        Ok(None)
    } else {
        Ok(Some((packet.spa, packet.sha)))
    }
}

} // verus!
