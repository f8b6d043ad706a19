//! The ARP protocol handler of a device: building requests and replies, and
//! learning from the packets that arrive.

use vstd::prelude::*;
use crate::arp::{distinct, inserted, ARPRecTbl, ARPRecord};
use crate::clock::utc_now_nanos;
use crate::dev::NetDevice;
use crate::error::NetError;
use crate::header::{
    arp_op_kind, ARPOpKind, Eth, Header, ARP, ETH_P_ARP, ETH_P_IPV4, HTYPE_ETHERNET,
};
use crate::skbuff::SkBuff;
use crate::wire::Mac;

verus! {

/// The Ethernet header of an ARP frame.
pub open spec fn arp_eth_header(src_mac: Mac, dst_mac: Mac) -> Eth {
    Eth { dst: dst_mac, src: src_mac, proto: ETH_P_ARP }
}

/// The ARP packet for IPv4 over Ethernet with the given operation and
/// addresses.
pub open spec fn arp_packet(
    op: ARPOpKind,
    src_ip: u32,
    dst_ip: u32,
    src_mac: Mac,
    target_mac: Mac,
) -> ARP {
    ARP {
        htype: HTYPE_ETHERNET,
        ptype: ETH_P_IPV4,
        hlen: 6,
        plen: 4,
        op: op.spec_code(),
        sha: src_mac,
        spa: src_ip,
        tha: target_mac,
        tpa: dst_ip,
    }
}

/// The bytes of an outbound ARP frame: the Ethernet header, the ARP packet,
/// and zeros up to the smallest frame length.
pub open spec fn arp_frame(
    op: ARPOpKind,
    src_ip: u32,
    dst_ip: u32,
    src_mac: Mac,
    dst_mac: Mac,
    target_mac: Mac,
) -> Seq<u8> {
    arp_eth_header(src_mac, dst_mac).spec_encode() + arp_packet(
        op,
        src_ip,
        dst_ip,
        src_mac,
        target_mac,
    ).spec_encode() + Seq::new(18, |i: int| 0u8)
}

/// What handling one inbound frame or packet comes to: the failure reported,
/// if any, the ARP cache afterwards, and the frame to be sent in answer, if
/// any.
pub struct InputEffect {
    pub error: Option<NetError>,
    pub table: Seq<ARPRecord>,
    pub emitted: Option<Seq<u8>>,
}

/// Whether `out` is the single-segment buffer that carries `frame`, or no
/// buffer where there is no frame.
pub open spec fn emits(out: Option<SkBuff>, frame: Option<Seq<u8>>) -> bool {
    match frame {
        Some(bytes) => out is Some && out.unwrap().sendable() && out.unwrap().next is None
            && out.unwrap().segment() == bytes && out.unwrap().chain() == seq![bytes],
        None => out is None,
    }
}

/// Whether a handler that returned `r` and left the cache as `after` did what
/// `effect` says.
pub open spec fn effect_holds(
    effect: InputEffect,
    r: Result<Option<SkBuff>, NetError>,
    after: Seq<ARPRecord>,
) -> bool {
    &&& after == effect.table
    &&& match effect.error {
        Some(e) => r is Err && r->Err_0 == e,
        None => r is Ok && emits(r->Ok_0, effect.emitted),
    }
}

impl NetDevice {
    /// What the ARP packet `pkt`, handled at `now` with the cache `tbl`, comes
    /// to.
    ///
    /// A packet shorter than the ARP header is refused and teaches nothing.
    /// Any other packet teaches the cache where its sender is, whatever its
    /// operation; a request is then answered by a request of the device for
    /// the target of the packet.
    pub open spec fn arp_input_effect(
        &self,
        pkt: Seq<u8>,
        tbl: Seq<ARPRecord>,
        now: i128,
    ) -> InputEffect {
        if pkt.len() < ARP::spec_size() {
            InputEffect { error: Some(NetError::TruncatedPacket), table: tbl, emitted: None }
        } else {
            let arph = ARP::spec_decode(pkt.subrange(0, ARP::spec_size() as int));
            InputEffect {
                error: None,
                table: inserted(tbl, arph.spa, arph.sha, now),
                emitted: if arp_op_kind(arph.op) == ARPOpKind::Request {
                    Some(self.arp_request_frame(arph.tpa))
                } else {
                    None
                },
            }
        }
    }

    /// The address that a request for `tip` asks for: `tip` itself if it lies
    /// in the subnet of the device, else the netmask of the device.
    pub open spec fn query_target(&self, tip: u32) -> u32 {
        if tip & self.netmask != self.ip & self.netmask {
            self.netmask
        } else {
            tip
        }
    }

    /// The bytes of the request that the device sends to resolve `tip`.
    pub open spec fn arp_request_frame(&self, tip: u32) -> Seq<u8> {
        arp_frame(
            ARPOpKind::Request,
            self.ip,
            self.query_target(tip),
            self.hwa,
            Mac::broadcast(),
            Mac::zero(),
        )
    }

    /// Builds an ARP frame in a fresh buffer of the smallest frame length.
    ///
    /// The Ethernet header goes under the physical-layer view, the ARP packet
    /// under the network-header view behind it. The buffer is ready for
    /// [`NetDevice::linkoutput`].
    pub fn arp_output(
        &self,
        op: ARPOpKind,
        src_ip: u32,
        dst_ip: u32,
        src_mac: Mac,
        dst_mac: Mac,
        target_mac: Mac,
    ) -> (skb: SkBuff)
        ensures
            skb.sendable(),
            skb.next is None,
            skb.segment() == arp_frame(op, src_ip, dst_ip, src_mac, dst_mac, target_mac),
            skb.chain() == seq![arp_frame(op, src_ip, dst_ip, src_mac, dst_mac, target_mac)],
            skb.phy.unwrap().spec_start() == 0,
            skb.phy.unwrap().spec_rem_len() == Eth::ZLEN,
            skb.nh is Some,
            skb.nh.unwrap().spec_start() == Eth::SIZE,
            skb.nh.unwrap().spec_rem_len() == Eth::ZLEN - Eth::SIZE,
            skb.th is None,
    {
        let mut skb = SkBuff::with_capacity(Eth::ZLEN);
        let ghost zeros = skb.data.unwrap()@;
        let mut rawbuf = match skb.phy {
            Some(phy) => phy,
            None => {
                return skb;
            },
        };
        let ethh = Eth { dst: dst_mac, src: src_mac, proto: ETH_P_ARP };
        let arph = ARP {
            htype: HTYPE_ETHERNET,
            ptype: ETH_P_IPV4,
            hlen: 6,
            plen: 4,
            op: op.code(),
            sha: src_mac,
            spa: src_ip,
            tha: target_mac,
            tpa: dst_ip,
        };
        proof {
            ethh.lemma_decode_encode();
            arph.lemma_decode_encode();
        }
        let eth_region = rawbuf.consume::<Eth>();
        let nh = rawbuf;
        let arp_region = rawbuf.consume::<ARP>();
        match (&mut skb.data, eth_region, arp_region) {
            (Some(data), Ok(eth_region), Ok(arp_region)) => {
                eth_region.write_unaligned(data, &ethh);
                arp_region.write_unaligned(data, &arph);
                assert(data@ =~= arp_frame(op, src_ip, dst_ip, src_mac, dst_mac, target_mac));
            },
            _ => {},
        }
        skb.nh = Some(nh);
        assert(skb.segment() =~= skb.data.unwrap()@);
        skb
    }

    /// Builds the request that resolves `tip`.
    ///
    /// A target outside the subnet of the device is not asked for directly:
    /// the request then names the netmask of the device as its target. The
    /// frame goes to the broadcast address with a zero target hardware
    /// address.
    pub fn arp_request(&self, tip: u32) -> (skb: SkBuff)
        ensures
            skb.sendable(),
            skb.next is None,
            skb.segment() == self.arp_request_frame(tip),
            skb.chain() == seq![self.arp_request_frame(tip)],
    {
        let mut tip = tip;
        if tip & self.netmask != self.ip & self.netmask {
            tip = self.netmask;
        }
        self.arp_output(ARPOpKind::Request, self.ip, tip, self.hwa, Mac::broadcast(), Mac::zero())
    }

    /// Handles the ARP packet under the network-header view of `skb`, reading
    /// the clock for the time of learning.
    ///
    /// It does what [`NetDevice::arp_input_at`] does at the time the clock
    /// gave.
    pub fn arp_input(&self, skb: SkBuff, tbl: &mut ARPRecTbl) -> (r: Result<
        Option<SkBuff>,
        NetError,
    >)
        requires
            skb.data is Some,
            skb.nh is Some,
            skb.nh.unwrap().within(skb.data.unwrap()),
        ensures
            exists|now: i128|
                effect_holds(
                    #[trigger] self.arp_input_effect(
                        skb.nh.unwrap().bytes_of(skb.data.unwrap()),
                        old(tbl)@,
                        now,
                    ),
                    r,
                    final(tbl)@,
                ),
            skb.nh.unwrap().spec_rem_len() < ARP::spec_size() ==> r is Err && r->Err_0
                == NetError::TruncatedPacket && final(tbl)@ == old(tbl)@,
            distinct(old(tbl)@) ==> distinct(final(tbl)@),
    {
        let now = utc_now_nanos();
        self.arp_input_at(skb, tbl, now)
    }

    /// Handles at `now` the ARP packet under the network-header view of `skb`.
    ///
    /// The buffer to send in answer, if any, is handed back for
    /// [`NetDevice::linkoutput`].
    pub fn arp_input_at(&self, skb: SkBuff, tbl: &mut ARPRecTbl, now: i128) -> (r: Result<
        Option<SkBuff>,
        NetError,
    >)
        requires
            skb.data is Some,
            skb.nh is Some,
            skb.nh.unwrap().within(skb.data.unwrap()),
        ensures
            effect_holds(
                self.arp_input_effect(
                    skb.nh.unwrap().bytes_of(skb.data.unwrap()),
                    old(tbl)@,
                    now,
                ),
                r,
                final(tbl)@,
            ),
            distinct(old(tbl)@) ==> distinct(final(tbl)@),
    {
        let (data, mut arpbuf) = match (&skb.data, skb.nh) {
            (Some(data), Some(nh)) => (data, nh),
            _ => {
                return Err(NetError::TruncatedPacket);
            },
        };
        let ghost pkt = arpbuf.bytes_of(*data);
        let region = match arpbuf.consume::<ARP>() {
            Ok(region) => region,
            Err(_) => {
                return Err(NetError::TruncatedPacket);
            },
        };
        let arph: ARP = region.read_unaligned(data);
        assert(pkt.subrange(0, ARP::spec_size() as int) =~= data@.subrange(
            region.spec_start() as int,
            region.spec_start() + ARP::spec_size(),
        ));
        tbl.insert_at(arph.spa, arph.sha, now);
        match arph.to_kind() {
            ARPOpKind::Request => Ok(Some(self.arp_request(arph.tpa))),
            _ => Ok(None),
        }
    }
}

} // verus!
