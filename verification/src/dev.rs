//! The network device: the identity of one interface and the link-layer
//! address that its socket is bound to.

use vstd::prelude::*;
use crate::arp::{distinct, inserted, ARPRecTbl, ARPRecord};
use crate::arp_handler::{effect_holds, InputEffect};
use crate::clock::utc_now_nanos;
use crate::error::NetError;
use crate::header::{
    eth_proto_kind, Eth, EthProtoKind, EthTypeKind, Header, IPv4, ETH_P_ARP, HTYPE_ETHERNET,
};
use crate::skbuff::SkBuff;
use crate::wire::Mac;

verus! {

/// Address family of packet sockets.
pub const AF_PACKET: u16 = 17;

/// Packet type of frames addressed to the local host.
pub const PACKET_HOST: u8 = 0;

/// A link-layer socket address.
#[derive(Clone, Copy, Debug)]
pub struct SockAddrLL {
    pub family: u16,
    /// The protocol field value in host byte order.
    pub protocol: u16,
    pub ifindex: i32,
    pub hatype: u16,
    pub pkttype: u8,
    pub halen: u8,
    /// The hardware address, padded with zeros.
    pub addr: [u8; 8],
}

/// One entry of the table of interface addresses.
#[derive(Debug)]
#[allow(inconsistent_fields)]
pub enum IfAddr {
    /// The link-layer address of an interface.
    Packet { name: String, ifindex: i32, addr: Mac },
    /// An IPv4 address of an interface, with its netmask.
    Inet { name: String, addr: u32, mask: u32 },
    /// An address of a family that the stack does not use.
    Other { name: String },
}

impl IfAddr {
    /// Whether the entry is the link-layer address of the interface `name`.
    pub open spec fn is_packet_of(self, name: Seq<char>) -> bool {
        self matches IfAddr::Packet { name: n, .. } && n@ == name
    }

    /// Interface index and hardware address of a link-layer entry.
    pub open spec fn packet_addr(self) -> (i32, Mac) {
        match self {
            IfAddr::Packet { ifindex, addr, .. } => (ifindex, addr),
            _ => (0, Mac::zero()),
        }
    }

    /// Address and netmask of an IPv4 entry.
    pub open spec fn inet_addr(self) -> (u32, u32) {
        match self {
            IfAddr::Inet { addr, mask, .. } => (addr, mask),
            _ => (0, 0),
        }
    }

    /// Whether the entry is an IPv4 address of the interface `name`.
    pub open spec fn is_inet_of(self, name: Seq<char>) -> bool {
        self matches IfAddr::Inet { name: n, .. } && n@ == name
    }
}

/// Index of the first link-layer entry of `name` at or after `from`, or the
/// length of the table.
pub open spec fn first_packet_from(tbl: Seq<IfAddr>, name: Seq<char>, from: int) -> int
    decreases tbl.len() - from,
{
    if from < 0 || from >= tbl.len() {
        tbl.len() as int
    } else if tbl[from].is_packet_of(name) {
        from
    } else {
        first_packet_from(tbl, name, from + 1)
    }
}

/// Index of the first IPv4 entry of `name` at or after `from`, or the length
/// of the table.
pub open spec fn first_inet_from(tbl: Seq<IfAddr>, name: Seq<char>, from: int) -> int
    decreases tbl.len() - from,
{
    if from < 0 || from >= tbl.len() {
        tbl.len() as int
    } else if tbl[from].is_inet_of(name) {
        from
    } else {
        first_inet_from(tbl, name, from + 1)
    }
}

/// The hardware address in the eight-octet field of a socket address.
pub open spec fn padded(mac: Mac) -> [u8; 8] {
    [mac@[0], mac@[1], mac@[2], mac@[3], mac@[4], mac@[5], 0u8, 0u8]
}

/// The socket address that a device with the given interface index and
/// hardware address binds to.
pub open spec fn bind_address(ifindex: i32, hwa: Mac) -> SockAddrLL {
    SockAddrLL {
        family: AF_PACKET,
        protocol: ETH_P_ARP,
        ifindex,
        hatype: HTYPE_ETHERNET,
        pkttype: PACKET_HOST,
        halen: 6,
        addr: padded(hwa),
    }
}

/// What the link of an interface reports besides its addresses.
#[derive(Clone, Copy, Debug)]
pub struct LinkInfo {
    /// The default gateway of the interface, if it has a default route.
    pub gateway: Option<u32>,
    /// The hardware type of the interface.
    pub hwt: u16,
    pub mtu: u16,
}

/// A network device.
#[derive(Debug)]
pub struct NetDevice {
    pub name: String,
    pub ip: u32,
    pub netmask: u32,
    pub gateway: u32,
    pub hwt: u16,
    pub hwa: Mac,
    pub mtu: u16,
    /// The link-layer address that the socket of the device is bound to.
    pub to: SockAddrLL,
}

/// The index and hardware address of the interface `ifname`: those of its
/// first link-layer entry in the table.
pub fn find_packet_addr(ifaddrtbl: &Vec<IfAddr>, ifname: &str) -> (r: Option<(i32, Mac)>)
    ensures
        ({
            let p = first_packet_from(ifaddrtbl@, ifname@, 0);
            &&& r is None <==> p == ifaddrtbl@.len()
            &&& r is Some ==> r == Some(ifaddrtbl@[p].packet_addr())
        }),
{
    let wanted: String = ifname.to_owned();
    let mut i: usize = 0;
    while i < ifaddrtbl.len()
        invariant
            i <= ifaddrtbl@.len(),
            wanted@ == ifname@,
            first_packet_from(ifaddrtbl@, ifname@, 0) == first_packet_from(
                ifaddrtbl@,
                ifname@,
                i as int,
            ),
        decreases ifaddrtbl@.len() - i,
    {
        match &ifaddrtbl[i] {
            IfAddr::Packet { name, ifindex, addr } => {
                if *name == wanted {
                    return Some((*ifindex, *addr));
                }
            },
            _ => {},
        }
        i += 1;
    }
    None
}

/// The IPv4 address and netmask of the interface `ifname`: those of its first
/// IPv4 entry in the table.
pub fn find_inet_addr(ifaddrtbl: &Vec<IfAddr>, ifname: &str) -> (r: Option<(u32, u32)>)
    ensures
        ({
            let q = first_inet_from(ifaddrtbl@, ifname@, 0);
            &&& r is None <==> q == ifaddrtbl@.len()
            &&& r is Some ==> r == Some(ifaddrtbl@[q].inet_addr())
        }),
{
    let wanted: String = ifname.to_owned();
    let mut i: usize = 0;
    while i < ifaddrtbl.len()
        invariant
            i <= ifaddrtbl@.len(),
            wanted@ == ifname@,
            first_inet_from(ifaddrtbl@, ifname@, 0) == first_inet_from(
                ifaddrtbl@,
                ifname@,
                i as int,
            ),
        decreases ifaddrtbl@.len() - i,
    {
        match &ifaddrtbl[i] {
            IfAddr::Inet { name, addr, mask } => {
                if *name == wanted {
                    return Some((*addr, *mask));
                }
            },
            _ => {},
        }
        i += 1;
    }
    None
}

/// The socket address for an interface index and a hardware address.
pub fn make_bind_address(ifindex: i32, hwa: &Mac) -> (to: SockAddrLL)
    ensures
        to == bind_address(ifindex, *hwa),
{
    let addr: [u8; 8] = [
        hwa.octets[0],
        hwa.octets[1],
        hwa.octets[2],
        hwa.octets[3],
        hwa.octets[4],
        hwa.octets[5],
        0u8,
        0u8,
    ];
    assert(addr =~= padded(*hwa));
    SockAddrLL {
        family: AF_PACKET,
        protocol: ETH_P_ARP,
        ifindex,
        hatype: HTYPE_ETHERNET,
        pkttype: PACKET_HOST,
        halen: 6,
        addr,
    }
}

impl NetDevice {
    /// What the received frame `frame`, handled at `now` with the cache `tbl`,
    /// comes to.
    ///
    /// A frame shorter than the Ethernet header is refused. A frame for
    /// another station is dropped without a trace. An IPv4 frame teaches the
    /// cache where its source is, or is refused if its header is cut short;
    /// an ARP frame goes to the ARP handler; any other frame is dropped.
    pub open spec fn input_effect(
        &self,
        frame: Seq<u8>,
        tbl: Seq<ARPRecord>,
        now: i128,
    ) -> InputEffect {
        let quiet = InputEffect { error: None, table: tbl, emitted: None };
        let truncated = InputEffect {
            error: Some(NetError::TruncatedFrame),
            table: tbl,
            emitted: None,
        };
        if frame.len() < Eth::spec_size() {
            truncated
        } else {
            let ethh = Eth::spec_decode(frame.subrange(0, Eth::spec_size() as int));
            let rest = frame.subrange(Eth::spec_size() as int, frame.len() as int);
            if ethh.dst != Mac::broadcast() && ethh.dst != self.hwa {
                quiet
            } else {
                match eth_proto_kind(ethh.proto) {
                    EthProtoKind::EthType(EthTypeKind::IPv4) => {
                        if rest.len() < IPv4::spec_size() {
                            truncated
                        } else {
                            let iph = IPv4::spec_decode(rest.subrange(0, IPv4::spec_size() as int));
                            InputEffect {
                                error: None,
                                table: inserted(tbl, iph.src, ethh.src, now),
                                emitted: None,
                            }
                        }
                    },
                    EthProtoKind::EthType(EthTypeKind::ARP) => self.arp_input_effect(
                        rest,
                        tbl,
                        now,
                    ),
                    _ => quiet,
                }
            }
        }
    }

    /// Handles one received frame, reading the clock for the time of
    /// learning.
    ///
    /// It does what [`NetDevice::input_at`] does at the time the clock gave.
    /// A frame shorter than the Ethernet header is refused at any time, and
    /// leaves the cache as it was.
    pub fn input(&self, frame: &[u8], tbl: &mut ARPRecTbl) -> (r: Result<Option<SkBuff>, NetError>)
        ensures
            exists|now: i128|
                effect_holds(
                    #[trigger] self.input_effect(frame@, old(tbl)@, now),
                    r,
                    final(tbl)@,
                ),
            frame@.len() < Eth::spec_size() ==> r is Err && r->Err_0 == NetError::TruncatedFrame
                && final(tbl)@ == old(tbl)@,
            distinct(old(tbl)@) ==> distinct(final(tbl)@),
    {
        let now = utc_now_nanos();
        self.input_at(frame, tbl, now)
    }

    /// Handles at `now` one received frame.
    ///
    /// The frame is wrapped in a packet buffer, its Ethernet header is read
    /// under the physical-layer view and the network-header view is set
    /// behind it. The buffer to send in answer, if any, is handed back for
    /// [`NetDevice::linkoutput`].
    pub fn input_at(&self, frame: &[u8], tbl: &mut ARPRecTbl, now: i128) -> (r: Result<
        Option<SkBuff>,
        NetError,
    >)
        ensures
            effect_holds(self.input_effect(frame@, old(tbl)@, now), r, final(tbl)@),
            distinct(old(tbl)@) ==> distinct(final(tbl)@),
    {
        let mut skb = SkBuff::from_received(frame);
        let mut dataref = match skb.phy {
            Some(phy) => phy,
            None => {
                return Err(NetError::TruncatedFrame);
            },
        };
        let eth_region = match dataref.consume::<Eth>() {
            Ok(region) => region,
            Err(_) => {
                return Err(NetError::TruncatedFrame);
            },
        };
        let ethh: Eth = match &skb.data {
            Some(data) => eth_region.read_unaligned(data),
            None => {
                return Err(NetError::TruncatedFrame);
            },
        };
        skb.nh = Some(dataref);
        let ghost rest = frame@.subrange(Eth::spec_size() as int, frame@.len() as int);
        assert(dataref.bytes_of(skb.data.unwrap()) =~= rest);
        if !ethh.dst.is_broadcast() && !ethh.dst.same(&self.hwa) {
            return Ok(None);
        }
        match ethh.into_kind() {
            EthProtoKind::EthType(EthTypeKind::IPv4) => {
                let ip_region = match dataref.cast::<IPv4>() {
                    Ok(region) => region,
                    Err(_) => {
                        return Err(NetError::TruncatedFrame);
                    },
                };
                let iph: IPv4 = match &skb.data {
                    Some(data) => ip_region.read_unaligned(data),
                    None => {
                        return Err(NetError::TruncatedFrame);
                    },
                };
                assert(rest.subrange(0, IPv4::spec_size() as int) =~= frame@.subrange(
                    ip_region.spec_start() as int,
                    ip_region.spec_start() + IPv4::spec_size(),
                ));
                tbl.insert_at(iph.src, ethh.src, now);
                Ok(None)
            },
            EthProtoKind::EthType(EthTypeKind::ARP) => self.arp_input_at(skb, tbl, now),
            _ => Ok(None),
        }
    }

    /// The device of the interface `ifname`, from the table of interface
    /// addresses and what the link reports.
    ///
    /// Fails with `InterfaceNotFound` if the table has no link-layer entry or
    /// no IPv4 entry of that name, and with `NoGateway` if the interface is
    /// known but has no default route.
    pub fn init(ifname: &str, ifaddrtbl: &Vec<IfAddr>, link: LinkInfo) -> (r: Result<
        NetDevice,
        NetError,
    >)
        ensures
            ({
                let p = first_packet_from(ifaddrtbl@, ifname@, 0);
                let q = first_inet_from(ifaddrtbl@, ifname@, 0);
                if p == ifaddrtbl@.len() || q == ifaddrtbl@.len() {
                    r is Err && r->Err_0 == NetError::InterfaceNotFound
                } else if link.gateway is None {
                    r is Err && r->Err_0 == NetError::NoGateway
                } else {
                    &&& r is Ok
                    &&& r->Ok_0.name@ == ifname@
                    &&& r->Ok_0.hwa == ifaddrtbl@[p].packet_addr().1
                    &&& r->Ok_0.to == bind_address(
                        ifaddrtbl@[p].packet_addr().0,
                        ifaddrtbl@[p].packet_addr().1,
                    )
                    &&& r->Ok_0.ip == ifaddrtbl@[q].inet_addr().0
                    &&& r->Ok_0.netmask == ifaddrtbl@[q].inet_addr().1
                    &&& r->Ok_0.gateway == link.gateway.unwrap()
                    &&& r->Ok_0.hwt == link.hwt
                    &&& r->Ok_0.mtu == link.mtu
                }
            }),
    {
        let (ifindex, hwa) = match find_packet_addr(ifaddrtbl, ifname) {
            Some(found) => found,
            None => {
                return Err(NetError::InterfaceNotFound);
            },
        };
        let (ip, netmask) = match find_inet_addr(ifaddrtbl, ifname) {
            Some(found) => found,
            None => {
                return Err(NetError::InterfaceNotFound);
            },
        };
        let gateway = match link.gateway {
            Some(gateway) => gateway,
            None => {
                return Err(NetError::NoGateway);
            },
        };
        let to = make_bind_address(ifindex, &hwa);
        Ok(
            NetDevice {
                name: ifname.to_owned(),
                ip,
                netmask,
                gateway,
                hwt: link.hwt,
                hwa,
                mtu: link.mtu,
                to,
            },
        )
    }
}

} // verus!
