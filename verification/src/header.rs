//! The fixed-layout headers of the stack and their byte-exact encodings.

use vstd::prelude::*;
use crate::wire::{
    be16_at, be16_bytes, be32_at, be32_bytes, lemma_be16_bytes_of, lemma_be16_round_trip,
    lemma_be32_bytes_of, lemma_be32_round_trip, mac_at, push_be16, push_be32, push_mac, read_be16,
    read_be32, read_mac, Mac,
};

verus! {

/// A header of fixed size that is laid over a region of a buffer byte for
/// byte, with no alignment requirement.
pub trait Header: Sized {
    /// Number of bytes the header occupies on the wire.
    spec fn spec_size() -> nat;

    /// The bytes of the header, in network byte order.
    spec fn spec_encode(&self) -> Seq<u8>;

    /// The header that a region of exactly `spec_size()` bytes holds.
    spec fn spec_decode(bytes: Seq<u8>) -> Self;

    fn size() -> (n: usize)
        ensures
            n == Self::spec_size(),
    ;

    /// Reads the header that starts at `at`.
    fn decode(bytes: &[u8], at: usize) -> (h: Self)
        requires
            at + Self::spec_size() <= bytes@.len(),
        ensures
            h == Self::spec_decode(bytes@.subrange(at as int, at + Self::spec_size())),
    ;

    /// Appends the header's bytes to `out`.
    fn encode(&self, out: &mut Vec<u8>)
        ensures
            final(out)@ == old(out)@ + self.spec_encode(),
            self.spec_encode().len() == Self::spec_size(),
    ;

    /// Every header has exactly `spec_size()` bytes, and reading them back
    /// gives the header.
    proof fn lemma_decode_encode(&self)
        ensures
            self.spec_encode().len() == Self::spec_size(),
            Self::spec_decode(self.spec_encode()) == *self,
    ;

    /// Every region of `spec_size()` bytes is the encoding of the header read
    /// from it.
    proof fn lemma_encode_decode(bytes: Seq<u8>)
        requires
            bytes.len() == Self::spec_size(),
        ensures
            Self::spec_decode(bytes).spec_encode() == bytes,
    ;
}

/// An Ethernet II header: destination, source and the protocol field.
#[derive(Clone, Copy, Debug)]
pub struct Eth {
    pub dst: Mac,
    pub src: Mac,
    pub proto: u16,
}

/// What the protocol field of an Ethernet header names.
#[derive(Clone, Copy, Debug, PartialEq, Eq, Structural)]
pub enum EthTypeKind {
    IPv4,
    ARP,
    /// A registered range value that this stack does not handle.
    Other(u16),
}

/// The three readings of the protocol field of an Ethernet header.
#[derive(Clone, Copy, Debug, PartialEq, Eq, Structural)]
pub enum EthProtoKind {
    /// A legacy 802.3 payload length.
    Len(u16),
    EthType(EthTypeKind),
    /// A value between the length range and the type range.
    Undefined(u16),
}

pub const ETH_P_IPV4: u16 = 0x0800;

pub const ETH_P_ARP: u16 = 0x0806;

/// Largest value of the protocol field that is a payload length.
pub const ETH_LEN_MAX: u16 = 1500;

/// Smallest value of the protocol field that is an EtherType.
pub const ETH_TYPE_MIN: u16 = 1536;

impl EthTypeKind {
    /// The value of the protocol field for this kind.
    pub open spec fn spec_code(self) -> u16 {
        match self {
            EthTypeKind::IPv4 => ETH_P_IPV4,
            EthTypeKind::ARP => ETH_P_ARP,
            EthTypeKind::Other(x) => x,
        }
    }

    #[verifier::when_used_as_spec(spec_code)]
    pub fn code(self) -> (c: u16)
        ensures
            c == self.spec_code(),
    {
        match self {
            EthTypeKind::IPv4 => ETH_P_IPV4,
            EthTypeKind::ARP => ETH_P_ARP,
            EthTypeKind::Other(x) => x,
        }
    }
}

/// The reading of a protocol field value.
pub open spec fn eth_proto_kind(proto: u16) -> EthProtoKind {
    if proto <= ETH_LEN_MAX {
        EthProtoKind::Len(proto)
    } else if proto < ETH_TYPE_MIN {
        EthProtoKind::Undefined(proto)
    } else if proto == ETH_P_IPV4 {
        EthProtoKind::EthType(EthTypeKind::IPv4)
    } else if proto == ETH_P_ARP {
        EthProtoKind::EthType(EthTypeKind::ARP)
    } else {
        EthProtoKind::EthType(EthTypeKind::Other(proto))
    }
}

impl Eth {
    /// Size of the header.
    pub const SIZE: usize = 14;

    /// Length of the smallest frame that is sent, without the check sequence.
    pub const ZLEN: usize = 60;

    /// Length of the largest frame, without the check sequence.
    pub const FRAME_LEN: usize = 1514;

    /// Reads the protocol field.
    pub fn into_kind(&self) -> (k: EthProtoKind)
        ensures
            k == eth_proto_kind(self.proto),
    {
        let proto = self.proto;
        if proto <= ETH_LEN_MAX {
            EthProtoKind::Len(proto)
        } else if proto < ETH_TYPE_MIN {
            EthProtoKind::Undefined(proto)
        } else if proto == ETH_P_IPV4 {
            EthProtoKind::EthType(EthTypeKind::IPv4)
        } else if proto == ETH_P_ARP {
            EthProtoKind::EthType(EthTypeKind::ARP)
        } else {
            EthProtoKind::EthType(EthTypeKind::Other(proto))
        }
    }
}

impl Header for Eth {
    open spec fn spec_size() -> nat {
        14
    }

    open spec fn spec_encode(&self) -> Seq<u8> {
        self.dst@ + self.src@ + be16_bytes(self.proto)
    }

    open spec fn spec_decode(bytes: Seq<u8>) -> Eth {
        Eth { dst: mac_at(bytes, 0), src: mac_at(bytes, 6), proto: be16_at(bytes, 12) }
    }

    fn size() -> (n: usize) {
        Eth::SIZE
    }

    fn decode(bytes: &[u8], at: usize) -> (h: Eth) {
        let _len: usize = bytes.len();
        let dst = read_mac(bytes, at);
        let src = read_mac(bytes, at + 6);
        let proto = read_be16(bytes, at + 12);
        Eth { dst, src, proto }
    }

    fn encode(&self, out: &mut Vec<u8>) {
        push_mac(out, &self.dst);
        push_mac(out, &self.src);
        push_be16(out, self.proto);
        assert(out@ =~= old(out)@ + self.spec_encode());
    }

    proof fn lemma_decode_encode(&self) {
        let b = self.spec_encode();
        lemma_be16_round_trip(self.proto);
        assert(mac_at(b, 0).octets =~= self.dst.octets);
        assert(mac_at(b, 6).octets =~= self.src.octets);
        assert(be16_at(b, 12) == be16_at(be16_bytes(self.proto), 0));
    }

    proof fn lemma_encode_decode(bytes: Seq<u8>) {
        let h = Eth::spec_decode(bytes);
        lemma_be16_bytes_of(bytes[12], bytes[13]);
        assert(h.spec_encode() =~= bytes);
    }
}

/// The operation of an ARP packet.
#[derive(Clone, Copy, Debug, PartialEq, Eq, Structural)]
pub enum ARPOpKind {
    Request,
    Reply,
    /// An operation code that this stack does not act on.
    Other(u16),
}

pub const ARP_OP_REQUEST: u16 = 1;

pub const ARP_OP_REPLY: u16 = 2;

/// Hardware type of 10 Mb Ethernet, in ARP packets and link-layer addresses.
pub const HTYPE_ETHERNET: u16 = 1;

/// The reading of an operation code.
pub open spec fn arp_op_kind(op: u16) -> ARPOpKind {
    if op == ARP_OP_REQUEST {
        ARPOpKind::Request
    } else if op == ARP_OP_REPLY {
        ARPOpKind::Reply
    } else {
        ARPOpKind::Other(op)
    }
}

impl ARPOpKind {
    /// The operation code on the wire.
    pub open spec fn spec_code(self) -> u16 {
        match self {
            ARPOpKind::Request => ARP_OP_REQUEST,
            ARPOpKind::Reply => ARP_OP_REPLY,
            ARPOpKind::Other(x) => x,
        }
    }

    #[verifier::when_used_as_spec(spec_code)]
    pub fn code(self) -> (c: u16)
        ensures
            c == self.spec_code(),
    {
        match self {
            ARPOpKind::Request => ARP_OP_REQUEST,
            ARPOpKind::Reply => ARP_OP_REPLY,
            ARPOpKind::Other(x) => x,
        }
    }

    pub fn from_code(op: u16) -> (k: ARPOpKind)
        ensures
            k == arp_op_kind(op),
            k.spec_code() == op,
    {
        if op == ARP_OP_REQUEST {
            ARPOpKind::Request
        } else if op == ARP_OP_REPLY {
            ARPOpKind::Reply
        } else {
            ARPOpKind::Other(op)
        }
    }
}

/// An ARP packet for IPv4 over Ethernet.
#[derive(Clone, Copy, Debug)]
pub struct ARP {
    pub htype: u16,
    pub ptype: u16,
    pub hlen: u8,
    pub plen: u8,
    pub op: u16,
    pub sha: Mac,
    pub spa: u32,
    pub tha: Mac,
    pub tpa: u32,
}

impl ARP {
    /// Size of the packet.
    pub const SIZE: usize = 28;

    /// Reads the operation code.
    pub fn to_kind(&self) -> (k: ARPOpKind)
        ensures
            k == arp_op_kind(self.op),
    {
        ARPOpKind::from_code(self.op)
    }
}

impl Header for ARP {
    open spec fn spec_size() -> nat {
        28
    }

    open spec fn spec_encode(&self) -> Seq<u8> {
        be16_bytes(self.htype) + be16_bytes(self.ptype) + seq![self.hlen, self.plen] + be16_bytes(
            self.op,
        ) + self.sha@ + be32_bytes(self.spa) + self.tha@ + be32_bytes(self.tpa)
    }

    open spec fn spec_decode(bytes: Seq<u8>) -> ARP {
        ARP {
            htype: be16_at(bytes, 0),
            ptype: be16_at(bytes, 2),
            hlen: bytes[4],
            plen: bytes[5],
            op: be16_at(bytes, 6),
            sha: mac_at(bytes, 8),
            spa: be32_at(bytes, 14),
            tha: mac_at(bytes, 18),
            tpa: be32_at(bytes, 24),
        }
    }

    fn size() -> (n: usize) {
        ARP::SIZE
    }

    fn decode(bytes: &[u8], at: usize) -> (h: ARP) {
        let _len: usize = bytes.len();
        let htype = read_be16(bytes, at);
        let ptype = read_be16(bytes, at + 2);
        let hlen = bytes[at + 4];
        let plen = bytes[at + 5];
        let op = read_be16(bytes, at + 6);
        let sha = read_mac(bytes, at + 8);
        let spa = read_be32(bytes, at + 14);
        let tha = read_mac(bytes, at + 18);
        let tpa = read_be32(bytes, at + 24);
        ARP { htype, ptype, hlen, plen, op, sha, spa, tha, tpa }
    }

    fn encode(&self, out: &mut Vec<u8>) {
        push_be16(out, self.htype);
        push_be16(out, self.ptype);
        out.push(self.hlen);
        out.push(self.plen);
        push_be16(out, self.op);
        push_mac(out, &self.sha);
        push_be32(out, self.spa);
        push_mac(out, &self.tha);
        push_be32(out, self.tpa);
        assert(out@ =~= old(out)@ + self.spec_encode());
    }

    proof fn lemma_decode_encode(&self) {
        let b = self.spec_encode();
        lemma_be16_round_trip(self.htype);
        lemma_be16_round_trip(self.ptype);
        lemma_be16_round_trip(self.op);
        lemma_be32_round_trip(self.spa);
        lemma_be32_round_trip(self.tpa);
        assert(be16_at(b, 0) == be16_at(be16_bytes(self.htype), 0));
        assert(be16_at(b, 2) == be16_at(be16_bytes(self.ptype), 0));
        assert(be16_at(b, 6) == be16_at(be16_bytes(self.op), 0));
        assert(be32_at(b, 14) == be32_at(be32_bytes(self.spa), 0));
        assert(be32_at(b, 24) == be32_at(be32_bytes(self.tpa), 0));
        assert(mac_at(b, 8).octets =~= self.sha.octets);
        assert(mac_at(b, 18).octets =~= self.tha.octets);
    }

    proof fn lemma_encode_decode(bytes: Seq<u8>) {
        let h = ARP::spec_decode(bytes);
        lemma_be16_bytes_of(bytes[0], bytes[1]);
        lemma_be16_bytes_of(bytes[2], bytes[3]);
        lemma_be16_bytes_of(bytes[6], bytes[7]);
        lemma_be32_bytes_of(bytes[14], bytes[15], bytes[16], bytes[17]);
        lemma_be32_bytes_of(bytes[24], bytes[25], bytes[26], bytes[27]);
        assert(h.spec_encode() =~= bytes);
    }
}

/// IP protocol number of UDP.
pub const IP_PROTO_UDP: u8 = 17;

/// Version 4 with a header of five 32-bit words, that is without options.
pub const IP_VERSION_IHL: u8 = 0x45;

/// Time to live that outbound packets start with.
pub const IP_DEFAULT_TTL: u8 = 64;

/// The fixed 20-byte IPv4 header.
#[derive(Clone, Copy, Debug, PartialEq, Eq, Structural)]
pub struct IPv4 {
    pub ihl_v: u8,
    pub tos: u8,
    pub totlen: u16,
    pub id: u16,
    pub flags_off: u16,
    pub ttl: u8,
    pub proto: u8,
    pub cksum: u16,
    pub src: u32,
    pub dst: u32,
}

impl IPv4 {
    /// Size of the header.
    pub const SIZE: usize = 20;
}

impl Header for IPv4 {
    open spec fn spec_size() -> nat {
        20
    }

    open spec fn spec_encode(&self) -> Seq<u8> {
        seq![self.ihl_v, self.tos] + be16_bytes(self.totlen) + be16_bytes(self.id) + be16_bytes(
            self.flags_off,
        ) + seq![self.ttl, self.proto] + be16_bytes(self.cksum) + be32_bytes(self.src)
            + be32_bytes(self.dst)
    }

    open spec fn spec_decode(bytes: Seq<u8>) -> IPv4 {
        IPv4 {
            ihl_v: bytes[0],
            tos: bytes[1],
            totlen: be16_at(bytes, 2),
            id: be16_at(bytes, 4),
            flags_off: be16_at(bytes, 6),
            ttl: bytes[8],
            proto: bytes[9],
            cksum: be16_at(bytes, 10),
            src: be32_at(bytes, 12),
            dst: be32_at(bytes, 16),
        }
    }

    fn size() -> (n: usize) {
        IPv4::SIZE
    }

    fn decode(bytes: &[u8], at: usize) -> (h: IPv4) {
        let _len: usize = bytes.len();
        let ihl_v = bytes[at];
        let tos = bytes[at + 1];
        let totlen = read_be16(bytes, at + 2);
        let id = read_be16(bytes, at + 4);
        let flags_off = read_be16(bytes, at + 6);
        let ttl = bytes[at + 8];
        let proto = bytes[at + 9];
        let cksum = read_be16(bytes, at + 10);
        let src = read_be32(bytes, at + 12);
        let dst = read_be32(bytes, at + 16);
        IPv4 { ihl_v, tos, totlen, id, flags_off, ttl, proto, cksum, src, dst }
    }

    fn encode(&self, out: &mut Vec<u8>) {
        out.push(self.ihl_v);
        out.push(self.tos);
        push_be16(out, self.totlen);
        push_be16(out, self.id);
        push_be16(out, self.flags_off);
        out.push(self.ttl);
        out.push(self.proto);
        push_be16(out, self.cksum);
        push_be32(out, self.src);
        push_be32(out, self.dst);
        assert(out@ =~= old(out)@ + self.spec_encode());
    }

    proof fn lemma_decode_encode(&self) {
        let b = self.spec_encode();
        lemma_be16_round_trip(self.totlen);
        lemma_be16_round_trip(self.id);
        lemma_be16_round_trip(self.flags_off);
        lemma_be16_round_trip(self.cksum);
        lemma_be32_round_trip(self.src);
        lemma_be32_round_trip(self.dst);
        assert(be16_at(b, 2) == be16_at(be16_bytes(self.totlen), 0));
        assert(be16_at(b, 4) == be16_at(be16_bytes(self.id), 0));
        assert(be16_at(b, 6) == be16_at(be16_bytes(self.flags_off), 0));
        assert(be16_at(b, 10) == be16_at(be16_bytes(self.cksum), 0));
        assert(be32_at(b, 12) == be32_at(be32_bytes(self.src), 0));
        assert(be32_at(b, 16) == be32_at(be32_bytes(self.dst), 0));
    }

    proof fn lemma_encode_decode(bytes: Seq<u8>) {
        let h = IPv4::spec_decode(bytes);
        lemma_be16_bytes_of(bytes[2], bytes[3]);
        lemma_be16_bytes_of(bytes[4], bytes[5]);
        lemma_be16_bytes_of(bytes[6], bytes[7]);
        lemma_be16_bytes_of(bytes[10], bytes[11]);
        lemma_be32_bytes_of(bytes[12], bytes[13], bytes[14], bytes[15]);
        lemma_be32_bytes_of(bytes[16], bytes[17], bytes[18], bytes[19]);
        assert(h.spec_encode() =~= bytes);
    }
}

} // verus!
