//! Echo requests and the reading of what comes back.

use vstd::prelude::*;
use vstd::string::StringSliceAdditionalSpecFns;
use vstd::bytes::{
    spec_u128_from_le_bytes, spec_u128_to_le_bytes, u128_from_le_bytes, u128_to_le_bytes,
};
use crate::header::{Header, IPv4};
use crate::ip::{inet_cksum, lemma_cksum_of_checksummed, spec_inet_cksum, with_cksum_at};
use crate::wire::{be16_at, be16_bytes, hi8, lo8, push_be16, read_be16};

verus! {

pub const ICMP_ECHO_REPLY: u8 = 0;

pub const ICMP_DESTINATION_UNREACHABLE: u8 = 3;

pub const ICMP_ECHO_REQUEST: u8 = 8;

pub const ICMP_ROUTER_ADVERTISEMENT: u8 = 9;

pub const ICMP_ROUTER_SOLICITATION: u8 = 10;

pub const ICMP_TIME_EXCEEDED: u8 = 11;

pub const ICMP_BAD_PARAM: u8 = 12;

/// Length of an echo packet: the header, eight bytes of padding and the time
/// of sending.
pub const ECHO_LEN: usize = 32;

/// An echo request before its checksum is filled in: type and code, a zero
/// checksum, identifier and sequence number in network byte order, padding,
/// and the time of sending with the lowest byte first.
pub open spec fn echo_blank(id: u16, seq: u16, timestamp: u128) -> Seq<u8> {
    seq![ICMP_ECHO_REQUEST, 0u8, 0u8, 0u8] + be16_bytes(id) + be16_bytes(seq) + Seq::new(
        8,
        |i: int| 0u8,
    ) + spec_u128_to_le_bytes(timestamp)
}

/// The bytes of an echo request.
pub open spec fn echo_request(id: u16, seq: u16, timestamp: u128) -> Seq<u8> {
    with_cksum_at(echo_blank(id, seq, timestamp), 1)
}

/// An echo request has `ECHO_LEN` bytes and a checksum that verifies.
pub proof fn lemma_echo_request(id: u16, seq: u16, timestamp: u128)
    ensures
        echo_request(id, seq, timestamp).len() == ECHO_LEN,
        spec_inet_cksum(echo_request(id, seq, timestamp)) == 0,
{
    vstd::bytes::lemma_auto_spec_u128_to_from_le_bytes();
    let blank = echo_blank(id, seq, timestamp);
    assert(spec_u128_to_le_bytes(timestamp).len() == 16);
    assert(blank.len() == 32);
    assert(blank[2] == 0 && blank[3] == 0);
    lemma_cksum_of_checksummed(blank, 1);
}

/// Builds the echo request with the sequence number `seq`, stamped with the
/// time of sending. The identifier is zero.
pub fn icmp_pack(seq: u16, timestamp: u128) -> (packet: Vec<u8>)
    ensures
        packet@ == echo_request(0, seq, timestamp),
        packet@.len() == ECHO_LEN,
{
    proof {
        lemma_echo_request(0, seq, timestamp);
    }
    let mut packet: Vec<u8> = Vec::with_capacity(ECHO_LEN);
    packet.push(ICMP_ECHO_REQUEST);
    packet.push(0u8);
    packet.push(0u8);
    packet.push(0u8);
    push_be16(&mut packet, 0);
    push_be16(&mut packet, seq);
    packet.push(0u8);
    packet.push(0u8);
    packet.push(0u8);
    packet.push(0u8);
    packet.push(0u8);
    packet.push(0u8);
    packet.push(0u8);
    packet.push(0u8);
    assert(packet@ =~= seq![ICMP_ECHO_REQUEST, 0u8, 0u8, 0u8] + be16_bytes(0) + be16_bytes(seq)
        + Seq::new(8, |j: int| 0u8));
    let mut stamp = u128_to_le_bytes(timestamp);
    packet.append(&mut stamp);
    assert(packet@ =~= echo_blank(0, seq, timestamp));
    let cksum = inet_cksum(packet.as_slice());
    packet.set(2, hi8(cksum));
    packet.set(3, lo8(cksum));
    assert(packet@ =~= echo_request(0, seq, timestamp));
    packet
}

/// What a received datagram is to an echo session.
#[derive(Clone, Copy, Debug, PartialEq, Eq, Structural)]
pub enum EchoVerdict {
    /// Not for this session: too short, from another host, with a bad header
    /// checksum, or the session's own request on the loopback.
    Ignore,
    /// An ICMP message that is no echo reply.
    Other { totlen: u16, ty: u8, code: u8 },
    /// An echo reply whose checksum does not verify.
    BadChecksum { totlen: u16 },
    /// An echo reply: its sequence number, the time to live it arrived with
    /// and the time its request was sent.
    Reply { totlen: u16, seq: u16, ttl: u8, sent: u128 },
}

/// Whether an IPv4 address is a loopback address.
pub open spec fn is_loopback(ip: u32) -> bool {
    ip / 16777216 == 127
}

/// The reading of the datagram `buf` by a session that pings `dst`.
pub open spec fn echo_verdict(buf: Seq<u8>, dst: u32) -> EchoVerdict {
    if buf.len() < IPv4::spec_size() + ECHO_LEN {
        EchoVerdict::Ignore
    } else {
        let iph = IPv4::spec_decode(buf.subrange(0, IPv4::spec_size() as int));
        let body = buf.subrange(IPv4::spec_size() as int, IPv4::spec_size() + ECHO_LEN);
        if iph.src != dst {
            EchoVerdict::Ignore
        } else if iph.cksum != 0 && spec_inet_cksum(iph.spec_encode()) != 0 {
            EchoVerdict::Ignore
        } else if is_loopback(iph.src) && body[0] == ICMP_ECHO_REQUEST {
            EchoVerdict::Ignore
        } else if body[0] != ICMP_ECHO_REPLY {
            EchoVerdict::Other { totlen: iph.totlen, ty: body[0], code: body[1] }
        } else if spec_inet_cksum(body) != 0 {
            EchoVerdict::BadChecksum { totlen: iph.totlen }
        } else {
            EchoVerdict::Reply {
                totlen: iph.totlen,
                seq: be16_at(body, 6),
                ttl: iph.ttl,
                sent: spec_u128_from_le_bytes(body.subrange(16, 32)),
            }
        }
    }
}

/// Reads a received datagram for a session that pings `dst`.
pub fn ping_recv(buf: &[u8], dst: u32) -> (verdict: EchoVerdict)
    ensures
        verdict == echo_verdict(buf@, dst),
{
    if buf.len() < IPv4::SIZE + ECHO_LEN {
        return EchoVerdict::Ignore;
    }
    let iph = IPv4::decode(buf, 0);
    if iph.src != dst {
        return EchoVerdict::Ignore;
    }
    if iph.cksum != 0 && !iph.verify_cksum() {
        return EchoVerdict::Ignore;
    }
    let ghost body = buf@.subrange(IPv4::spec_size() as int, IPv4::spec_size() + ECHO_LEN);
    let mut packet: Vec<u8> = Vec::with_capacity(ECHO_LEN);
    let mut i: usize = 0;
    while i < ECHO_LEN
        invariant
            i <= ECHO_LEN,
            buf@.len() >= IPv4::SIZE + ECHO_LEN,
            packet@ == buf@.subrange(IPv4::SIZE as int, IPv4::SIZE + i),
        decreases ECHO_LEN - i,
    {
        packet.push(buf[IPv4::SIZE + i]);
        i += 1;
        assert(packet@ =~= buf@.subrange(IPv4::SIZE as int, IPv4::SIZE + i));
    }
    assert(packet@ =~= body);
    let ty = packet[0];
    if iph.src / 16777216 == 127 && ty == ICMP_ECHO_REQUEST {
        return EchoVerdict::Ignore;
    }
    if ty != ICMP_ECHO_REPLY {
        return EchoVerdict::Other { totlen: iph.totlen, ty, code: packet[1] };
    }
    if inet_cksum(packet.as_slice()) != 0 {
        return EchoVerdict::BadChecksum { totlen: iph.totlen };
    }
    let seq = read_be16(packet.as_slice(), 6);
    let stamp = packet.split_off(16);
    assert(stamp@ =~= body.subrange(16, 32));
    let sent = u128_from_le_bytes(stamp.as_slice());
    EchoVerdict::Reply { totlen: iph.totlen, seq, ttl: iph.ttl, sent }
}

/// Number of bytes that an IPv4 packet of total length `totlen` carries
/// behind a header without options.
pub fn data_len(totlen: u16) -> (n: u16)
    ensures
        totlen >= IPv4::spec_size() ==> n == totlen - IPv4::spec_size(),
        totlen < IPv4::spec_size() ==> n == 0,
{
    if totlen >= 20 {
        totlen - 20
    } else {
        0
    }
}

/// Whether a host is written as an address rather than as a name: whether
/// its first byte is a decimal digit.
pub fn starts_with_digit(host: &str) -> (r: bool)
    requires
        host.spec_bytes().len() > 0,
    ensures
        r == (0x30 <= host.spec_bytes()[0] <= 0x39),
{
    let bytes = host.as_bytes();
    bytes[0] >= 0x30 && bytes[0] <= 0x39
}

/// Whether the code of a message of type `ty` is shown with it.
pub fn shows_code(ty: u8) -> (r: bool)
    ensures
        r == (ty == ICMP_DESTINATION_UNREACHABLE || ty == ICMP_ROUTER_ADVERTISEMENT || ty
            == ICMP_ROUTER_SOLICITATION || ty == ICMP_TIME_EXCEEDED || ty == ICMP_BAD_PARAM),
{
    ty == ICMP_DESTINATION_UNREACHABLE || ty == ICMP_ROUTER_ADVERTISEMENT || ty
        == ICMP_ROUTER_SOLICITATION || ty == ICMP_TIME_EXCEEDED || ty == ICMP_BAD_PARAM
}

} // verus!
