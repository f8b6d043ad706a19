//! Wire formats: hardware addresses and the Ethernet, ARP and IPv4 headers,
//! each with its byte-exact encoding in network byte order.

use vstd::prelude::*;

verus! {

/// A 48-bit hardware (link-layer) address.
#[derive(Clone, Copy, Debug)]
pub struct Mac {
    pub octets: [u8; 6],
}

impl View for Mac {
    type V = Seq<u8>;

    open spec fn view(&self) -> Seq<u8> {
        self.octets@
    }
}

impl Mac {
    /// The all-zero address, used where a hardware address is not yet known.
    pub open spec fn spec_zero() -> Mac {
        Mac { octets: [0u8, 0u8, 0u8, 0u8, 0u8, 0u8] }
    }

    /// The broadcast address: all bits set.
    pub open spec fn spec_broadcast() -> Mac {
        Mac { octets: [0xffu8, 0xffu8, 0xffu8, 0xffu8, 0xffu8, 0xffu8] }
    }

    #[verifier::when_used_as_spec(spec_zero)]
    pub fn zero() -> (m: Mac)
        ensures
            m == Mac::spec_zero(),
    {
        Mac { octets: [0u8, 0u8, 0u8, 0u8, 0u8, 0u8] }
    }

    #[verifier::when_used_as_spec(spec_broadcast)]
    pub fn broadcast() -> (m: Mac)
        ensures
            m == Mac::spec_broadcast(),
    {
        Mac { octets: [0xffu8, 0xffu8, 0xffu8, 0xffu8, 0xffu8, 0xffu8] }
    }

    /// Number of octets of a hardware address.
    pub const LEN: usize = 6;

    pub fn new(octets: [u8; 6]) -> (m: Mac)
        ensures
            m.octets == octets,
    {
        Mac { octets }
    }

    /// Whether two addresses hold the same octets.
    pub fn same(&self, other: &Mac) -> (r: bool)
        ensures
            r == (*self == *other),
            r == (self@ == other@),
    {
        let r = self.octets[0] == other.octets[0] && self.octets[1] == other.octets[1]
            && self.octets[2] == other.octets[2] && self.octets[3] == other.octets[3]
            && self.octets[4] == other.octets[4] && self.octets[5] == other.octets[5];
        proof {
            if r {
                assert(self.octets@ =~= other.octets@);
                assert(self.octets == other.octets);
            }
        }
        r
    }

    pub fn is_broadcast(&self) -> (r: bool)
        ensures
            r == (*self == Mac::broadcast()),
    {
        self.same(&Mac::broadcast())
    }
}

/// The 16-bit value whose big-endian encoding is `hi`, `lo`.
pub open spec fn be16(hi: u8, lo: u8) -> u16 {
    (hi as int * 256 + lo as int) as u16
}

/// The 32-bit value whose big-endian encoding is `b0`, `b1`, `b2`, `b3`.
pub open spec fn be32(b0: u8, b1: u8, b2: u8, b3: u8) -> u32 {
    (b0 as int * 16777216 + b1 as int * 65536 + b2 as int * 256 + b3 as int) as u32
}

/// Big-endian encoding of a 16-bit value.
pub open spec fn be16_bytes(x: u16) -> Seq<u8> {
    seq![(x / 256) as u8, (x % 256) as u8]
}

/// Big-endian encoding of a 32-bit value.
pub open spec fn be32_bytes(x: u32) -> Seq<u8> {
    seq![
        (x / 16777216) as u8,
        ((x / 65536) % 256) as u8,
        ((x / 256) % 256) as u8,
        (x % 256) as u8,
    ]
}

/// The hardware address held in the first six bytes of a sequence.
pub open spec fn mac_at(bytes: Seq<u8>, at: int) -> Mac {
    Mac {
        octets: [
            bytes[at],
            bytes[at + 1],
            bytes[at + 2],
            bytes[at + 3],
            bytes[at + 4],
            bytes[at + 5],
        ],
    }
}

pub open spec fn be16_at(bytes: Seq<u8>, at: int) -> u16 {
    be16(bytes[at], bytes[at + 1])
}

pub open spec fn be32_at(bytes: Seq<u8>, at: int) -> u32 {
    be32(bytes[at], bytes[at + 1], bytes[at + 2], bytes[at + 3])
}

/// Decoding undoes encoding, for 16-bit values.
pub proof fn lemma_be16_round_trip(x: u16)
    ensures
        be16_bytes(x).len() == 2,
        be16_at(be16_bytes(x), 0) == x,
{
}

/// Encoding undoes decoding, for 16-bit values.
pub proof fn lemma_be16_bytes_of(hi: u8, lo: u8)
    ensures
        be16_bytes(be16(hi, lo)) =~= seq![hi, lo],
{
}

/// Decoding undoes encoding, for 32-bit values.
pub proof fn lemma_be32_round_trip(x: u32)
    ensures
        be32_bytes(x).len() == 4,
        be32_at(be32_bytes(x), 0) == x,
{
}

/// Quotient and remainder of `q * d + r` by `d`, for a remainder in range.
proof fn lemma_div_mod_of(q: int, r: int, d: int)
    requires
        d > 0,
        0 <= r < d,
    ensures
        (q * d + r) / d == q,
        (q * d + r) % d == r,
{
    vstd::arithmetic::div_mod::lemma_fundamental_div_mod_converse(q * d + r, d, q, r);
}

/// Encoding undoes decoding, for 32-bit values.
pub proof fn lemma_be32_bytes_of(b0: u8, b1: u8, b2: u8, b3: u8)
    ensures
        be32_bytes(be32(b0, b1, b2, b3)) =~= seq![b0, b1, b2, b3],
{
    let x = be32(b0, b1, b2, b3) as int;
    assert(x == b0 as int * 16777216 + b1 as int * 65536 + b2 as int * 256 + b3 as int);
    lemma_div_mod_of(b0 as int, b1 as int * 65536 + b2 as int * 256 + b3 as int, 16777216);
    lemma_div_mod_of(b0 as int * 256 + b1 as int, b2 as int * 256 + b3 as int, 65536);
    lemma_div_mod_of(b0 as int, b1 as int, 256);
    lemma_div_mod_of(b0 as int * 65536 + b1 as int * 256 + b2 as int, b3 as int, 256);
    lemma_div_mod_of(b0 as int * 256 + b1 as int, b2 as int, 256);
    assert(x / 16777216 == b0 as int);
    assert(x / 65536 == b0 as int * 256 + b1 as int);
    assert((x / 65536) % 256 == b1 as int);
    assert(x / 256 == b0 as int * 65536 + b1 as int * 256 + b2 as int);
    assert((x / 256) % 256 == b2 as int);
    assert(x % 256 == b3 as int);
}

/// The IPv4 address `a.b.c.d` as a number.
pub fn ipv4(a: u8, b: u8, c: u8, d: u8) -> (ip: u32)
    ensures
        ip == be32(a, b, c, d),
{
    (a as u32) * 16777216 + (b as u32) * 65536 + (c as u32) * 256 + (d as u32)
}

/// The high byte of a 16-bit value.
pub fn hi8(x: u16) -> (b: u8)
    ensures
        b == (x / 256) as u8,
{
    (x / 256) as u8
}

/// The low byte of a 16-bit value.
pub fn lo8(x: u16) -> (b: u8)
    ensures
        b == (x % 256) as u8,
{
    (x % 256) as u8
}

/// Reads a big-endian 16-bit value at `at`.
pub fn read_be16(bytes: &[u8], at: usize) -> (x: u16)
    requires
        at + 2 <= bytes@.len(),
    ensures
        x == be16_at(bytes@, at as int),
{
    (bytes[at] as u16) * 256 + (bytes[at + 1] as u16)
}

/// Reads a big-endian 32-bit value at `at`.
pub fn read_be32(bytes: &[u8], at: usize) -> (x: u32)
    requires
        at + 4 <= bytes@.len(),
    ensures
        x == be32_at(bytes@, at as int),
{
    (bytes[at] as u32) * 16777216 + (bytes[at + 1] as u32) * 65536 + (bytes[at + 2] as u32) * 256
        + (bytes[at + 3] as u32)
}

/// Reads a hardware address at `at`.
pub fn read_mac(bytes: &[u8], at: usize) -> (m: Mac)
    requires
        at + 6 <= bytes@.len(),
    ensures
        m == mac_at(bytes@, at as int),
{
    Mac {
        octets: [
            bytes[at],
            bytes[at + 1],
            bytes[at + 2],
            bytes[at + 3],
            bytes[at + 4],
            bytes[at + 5],
        ],
    }
}

/// Appends the big-endian encoding of a 16-bit value.
pub fn push_be16(out: &mut Vec<u8>, x: u16)
    ensures
        final(out)@ == old(out)@ + be16_bytes(x),
{
    out.push((x / 256) as u8);
    out.push((x % 256) as u8);
    assert(out@ =~= old(out)@ + be16_bytes(x));
}

/// Appends the big-endian encoding of a 32-bit value.
pub fn push_be32(out: &mut Vec<u8>, x: u32)
    ensures
        final(out)@ == old(out)@ + be32_bytes(x),
{
    out.push((x / 16777216) as u8);
    out.push(((x / 65536) % 256) as u8);
    out.push(((x / 256) % 256) as u8);
    out.push((x % 256) as u8);
    assert(out@ =~= old(out)@ + be32_bytes(x));
}

/// Appends the six octets of a hardware address.
pub fn push_mac(out: &mut Vec<u8>, m: &Mac)
    ensures
        final(out)@ == old(out)@ + m@,
{
    out.push(m.octets[0]);
    out.push(m.octets[1]);
    out.push(m.octets[2]);
    out.push(m.octets[3]);
    out.push(m.octets[4]);
    out.push(m.octets[5]);
    assert(out@ =~= old(out)@ + m@);
}

} // verus!
