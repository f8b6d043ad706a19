//! IPv4 output: the Internet checksum and the header of outbound packets.

use vstd::prelude::*;
use crate::dev::NetDevice;
use crate::header::{Header, IPv4, IP_DEFAULT_TTL, IP_PROTO_UDP, IP_VERSION_IHL};
use crate::skbuff::SkBuff;

verus! {

/// The `k`-th 16-bit word of a byte string in network byte order; a last odd
/// byte counts as the high byte of a word.
pub open spec fn word_at(bytes: Seq<u8>, k: int) -> nat {
    if 2 * k + 1 < bytes.len() {
        (bytes[2 * k] as nat) * 256 + bytes[2 * k + 1] as nat
    } else if 2 * k < bytes.len() {
        (bytes[2 * k] as nat) * 256
    } else {
        0
    }
}

/// Number of 16-bit words that a byte string fills.
pub open spec fn word_count(bytes: Seq<u8>) -> nat {
    ((bytes.len() + 1) / 2) as nat
}

/// Sum of the first `n` words.
pub open spec fn sum_words(bytes: Seq<u8>, n: nat) -> nat
    decreases n,
{
    if n == 0 {
        0
    } else {
        sum_words(bytes, (n - 1) as nat) + word_at(bytes, n - 1)
    }
}

/// A sum folded to 16 bits by adding the carries back in.
pub open spec fn fold16(s: nat) -> nat
    decreases s,
{
    if s < 65536 {
        s
    } else {
        fold16(s / 65536 + s % 65536)
    }
}

/// The Internet checksum of a byte string: the complement of the folded sum
/// of its words.
pub open spec fn spec_inet_cksum(bytes: Seq<u8>) -> u16 {
    (65535 - fold16(sum_words(bytes, word_count(bytes)))) as u16
}

/// A folded sum fits in 16 bits, leaves the same remainder by 65535 as the
/// sum, and is zero only for the sum zero.
pub proof fn lemma_fold16(s: nat)
    ensures
        fold16(s) <= 65535,
        fold16(s) % 65535 == s % 65535,
        s > 0 ==> fold16(s) > 0,
    decreases s,
{
    if s >= 65536 {
        let q = s / 65536;
        let r = s % 65536;
        assert(s == 65536 * q + r);
        assert(q >= 1);
        lemma_fold16(q + r);
        assert((q + r) % 65535 == s % 65535) by {
            assert(s == 65535 * q + (q + r));
            vstd::arithmetic::div_mod::lemma_mod_multiples_vanish(q as int, (q + r) as int, 65535);
        }
    }
}

/// Computes the Internet checksum.
#[verifier::when_used_as_spec(spec_inet_cksum_slice)]
pub fn inet_cksum(bytes: &[u8]) -> (c: u16)
    ensures
        c == spec_inet_cksum(bytes@),
{
    let n = bytes.len();
    let words = n / 2 + n % 2;
    let mut acc: u128 = 0;
    let mut k: usize = 0;
    while k < words
        invariant
            n == bytes@.len(),
            words == word_count(bytes@),
            k <= words,
            acc == sum_words(bytes@, k as nat),
            acc <= k * 65535,
        decreases words - k,
    {
        let hi = bytes[2 * k] as u128;
        let word = if 2 * k + 1 < n {
            hi * 256 + bytes[2 * k + 1] as u128
        } else {
            hi * 256
        };
        assert(word == word_at(bytes@, k as int));
        acc = acc + word;
        k += 1;
    }
    let ghost total = acc as nat;
    while acc >= 65536
        invariant
            fold16(acc as nat) == fold16(total),
        decreases acc,
    {
        acc = acc / 65536 + acc % 65536;
    }
    proof {
        lemma_fold16(total);
    }
    (65535 - acc) as u16
}

/// The checksum of the bytes of a slice.
pub open spec fn spec_inet_cksum_slice(bytes: &[u8]) -> u16 {
    spec_inet_cksum(bytes@)
}

impl IPv4 {
    /// The header with its checksum field filled in: the checksum of the
    /// header with that field zero.
    pub open spec fn spec_checksummed(self) -> IPv4 {
        IPv4 { cksum: spec_inet_cksum((IPv4 { cksum: 0, ..self }).spec_encode()), ..self }
    }

    #[verifier::when_used_as_spec(spec_checksummed)]
    pub fn checksummed(self) -> (h: IPv4)
        ensures
            h == self.spec_checksummed(),
    {
        let blank = IPv4 { cksum: 0, ..self };
        let mut bytes: Vec<u8> = Vec::new();
        blank.encode(&mut bytes);
        assert(bytes@ =~= blank.spec_encode());
        let cksum = inet_cksum(bytes.as_slice());
        IPv4 { cksum, ..self }
    }

    /// Whether the checksum over the whole header comes out as zero.
    pub fn verify_cksum(&self) -> (ok: bool)
        ensures
            ok == (spec_inet_cksum(self.spec_encode()) == 0),
    {
        let mut bytes: Vec<u8> = Vec::new();
        self.encode(&mut bytes);
        assert(bytes@ =~= self.spec_encode());
        inet_cksum(bytes.as_slice()) == 0
    }
}

/// Two byte strings whose words agree everywhere but at `k` have sums that
/// differ by what their words at `k` differ.
pub proof fn lemma_sum_words_patch(b0: Seq<u8>, b1: Seq<u8>, n: nat, k: int)
    requires
        0 <= k < n,
        forall|j: int| 0 <= j < n && j != k ==> word_at(b0, j) == word_at(b1, j),
    ensures
        sum_words(b1, n) + word_at(b0, k) == sum_words(b0, n) + word_at(b1, k),
    decreases n,
{
    if n - 1 == k {
        lemma_sum_words_same(b0, b1, (n - 1) as nat);
    } else {
        lemma_sum_words_patch(b0, b1, (n - 1) as nat, k);
    }
}

/// Two byte strings whose first `n` words agree have the same sum over them.
pub proof fn lemma_sum_words_same(b0: Seq<u8>, b1: Seq<u8>, n: nat)
    requires
        forall|j: int| 0 <= j < n ==> word_at(b0, j) == word_at(b1, j),
    ensures
        sum_words(b1, n) == sum_words(b0, n),
    decreases n,
{
    if n > 0 {
        lemma_sum_words_same(b0, b1, (n - 1) as nat);
    }
}

/// Adding the complement of its folded value to a sum gives a sum that folds
/// to all ones.
pub proof fn lemma_complement_folds_to_ones(s: nat)
    ensures
        fold16((s + 65535 - fold16(s)) as nat) == 65535,
{
    lemma_fold16(s);
    let f = fold16(s);
    let t = (s + 65535 - f) as nat;
    lemma_fold16(t);
    assert(t > 0);
    let q = s / 65535;
    let g = f / 65535;
    assert(s == 65535 * q + s % 65535);
    assert(f == 65535 * g + f % 65535);
    assert(t == 65535 * (q - g + 1) + 0);
    vstd::arithmetic::div_mod::lemma_mod_multiples_vanish(q - g + 1, 0, 65535);
    assert(t % 65535 == 0);
    assert(fold16(t) % 65535 == 0);
}

/// A byte string with its checksum written into a word that was zero: the
/// word `k` of `bytes` replaced by the checksum of `bytes`.
pub open spec fn with_cksum_at(bytes: Seq<u8>, k: int) -> Seq<u8> {
    let c = spec_inet_cksum(bytes);
    bytes.update(2 * k, (c / 256) as u8).update(2 * k + 1, (c % 256) as u8)
}

/// Writing the checksum of a byte string into a word of it that was zero
/// gives a byte string whose checksum is zero.
pub proof fn lemma_cksum_of_checksummed(bytes: Seq<u8>, k: int)
    requires
        0 <= k,
        2 * k + 1 < bytes.len(),
        bytes[2 * k] == 0,
        bytes[2 * k + 1] == 0,
    ensures
        spec_inet_cksum(with_cksum_at(bytes, k)) == 0,
{
    let c = spec_inet_cksum(bytes);
    let done = with_cksum_at(bytes, k);
    let n = word_count(bytes);
    assert(done.len() == bytes.len());
    assert(word_count(done) == n);
    assert(k < n);
    assert(word_at(bytes, k) == 0);
    assert(word_at(done, k) == c) by {
        assert(done[2 * k] == (c / 256) as u8);
        assert(done[2 * k + 1] == (c % 256) as u8);
    }
    assert forall|j: int| 0 <= j < n && j != k implies word_at(bytes, j) == word_at(done, j) by {
        if 2 * j < bytes.len() {
            assert(bytes[2 * j] == done[2 * j]);
        }
        if 2 * j + 1 < bytes.len() {
            assert(bytes[2 * j + 1] == done[2 * j + 1]);
        }
    }
    lemma_sum_words_patch(bytes, done, n, k);
    let s0 = sum_words(bytes, n);
    assert(sum_words(done, n) == s0 + c);
    lemma_fold16(s0);
    assert(c == 65535 - fold16(s0));
    lemma_complement_folds_to_ones(s0);
}

/// A header with its checksum filled in passes verification: the checksum
/// over all of its bytes is zero.
pub proof fn lemma_checksummed_verifies(h: IPv4)
    ensures
        spec_inet_cksum(h.spec_checksummed().spec_encode()) == 0,
{
    let blank = IPv4 { cksum: 0, ..h };
    let done = h.spec_checksummed();
    let b0 = blank.spec_encode();
    blank.lemma_decode_encode();
    done.lemma_decode_encode();
    assert(b0[10] == 0 && b0[11] == 0);
    assert(done.spec_encode() =~= with_cksum_at(b0, 5));
    lemma_cksum_of_checksummed(b0, 5);
}

/// The header of an outbound packet from `src` to `dst`: version 4 without
/// options, no payload yet, never fragmented before, the default time to
/// live, UDP, and the checksum of all that.
pub open spec fn ip_header(src: u32, dst: u32) -> IPv4 {
    (IPv4 {
        ihl_v: IP_VERSION_IHL,
        tos: 0,
        totlen: 20,
        id: 0,
        flags_off: 0,
        ttl: IP_DEFAULT_TTL,
        proto: IP_PROTO_UDP,
        cksum: 0,
        src,
        dst,
    }).spec_checksummed()
}

impl NetDevice {
    /// Builds the IPv4 header for a packet from `src` to `dst` in `skb`.
    ///
    /// The header is handed back; the buffer is not written and nothing is
    /// sent.
    pub fn ip_output(&self, skb: &SkBuff, src: u32, dst: u32) -> (iph: IPv4)
        requires
            skb.nh is Some,
        ensures
            iph == ip_header(src, dst),
    {
        let iph = IPv4 {
            ihl_v: IP_VERSION_IHL,
            tos: 0,
            totlen: 20,
            id: 0,
            flags_off: 0,
            ttl: IP_DEFAULT_TTL,
            proto: IP_PROTO_UDP,
            cksum: 0,
            src,
            dst,
        };
        iph.checksummed()
    }
}

} // verus!
