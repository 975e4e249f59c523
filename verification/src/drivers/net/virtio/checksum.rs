//! Partial checksums of the pseudo-headers of TCP and UDP (RFC 9293 section
//! 3.1 and RFC 8200 section 8.1), without the final inversion, for checksum
//! offloading to the device.

use vstd::prelude::*;

verus! {

/// One's complement addition of two 16-bit words (RFC 1071 section 1): the
/// sum with the carry added back in.
pub open spec fn ones_add(a: u16, b: u16) -> u16 {
    if a + b > 0xffff {
        (a + b - 0xffff) as u16
    } else {
        (a + b) as u16
    }
}

/// One's complement addition of two 16-bit words.
pub fn ones_complement_add(lhs: u16, rhs: u16) -> (r: u16)
    ensures
        r == ones_add(lhs, rhs),
{
    let sum: u32 = lhs as u32 + rhs as u32;
    if sum > 0xffff {
        (sum - 0xffff) as u16
    } else {
        sum as u16
    }
}

/// The order of the words does not change a one's complement sum (RFC 1071
/// section 2): the addition is commutative.
pub proof fn lemma_ones_add_commutative(a: u16, b: u16)
    ensures
        ones_add(a, b) == ones_add(b, a),
{
}

/// Neither does their grouping: the addition is associative.
pub proof fn lemma_ones_add_associative(a: u16, b: u16, c: u16)
    ensures
        ones_add(ones_add(a, b), c) == ones_add(a, ones_add(b, c)),
{
}

/// The 16-bit big-endian word of the bytes `hi` and `lo`.
pub open spec fn be_word(hi: u8, lo: u8) -> u16 {
    (hi * 256 + lo) as u16
}

/// The one's complement sum of the big-endian 16-bit words of `bytes`, from
/// the first to the last.
pub open spec fn words_sum(bytes: Seq<u8>) -> u16
    decreases bytes.len(),
{
    if bytes.len() < 2 {
        0
    } else {
        ones_add(
            words_sum(bytes.subrange(0, bytes.len() - 2)),
            be_word(bytes[bytes.len() - 2], bytes[bytes.len() - 1]),
        )
    }
}

/// The one's complement sum of the 16-bit words of an address.
pub fn addr_sum(addr: &[u8]) -> (r: u16)
    requires
        addr@.len() % 2 == 0,
    ensures
        r == words_sum(addr@),
{
    let mut sum: u16 = 0;
    let n = addr.len() / 2;
    let mut i: usize = 0;
    proof {
        assert(addr@.subrange(0, 0).len() == 0);
    }
    while i < n
        invariant
            n == addr@.len() / 2,
            addr@.len() % 2 == 0,
            addr@.len() <= usize::MAX,
            0 <= i <= n,
            sum == words_sum(addr@.subrange(0, 2 * i)),
        decreases n - i,
    {
        assert(2 * i + 1 < addr@.len()) by (nonlinear_arith)
            requires
                i < n,
                n == addr@.len() / 2,
        ;
        let hi = addr[2 * i];
        let lo = addr[2 * i + 1];
        let word: u16 = ((hi as u16) << 8) | (lo as u16);
        proof {
            assert(((hi as u16) << 8) | (lo as u16) == hi * 256 + lo) by (bit_vector);
            let t = addr@.subrange(0, 2 * i + 2);
            assert(t.subrange(0, t.len() - 2) =~= addr@.subrange(0, 2 * i));
            assert(t[t.len() - 2] == hi);
            assert(t[t.len() - 1] == lo);
        }
        sum = ones_complement_add(sum, word);
        i = i + 1;
    }
    assert(addr@.subrange(0, 2 * n) =~= addr@);
    sum
}

/// The partial checksum of the IPv4 pseudo-header of a packet with the given
/// addresses, protocol, total length and header length.
pub open spec fn spec_ipv4_pseudo_header(
    src: Seq<u8>,
    dst: Seq<u8>,
    protocol: u8,
    total_len: u16,
    header_len: u8,
) -> u16 {
    ones_add(
        ones_add(ones_add(words_sum(src), words_sum(dst)), protocol as u16),
        (total_len - header_len) as u16,
    )
}

/// Calculates the checksum of the IPv4 pseudo-header without the final inversion.
pub fn ipv4_pseudo_header_partial_checksum(
    src: [u8; 4],
    dst: [u8; 4],
    protocol: u8,
    total_len: u16,
    header_len: u8,
) -> (r: u16)
    requires
        header_len <= total_len,
    ensures
        r == spec_ipv4_pseudo_header(src@, dst@, protocol, total_len, header_len),
{
    let padded_protocol = protocol as u16;
    let payload_len = total_len - header_len as u16;
    let mut sum = addr_sum(&src);
    sum = ones_complement_add(sum, addr_sum(&dst));
    sum = ones_complement_add(sum, padded_protocol);
    ones_complement_add(sum, payload_len)
}

/// The partial checksum of the IPv6 pseudo-header of a packet with the given
/// addresses, payload length and next header.
pub open spec fn spec_ipv6_pseudo_header(
    src: Seq<u8>,
    dst: Seq<u8>,
    payload_len: u16,
    protocol: u8,
) -> u16 {
    ones_add(ones_add(ones_add(words_sum(src), words_sum(dst)), payload_len), protocol as u16)
}

/// Calculates the checksum of the IPv6 pseudo-header without the final inversion.
pub fn ipv6_pseudo_header_partial_checksum(
    src: [u8; 16],
    dst: [u8; 16],
    payload_len: u16,
    protocol: u8,
) -> (r: u16)
    ensures
        r == spec_ipv6_pseudo_header(src@, dst@, payload_len, protocol),
{
    let padded_protocol = protocol as u16;
    let mut sum = addr_sum(&src);
    sum = ones_complement_add(sum, addr_sum(&dst));
    sum = ones_complement_add(sum, payload_len);
    ones_complement_add(sum, padded_protocol)
}

} // verus!
