//! The checksums of IP, TCP and UDP headers.
use vstd::prelude::*;
use crate::net::be16_bytes;
use crate::router::wire::{overwrite, PROTOCOL_TCP, PROTOCOL_UDP};

verus! {

/// The sum of the 16-bit numbers that octets hold, most significant octet first. An odd last
/// octet is the upper half of a number.
pub open spec fn word_sum(s: Seq<u8>) -> nat
    decreases s.len(),
{
    if s.len() == 0 {
        0
    } else if s.len() == 1 {
        (s[0] * 256) as nat
    } else {
        (s[0] * 256 + s[1]) as nat + word_sum(s.skip(2))
    }
}

/// A sum with its carries added in: the number of 16 bits that is the same modulo `0xffff`, which
/// is zero only for the sum zero.
pub open spec fn folded(n: nat) -> u16 {
    if n > 0 && n % 0xffff == 0 {
        0xffff
    } else {
        (n % 0xffff) as u16
    }
}

/// The bits of `v` inverted.
pub open spec fn complement(v: u16) -> u16 {
    (0xffff - v) as u16
}

/// The sum of the pseudo header for a payload of `len` octets.
pub open spec fn pseudo_sum(src: Seq<u8>, dst: Seq<u8>, protocol: u8, len: nat) -> nat {
    word_sum(src) + word_sum(dst) + protocol as nat + len
}

/// The checksum of an IPv4 header whose checksum field is zero.
#[verifier::opaque]
pub open spec fn ipv4_header_checksum(header: Seq<u8>) -> u16 {
    complement(folded(word_sum(header)))
}

/// The checksum of a TCP segment whose checksum field is zero, for the octets of the source and
/// the destination address.
#[verifier::opaque]
pub open spec fn tcp_segment_checksum(src: Seq<u8>, dst: Seq<u8>, segment: Seq<u8>) -> u16 {
    complement(folded(pseudo_sum(src, dst, PROTOCOL_TCP, segment.len()) + word_sum(segment)))
}

/// The checksum of a UDP datagram whose checksum field is zero, for the octets of the source and
/// the destination address. Zero would mean that there is none.
#[verifier::opaque]
pub open spec fn udp_datagram_checksum(src: Seq<u8>, dst: Seq<u8>, datagram: Seq<u8>) -> u16 {
    let c = complement(
        folded(pseudo_sum(src, dst, PROTOCOL_UDP, datagram.len()) + word_sum(datagram)),
    );
    if c == 0 {
        0xffff
    } else {
        c
    }
}

/// Whether the checksum in an IPv4 header is right: the header sums up to all ones.
pub open spec fn header_verifies(header: Seq<u8>) -> bool {
    folded(word_sum(header)) == 0xffff
}

/// Whether the checksum in a TCP segment or a UDP datagram between two addresses is right: with
/// the pseudo header it sums up to all ones.
pub open spec fn transport_verifies(src: Seq<u8>, dst: Seq<u8>, protocol: u8, s: Seq<u8>) -> bool {
    folded(pseudo_sum(src, dst, protocol, s.len()) + word_sum(s)) == 0xffff
}

/// A number at an even place adds itself to the sum.
proof fn lemma_word_at(s: Seq<u8>, i: int)
    requires
        0 <= i,
        i + 2 <= s.len(),
        i % 2 == 0,
    ensures
        word_sum(s) == word_sum(overwrite(s, i, seq![0u8, 0u8])) + s[i] * 256 + s[i + 1],
    decreases i,
{
    let z = overwrite(s, i, seq![0u8, 0u8]);
    if i == 0 {
        assert(z.skip(2) =~= s.skip(2));
        assert(z[0] == 0 && z[1] == 0);
    } else {
        lemma_word_at(s.skip(2), i - 2);
        assert(z.skip(2) =~= overwrite(s.skip(2), i - 2, seq![0u8, 0u8]));
        assert(z[0] == s[0] && z[1] == s[1]);
    }
}

/// A number written at an even place adds itself to the sum of the rest.
proof fn lemma_written(s: Seq<u8>, i: int, v: u16)
    requires
        0 <= i,
        i + 2 <= s.len(),
        i % 2 == 0,
    ensures
        word_sum(overwrite(s, i, be16_bytes(v))) == word_sum(overwrite(s, i, seq![0u8, 0u8])) + v,
{
    let w = overwrite(s, i, be16_bytes(v));
    lemma_word_at(w, i);
    assert(overwrite(w, i, seq![0u8, 0u8]) =~= overwrite(s, i, seq![0u8, 0u8]));
    assert(w[i] == be16_bytes(v)[0] && w[i + 1] == be16_bytes(v)[1]);
}

/// A sum and the complement of what it folds to make all ones.
proof fn lemma_complement(n: nat, c: u16)
    requires
        c == complement(folded(n)) || (c == 0xffff && complement(folded(n)) == 0),
    ensures
        folded(n + c as nat) == 0xffff,
{
    let q = n / 0xffff;
    let r = n % 0xffff;
    assert(n == q * 0xffff + r);
    if r == 0 {
        if n > 0 && c == 0 {
            assert(n + c as nat == n);
        } else {
            assert(n + c as nat == (q + 1) * 0xffff);
            assert((n + c as nat) % 0xffff == 0);
        }
    } else {
        assert(c == 0xffff - r);
        assert(n + c as nat == (q + 1) * 0xffff);
        assert((n + c as nat) % 0xffff == 0);
    }
}

/// An IPv4 header with its checksum filled in verifies.
pub proof fn lemma_header_filled(header: Seq<u8>)
    requires
        header.len() >= 12,
    ensures
        header_verifies(
            overwrite(
                header,
                10,
                be16_bytes(ipv4_header_checksum(overwrite(header, 10, seq![0u8, 0u8]))),
            ),
        ),
{
    reveal(ipv4_header_checksum);
    let zeroed = overwrite(header, 10, seq![0u8, 0u8]);
    let c = ipv4_header_checksum(zeroed);
    lemma_written(header, 10, c);
    lemma_complement(word_sum(zeroed), c);
}

/// A TCP segment with its checksum filled in verifies.
pub proof fn lemma_segment_filled(src: Seq<u8>, dst: Seq<u8>, s: Seq<u8>)
    requires
        s.len() >= 18,
    ensures
        transport_verifies(
            src,
            dst,
            PROTOCOL_TCP,
            overwrite(
                s,
                16,
                be16_bytes(tcp_segment_checksum(src, dst, overwrite(s, 16, seq![0u8, 0u8]))),
            ),
        ),
{
    reveal(tcp_segment_checksum);
    let zeroed = overwrite(s, 16, seq![0u8, 0u8]);
    let c = tcp_segment_checksum(src, dst, zeroed);
    let pseudo = pseudo_sum(src, dst, PROTOCOL_TCP, s.len());
    lemma_written(s, 16, c);
    lemma_complement(pseudo + word_sum(zeroed), c);
    assert(pseudo + word_sum(overwrite(s, 16, be16_bytes(c))) == pseudo + word_sum(zeroed)
        + c as nat);
}

/// A UDP datagram with its checksum filled in verifies.
pub proof fn lemma_datagram_filled(src: Seq<u8>, dst: Seq<u8>, s: Seq<u8>)
    requires
        s.len() >= 8,
    ensures
        transport_verifies(
            src,
            dst,
            PROTOCOL_UDP,
            overwrite(
                s,
                6,
                be16_bytes(udp_datagram_checksum(src, dst, overwrite(s, 6, seq![0u8, 0u8]))),
            ),
        ),
{
    reveal(udp_datagram_checksum);
    let zeroed = overwrite(s, 6, seq![0u8, 0u8]);
    let c = udp_datagram_checksum(src, dst, zeroed);
    let pseudo = pseudo_sum(src, dst, PROTOCOL_UDP, s.len());
    lemma_written(s, 6, c);
    lemma_complement(pseudo + word_sum(zeroed), c);
    assert(pseudo + word_sum(overwrite(s, 6, be16_bytes(c))) == pseudo + word_sum(zeroed)
        + c as nat);
}

} // verus!
