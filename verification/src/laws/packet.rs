//! What is read from a frame and how it is rewritten, octet by octet.
//!
//! A frame is an Ethernet header of 14 octets, an IP header and a TCP or UDP header. An IPv4 header
//! has its length in units of four octets in the lower half of its first octet.
use vstd::prelude::*;
use crate::net::{ipv4_at, ipv6_at, IpAddr, SocketAddr};
use crate::router::checksum::{udp_datagram_checksum, word_sum};
use crate::router::flow::FlowStep;
use crate::router::packet::{
    direction_of, frame_rewritten, ipv4_payload, ipv4_rewritten, ipv6_payload, ipv6_rewritten,
    lemma_ipv4_parts, lemma_ipv6_parts, lemma_payload_turned, lemma_transport_filled, packet_info,
    packet_step, rewrite_fits, with_port, PacketInfo, PacketKind, PacketStep, PortRewrite,
    ProxyDirection,
};
use crate::router::wire::{ipv4_header_len_of, ipv4_total_len_of, udp_checksum_filled};

verus! {

/// Where the transport header of an IPv4 packet starts in its frame.
pub open spec fn v4_header_end(f: Seq<u8>) -> int {
    14 + 4 * (f[14] % 16)
}

/// Where an IPv4 packet ends in its frame.
pub open spec fn v4_end(f: Seq<u8>) -> int {
    14 + f[16] * 256 + f[17]
}

/// Where an IPv6 packet ends in its frame.
pub open spec fn v6_end(f: Seq<u8>) -> int {
    54 + f[18] * 256 + f[19]
}

/// The lengths in an IPv4 header fit into the frame.
pub open spec fn v4_fits(f: Seq<u8>) -> bool {
    f.len() >= 34 && v4_header_end(f) <= v4_end(f) <= f.len()
}

/// The length in an IPv6 header fits into the frame.
pub open spec fn v6_fits(f: Seq<u8>) -> bool {
    f.len() >= 54 && v6_end(f) <= f.len()
}

/// A TCP header fits between two places.
pub open spec fn tcp_fits(f: Seq<u8>, from: int, to: int) -> bool {
    to - from >= 20 && 20 <= 4 * (f[from + 12] / 16) <= to - from
}

/// A UDP datagram fits between two places.
pub open spec fn udp_fits(f: Seq<u8>, from: int, to: int) -> bool {
    to - from >= 8 && 8 <= f[from + 4] * 256 + f[from + 5] <= to - from
}

/// Which packets are IPv6 packets, and which carry UDP.
pub proof fn law_kinds(kind: PacketKind)
    ensures
        kind.spec_is_v6() == match kind {
            PacketKind::TcpV4 | PacketKind::UdpV4 => false,
            PacketKind::TcpV6 | PacketKind::UdpV6 => true,
        },
        kind.spec_is_udp() == match kind {
            PacketKind::TcpV4 | PacketKind::TcpV6 => false,
            PacketKind::UdpV4 | PacketKind::UdpV6 => true,
        },
{
}

/// The ports and flags that a transport header at `h` holds.
pub open spec fn header_says(f: Seq<u8>, h: int, info: PacketInfo) -> bool {
    let udp = info.kind == PacketKind::UdpV4 || info.kind == PacketKind::UdpV6;
    &&& info.src_port == f[h] * 256 + f[h + 1]
    &&& info.dst_port == f[h + 2] * 256 + f[h + 3]
    &&& info.fin == (!udp && f[h + 13] % 2 == 1)
    &&& info.syn == (!udp && (f[h + 13] / 2) % 2 == 1)
    &&& info.rst == (!udp && (f[h + 13] / 4) % 2 == 1)
    &&& info.ack == (!udp && (f[h + 13] / 16) % 2 == 1)
}

/// An IPv4 frame, of type 08 00, is read exactly if its lengths fit and it carries TCP, or UDP to
/// an address that is neither a multicast address nor that of everybody. What is read is what
/// stands in its octets.
pub proof fn law_ipv4_frames_are_read(f: Seq<u8>)
    requires
        f.len() >= 14,
        f[12] == 8,
        f[13] == 0,
    ensures
        ({
            let h = v4_header_end(f);
            let e = v4_end(f);
            let many = f[30] / 16 == 14 || (f[30] == 255 && f[31] == 255 && f[32] == 255 && f[33]
                == 255);
            let tcp = v4_fits(f) && f[23] == 6 && tcp_fits(f, h, e);
            let udp = v4_fits(f) && f[23] == 17 && udp_fits(f, h, e) && !many;
            &&& packet_info(f) is Some <==> tcp || udp
            &&& packet_info(f) matches Some(info) ==> {
                &&& info.kind == if tcp {
                    PacketKind::TcpV4
                } else {
                    PacketKind::UdpV4
                }
                &&& info.src_ip matches IpAddr::V4(a) && a.octets@ == f.subrange(26, 30)
                &&& info.dst_ip matches IpAddr::V4(b) && b.octets@ == f.subrange(30, 34)
                &&& header_says(f, h, info)
            }
        }),
{
    let p = f.skip(14);
    if f.len() >= 34 {
        let h = v4_header_end(f);
        let e = v4_end(f);
        assert(p[0] == f[14] && p[2] == f[16] && p[3] == f[17] && p[9] == f[23]);
        assert(ipv4_at(p, 12).octets@ =~= f.subrange(26, 30));
        assert(ipv4_at(p, 16).octets@ =~= f.subrange(30, 34));
        let dst = ipv4_at(p, 16);
        crate::laws::net::law_address_classes(dst, ipv6_at(p, 0));
        assert(dst.octets@[0] == f[30] && dst.octets@[1] == f[31] && dst.octets@[2] == f[32]
            && dst.octets@[3] == f[33]);
        if dst.octets@[0] == 255 && dst.octets@[1] == 255 && dst.octets@[2] == 255
            && dst.octets@[3] == 255 {
            assert(forall|k: int| 0 <= k < 4 ==> dst.octets@[k] == 255);
        }
        if v4_fits(f) {
            let s = ipv4_payload(p);
            assert(s.len() == e - h);
            assert(forall|k: int| 0 <= k < s.len() ==> #[trigger] s[k] == f[h + k]);
        }
    }
}

/// An IPv6 frame, of type 86 dd, is read exactly if its lengths fit and it carries TCP, or UDP to
/// an address that is no multicast address. What is read is what stands in its octets.
pub proof fn law_ipv6_frames_are_read(f: Seq<u8>)
    requires
        f.len() >= 14,
        f[12] == 0x86,
        f[13] == 0xdd,
    ensures
        ({
            let e = v6_end(f);
            let tcp = v6_fits(f) && f[20] == 6 && tcp_fits(f, 54, e);
            let udp = v6_fits(f) && f[20] == 17 && udp_fits(f, 54, e) && f[38] != 255;
            &&& packet_info(f) is Some <==> tcp || udp
            &&& packet_info(f) matches Some(info) ==> {
                &&& info.kind == if tcp {
                    PacketKind::TcpV6
                } else {
                    PacketKind::UdpV6
                }
                &&& info.src_ip matches IpAddr::V6(a) && a.octets@ == f.subrange(22, 38)
                &&& info.dst_ip matches IpAddr::V6(b) && b.octets@ == f.subrange(38, 54)
                &&& header_says(f, 54, info)
            }
        }),
{
    let p = f.skip(14);
    if f.len() >= 54 {
        let e = v6_end(f);
        assert(p[4] == f[18] && p[5] == f[19] && p[6] == f[20]);
        assert(ipv6_at(p, 8).octets@ =~= f.subrange(22, 38));
        assert(ipv6_at(p, 24).octets@ =~= f.subrange(38, 54));
        assert(ipv6_at(p, 24).octets@[0] == f[38]);
        if v6_fits(f) {
            let s = ipv6_payload(p);
            assert(s.len() == e - 54);
            assert(forall|k: int| 0 <= k < s.len() ==> #[trigger] s[k] == f[54 + k]);
        }
    }
}

/// Frames of other types are not read.
pub proof fn law_other_frames_are_not_read(f: Seq<u8>)
    requires
        f.len() < 14 || !((f[12] == 8 && f[13] == 0) || (f[12] == 0x86 && f[13] == 0xdd)),
    ensures
        packet_info(f) is None,
{
}

/// Whatever is rewritten, and whichever way it goes, the hardware addresses change places: the
/// first six octets of the new frame are the next six of the old one, and the other way round. The
/// type of the frame and its length stay.
pub proof fn law_hardware_addresses_change_places(
    f: Seq<u8>,
    kind: PacketKind,
    rewrite: PortRewrite,
    k: int,
)
    requires
        0 <= k < 6,
    ensures
        frame_rewritten(f, kind, rewrite) matches Some(out) ==> {
            &&& f.len() >= 14
            &&& out.len() == f.len()
            &&& out[k] == f[6 + k]
            &&& out[6 + k] == f[k]
            &&& out[12] == f[12]
            &&& out[13] == f[13]
        },
{
}

/// In every frame that is rewritten and whose headers do not overlap, that is, whose IPv4 header
/// has at least 20 octets, the IP addresses change places, the one port becomes the given one, and
/// besides the hardware addresses and the checksums every other octet stays.
pub proof fn law_rewritten_octets(f: Seq<u8>, kind: PacketKind, rewrite: PortRewrite)
    requires
        frame_rewritten(f, kind, rewrite) is Some,
        kind == PacketKind::TcpV4 || kind == PacketKind::UdpV4 ==> f[14] % 16 >= 5,
    ensures
        frame_rewritten(f, kind, rewrite) matches Some(out) && ({
            let v6 = kind == PacketKind::TcpV6 || kind == PacketKind::UdpV6;
            let udp = kind == PacketKind::UdpV4 || kind == PacketKind::UdpV6;
            let h = if v6 {
                54
            } else {
                v4_header_end(f)
            };
            let c = if udp {
                h + 6
            } else {
                h + 16
            };
            &&& out.len() == f.len()
            &&& !v6 ==> out.subrange(26, 30) == f.subrange(30, 34) && out.subrange(30, 34)
                == f.subrange(26, 30)
            &&& v6 ==> out.subrange(22, 38) == f.subrange(38, 54) && out.subrange(38, 54)
                == f.subrange(22, 38)
            &&& ports_rewritten(f, out, h, rewrite)
            &&& forall|i: int|
                12 <= i < f.len() && !(h <= i < h + 4) && !(c <= i < c + 2) && !(v6 && 22 <= i
                    < 54) && !(!v6 && 24 <= i < 34) ==> #[trigger] out[i] == f[i]
        }),
{
    if kind.spec_is_v6() {
        lemma_v6_octets(f, kind, rewrite);
    } else {
        lemma_v4_octets(f, kind, rewrite);
    }
    let out = frame_rewritten(f, kind, rewrite)->Some_0;
    let v6 = kind.spec_is_v6();
    let h: int = if v6 {
        54
    } else {
        v4_header_end(f)
    };
    let c = if kind.spec_is_udp() {
        h + 6
    } else {
        h + 16
    };
    lemma_other_octets(f, kind, rewrite, v6, h, c);
}

/// What a rewrite does to the ports of a header that starts at `h`.
pub open spec fn ports_rewritten(f: Seq<u8>, out: Seq<u8>, h: int, rewrite: PortRewrite) -> bool {
    match rewrite {
        PortRewrite::ToProxy(port) => {
            &&& out[h] == f[h]
            &&& out[h + 1] == f[h + 1]
            &&& out[h + 2] * 256 + out[h + 3] == port
        },
        PortRewrite::FromProxy(port) => {
            &&& out[h] * 256 + out[h + 1] == port
            &&& out[h + 2] == f[h + 2]
            &&& out[h + 3] == f[h + 3]
        },
    }
}

#[verifier::spinoff_prover]
proof fn lemma_v6_octets(f: Seq<u8>, kind: PacketKind, rewrite: PortRewrite)
    requires
        frame_rewritten(f, kind, rewrite) is Some,
        kind.spec_is_v6(),
    ensures
        frame_rewritten(f, kind, rewrite) matches Some(out) && {
            &&& out.len() == f.len() >= 62
            &&& out.subrange(22, 38) == f.subrange(38, 54)
            &&& out.subrange(38, 54) == f.subrange(22, 38)
            &&& ports_rewritten(f, out, 54, rewrite)
        },
{
    let p = f.skip(14);
    let udp = kind.spec_is_udp();
    let out = frame_rewritten(f, kind, rewrite)->Some_0;
    lemma_ipv6_parts(p, udp, rewrite);
    let q = ipv6_rewritten(p, udp, rewrite);
    assert(out.skip(14) =~= q);
    let s = ipv6_payload(p);
    let s2 = ipv6_payload(q);
    lemma_payload_turned(udp, s, rewrite, p.subrange(24, 40), p.subrange(8, 24));
    assert(out.subrange(22, 38) =~= q.subrange(8, 24));
    assert(out.subrange(38, 54) =~= q.subrange(24, 40));
    assert(f.subrange(22, 38) =~= p.subrange(8, 24));
    assert(f.subrange(38, 54) =~= p.subrange(24, 40));
    assert(forall|k: int| 0 <= k < s.len() ==> #[trigger] s[k] == f[54 + k]);
    assert(forall|k: int| 0 <= k < s2.len() ==> #[trigger] s2[k] == out[54 + k]);
    lemma_ports_at(s, s2, f, out, 54, rewrite);
}

#[verifier::spinoff_prover]
#[verifier::rlimit(60)]
proof fn lemma_v4_octets(f: Seq<u8>, kind: PacketKind, rewrite: PortRewrite)
    requires
        frame_rewritten(f, kind, rewrite) is Some,
        !kind.spec_is_v6(),
        f[14] % 16 >= 5,
    ensures
        frame_rewritten(f, kind, rewrite) matches Some(out) && {
            &&& out.len() == f.len() >= 34
            &&& out.subrange(26, 30) == f.subrange(30, 34)
            &&& out.subrange(30, 34) == f.subrange(26, 30)
            &&& ports_rewritten(f, out, v4_header_end(f), rewrite)
        },
{
    let p = f.skip(14);
    let udp = kind.spec_is_udp();
    let out = frame_rewritten(f, kind, rewrite)->Some_0;
    assert(p[0] == f[14] && p[2] == f[16] && p[3] == f[17]);
    lemma_ipv4_parts(p, udp, rewrite);
    let q = ipv4_rewritten(p, udp, rewrite);
    assert(out.skip(14) =~= q);
    let h = v4_header_end(f);
    let s = ipv4_payload(p);
    let s2 = ipv4_payload(q);
    lemma_payload_turned(udp, s, rewrite, p.subrange(16, 20), p.subrange(12, 16));
    assert(out.subrange(26, 30) =~= q.subrange(12, 16));
    assert(out.subrange(30, 34) =~= q.subrange(16, 20));
    assert(f.subrange(26, 30) =~= p.subrange(12, 16));
    assert(f.subrange(30, 34) =~= p.subrange(16, 20));
    assert(forall|k: int| 0 <= k < s.len() ==> #[trigger] s[k] == f[h + k]);
    assert(forall|k: int| 0 <= k < s2.len() ==> #[trigger] s2[k] == out[h + k]);
    lemma_ports_at(s, s2, f, out, h, rewrite);
}

#[verifier::spinoff_prover]
proof fn lemma_other_octets(
    f: Seq<u8>,
    kind: PacketKind,
    rewrite: PortRewrite,
    v6: bool,
    h: int,
    c: int,
)
    requires
        frame_rewritten(f, kind, rewrite) is Some,
        !v6 ==> f[14] % 16 >= 5,
        v6 == kind.spec_is_v6(),
        h == if v6 {
            54
        } else {
            v4_header_end(f)
        },
        c == if kind.spec_is_udp() {
            h + 6
        } else {
            h + 16
        },
    ensures
        frame_rewritten(f, kind, rewrite) matches Some(out) && forall|i: int|
            12 <= i < f.len() && !(h <= i < h + 4) && !(c <= i < c + 2) && !(v6 && 22 <= i < 54)
                && !(!v6 && 24 <= i < 34) ==> #[trigger] out[i] == f[i],
{
    let p = f.skip(14);
    let udp = kind.spec_is_udp();
    let out = frame_rewritten(f, kind, rewrite)->Some_0;
    let q = out.skip(14);
    assert(p[0] == f[14] && p[2] == f[16] && p[3] == f[17] && p[4] == f[18] && p[5] == f[19]);
    let s = if v6 {
        ipv6_payload(p)
    } else {
        ipv4_payload(p)
    };
    let s2 = if v6 {
        ipv6_payload(q)
    } else {
        ipv4_payload(q)
    };
    if v6 {
        lemma_ipv6_parts(p, udp, rewrite);
        assert(q =~= ipv6_rewritten(p, udp, rewrite));
        lemma_payload_turned(udp, s, rewrite, p.subrange(24, 40), p.subrange(8, 24));
    } else {
        lemma_ipv4_parts(p, udp, rewrite);
        assert(q =~= ipv4_rewritten(p, udp, rewrite));
        lemma_payload_turned(udp, s, rewrite, p.subrange(16, 20), p.subrange(12, 16));
    }
    assert(s2.len() == s.len());
    assert(forall|k: int| 0 <= k < s.len() ==> #[trigger] s[k] == p[h - 14 + k]);
    assert(forall|k: int| 0 <= k < s.len() ==> #[trigger] s2[k] == q[h - 14 + k]);
    assert forall|i: int|
        12 <= i < f.len() && !(h <= i < h + 4) && !(c <= i < c + 2) && !(v6 && 22 <= i < 54) && !(
        !v6 && 24 <= i < 34) implies #[trigger] out[i] == f[i] by {
        if i >= 14 {
            assert(out[i] == q[i - 14] && f[i] == p[i - 14]);
            if h <= i < h + s.len() {
                assert(s2[i - h] == s[i - h]);
            }
        }
    }
}

proof fn lemma_ports_at(
    s: Seq<u8>,
    s2: Seq<u8>,
    f: Seq<u8>,
    out: Seq<u8>,
    h: int,
    rewrite: PortRewrite,
)
    requires
        s.len() >= 8,
        s2.len() == s.len(),
        forall|k: int| 0 <= k < s.len() ==> #[trigger] s[k] == f[h + k],
        forall|k: int| 0 <= k < s2.len() ==> #[trigger] s2[k] == out[h + k],
        crate::net::be16(s2, 0) == (match rewrite {
            PortRewrite::ToProxy(_) => crate::net::be16(s, 0),
            PortRewrite::FromProxy(port) => port,
        }),
        crate::net::be16(s2, 2) == (match rewrite {
            PortRewrite::ToProxy(port) => port,
            PortRewrite::FromProxy(_) => crate::net::be16(s, 2),
        }),
    ensures
        ports_rewritten(f, out, h, rewrite),
{
    assert(s[0] == f[h + 0] && s[1] == f[h + 1] && s[2] == f[h + 2] && s[3] == f[h + 3]);
    assert(s2[0] == out[h + 0] && s2[1] == out[h + 1] && s2[2] == out[h + 2] && s2[3] == out[h
        + 3]);
}

/// The checksums of a rewritten frame are right: the IPv4 header, and the segment or datagram
/// together with the two addresses, the number of its protocol and its length, sum up to a
/// multiple of `0xffff` that is not zero.
pub proof fn law_rewritten_checksums(f: Seq<u8>, kind: PacketKind, rewrite: PortRewrite)
    requires
        frame_rewritten(f, kind, rewrite) is Some,
        kind == PacketKind::TcpV4 || kind == PacketKind::UdpV4 ==> f[14] % 16 >= 5,
    ensures
        frame_rewritten(f, kind, rewrite) matches Some(out) && match kind {
            PacketKind::TcpV4 => header_sums_up(out) && sums_up(
                word_sum(out.subrange(26, 30)) + word_sum(out.subrange(30, 34)),
                6,
                out.subrange(v4_header_end(f), v4_end(f)),
            ),
            PacketKind::UdpV4 => header_sums_up(out) && sums_up(
                word_sum(out.subrange(26, 30)) + word_sum(out.subrange(30, 34)),
                17,
                datagram_at(out, v4_header_end(f)),
            ),
            PacketKind::TcpV6 => sums_up(
                word_sum(out.subrange(22, 38)) + word_sum(out.subrange(38, 54)),
                6,
                out.subrange(54, v6_end(f)),
            ),
            PacketKind::UdpV6 => sums_up(
                word_sum(out.subrange(22, 38)) + word_sum(out.subrange(38, 54)),
                17,
                datagram_at(out, 54),
            ),
        },
{
    if kind.spec_is_v6() {
        lemma_v6_checksums(f, kind, rewrite);
    } else {
        lemma_v4_checksums(f, kind, rewrite);
    }
}

#[verifier::spinoff_prover]
#[verifier::rlimit(60)]
proof fn lemma_v6_checksums(f: Seq<u8>, kind: PacketKind, rewrite: PortRewrite)
    requires
        frame_rewritten(f, kind, rewrite) is Some,
        kind.spec_is_v6(),
    ensures
        frame_rewritten(f, kind, rewrite) matches Some(out) && {
            let addresses = word_sum(out.subrange(22, 38)) + word_sum(out.subrange(38, 54));
            if kind.spec_is_udp() {
                sums_up(addresses, 17, datagram_at(out, 54))
            } else {
                sums_up(addresses, 6, out.subrange(54, v6_end(f)))
            }
        },
{
    let p = f.skip(14);
    let udp = kind.spec_is_udp();
    let out = frame_rewritten(f, kind, rewrite)->Some_0;
    lemma_ipv6_parts(p, udp, rewrite);
    let q = ipv6_rewritten(p, udp, rewrite);
    assert(out.skip(14) =~= q);
    assert(p[4] == f[18] && p[5] == f[19]);
    lemma_transport_filled(
        udp,
        with_port(ipv6_payload(p), 0, rewrite),
        p.subrange(24, 40),
        p.subrange(8, 24),
    );
    lemma_payload_turned(udp, ipv6_payload(p), rewrite, p.subrange(24, 40), p.subrange(8, 24));
    let s = ipv6_payload(q);
    assert(out.subrange(22, 38) =~= q.subrange(8, 24));
    assert(out.subrange(38, 54) =~= q.subrange(24, 40));
    assert(out.subrange(54, v6_end(f)) =~= s);
    if udp {
        assert(s[4] == out[58] && s[5] == out[59]);
        assert(datagram_at(out, 54) =~= s.take(s[4] * 256 + s[5]));
    }
}

#[verifier::spinoff_prover]
#[verifier::rlimit(60)]
proof fn lemma_v4_checksums(f: Seq<u8>, kind: PacketKind, rewrite: PortRewrite)
    requires
        frame_rewritten(f, kind, rewrite) is Some,
        !kind.spec_is_v6(),
        f[14] % 16 >= 5,
    ensures
        frame_rewritten(f, kind, rewrite) matches Some(out) && header_sums_up(out) && {
            let addresses = word_sum(out.subrange(26, 30)) + word_sum(out.subrange(30, 34));
            if kind.spec_is_udp() {
                sums_up(addresses, 17, datagram_at(out, v4_header_end(f)))
            } else {
                sums_up(addresses, 6, out.subrange(v4_header_end(f), v4_end(f)))
            }
        },
{
    let p = f.skip(14);
    let udp = kind.spec_is_udp();
    let out = frame_rewritten(f, kind, rewrite)->Some_0;
    assert(p[0] == f[14] && p[2] == f[16] && p[3] == f[17]);
    lemma_ipv4_parts(p, udp, rewrite);
    let q = ipv4_rewritten(p, udp, rewrite);
    assert(out.skip(14) =~= q);
    lemma_transport_filled(
        udp,
        with_port(ipv4_payload(p), 0, rewrite),
        p.subrange(16, 20),
        p.subrange(12, 16),
    );
    lemma_payload_turned(udp, ipv4_payload(p), rewrite, p.subrange(16, 20), p.subrange(12, 16));
    let h = v4_header_end(f);
    let s = ipv4_payload(q);
    assert(ipv4_header_len_of(q) == h - 14 && ipv4_total_len_of(q) == v4_end(f) - 14);
    assert(q[0] == out[14]);
    assert(out.subrange(26, 30) =~= q.subrange(12, 16));
    assert(out.subrange(30, 34) =~= q.subrange(16, 20));
    assert(out.subrange(h, v4_end(f)) =~= s);
    assert(out.subrange(14, v4_header_end(out)) =~= q.take(h - 14));
    if udp {
        assert(s[4] == out[h + 4] && s[5] == out[h + 5]);
        assert(datagram_at(out, h) =~= s.take(s[4] * 256 + s[5]));
    }
}

/// The octets of the IPv4 header sum up to a multiple of `0xffff` that is not zero.
pub open spec fn header_sums_up(f: Seq<u8>) -> bool {
    let n = word_sum(f.subrange(14, v4_header_end(f)));
    n > 0 && n % 0xffff == 0
}

/// The octets `s`, their number, the number of the protocol and the sum of the addresses make a
/// multiple of `0xffff` that is not zero.
pub open spec fn sums_up(addresses: nat, protocol: nat, s: Seq<u8>) -> bool {
    let n = addresses + protocol + s.len() + word_sum(s);
    n > 0 && n % 0xffff == 0
}

/// The datagram whose header starts at `h`.
pub open spec fn datagram_at(f: Seq<u8>, h: int) -> Seq<u8> {
    f.subrange(h, h + f[h + 4] * 256 + f[h + 5])
}

/// The checksum of a rewritten datagram is never zero, which would mean that there is none.
pub proof fn law_rewritten_datagrams_have_checksums(
    f: Seq<u8>,
    kind: PacketKind,
    rewrite: PortRewrite,
)
    requires
        frame_rewritten(f, kind, rewrite) is Some,
        kind == PacketKind::UdpV4 ==> f[14] % 16 >= 5,
    ensures
        kind == PacketKind::UdpV4 ==> (frame_rewritten(f, kind, rewrite) matches Some(
            out,
        ) && out[v4_header_end(f) + 6] * 256 + out[v4_header_end(f) + 7] != 0),
        kind == PacketKind::UdpV6 ==> (frame_rewritten(f, kind, rewrite) matches Some(
            out,
        ) && out[60] * 256 + out[61] != 0),
{
    let p = f.skip(14);
    let out = frame_rewritten(f, kind, rewrite)->Some_0;
    if kind == PacketKind::UdpV4 {
        assert(p[0] == f[14]);
        lemma_ipv4_parts(p, true, rewrite);
        let q = ipv4_rewritten(p, true, rewrite);
        lemma_datagram_has_checksum(
            with_port(ipv4_payload(p), 0, rewrite),
            p.subrange(16, 20),
            p.subrange(12, 16),
        );
        lemma_payload_turned(
            true,
            ipv4_payload(p),
            rewrite,
            p.subrange(16, 20),
            p.subrange(12, 16),
        );
        let s = ipv4_payload(q);
        assert(s[6] == out[v4_header_end(f) + 6] && s[7] == out[v4_header_end(f) + 7]);
    } else if kind == PacketKind::UdpV6 {
        lemma_ipv6_parts(p, true, rewrite);
        let q = ipv6_rewritten(p, true, rewrite);
        lemma_datagram_has_checksum(
            with_port(ipv6_payload(p), 0, rewrite),
            p.subrange(24, 40),
            p.subrange(8, 24),
        );
        lemma_payload_turned(true, ipv6_payload(p), rewrite, p.subrange(24, 40), p.subrange(8, 24));
        let s = ipv6_payload(q);
        assert(s[6] == out[60] && s[7] == out[61]);
    }
}

proof fn lemma_datagram_has_checksum(s: Seq<u8>, src: Seq<u8>, dst: Seq<u8>)
    requires
        s.len() >= 8,
    ensures
        udp_checksum_filled(s, src, dst)[6] * 256 + udp_checksum_filled(s, src, dst)[7] != 0,
{
    reveal(udp_datagram_checksum);
}

/// The sum of octets, taken two by two with the upper one first; one that is left over is an upper
/// one.
pub proof fn law_octets_sum_up(x: u8, y: u8, rest: Seq<u8>)
    ensures
        word_sum(Seq::<u8>::empty()) == 0,
        word_sum(seq![x]) == 256 * x,
        word_sum(seq![x, y] + rest) == 256 * x + y + word_sum(rest),
{
    let s = seq![x, y] + rest;
    assert(s.skip(2) =~= rest);
}

/// A frame is rewritten exactly if it holds an IP packet of the family and a segment or datagram
/// whose lengths fit.
pub proof fn law_what_is_rewritten(f: Seq<u8>, kind: PacketKind, rewrite: PortRewrite)
    ensures
        frame_rewritten(f, kind, rewrite) is Some <==> match kind {
            PacketKind::TcpV4 => v4_fits(f) && tcp_fits(f, v4_header_end(f), v4_end(f)),
            PacketKind::UdpV4 => v4_fits(f) && udp_fits(f, v4_header_end(f), v4_end(f)),
            PacketKind::TcpV6 => v6_fits(f) && tcp_fits(f, 54, v6_end(f)),
            PacketKind::UdpV6 => v6_fits(f) && udp_fits(f, 54, v6_end(f)),
        },
{
    let p = f.skip(14);
    if f.len() >= 34 {
        assert(p[0] == f[14] && p[2] == f[16] && p[3] == f[17]);
        if v4_fits(f) {
            let s = ipv4_payload(p);
            assert(forall|k: int| 0 <= k < s.len() ==> #[trigger] s[k] == f[v4_header_end(f) + k]);
        }
    }
    if f.len() >= 54 {
        assert(p[4] == f[18] && p[5] == f[19]);
        if v6_fits(f) {
            let s = ipv6_payload(p);
            assert(forall|k: int| 0 <= k < s.len() ==> #[trigger] s[k] == f[54 + k]);
        }
    }
}

/// A rewrite fits every frame but some whose IPv4 header claims to have no octets: there the port
/// lands on a length, which must fit again.
pub proof fn law_when_a_rewrite_fits(f: Seq<u8>, kind: PacketKind, rewrite: PortRewrite)
    ensures
        kind == PacketKind::TcpV6 || kind == PacketKind::UdpV6 ==> rewrite_fits(f, kind, rewrite),
        f.len() >= 34 && f[14] % 16 > 0 ==> rewrite_fits(f, kind, rewrite),
        frame_rewritten(f, kind, rewrite) is None ==> rewrite_fits(f, kind, rewrite),
        (kind == PacketKind::TcpV4 || kind == PacketKind::UdpV4) && frame_rewritten(
            f,
            kind,
            rewrite,
        ) is Some && f[14] % 16 == 0 ==> (rewrite_fits(f, kind, rewrite) <==> match rewrite {
            PortRewrite::ToProxy(port) => port <= f.len() - 14,
            PortRewrite::FromProxy(port) => 4 * ((port / 256) % 16) <= f[16] * 256 + f[17],
        }),
{
    let p = f.skip(14);
    if f.len() >= 34 {
        assert(p[0] == f[14] && p[2] == f[16] && p[3] == f[17]);
    }
}

/// The direction of a packet is that of its rewrite, and a step tells what was decided.
pub proof fn law_steps_tell_what_was_decided(info: PacketInfo, rewrite: PortRewrite, port: u16)
    ensures
        direction_of(PortRewrite::ToProxy(port)) == ProxyDirection::ToProxy,
        direction_of(PortRewrite::FromProxy(port)) == ProxyDirection::FromProxy,
        packet_step(info, FlowStep::Lookup) == PacketStep::Lookup(info),
        packet_step(info, FlowStep::Decided(None)) == PacketStep::Pass,
        packet_step(info, FlowStep::Decided(Some(rewrite))) == PacketStep::Rewrite(
            info.kind,
            rewrite,
        ),
{
}

/// The two ends of a packet are its addresses with its ports.
pub proof fn law_ends_of_a_packet(info: PacketInfo)
    ensures
        info.spec_src().spec_ip() == info.src_ip,
        info.spec_src().spec_port() == info.src_port,
        info.spec_dst().spec_ip() == info.dst_ip,
        info.spec_dst().spec_port() == info.dst_port,
        info.spec_src() matches SocketAddr::V6(a) ==> a.flowinfo == 0 && a.scope_id == 0,
        info.spec_dst() matches SocketAddr::V6(a) ==> a.flowinfo == 0 && a.scope_id == 0,
{
}

} // verus!
