//! What the router reads from an Ethernet frame, and how it rewrites one.
use vstd::prelude::*;
use crate::net::{be16, be16_bytes, ipv4_at, ipv6_at, IpAddr, Ipv4Addr, Ipv6Addr, SocketAddr};
use crate::router::checksum::{
    header_verifies, ipv4_header_checksum, lemma_datagram_filled, lemma_header_filled,
    lemma_segment_filled, transport_verifies, udp_datagram_checksum,
};
use crate::router::flow::{flow_outcome, FlowStep};
use crate::router::wire;
use crate::router::wire::{
    ethernet_valid, ipv4_checksum_filled, ipv4_header_len_of, ipv4_total_len_of, ipv4_valid,
    ipv6_payload_len_of, ipv6_valid, overwrite, tcp_checksum_filled, tcp_flag, tcp_valid,
    udp_checksum_filled, udp_len_of, udp_valid,
};
use crate::router::SocksLocalRouter;

verus! {

/// Which way a redirected packet goes.
#[derive(Clone, Copy, Debug, PartialEq, Eq, Structural)]
pub enum ProxyDirection {
    ToProxy,
    FromProxy,
}

/// The port that a redirected packet is given: the proxy's port in place of the
/// destination port, or the original destination port in place of the source port.
#[derive(Clone, Copy, Debug, PartialEq, Eq, Structural)]
pub enum PortRewrite {
    ToProxy(u16),
    FromProxy(u16),
}

/// The transport protocol and address family of a packet.
#[derive(Clone, Copy, Debug, PartialEq, Eq, Structural)]
pub enum PacketKind {
    TcpV4,
    TcpV6,
    UdpV4,
    UdpV6,
}

/// What the router needs to know of a packet.
#[derive(Clone, Copy, Debug, PartialEq, Eq)]
pub struct PacketInfo {
    pub kind: PacketKind,
    pub src_ip: IpAddr,
    pub dst_ip: IpAddr,
    pub src_port: u16,
    pub dst_port: u16,
    pub syn: bool,
    pub ack: bool,
    pub rst: bool,
    pub fin: bool,
}

impl PacketKind {
    /// The name under which packets of this kind are logged.
    pub fn label(self) -> (r: &'static str)
        ensures
            r@ == (match self {
                PacketKind::TcpV4 => "TCP"@,
                PacketKind::TcpV6 => "TCPv6"@,
                PacketKind::UdpV4 => "UDP"@,
                PacketKind::UdpV6 => "UDPv6"@,
            }),
    {
        match self {
            PacketKind::TcpV4 => "TCP",
            PacketKind::TcpV6 => "TCPv6",
            PacketKind::UdpV4 => "UDP",
            PacketKind::UdpV6 => "UDPv6",
        }
    }

    /// Whether the packet is an IPv6 packet.
    pub open spec fn spec_is_v6(self) -> bool {
        self is TcpV6 || self is UdpV6
    }

    /// Whether the packet is an IPv6 packet.
    pub fn is_v6(self) -> (r: bool)
        ensures
            r == self.spec_is_v6(),
    {
        match self {
            PacketKind::TcpV6 => true,
            PacketKind::UdpV6 => true,
            _ => false,
        }
    }

    /// Whether the packet carries UDP.
    pub open spec fn spec_is_udp(self) -> bool {
        self is UdpV4 || self is UdpV6
    }

    /// Whether the packet carries UDP.
    pub fn is_udp(self) -> (r: bool)
        ensures
            r == self.spec_is_udp(),
    {
        match self {
            PacketKind::UdpV4 => true,
            PacketKind::UdpV6 => true,
            _ => false,
        }
    }
}

impl PacketInfo {
    /// The source of the packet.
    pub open spec fn spec_src(self) -> SocketAddr {
        SocketAddr::spec_new(self.src_ip, self.src_port)
    }

    /// The source of the packet.
    pub fn src(&self) -> (r: SocketAddr)
        ensures
            r == self.spec_src(),
    {
        SocketAddr::new(self.src_ip, self.src_port)
    }

    /// The destination of the packet.
    pub open spec fn spec_dst(self) -> SocketAddr {
        SocketAddr::spec_new(self.dst_ip, self.dst_port)
    }

    /// The destination of the packet.
    pub fn dst(&self) -> (r: SocketAddr)
        ensures
            r == self.spec_dst(),
    {
        SocketAddr::new(self.dst_ip, self.dst_port)
    }
}

/// What a TCP segment between two addresses says.
pub open spec fn tcp_info(
    kind: PacketKind,
    src_ip: IpAddr,
    dst_ip: IpAddr,
    s: Seq<u8>,
) -> Option<PacketInfo> {
    if tcp_valid(s) {
        Some(
            PacketInfo {
                kind,
                src_ip,
                dst_ip,
                src_port: be16(s, 0),
                dst_port: be16(s, 2),
                syn: tcp_flag(s, 2),
                ack: tcp_flag(s, 16),
                rst: tcp_flag(s, 4),
                fin: tcp_flag(s, 1),
            },
        )
    } else {
        None
    }
}

/// What a UDP datagram between two addresses says.
pub open spec fn udp_info(
    kind: PacketKind,
    src_ip: IpAddr,
    dst_ip: IpAddr,
    s: Seq<u8>,
) -> Option<PacketInfo> {
    if udp_valid(s) {
        Some(
            PacketInfo {
                kind,
                src_ip,
                dst_ip,
                src_port: be16(s, 0),
                dst_port: be16(s, 2),
                syn: false,
                ack: false,
                rst: false,
                fin: false,
            },
        )
    } else {
        None
    }
}

/// The payload of an IPv4 packet.
pub open spec fn ipv4_payload(p: Seq<u8>) -> Seq<u8> {
    p.subrange(ipv4_header_len_of(p), ipv4_total_len_of(p))
}

/// The payload of an IPv6 packet.
pub open spec fn ipv6_payload(p: Seq<u8>) -> Seq<u8> {
    p.subrange(40, 40 + ipv6_payload_len_of(p))
}

/// What an IPv4 packet says: TCP segments, and UDP datagrams to a single receiver.
pub open spec fn ipv4_info(p: Seq<u8>) -> Option<PacketInfo> {
    let src = ipv4_at(p, 12);
    let dst = ipv4_at(p, 16);
    if !ipv4_valid(p) {
        None
    } else if p[9] == wire::PROTOCOL_TCP {
        tcp_info(PacketKind::TcpV4, IpAddr::V4(src), IpAddr::V4(dst), ipv4_payload(p))
    } else if p[9] == wire::PROTOCOL_UDP && !dst.spec_is_multicast()
        && !dst.spec_is_broadcast() {
        udp_info(PacketKind::UdpV4, IpAddr::V4(src), IpAddr::V4(dst), ipv4_payload(p))
    } else {
        None
    }
}

/// What an IPv6 packet says: TCP segments, and UDP datagrams to a single receiver.
pub open spec fn ipv6_info(p: Seq<u8>) -> Option<PacketInfo> {
    let src = ipv6_at(p, 8);
    let dst = ipv6_at(p, 24);
    if !ipv6_valid(p) {
        None
    } else if p[6] == wire::PROTOCOL_TCP {
        tcp_info(PacketKind::TcpV6, IpAddr::V6(src), IpAddr::V6(dst), ipv6_payload(p))
    } else if p[6] == wire::PROTOCOL_UDP && !dst.spec_is_multicast() {
        udp_info(PacketKind::UdpV6, IpAddr::V6(src), IpAddr::V6(dst), ipv6_payload(p))
    } else {
        None
    }
}

/// What an Ethernet frame says, where the router looks at it at all.
pub open spec fn packet_info(frame: Seq<u8>) -> Option<PacketInfo> {
    if !ethernet_valid(frame) {
        None
    } else if be16(frame, 12) == wire::ETHERTYPE_IPV4 {
        ipv4_info(frame.skip(14))
    } else if be16(frame, 12) == wire::ETHERTYPE_IPV6 {
        ipv6_info(frame.skip(14))
    } else {
        None
    }
}

/// Reads an Ethernet frame.
pub fn parse_packet_info(frame: &[u8]) -> (r: Option<PacketInfo>)
    ensures
        r == packet_info(frame@),
{
    if frame.len() < wire::ETHERNET_HEADER {
        return None;
    }
    if !wire::ethernet_check(frame) {
        return None;
    }
    let ethertype: u16 = wire::ethernet_ethertype(frame);
    let payload = &frame[wire::ETHERNET_HEADER..frame.len()];
    assert(payload@ == frame@.skip(14));
    if ethertype == wire::ETHERTYPE_IPV4 {
        parse_ipv4(payload)
    } else if ethertype == wire::ETHERTYPE_IPV6 {
        parse_ipv6(payload)
    } else {
        None
    }
}

/// Reads a TCP segment.
fn parse_tcp(kind: PacketKind, src_ip: IpAddr, dst_ip: IpAddr, segment: &[u8]) -> (r: Option<
    PacketInfo,
>)
    ensures
        r == tcp_info(kind, src_ip, dst_ip, segment@),
{
    if !wire::tcp_check(segment) {
        return None;
    }
    Some(
        PacketInfo {
            kind,
            src_ip,
            dst_ip,
            src_port: wire::tcp_src_port(segment),
            dst_port: wire::tcp_dst_port(segment),
            syn: wire::tcp_syn(segment),
            ack: wire::tcp_ack(segment),
            rst: wire::tcp_rst(segment),
            fin: wire::tcp_fin(segment),
        },
    )
}

/// Reads a UDP datagram.
fn parse_udp(kind: PacketKind, src_ip: IpAddr, dst_ip: IpAddr, datagram: &[u8]) -> (r: Option<
    PacketInfo,
>)
    ensures
        r == udp_info(kind, src_ip, dst_ip, datagram@),
{
    if !wire::udp_check(datagram) {
        return None;
    }
    Some(
        PacketInfo {
            kind,
            src_ip,
            dst_ip,
            src_port: wire::udp_src_port(datagram),
            dst_port: wire::udp_dst_port(datagram),
            syn: false,
            ack: false,
            rst: false,
            fin: false,
        },
    )
}

/// Reads an IPv4 packet.
fn parse_ipv4(packet: &[u8]) -> (r: Option<PacketInfo>)
    ensures
        r == ipv4_info(packet@),
{
    if !wire::ipv4_check(packet) {
        return None;
    }
    let src: Ipv4Addr = wire::ipv4_src_addr(packet);
    let dst: Ipv4Addr = wire::ipv4_dst_addr(packet);
    let protocol: u8 = wire::ipv4_next_header(packet);
    let from: usize = wire::ipv4_header_len(packet) as usize;
    let to: usize = wire::ipv4_total_len(packet) as usize;
    let payload = &packet[from..to];
    if protocol == wire::PROTOCOL_TCP {
        parse_tcp(PacketKind::TcpV4, IpAddr::V4(src), IpAddr::V4(dst), payload)
    } else if protocol == wire::PROTOCOL_UDP {
        if dst.is_multicast() || dst.is_broadcast() {
            return None;
        }
        parse_udp(PacketKind::UdpV4, IpAddr::V4(src), IpAddr::V4(dst), payload)
    } else {
        None
    }
}

/// Reads an IPv6 packet.
fn parse_ipv6(packet: &[u8]) -> (r: Option<PacketInfo>)
    ensures
        r == ipv6_info(packet@),
{
    if !wire::ipv6_check(packet) {
        return None;
    }
    let src: Ipv6Addr = wire::ipv6_src_addr(packet);
    let dst: Ipv6Addr = wire::ipv6_dst_addr(packet);
    let protocol: u8 = wire::ipv6_next_header(packet);
    let to: usize = wire::IPV6_HEADER + wire::ipv6_payload_len(packet) as usize;
    let payload = &packet[wire::IPV6_HEADER..to];
    if protocol == wire::PROTOCOL_TCP {
        parse_tcp(PacketKind::TcpV6, IpAddr::V6(src), IpAddr::V6(dst), payload)
    } else if protocol == wire::PROTOCOL_UDP {
        if dst.is_multicast() {
            return None;
        }
        parse_udp(PacketKind::UdpV6, IpAddr::V6(src), IpAddr::V6(dst), payload)
    } else {
        None
    }
}

/// The direction of a rewrite.
pub open spec fn direction_of(rewrite: PortRewrite) -> ProxyDirection {
    match rewrite {
        PortRewrite::ToProxy(_) => ProxyDirection::ToProxy,
        PortRewrite::FromProxy(_) => ProxyDirection::FromProxy,
    }
}

/// Whether a TCP segment or a UDP datagram can be read.
pub open spec fn transport_valid(udp: bool, s: Seq<u8>) -> bool {
    if udp {
        udp_valid(s)
    } else {
        tcp_valid(s)
    }
}

/// A TCP segment or a UDP datagram with its checksum filled in for the two addresses.
pub open spec fn transport_checksum_filled(
    udp: bool,
    s: Seq<u8>,
    src: Seq<u8>,
    dst: Seq<u8>,
) -> Seq<u8> {
    if udp {
        udp_checksum_filled(s, src, dst)
    } else {
        tcp_checksum_filled(s, src, dst)
    }
}

/// `s` with the port of `rewrite` in the transport header that starts at `at`.
pub open spec fn with_port(s: Seq<u8>, at: int, rewrite: PortRewrite) -> Seq<u8> {
    match rewrite {
        PortRewrite::ToProxy(port) => overwrite(s, at + 2, be16_bytes(port)),
        PortRewrite::FromProxy(port) => overwrite(s, at, be16_bytes(port)),
    }
}

/// `s` with the `n` octets at `a` and the `n` octets at `b` exchanged.
pub open spec fn swapped(s: Seq<u8>, a: int, b: int, n: int) -> Seq<u8> {
    overwrite(overwrite(s, a, s.subrange(b, b + n)), b, s.subrange(a, a + n))
}

/// An IP packet whose payload stands at `from..to` and whose addresses of `n` octets stand
/// at `src_at` and after it: with the checksum of the payload filled in where the payload
/// can be read.
pub open spec fn payload_checksum_filled(
    p: Seq<u8>,
    from: int,
    to: int,
    src_at: int,
    n: int,
    udp: bool,
) -> Seq<u8> {
    let s = p.subrange(from, to);
    if transport_valid(udp, s) {
        overwrite(
            p,
            from,
            transport_checksum_filled(
                udp,
                s,
                p.subrange(src_at, src_at + n),
                p.subrange(src_at + n, src_at + 2 * n),
            ),
        )
    } else {
        p
    }
}

/// An IPv4 packet with a port rewritten, its addresses exchanged and its checksums filled
/// in.
pub open spec fn ipv4_rewritten(p: Seq<u8>, udp: bool, rewrite: PortRewrite) -> Seq<u8> {
    let readdressed = with_port(p, ipv4_header_len_of(p), rewrite);
    let turned = swapped(readdressed, 12, 16, 4);
    ipv4_checksum_filled(
        payload_checksum_filled(
            turned,
            ipv4_header_len_of(turned),
            ipv4_total_len_of(turned),
            12,
            4,
            udp,
        ),
    )
}

/// An IPv6 packet with a port rewritten, its addresses exchanged and the checksum of its
/// payload filled in.
pub open spec fn ipv6_rewritten(p: Seq<u8>, udp: bool, rewrite: PortRewrite) -> Seq<u8> {
    let turned = swapped(with_port(p, 40, rewrite), 8, 24, 16);
    payload_checksum_filled(turned, 40, 40 + ipv6_payload_len_of(turned), 8, 16, udp)
}

/// The IP packet of a frame after a rewrite, or `None` where the frame does not hold a
/// packet of the kind.
pub open spec fn ip_rewritten(p: Seq<u8>, kind: PacketKind, rewrite: PortRewrite) -> Option<
    Seq<u8>,
> {
    if kind.spec_is_v6() {
        if ipv6_valid(p) && transport_valid(kind.spec_is_udp(), ipv6_payload(p)) {
            Some(ipv6_rewritten(p, kind.spec_is_udp(), rewrite))
        } else {
            None
        }
    } else {
        if ipv4_valid(p) && transport_valid(kind.spec_is_udp(), ipv4_payload(p)) {
            Some(ipv4_rewritten(p, kind.spec_is_udp(), rewrite))
        } else {
            None
        }
    }
}

/// A frame after a rewrite: its hardware addresses exchanged and its packet rewritten.
/// `None` where the frame does not hold a packet of the kind.
pub open spec fn frame_rewritten(frame: Seq<u8>, kind: PacketKind, rewrite: PortRewrite) -> Option<
    Seq<u8>,
> {
    if !ethernet_valid(frame) {
        None
    } else {
        match ip_rewritten(frame.skip(14), kind, rewrite) {
            Some(p) => Some(swapped(frame.take(14), 0, 6, 6) + p),
            None => None,
        }
    }
}

/// Whether the packet of a frame still states lengths that fit once the port is written.
/// An IPv4 header of length zero overlaps its own payload, so that the port lands on its
/// length fields; every other packet meets this.
pub open spec fn rewrite_fits(frame: Seq<u8>, kind: PacketKind, rewrite: PortRewrite) -> bool {
    let p = frame.skip(14);
    ethernet_valid(frame) && !kind.spec_is_v6() && ipv4_valid(p) && transport_valid(
        kind.spec_is_udp(),
        ipv4_payload(p),
    ) ==> {
        let readdressed = with_port(p, ipv4_header_len_of(p), rewrite);
        ipv4_header_len_of(readdressed) <= ipv4_total_len_of(readdressed) <= p.len()
    }
}

/// Only an IPv4 packet with a header length of zero can fail to fit.
pub proof fn lemma_rewrite_fits(frame: Seq<u8>, kind: PacketKind, rewrite: PortRewrite)
    requires
        kind.spec_is_v6() || ipv4_header_len_of(frame.skip(14)) > 0,
    ensures
        rewrite_fits(frame, kind, rewrite),
{
}

/// Exchanges the source and the destination of an IPv4 packet.
fn swap_ipv4(packet: &mut [u8])
    requires
        old(packet)@.len() >= 20,
    ensures
        final(packet)@ == swapped(old(packet)@, 12, 16, 4),
{
    let src: Ipv4Addr = wire::ipv4_src_addr(&*packet);
    let dst: Ipv4Addr = wire::ipv4_dst_addr(&*packet);
    assert(src.octets@ =~= packet@.subrange(12, 16));
    assert(dst.octets@ =~= packet@.subrange(16, 20));
    wire::ipv4_set_src_addr(packet, dst);
    wire::ipv4_set_dst_addr(packet, src);
}

/// Exchanges the source and the destination of an IPv6 packet.
fn swap_ipv6(packet: &mut [u8])
    requires
        old(packet)@.len() >= 40,
    ensures
        final(packet)@ == swapped(old(packet)@, 8, 24, 16),
{
    let src: Ipv6Addr = wire::ipv6_src_addr(&*packet);
    let dst: Ipv6Addr = wire::ipv6_dst_addr(&*packet);
    assert(src.octets@ =~= packet@.subrange(8, 24));
    assert(dst.octets@ =~= packet@.subrange(24, 40));
    wire::ipv6_set_src_addr(packet, dst);
    wire::ipv6_set_dst_addr(packet, src);
}

/// Exchanges the hardware addresses of a frame.
fn swap_mac(frame: &mut [u8])
    requires
        ethernet_valid(old(frame)@),
    ensures
        final(frame)@ == swapped(old(frame)@, 6, 0, 6),
{
    let src = wire::ethernet_src_addr(&*frame);
    let dst = wire::ethernet_dst_addr(&*frame);
    wire::ethernet_set_src_addr(frame, dst);
    wire::ethernet_set_dst_addr(frame, src);
}

/// Writes a port into the transport header at `from`.
fn set_port(packet: &mut [u8], from: usize, to: usize, udp: bool, rewrite: PortRewrite) -> (r:
    ProxyDirection)
    requires
        from <= to <= old(packet)@.len(),
        transport_valid(udp, old(packet)@.subrange(from as int, to as int)),
    ensures
        r == direction_of(rewrite),
        final(packet)@ == with_port(old(packet)@, from as int, rewrite),
{
    let (_head, rest) = packet.split_at_mut(from);
    match rewrite {
        PortRewrite::ToProxy(port) => {
            if udp {
                wire::udp_set_dst_port(rest, port);
            } else {
                wire::tcp_set_dst_port(rest, port);
            }
            ProxyDirection::ToProxy
        },
        PortRewrite::FromProxy(port) => {
            if udp {
                wire::udp_set_src_port(rest, port);
            } else {
                wire::tcp_set_src_port(rest, port);
            }
            ProxyDirection::FromProxy
        },
    }
}

/// Fills in the checksum of the payload at `from..to`, where it can be read.
fn fill_payload_checksum(
    packet: &mut [u8],
    from: usize,
    to: usize,
    udp: bool,
    src: IpAddr,
    dst: IpAddr,
    Ghost(src_at): Ghost<int>,
    Ghost(n): Ghost<int>,
)
    requires
        from <= to <= old(packet)@.len(),
        to - from <= 65535,
        wire::same_family(src, dst),
        0 <= n,
        0 <= src_at,
        src_at + 2 * n <= old(packet)@.len(),
        wire::ip_octets(src) == old(packet)@.subrange(src_at, src_at + n),
        wire::ip_octets(dst) == old(packet)@.subrange(src_at + n, src_at + 2 * n),
    ensures
        final(packet)@ == payload_checksum_filled(
            old(packet)@,
            from as int,
            to as int,
            src_at,
            n,
            udp,
        ),
{
    let ghost before = packet@;
    let (_head, rest) = packet.split_at_mut(from);
    let (payload, _tail) = rest.split_at_mut(to - from);
    assert(payload@ =~= before.subrange(from as int, to as int));
    if udp {
        if wire::udp_check(&*payload) {
            wire::udp_fill_checksum(payload, src, dst);
        }
    } else {
        if wire::tcp_check(&*payload) {
            wire::tcp_fill_checksum(payload, src, dst);
        }
    }
}

/// Rewrites an IPv4 packet.
fn apply_v4(packet: &mut [u8], udp: bool, rewrite: PortRewrite) -> (r: Option<ProxyDirection>)
    requires
        ipv4_valid(old(packet)@) && transport_valid(udp, ipv4_payload(old(packet)@)) ==> {
            let readdressed = with_port(old(packet)@, ipv4_header_len_of(old(packet)@), rewrite);
            ipv4_header_len_of(readdressed) <= ipv4_total_len_of(readdressed) <= old(packet)@.len()
        },
    ensures
        ipv4_valid(old(packet)@) && transport_valid(udp, ipv4_payload(old(packet)@)) ==> {
            &&& r == Some(direction_of(rewrite))
            &&& final(packet)@ == ipv4_rewritten(old(packet)@, udp, rewrite)
        },
        !(ipv4_valid(old(packet)@) && transport_valid(udp, ipv4_payload(old(packet)@))) ==> {
            &&& r is None
            &&& final(packet)@ == old(packet)@
        },
{
    if !wire::ipv4_check(&*packet) {
        return None;
    }
    let from: usize = wire::ipv4_header_len(&*packet) as usize;
    let to: usize = wire::ipv4_total_len(&*packet) as usize;
    let readable = if udp {
        wire::udp_check(&packet[from..to])
    } else {
        wire::tcp_check(&packet[from..to])
    };
    if !readable {
        return None;
    }
    let direction = set_port(packet, from, to, udp, rewrite);
    swap_ipv4(packet);
    let src: Ipv4Addr = wire::ipv4_src_addr(&*packet);
    let dst: Ipv4Addr = wire::ipv4_dst_addr(&*packet);
    assert(src.octets@ =~= packet@.subrange(12, 16));
    assert(dst.octets@ =~= packet@.subrange(16, 20));
    let from: usize = wire::ipv4_header_len(&*packet) as usize;
    let to: usize = wire::ipv4_total_len(&*packet) as usize;
    fill_payload_checksum(
        packet,
        from,
        to,
        udp,
        IpAddr::V4(src),
        IpAddr::V4(dst),
        Ghost(12),
        Ghost(4),
    );
    wire::ipv4_fill_checksum(packet);
    Some(direction)
}

/// Rewrites an IPv6 packet.
fn apply_v6(packet: &mut [u8], udp: bool, rewrite: PortRewrite) -> (r: Option<ProxyDirection>)
    ensures
        ipv6_valid(old(packet)@) && transport_valid(udp, ipv6_payload(old(packet)@)) ==> {
            &&& r == Some(direction_of(rewrite))
            &&& final(packet)@ == ipv6_rewritten(old(packet)@, udp, rewrite)
        },
        !(ipv6_valid(old(packet)@) && transport_valid(udp, ipv6_payload(old(packet)@))) ==> {
            &&& r is None
            &&& final(packet)@ == old(packet)@
        },
{
    if !wire::ipv6_check(&*packet) {
        return None;
    }
    let to: usize = wire::IPV6_HEADER + wire::ipv6_payload_len(&*packet) as usize;
    let readable = if udp {
        wire::udp_check(&packet[wire::IPV6_HEADER..to])
    } else {
        wire::tcp_check(&packet[wire::IPV6_HEADER..to])
    };
    if !readable {
        return None;
    }
    let direction = set_port(packet, wire::IPV6_HEADER, to, udp, rewrite);
    swap_ipv6(packet);
    let src: Ipv6Addr = wire::ipv6_src_addr(&*packet);
    let dst: Ipv6Addr = wire::ipv6_dst_addr(&*packet);
    assert(src.octets@ =~= packet@.subrange(8, 24));
    assert(dst.octets@ =~= packet@.subrange(24, 40));
    let to: usize = wire::IPV6_HEADER + wire::ipv6_payload_len(&*packet) as usize;
    fill_payload_checksum(
        packet,
        wire::IPV6_HEADER,
        to,
        udp,
        IpAddr::V6(src),
        IpAddr::V6(dst),
        Ghost(8),
        Ghost(16),
    );
    Some(direction)
}

/// Whether a frame can be given the rewrite: see [`rewrite_fits`].
pub fn can_apply_rewrite(frame: &[u8], kind: PacketKind, rewrite: PortRewrite) -> (r: bool)
    ensures
        r == rewrite_fits(frame@, kind, rewrite),
{
    if kind.is_v6() || !wire::ethernet_check(frame) {
        return true;
    }
    let packet = &frame[wire::ETHERNET_HEADER..frame.len()];
    assert(packet@ == frame@.skip(14));
    if !wire::ipv4_check(packet) {
        return true;
    }
    let from: usize = wire::ipv4_header_len(packet) as usize;
    let to: usize = wire::ipv4_total_len(packet) as usize;
    let readable = if kind.is_udp() {
        wire::udp_check(&packet[from..to])
    } else {
        wire::tcp_check(&packet[from..to])
    };
    if !readable || from > 0 {
        return true;
    }
    match rewrite {
        PortRewrite::ToProxy(port) => port as usize <= packet.len(),
        PortRewrite::FromProxy(port) => ((port / 256) % 16) as usize * 4 <= to,
    }
}

/// Redirects a frame: writes the port, exchanges the hardware and IP addresses, and fills
/// in the checksums. Returns the direction, or `None` and the frame as it was where there
/// is no rewrite or the frame does not hold a packet of the kind.
pub fn apply_rewrite(frame: &mut [u8], kind: PacketKind, rewrite: Option<PortRewrite>) -> (r:
    Option<ProxyDirection>)
    requires
        rewrite matches Some(rw) ==> rewrite_fits(old(frame)@, kind, rw),
    ensures
        match rewrite {
            Some(rw) => match frame_rewritten(old(frame)@, kind, rw) {
                Some(f) => r == Some(direction_of(rw)) && final(frame)@ == f,
                None => r is None && final(frame)@ == old(frame)@,
            },
            None => r is None && final(frame)@ == old(frame)@,
        },
{
    let rewrite = match rewrite {
        Some(rewrite) => rewrite,
        None => {
            return None;
        },
    };
    if frame.len() < wire::ETHERNET_HEADER {
        return None;
    }
    if !wire::ethernet_check(&*frame) {
        return None;
    }
    let ghost before = frame@;
    let direction = {
        let (_header, packet) = frame.split_at_mut(wire::ETHERNET_HEADER);
        assert(packet@ =~= before.skip(14));
        if kind.is_v6() {
            apply_v6(packet, kind.is_udp(), rewrite)
        } else {
            apply_v4(packet, kind.is_udp(), rewrite)
        }
    };
    if direction.is_none() {
        assert(frame@ =~= before);
        return None;
    }
    swap_mac(frame);
    assert(frame@ =~= frame_rewritten(before, kind, rewrite)->Some_0);
    direction
}

/// What a packet says after a rewrite: the addresses exchanged, and the one port replaced.
pub open spec fn turned_info(info: PacketInfo, rewrite: PortRewrite) -> PacketInfo {
    PacketInfo {
        src_ip: info.dst_ip,
        dst_ip: info.src_ip,
        src_port: match rewrite {
            PortRewrite::ToProxy(_) => info.src_port,
            PortRewrite::FromProxy(port) => port,
        },
        dst_port: match rewrite {
            PortRewrite::ToProxy(port) => port,
            PortRewrite::FromProxy(_) => info.dst_port,
        },
        ..info
    }
}

/// Whether a datagram to `ip` has a single receiver, as the router reads it.
pub open spec fn single_receiver(ip: IpAddr) -> bool {
    match ip {
        IpAddr::V4(ip) => !ip.spec_is_multicast() && !ip.spec_is_broadcast(),
        IpAddr::V6(ip) => !ip.spec_is_multicast(),
    }
}

/// Whether the headers of a packet of the kind do not overlap: an IPv4 header has at least
/// 20 octets.
pub open spec fn headers_apart(frame: Seq<u8>, kind: PacketKind) -> bool {
    kind.spec_is_v6() || ipv4_header_len_of(frame.skip(14)) >= 20
}

/// Where the transport header of a packet of the kind starts in its frame.
pub open spec fn transport_at(frame: Seq<u8>, kind: PacketKind) -> int {
    if kind.spec_is_v6() {
        54
    } else {
        14 + ipv4_header_len_of(frame.skip(14))
    }
}

/// The octets of a frame that a rewrite may change: the hardware addresses, the IP
/// addresses, the IPv4 header checksum, the ports and the transport checksum.
pub open spec fn may_change(frame: Seq<u8>, kind: PacketKind, i: int) -> bool {
    let t = transport_at(frame, kind);
    let c = if kind.spec_is_udp() {
        t + 6
    } else {
        t + 16
    };
    ||| 0 <= i < 12
    ||| t <= i < t + 4
    ||| c <= i < c + 2
    ||| (kind.spec_is_v6() && 22 <= i < 54)
    ||| (!kind.spec_is_v6() && 24 <= i < 34)
}

/// Filling in a checksum leaves a payload readable and changes only its checksum.
pub proof fn lemma_transport_filled(udp: bool, s: Seq<u8>, src: Seq<u8>, dst: Seq<u8>)
    requires
        transport_valid(udp, s),
    ensures
        ({
            let filled = transport_checksum_filled(udp, s, src, dst);
            let c: int = if udp {
                6
            } else {
                16
            };
            &&& filled.len() == s.len()
            &&& transport_valid(udp, filled)
            &&& forall|i: int| 0 <= i < s.len() && !(c <= i < c + 2) ==> filled[i] == s[i]
            &&& payload_verifies(udp, src, dst, filled)
        }),
{
    let filled = transport_checksum_filled(udp, s, src, dst);
    if udp {
        let n = udp_len_of(s);
        let zeroed = overwrite(s, 6, seq![0u8, 0u8]);
        assert(filled[4] == s[4] && filled[5] == s[5]);
        lemma_datagram_filled(src, dst, s.take(n));
        assert(zeroed.take(n) =~= overwrite(s.take(n), 6, seq![0u8, 0u8]));
        let c = udp_datagram_checksum(src, dst, zeroed.take(n));
        assert(filled.take(n) =~= overwrite(s.take(n), 6, be16_bytes(c)));
    } else {
        assert(filled[12] == s[12]);
        lemma_segment_filled(src, dst, s);
    }
}

/// The parts of a rewritten IPv4 packet.
pub proof fn lemma_ipv4_parts(p: Seq<u8>, udp: bool, rewrite: PortRewrite)
    requires
        ipv4_valid(p),
        ipv4_header_len_of(p) >= 20,
        transport_valid(udp, ipv4_payload(p)),
    ensures
        ({
            let q = ipv4_rewritten(p, udp, rewrite);
            let h = ipv4_header_len_of(p);
            let t = ipv4_total_len_of(p);
            &&& q.len() == p.len()
            &&& ipv4_header_len_of(q) == h
            &&& ipv4_total_len_of(q) == t
            &&& q.subrange(12, 16) == p.subrange(16, 20)
            &&& q.subrange(16, 20) == p.subrange(12, 16)
            &&& ipv4_payload(q) == transport_checksum_filled(
                udp,
                with_port(ipv4_payload(p), 0, rewrite),
                p.subrange(16, 20),
                p.subrange(12, 16),
            )
            &&& transport_valid(udp, with_port(ipv4_payload(p), 0, rewrite))
            &&& forall|i: int|
                0 <= i < p.len() && !(10 <= i < 20) && !(h <= i < t) ==> q[i] == p[i]
            &&& header_verifies(q.take(h))
        }),
{
    let h = ipv4_header_len_of(p);
    let t = ipv4_total_len_of(p);
    let readdressed = with_port(p, h, rewrite);
    let turned = swapped(readdressed, 12, 16, 4);
    assert(ipv4_header_len_of(turned) == h && ipv4_total_len_of(turned) == t);
    let s1 = turned.subrange(h, t);
    assert(s1 =~= with_port(ipv4_payload(p), 0, rewrite));
    assert(transport_valid(udp, s1));
    assert(turned.subrange(12, 16) =~= p.subrange(16, 20));
    assert(turned.subrange(16, 20) =~= p.subrange(12, 16));
    let sum = transport_checksum_filled(udp, s1, turned.subrange(12, 16), turned.subrange(16, 20));
    lemma_transport_filled(udp, s1, turned.subrange(12, 16), turned.subrange(16, 20));
    let filled = payload_checksum_filled(turned, h, t, 12, 4, udp);
    assert(filled == overwrite(turned, h, sum));
    let q = ipv4_rewritten(p, udp, rewrite);
    assert(q == ipv4_checksum_filled(filled));
    assert(ipv4_header_len_of(filled) == h);
    lemma_ipv4_filled(filled);
    assert(ipv4_header_len_of(q) == h && ipv4_total_len_of(q) == t);
    assert(q.subrange(h, t) =~= sum);
    assert(q.subrange(12, 16) =~= p.subrange(16, 20));
    assert(q.subrange(16, 20) =~= p.subrange(12, 16));
}

/// Filling in the checksum of an IPv4 header changes only that, and makes it right.
proof fn lemma_ipv4_filled(p: Seq<u8>)
    requires
        20 <= ipv4_header_len_of(p) <= p.len(),
    ensures
        ({
            let q = ipv4_checksum_filled(p);
            &&& q.len() == p.len()
            &&& forall|i: int| 0 <= i < p.len() && !(10 <= i < 12) ==> q[i] == p[i]
            &&& header_verifies(q.take(ipv4_header_len_of(p)))
        }),
{
    let h = ipv4_header_len_of(p);
    let q = ipv4_checksum_filled(p);
    let zeroed = overwrite(p, 10, seq![0u8, 0u8]);
    lemma_header_filled(p.take(h));
    assert(zeroed.take(h) =~= overwrite(p.take(h), 10, seq![0u8, 0u8]));
    let c = ipv4_header_checksum(zeroed.take(h));
    assert(q.take(h) =~= overwrite(p.take(h), 10, be16_bytes(c)));
}

/// The parts of a rewritten IPv6 packet.
pub proof fn lemma_ipv6_parts(p: Seq<u8>, udp: bool, rewrite: PortRewrite)
    requires
        ipv6_valid(p),
        transport_valid(udp, ipv6_payload(p)),
    ensures
        ({
            let q = ipv6_rewritten(p, udp, rewrite);
            let t = 40 + ipv6_payload_len_of(p);
            &&& q.len() == p.len()
            &&& ipv6_payload_len_of(q) == ipv6_payload_len_of(p)
            &&& q.subrange(8, 24) == p.subrange(24, 40)
            &&& q.subrange(24, 40) == p.subrange(8, 24)
            &&& ipv6_payload(q) == transport_checksum_filled(
                udp,
                with_port(ipv6_payload(p), 0, rewrite),
                p.subrange(24, 40),
                p.subrange(8, 24),
            )
            &&& transport_valid(udp, with_port(ipv6_payload(p), 0, rewrite))
            &&& forall|i: int|
                0 <= i < p.len() && !(8 <= i < 40) && !(40 <= i < t) ==> q[i] == p[i]
        }),
{
    let t = 40 + ipv6_payload_len_of(p);
    let turned = swapped(with_port(p, 40, rewrite), 8, 24, 16);
    assert(ipv6_payload_len_of(turned) == ipv6_payload_len_of(p));
    let s1 = turned.subrange(40, t);
    assert(s1 =~= with_port(ipv6_payload(p), 0, rewrite));
    assert(transport_valid(udp, s1));
    assert(turned.subrange(8, 24) =~= p.subrange(24, 40));
    assert(turned.subrange(24, 40) =~= p.subrange(8, 24));
    let sum = transport_checksum_filled(udp, s1, turned.subrange(8, 24), turned.subrange(24, 40));
    lemma_transport_filled(udp, s1, turned.subrange(8, 24), turned.subrange(24, 40));
    let q = ipv6_rewritten(p, udp, rewrite);
    assert(q == overwrite(turned, 40, sum));
    assert(q.subrange(40, t) =~= sum);
    assert(q.subrange(8, 24) =~= p.subrange(24, 40));
    assert(q.subrange(24, 40) =~= p.subrange(8, 24));
}

/// What a payload says after its port was written and its checksum filled in.
pub proof fn lemma_payload_turned(
    udp: bool,
    s: Seq<u8>,
    rewrite: PortRewrite,
    src: Seq<u8>,
    dst: Seq<u8>,
)
    requires
        transport_valid(udp, s),
        transport_valid(udp, with_port(s, 0, rewrite)),
    ensures
        ({
            let q = transport_checksum_filled(udp, with_port(s, 0, rewrite), src, dst);
            &&& q.len() == s.len()
            &&& transport_valid(udp, q)
            &&& be16(q, 0) == (match rewrite {
                PortRewrite::ToProxy(_) => be16(s, 0),
                PortRewrite::FromProxy(port) => port,
            })
            &&& be16(q, 2) == (match rewrite {
                PortRewrite::ToProxy(port) => port,
                PortRewrite::FromProxy(_) => be16(s, 2),
            })
            &&& !udp ==> q[13] == s[13]
            &&& forall|i: int|
                4 <= i < s.len() && !(udp && 6 <= i < 8) && !(!udp && 16 <= i < 18) ==> q[i]
                    == s[i]
        }),
{
    let w = with_port(s, 0, rewrite);
    let q = transport_checksum_filled(udp, w, src, dst);
    lemma_transport_filled(udp, w, src, dst);
    match rewrite {
        PortRewrite::ToProxy(port) => {
            crate::net::lemma_be16_roundtrip(port, q, 2);
        },
        PortRewrite::FromProxy(port) => {
            crate::net::lemma_be16_roundtrip(port, q, 0);
        },
    }
}

proof fn lemma_ipv4_turned(p: Seq<u8>, info: PacketInfo, rewrite: PortRewrite)
    requires
        ipv4_info(p) == Some(info),
        ipv4_header_len_of(p) >= 20,
    ensures
        ({
            let udp = info.kind.spec_is_udp();
            let q = ipv4_rewritten(p, udp, rewrite);
            &&& !info.kind.spec_is_v6()
            &&& transport_valid(udp, ipv4_payload(p))
            &&& q.len() == p.len()
            &&& !udp || single_receiver(info.src_ip) ==> ipv4_info(q) == Some(
                turned_info(info, rewrite),
            )
            &&& forall|i: int|
                0 <= i < p.len() && !may_change(
                    Seq::new(14, |k: int| 0u8) + p,
                    info.kind,
                    i + 14,
                ) ==> q[i] == p[i]
        }),
{
    let udp = info.kind.spec_is_udp();
    let h = ipv4_header_len_of(p);
    assert((Seq::new(14, |k: int| 0u8) + p).skip(14) =~= p);
    let q = ipv4_rewritten(p, udp, rewrite);
    let s = ipv4_payload(p);
    let s2 = ipv4_payload(q);
    lemma_ipv4_parts(p, udp, rewrite);
    lemma_payload_turned(udp, s, rewrite, p.subrange(16, 20), p.subrange(12, 16));
    assert(forall|i: int| 0 <= i < 4 ==> q[12 + i] == q.subrange(12, 16)[i]);
    assert(forall|i: int| 0 <= i < 4 ==> q[16 + i] == q.subrange(16, 20)[i]);
    assert(ipv4_at(q, 12).octets =~= ipv4_at(p, 16).octets);
    assert(ipv4_at(q, 16).octets =~= ipv4_at(p, 12).octets);
    assert forall|i: int|
        0 <= i < p.len() && !may_change(
            Seq::new(14, |k: int| 0u8) + p,
            info.kind,
            i + 14,
        ) implies q[i] == p[i] by {
        if h <= i < ipv4_total_len_of(p) {
            assert(q[i] == s2[i - h]);
            assert(p[i] == s[i - h]);
        }
    }
}

proof fn lemma_ipv6_turned(p: Seq<u8>, info: PacketInfo, rewrite: PortRewrite)
    requires
        ipv6_info(p) == Some(info),
    ensures
        ({
            let udp = info.kind.spec_is_udp();
            let q = ipv6_rewritten(p, udp, rewrite);
            &&& info.kind.spec_is_v6()
            &&& transport_valid(udp, ipv6_payload(p))
            &&& q.len() == p.len()
            &&& !udp || single_receiver(info.src_ip) ==> ipv6_info(q) == Some(
                turned_info(info, rewrite),
            )
            &&& forall|i: int|
                0 <= i < p.len() && !may_change(
                    Seq::new(14, |k: int| 0u8) + p,
                    info.kind,
                    i + 14,
                ) ==> q[i] == p[i]
        }),
{
    let udp = info.kind.spec_is_udp();
    let q = ipv6_rewritten(p, udp, rewrite);
    let s = ipv6_payload(p);
    let s2 = ipv6_payload(q);
    lemma_ipv6_parts(p, udp, rewrite);
    lemma_payload_turned(udp, s, rewrite, p.subrange(24, 40), p.subrange(8, 24));
    assert(forall|i: int| 0 <= i < 16 ==> q[8 + i] == q.subrange(8, 24)[i]);
    assert(forall|i: int| 0 <= i < 16 ==> q[24 + i] == q.subrange(24, 40)[i]);
    assert(ipv6_at(q, 8).octets =~= ipv6_at(p, 24).octets);
    assert(ipv6_at(q, 24).octets =~= ipv6_at(p, 8).octets);
    assert forall|i: int|
        0 <= i < p.len() && !may_change(
            Seq::new(14, |k: int| 0u8) + p,
            info.kind,
            i + 14,
        ) implies q[i] == p[i] by {
        if 40 <= i < 40 + ipv6_payload_len_of(p) {
            assert(q[i] == s2[i - 40]);
            assert(p[i] == s[i - 40]);
        }
    }
}

/// Whether the checksum in a TCP segment or a UDP datagram between two addresses is right. That of
/// a datagram covers what its length field states.
pub open spec fn payload_verifies(udp: bool, src: Seq<u8>, dst: Seq<u8>, s: Seq<u8>) -> bool {
    if udp {
        transport_verifies(src, dst, wire::PROTOCOL_UDP, s.take(udp_len_of(s)))
    } else {
        transport_verifies(src, dst, wire::PROTOCOL_TCP, s)
    }
}

/// Whether the checksums in an IP packet of the kind are right.
pub open spec fn checksums_verify(p: Seq<u8>, kind: PacketKind) -> bool {
    let udp = kind.spec_is_udp();
    if kind.spec_is_v6() {
        payload_verifies(udp, p.subrange(8, 24), p.subrange(24, 40), ipv6_payload(p))
    } else {
        &&& header_verifies(p.take(ipv4_header_len_of(p)))
        &&& payload_verifies(udp, p.subrange(12, 16), p.subrange(16, 20), ipv4_payload(p))
    }
}

/// The checksums of a rewritten frame are right, whatever those of the frame were.
pub proof fn law_rewritten_checksums_verify(frame: Seq<u8>, info: PacketInfo, rewrite: PortRewrite)
    requires
        packet_info(frame) == Some(info),
        headers_apart(frame, info.kind),
    ensures
        frame_rewritten(frame, info.kind, rewrite) matches Some(out) && checksums_verify(
            out.skip(14),
            info.kind,
        ),
{
    let p = frame.skip(14);
    let udp = info.kind.spec_is_udp();
    let q = ip_rewritten(p, info.kind, rewrite)->Some_0;
    if info.kind.spec_is_v6() {
        lemma_ipv6_parts(p, udp, rewrite);
        lemma_transport_filled(
            udp,
            with_port(ipv6_payload(p), 0, rewrite),
            p.subrange(24, 40),
            p.subrange(8, 24),
        );
    } else {
        lemma_ipv4_parts(p, udp, rewrite);
        lemma_transport_filled(
            udp,
            with_port(ipv4_payload(p), 0, rewrite),
            p.subrange(16, 20),
            p.subrange(12, 16),
        );
    }
    let out = frame_rewritten(frame, info.kind, rewrite)->Some_0;
    assert(out.skip(14) =~= q);
}

/// A rewrite applies to every frame that the router reads, and the rewritten frame reads
/// as the same packet with its two addresses exchanged and the one port replaced. A
/// datagram is read again only where its new receiver is a single one.
pub proof fn law_rewrite_turns_packet(frame: Seq<u8>, info: PacketInfo, rewrite: PortRewrite)
    requires
        packet_info(frame) == Some(info),
        headers_apart(frame, info.kind),
    ensures
        rewrite_fits(frame, info.kind, rewrite),
        frame_rewritten(frame, info.kind, rewrite) is Some,
        !info.kind.spec_is_udp() || single_receiver(info.src_ip) ==> packet_info(
            frame_rewritten(frame, info.kind, rewrite)->Some_0,
        ) == Some(turned_info(info, rewrite)),
{
    let p = frame.skip(14);
    lemma_rewrite_fits(frame, info.kind, rewrite);
    if be16(frame, 12) == wire::ETHERTYPE_IPV4 {
        lemma_ipv4_turned(p, info, rewrite);
    } else {
        lemma_ipv6_turned(p, info, rewrite);
    }
    let out = frame_rewritten(frame, info.kind, rewrite)->Some_0;
    let q = ip_rewritten(p, info.kind, rewrite)->Some_0;
    assert(out.skip(14) =~= q);
}

/// A rewrite keeps the length of the frame, and every octet but the hardware addresses,
/// the IP addresses, the ports and the checksums.
pub proof fn law_rewrite_keeps_the_rest(
    frame: Seq<u8>,
    info: PacketInfo,
    rewrite: PortRewrite,
    i: int,
)
    requires
        packet_info(frame) == Some(info),
        headers_apart(frame, info.kind),
        0 <= i < frame.len(),
        !may_change(frame, info.kind, i),
    ensures
        frame_rewritten(frame, info.kind, rewrite)->Some_0.len() == frame.len(),
        frame_rewritten(frame, info.kind, rewrite)->Some_0[i] == frame[i],
{
    let p = frame.skip(14);
    assert((Seq::new(14, |k: int| 0u8) + p).skip(14) =~= p);
    if be16(frame, 12) == wire::ETHERTYPE_IPV4 {
        lemma_ipv4_turned(p, info, rewrite);
    } else {
        lemma_ipv6_turned(p, info, rewrite);
    }
    if i >= 14 {
        assert(!may_change(Seq::new(14, |k: int| 0u8) + p, info.kind, (i - 14) + 14));
    }
}

/// What the router does with a frame: let it pass, look up the process at its source, or rewrite
/// it.
#[derive(Clone, Copy, Debug, PartialEq, Eq)]
pub enum PacketStep {
    Pass,
    Lookup(PacketInfo),
    Rewrite(PacketKind, PortRewrite),
}

/// The step for a packet with this outcome.
pub open spec fn packet_step(info: PacketInfo, step: FlowStep) -> PacketStep {
    match step {
        FlowStep::Decided(Some(rewrite)) => PacketStep::Rewrite(info.kind, rewrite),
        FlowStep::Decided(None) => PacketStep::Pass,
        FlowStep::Lookup => PacketStep::Lookup(info),
    }
}

impl SocksLocalRouter {
    /// Takes a frame. A rewrite is carried out by `apply_rewrite`; after a lookup, the router
    /// goes on with `process_found`.
    pub fn process_packet(&mut self, frame: &[u8], now: u64) -> (r: PacketStep)
        requires
            old(self).wf(),
        ensures
            final(self).wf(),
            match packet_info(frame@) {
                None => r is Pass && *final(self) == *old(self),
                Some(info) => {
                    let (tcp, udp, step) = flow_outcome(
                        old(self).tcp_connections@,
                        old(self).udp_endpoints.by_flow@,
                        old(self).proxies@,
                        info,
                        now,
                    );
                    &&& r == packet_step(info, step)
                    &&& final(self).tcp_connections@ == tcp
                    &&& final(self).udp_endpoints.by_flow@ == udp
                    &&& final(self).same_but_flows(old(self))
                },
            },
    {
        let info = match parse_packet_info(frame) {
            Some(info) => info,
            None => return PacketStep::Pass,
        };
        match self.process_flow(&info, now) {
            FlowStep::Decided(Some(rewrite)) => PacketStep::Rewrite(info.kind, rewrite),
            FlowStep::Decided(None) => PacketStep::Pass,
            FlowStep::Lookup => PacketStep::Lookup(info),
        }
    }
}

} // verus!
