//! Packet fields, read and written by `smoltcp`.
//!
//! Every function here is one call into `smoltcp::wire` on a buffer of octets. The spec
//! functions give the layout of the headers; each function's contract says which octets
//! the call reads or writes.
use vstd::prelude::*;
use smoltcp::wire::{
    EthernetAddress, EthernetFrame, IpAddress, Ipv4Address, Ipv4Packet, Ipv6Address, Ipv6Packet,
    TcpPacket, UdpPacket,
};
use crate::net::{IpAddr, Ipv4Addr, Ipv6Addr};
use crate::router::checksum::{ipv4_header_checksum, tcp_segment_checksum, udp_datagram_checksum};

verus! {

/// The length of an Ethernet header.
pub const ETHERNET_HEADER: usize = 14;

/// The length of an IPv6 header.
pub const IPV6_HEADER: usize = 40;

/// The EtherType of IPv4.
pub const ETHERTYPE_IPV4: u16 = 0x0800;

/// The EtherType of IPv6.
pub const ETHERTYPE_IPV6: u16 = 0x86dd;

/// The protocol number of TCP.
pub const PROTOCOL_TCP: u8 = 6;

/// The protocol number of UDP.
pub const PROTOCOL_UDP: u8 = 17;

/// `s` with `b` written over the octets from `i` on.
pub open spec fn overwrite(s: Seq<u8>, i: int, b: Seq<u8>) -> Seq<u8> {
    Seq::new(
        s.len(),
        |k: int|
            if i <= k < i + b.len() {
                b[k - i]
            } else {
                s[k]
            },
    )
}

/// Whether a buffer can hold an Ethernet frame.
pub open spec fn ethernet_valid(f: Seq<u8>) -> bool {
    f.len() >= 14
}

/// The header length field of an IPv4 packet, in octets.
pub open spec fn ipv4_header_len_of(p: Seq<u8>) -> int {
    (p[0] % 16) * 4
}

/// The total length field of an IPv4 packet.
pub open spec fn ipv4_total_len_of(p: Seq<u8>) -> int {
    p[2] * 256 + p[3]
}

/// Whether the lengths that an IPv4 packet states fit together and into its buffer.
pub open spec fn ipv4_valid(p: Seq<u8>) -> bool {
    &&& p.len() >= 20
    &&& ipv4_header_len_of(p) <= ipv4_total_len_of(p) <= p.len()
}

/// The payload length field of an IPv6 packet.
pub open spec fn ipv6_payload_len_of(p: Seq<u8>) -> int {
    p[4] * 256 + p[5]
}

/// Whether the length that an IPv6 packet states fits into its buffer.
pub open spec fn ipv6_valid(p: Seq<u8>) -> bool {
    p.len() >= 40 && 40 + ipv6_payload_len_of(p) <= p.len()
}

/// The header length field of a TCP segment, in octets.
pub open spec fn tcp_header_len_of(s: Seq<u8>) -> int {
    (s[12] / 16) * 4
}

/// Whether a TCP segment holds its header.
pub open spec fn tcp_valid(s: Seq<u8>) -> bool {
    &&& s.len() >= 20
    &&& 20 <= tcp_header_len_of(s) <= s.len()
}

/// The length field of a UDP datagram.
pub open spec fn udp_len_of(s: Seq<u8>) -> int {
    s[4] * 256 + s[5]
}

/// Whether a UDP datagram holds what its length field states.
pub open spec fn udp_valid(s: Seq<u8>) -> bool {
    &&& s.len() >= 8
    &&& 8 <= udp_len_of(s) <= s.len()
}

/// Bit `n` of the flag octet of a TCP segment, given by its weight.
pub open spec fn tcp_flag(s: Seq<u8>, weight: int) -> bool {
    (s[13] as int / weight) % 2 == 1
}

/// The octets of an address.
pub open spec fn ip_octets(ip: IpAddr) -> Seq<u8> {
    match ip {
        IpAddr::V4(a) => a.octets@,
        IpAddr::V6(a) => a.octets@,
    }
}

/// Two addresses of one family.
pub open spec fn same_family(a: IpAddr, b: IpAddr) -> bool {
    (a is V4) == (b is V4)
}

/// An IPv4 packet with its header checksum filled in.
pub open spec fn ipv4_checksum_filled(p: Seq<u8>) -> Seq<u8> {
    let zeroed = overwrite(p, 10, seq![0u8, 0u8]);
    overwrite(
        p,
        10,
        crate::net::be16_bytes(ipv4_header_checksum(zeroed.take(ipv4_header_len_of(p)))),
    )
}

/// A TCP segment with its checksum filled in for the two addresses.
pub open spec fn tcp_checksum_filled(s: Seq<u8>, src: Seq<u8>, dst: Seq<u8>) -> Seq<u8> {
    let zeroed = overwrite(s, 16, seq![0u8, 0u8]);
    overwrite(s, 16, crate::net::be16_bytes(tcp_segment_checksum(src, dst, zeroed)))
}

/// A UDP datagram with its checksum filled in for the two addresses.
pub open spec fn udp_checksum_filled(s: Seq<u8>, src: Seq<u8>, dst: Seq<u8>) -> Seq<u8> {
    let zeroed = overwrite(s, 6, seq![0u8, 0u8]);
    overwrite(
        s,
        6,
        crate::net::be16_bytes(udp_datagram_checksum(src, dst, zeroed.take(udp_len_of(s)))),
    )
}

/// `EthernetFrame::new_checked`: succeeds on a buffer of at least 14 octets.
#[verifier::external_body]
pub(crate) fn ethernet_check(frame: &[u8]) -> (r: bool)
    ensures
        r == ethernet_valid(frame@),
{
    EthernetFrame::new_checked(frame).is_ok()
}

/// `EthernetFrame::ethertype`: the number at octets 12 and 13.
#[verifier::external_body]
pub(crate) fn ethernet_ethertype(frame: &[u8]) -> (r: u16)
    requires
        ethernet_valid(frame@),
    ensures
        r == crate::net::be16(frame@, 12),
{
    EthernetFrame::new_unchecked(frame).ethertype().into()
}

/// `EthernetFrame::dst_addr`: octets 0 to 5.
#[verifier::external_body]
pub(crate) fn ethernet_dst_addr(frame: &[u8]) -> (r: [u8; 6])
    requires
        ethernet_valid(frame@),
    ensures
        r@ == frame@.subrange(0, 6),
{
    EthernetFrame::new_unchecked(frame).dst_addr().0
}

/// `EthernetFrame::src_addr`: octets 6 to 11.
#[verifier::external_body]
pub(crate) fn ethernet_src_addr(frame: &[u8]) -> (r: [u8; 6])
    requires
        ethernet_valid(frame@),
    ensures
        r@ == frame@.subrange(6, 12),
{
    EthernetFrame::new_unchecked(frame).src_addr().0
}

/// `EthernetFrame::set_dst_addr`: writes octets 0 to 5.
#[verifier::external_body]
pub(crate) fn ethernet_set_dst_addr(frame: &mut [u8], addr: [u8; 6])
    requires
        ethernet_valid(old(frame)@),
    ensures
        final(frame)@ == overwrite(old(frame)@, 0, addr@),
{
    EthernetFrame::new_unchecked(frame).set_dst_addr(EthernetAddress(addr));
}

/// `EthernetFrame::set_src_addr`: writes octets 6 to 11.
#[verifier::external_body]
pub(crate) fn ethernet_set_src_addr(frame: &mut [u8], addr: [u8; 6])
    requires
        ethernet_valid(old(frame)@),
    ensures
        final(frame)@ == overwrite(old(frame)@, 6, addr@),
{
    EthernetFrame::new_unchecked(frame).set_src_addr(EthernetAddress(addr));
}

/// `Ipv4Packet::new_checked`: succeeds when the stated lengths fit the buffer.
#[verifier::external_body]
pub(crate) fn ipv4_check(packet: &[u8]) -> (r: bool)
    ensures
        r == ipv4_valid(packet@),
{
    Ipv4Packet::new_checked(packet).is_ok()
}

/// `Ipv4Packet::header_len`: four times the low half of octet 0.
#[verifier::external_body]
pub(crate) fn ipv4_header_len(packet: &[u8]) -> (r: u8)
    requires
        packet@.len() >= 20,
    ensures
        r == ipv4_header_len_of(packet@),
{
    Ipv4Packet::new_unchecked(packet).header_len()
}

/// `Ipv4Packet::total_len`: the number at octets 2 and 3.
#[verifier::external_body]
pub(crate) fn ipv4_total_len(packet: &[u8]) -> (r: u16)
    requires
        packet@.len() >= 20,
    ensures
        r == ipv4_total_len_of(packet@),
{
    Ipv4Packet::new_unchecked(packet).total_len()
}

/// `Ipv4Packet::next_header`: octet 9.
#[verifier::external_body]
pub(crate) fn ipv4_next_header(packet: &[u8]) -> (r: u8)
    requires
        packet@.len() >= 20,
    ensures
        r == packet@[9],
{
    Ipv4Packet::new_unchecked(packet).next_header().into()
}

/// `Ipv4Packet::src_addr`: octets 12 to 15.
#[verifier::external_body]
pub(crate) fn ipv4_src_addr(packet: &[u8]) -> (r: Ipv4Addr)
    requires
        packet@.len() >= 20,
    ensures
        r == crate::net::ipv4_at(packet@, 12),
{
    Ipv4Addr { octets: Ipv4Packet::new_unchecked(packet).src_addr().octets() }
}

/// `Ipv4Packet::dst_addr`: octets 16 to 19.
#[verifier::external_body]
pub(crate) fn ipv4_dst_addr(packet: &[u8]) -> (r: Ipv4Addr)
    requires
        packet@.len() >= 20,
    ensures
        r == crate::net::ipv4_at(packet@, 16),
{
    Ipv4Addr { octets: Ipv4Packet::new_unchecked(packet).dst_addr().octets() }
}

/// `Ipv4Packet::set_src_addr`: writes octets 12 to 15.
#[verifier::external_body]
pub(crate) fn ipv4_set_src_addr(packet: &mut [u8], addr: Ipv4Addr)
    requires
        old(packet)@.len() >= 20,
    ensures
        final(packet)@ == overwrite(old(packet)@, 12, addr.octets@),
{
    Ipv4Packet::new_unchecked(packet).set_src_addr(Ipv4Address::from(addr.octets));
}

/// `Ipv4Packet::set_dst_addr`: writes octets 16 to 19.
#[verifier::external_body]
pub(crate) fn ipv4_set_dst_addr(packet: &mut [u8], addr: Ipv4Addr)
    requires
        old(packet)@.len() >= 20,
    ensures
        final(packet)@ == overwrite(old(packet)@, 16, addr.octets@),
{
    Ipv4Packet::new_unchecked(packet).set_dst_addr(Ipv4Address::from(addr.octets));
}

/// `Ipv4Packet::fill_checksum`: writes octets 10 and 11 with the checksum of the header.
#[verifier::external_body]
pub(crate) fn ipv4_fill_checksum(packet: &mut [u8])
    requires
        old(packet)@.len() >= 20,
        ipv4_header_len_of(old(packet)@) <= old(packet)@.len(),
    ensures
        final(packet)@ == overwrite(
            old(packet)@,
            10,
            crate::net::be16_bytes(
                ipv4_header_checksum(
                    overwrite(old(packet)@, 10, seq![0u8, 0u8]).take(
                        ipv4_header_len_of(old(packet)@),
                    ),
                ),
            ),
        ),
{
    Ipv4Packet::new_unchecked(packet).fill_checksum();
}

/// `Ipv6Packet::new_checked`: succeeds when the stated length fits the buffer.
#[verifier::external_body]
pub(crate) fn ipv6_check(packet: &[u8]) -> (r: bool)
    ensures
        r == ipv6_valid(packet@),
{
    Ipv6Packet::new_checked(packet).is_ok()
}

/// `Ipv6Packet::payload_len`: the number at octets 4 and 5.
#[verifier::external_body]
pub(crate) fn ipv6_payload_len(packet: &[u8]) -> (r: u16)
    requires
        packet@.len() >= 40,
    ensures
        r == ipv6_payload_len_of(packet@),
{
    Ipv6Packet::new_unchecked(packet).payload_len()
}

/// `Ipv6Packet::next_header`: octet 6.
#[verifier::external_body]
pub(crate) fn ipv6_next_header(packet: &[u8]) -> (r: u8)
    requires
        packet@.len() >= 40,
    ensures
        r == packet@[6],
{
    Ipv6Packet::new_unchecked(packet).next_header().into()
}

/// `Ipv6Packet::src_addr`: octets 8 to 23.
#[verifier::external_body]
pub(crate) fn ipv6_src_addr(packet: &[u8]) -> (r: Ipv6Addr)
    requires
        packet@.len() >= 40,
    ensures
        r == crate::net::ipv6_at(packet@, 8),
{
    Ipv6Addr { octets: Ipv6Packet::new_unchecked(packet).src_addr().octets() }
}

/// `Ipv6Packet::dst_addr`: octets 24 to 39.
#[verifier::external_body]
pub(crate) fn ipv6_dst_addr(packet: &[u8]) -> (r: Ipv6Addr)
    requires
        packet@.len() >= 40,
    ensures
        r == crate::net::ipv6_at(packet@, 24),
{
    Ipv6Addr { octets: Ipv6Packet::new_unchecked(packet).dst_addr().octets() }
}

/// `Ipv6Packet::set_src_addr`: writes octets 8 to 23.
#[verifier::external_body]
pub(crate) fn ipv6_set_src_addr(packet: &mut [u8], addr: Ipv6Addr)
    requires
        old(packet)@.len() >= 40,
    ensures
        final(packet)@ == overwrite(old(packet)@, 8, addr.octets@),
{
    Ipv6Packet::new_unchecked(packet).set_src_addr(Ipv6Address::from(addr.octets));
}

/// `Ipv6Packet::set_dst_addr`: writes octets 24 to 39.
#[verifier::external_body]
pub(crate) fn ipv6_set_dst_addr(packet: &mut [u8], addr: Ipv6Addr)
    requires
        old(packet)@.len() >= 40,
    ensures
        final(packet)@ == overwrite(old(packet)@, 24, addr.octets@),
{
    Ipv6Packet::new_unchecked(packet).set_dst_addr(Ipv6Address::from(addr.octets));
}

/// `TcpPacket::new_checked`: succeeds when the segment holds its header.
#[verifier::external_body]
pub(crate) fn tcp_check(segment: &[u8]) -> (r: bool)
    ensures
        r == tcp_valid(segment@),
{
    TcpPacket::new_checked(segment).is_ok()
}

/// `TcpPacket::src_port`: the number at octets 0 and 1.
#[verifier::external_body]
pub(crate) fn tcp_src_port(segment: &[u8]) -> (r: u16)
    requires
        segment@.len() >= 20,
    ensures
        r == crate::net::be16(segment@, 0),
{
    TcpPacket::new_unchecked(segment).src_port()
}

/// `TcpPacket::dst_port`: the number at octets 2 and 3.
#[verifier::external_body]
pub(crate) fn tcp_dst_port(segment: &[u8]) -> (r: u16)
    requires
        segment@.len() >= 20,
    ensures
        r == crate::net::be16(segment@, 2),
{
    TcpPacket::new_unchecked(segment).dst_port()
}

/// `TcpPacket::fin`: the bit of weight 1 in octet 13.
#[verifier::external_body]
pub(crate) fn tcp_fin(segment: &[u8]) -> (r: bool)
    requires
        segment@.len() >= 20,
    ensures
        r == tcp_flag(segment@, 1),
{
    TcpPacket::new_unchecked(segment).fin()
}

/// `TcpPacket::syn`: the bit of weight 2 in octet 13.
#[verifier::external_body]
pub(crate) fn tcp_syn(segment: &[u8]) -> (r: bool)
    requires
        segment@.len() >= 20,
    ensures
        r == tcp_flag(segment@, 2),
{
    TcpPacket::new_unchecked(segment).syn()
}

/// `TcpPacket::rst`: the bit of weight 4 in octet 13.
#[verifier::external_body]
pub(crate) fn tcp_rst(segment: &[u8]) -> (r: bool)
    requires
        segment@.len() >= 20,
    ensures
        r == tcp_flag(segment@, 4),
{
    TcpPacket::new_unchecked(segment).rst()
}

/// `TcpPacket::ack`: the bit of weight 16 in octet 13.
#[verifier::external_body]
pub(crate) fn tcp_ack(segment: &[u8]) -> (r: bool)
    requires
        segment@.len() >= 20,
    ensures
        r == tcp_flag(segment@, 16),
{
    TcpPacket::new_unchecked(segment).ack()
}

/// `TcpPacket::set_src_port`: writes octets 0 and 1.
#[verifier::external_body]
pub(crate) fn tcp_set_src_port(segment: &mut [u8], port: u16)
    requires
        old(segment)@.len() >= 20,
    ensures
        final(segment)@ == overwrite(old(segment)@, 0, crate::net::be16_bytes(port)),
{
    TcpPacket::new_unchecked(segment).set_src_port(port);
}

/// `TcpPacket::set_dst_port`: writes octets 2 and 3.
#[verifier::external_body]
pub(crate) fn tcp_set_dst_port(segment: &mut [u8], port: u16)
    requires
        old(segment)@.len() >= 20,
    ensures
        final(segment)@ == overwrite(old(segment)@, 2, crate::net::be16_bytes(port)),
{
    TcpPacket::new_unchecked(segment).set_dst_port(port);
}

/// `TcpPacket::fill_checksum`: writes octets 16 and 17 with the checksum of the segment
/// and the two addresses.
#[verifier::external_body]
pub(crate) fn tcp_fill_checksum(segment: &mut [u8], src: IpAddr, dst: IpAddr)
    requires
        20 <= old(segment)@.len() <= 65535,
        same_family(src, dst),
    ensures
        final(segment)@ == overwrite(
            old(segment)@,
            16,
            crate::net::be16_bytes(
                tcp_segment_checksum(
                    ip_octets(src),
                    ip_octets(dst),
                    overwrite(old(segment)@, 16, seq![0u8, 0u8]),
                ),
            ),
        ),
{
    let convert = |ip: IpAddr| match ip {
        IpAddr::V4(a) => IpAddress::Ipv4(Ipv4Address::from(a.octets)),
        IpAddr::V6(a) => IpAddress::Ipv6(Ipv6Address::from(a.octets)),
    };
    TcpPacket::new_unchecked(segment).fill_checksum(&convert(src), &convert(dst));
}

/// `UdpPacket::new_checked`: succeeds when the datagram holds what its length states.
#[verifier::external_body]
pub(crate) fn udp_check(datagram: &[u8]) -> (r: bool)
    ensures
        r == udp_valid(datagram@),
{
    UdpPacket::new_checked(datagram).is_ok()
}

/// `UdpPacket::src_port`: the number at octets 0 and 1.
#[verifier::external_body]
pub(crate) fn udp_src_port(datagram: &[u8]) -> (r: u16)
    requires
        datagram@.len() >= 8,
    ensures
        r == crate::net::be16(datagram@, 0),
{
    UdpPacket::new_unchecked(datagram).src_port()
}

/// `UdpPacket::dst_port`: the number at octets 2 and 3.
#[verifier::external_body]
pub(crate) fn udp_dst_port(datagram: &[u8]) -> (r: u16)
    requires
        datagram@.len() >= 8,
    ensures
        r == crate::net::be16(datagram@, 2),
{
    UdpPacket::new_unchecked(datagram).dst_port()
}

/// `UdpPacket::set_src_port`: writes octets 0 and 1.
#[verifier::external_body]
pub(crate) fn udp_set_src_port(datagram: &mut [u8], port: u16)
    requires
        old(datagram)@.len() >= 8,
    ensures
        final(datagram)@ == overwrite(old(datagram)@, 0, crate::net::be16_bytes(port)),
{
    UdpPacket::new_unchecked(datagram).set_src_port(port);
}

/// `UdpPacket::set_dst_port`: writes octets 2 and 3.
#[verifier::external_body]
pub(crate) fn udp_set_dst_port(datagram: &mut [u8], port: u16)
    requires
        old(datagram)@.len() >= 8,
    ensures
        final(datagram)@ == overwrite(old(datagram)@, 2, crate::net::be16_bytes(port)),
{
    UdpPacket::new_unchecked(datagram).set_dst_port(port);
}

/// `UdpPacket::fill_checksum`: writes octets 6 and 7 with the checksum of the datagram and
/// the two addresses.
#[verifier::external_body]
pub(crate) fn udp_fill_checksum(datagram: &mut [u8], src: IpAddr, dst: IpAddr)
    requires
        udp_valid(old(datagram)@),
        same_family(src, dst),
    ensures
        final(datagram)@ == overwrite(
            old(datagram)@,
            6,
            crate::net::be16_bytes(
                udp_datagram_checksum(
                    ip_octets(src),
                    ip_octets(dst),
                    overwrite(old(datagram)@, 6, seq![0u8, 0u8]).take(udp_len_of(old(datagram)@)),
                ),
            ),
        ),
{
    let convert = |ip: IpAddr| match ip {
        IpAddr::V4(a) => IpAddress::Ipv4(Ipv4Address::from(a.octets)),
        IpAddr::V6(a) => IpAddress::Ipv6(Ipv6Address::from(a.octets)),
    };
    UdpPacket::new_unchecked(datagram).fill_checksum(&convert(src), &convert(dst));
}

} // verus!
