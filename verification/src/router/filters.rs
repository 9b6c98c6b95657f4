//! The packets that the driver passes on by itself, without showing them to the router.
use vstd::prelude::*;
use crate::net::{Ipv4Addr, Ipv6Addr};
use crate::router::wire::{PROTOCOL_TCP, PROTOCOL_UDP};

verus! {

/// The number of ICMP in an IP header.
pub const PROTOCOL_ICMP: u8 = 1;

/// Which way a packet goes.
#[derive(Clone, Copy, Debug, PartialEq, Eq, Structural)]
pub enum FilterDirection {
    Send,
    Receive,
    Both,
}

/// The IPv4 addresses that agree with `ip` where the bits of `mask` are set.
#[derive(Clone, Copy, Debug, PartialEq, Eq)]
pub struct Ipv4Subnet {
    pub ip: Ipv4Addr,
    pub mask: Ipv4Addr,
}

/// The IPv6 addresses that agree with `ip` where the bits of `mask` are set.
#[derive(Clone, Copy, Debug, PartialEq, Eq)]
pub struct Ipv6Subnet {
    pub ip: Ipv6Addr,
    pub mask: Ipv6Addr,
}

/// What a filter asks of the IP header: a protocol, and possibly a destination.
#[derive(Clone, Copy, Debug, PartialEq, Eq)]
pub enum NetworkMatch {
    Ipv4 { protocol: u8, dest: Option<Ipv4Subnet> },
    Ipv6 { protocol: u8, dest_v6: Option<Ipv6Subnet> },
}

/// What a filter asks of the TCP or UDP header: a range of source ports, or one of
/// destination ports.
#[derive(Clone, Copy, Debug, PartialEq, Eq, Structural)]
pub enum PortMatch {
    Source { low: u16, high: u16 },
    Destination { low: u16, high: u16 },
}

/// Packets that are passed on.
#[derive(Clone, Copy, Debug, PartialEq, Eq)]
pub struct PassFilter {
    pub direction: FilterDirection,
    pub network: NetworkMatch,
    pub ports: Option<PortMatch>,
}

/// Passes ICMP over IPv4 both ways.
pub open spec fn icmp_filter() -> PassFilter {
    PassFilter {
        direction: FilterDirection::Both,
        network: NetworkMatch::Ipv4 { protocol: PROTOCOL_ICMP, dest: None },
        ports: None,
    }
}

/// Passes ICMP over IPv4 both ways.
pub fn build_icmp_pass_filter() -> (r: PassFilter)
    ensures
        r == icmp_filter(),
{
    PassFilter {
        direction: FilterDirection::Both,
        network: NetworkMatch::Ipv4 { protocol: PROTOCOL_ICMP, dest: None },
        ports: None,
    }
}

/// One address alone.
pub open spec fn ipv4_host(ip: Ipv4Addr) -> Ipv4Subnet {
    Ipv4Subnet { ip, mask: Ipv4Addr { octets: [255, 255, 255, 255] } }
}

/// One address alone.
pub open spec fn ipv6_host(ip: Ipv6Addr) -> Ipv6Subnet {
    Ipv6Subnet {
        ip,
        mask: Ipv6Addr {
            octets: [
                255,
                255,
                255,
                255,
                255,
                255,
                255,
                255,
                255,
                255,
                255,
                255,
                255,
                255,
                255,
                255,
            ],
        },
    }
}

/// One port alone.
pub open spec fn port_match(match_src_port: bool, port: u16) -> PortMatch {
    if match_src_port {
        PortMatch::Source { low: port, high: port }
    } else {
        PortMatch::Destination { low: port, high: port }
    }
}

fn build_port_match(match_src_port: bool, port: u16) -> (r: PortMatch)
    ensures
        r == port_match(match_src_port, port),
{
    if match_src_port {
        PortMatch::Source { low: port, high: port }
    } else {
        PortMatch::Destination { low: port, high: port }
    }
}

/// The packets of one protocol to the destinations `dest`, with `port` at one end.
fn build_proxy_pass_filter(
    direction: FilterDirection,
    dest: Ipv4Subnet,
    protocol: u8,
    match_src_port: bool,
    port: u16,
) -> (r: PassFilter)
    ensures
        r == (PassFilter {
            direction,
            network: NetworkMatch::Ipv4 { protocol, dest: Some(dest) },
            ports: Some(port_match(match_src_port, port)),
        }),
{
    PassFilter {
        direction,
        network: NetworkMatch::Ipv4 { protocol, dest: Some(dest) },
        ports: Some(build_port_match(match_src_port, port)),
    }
}

/// The packets of one protocol to the destinations `dest`, with `port` at one end.
fn build_proxy_pass_filter_v6(
    direction: FilterDirection,
    dest: Ipv6Subnet,
    protocol: u8,
    match_src_port: bool,
    port: u16,
) -> (r: PassFilter)
    ensures
        r == (PassFilter {
            direction,
            network: NetworkMatch::Ipv6 { protocol, dest_v6: Some(dest) },
            ports: Some(port_match(match_src_port, port)),
        }),
{
    PassFilter {
        direction,
        network: NetworkMatch::Ipv6 { protocol, dest_v6: Some(dest) },
        ports: Some(build_port_match(match_src_port, port)),
    }
}

/// The filter for one protocol and one direction: what is sent has the server's port as its
/// destination port, what is received has it as its source port.
pub open spec fn proxy_filter_v4(ip: Ipv4Addr, port: u16, protocol: u8, send: bool) -> PassFilter {
    PassFilter {
        direction: if send {
            FilterDirection::Send
        } else {
            FilterDirection::Receive
        },
        network: NetworkMatch::Ipv4 { protocol, dest: Some(ipv4_host(ip)) },
        ports: Some(port_match(!send, port)),
    }
}

/// The filter for one protocol and one direction: what is sent has the server's port as its
/// destination port, what is received has it as its source port.
pub open spec fn proxy_filter_v6(ip: Ipv6Addr, port: u16, protocol: u8, send: bool) -> PassFilter {
    PassFilter {
        direction: if send {
            FilterDirection::Send
        } else {
            FilterDirection::Receive
        },
        network: NetworkMatch::Ipv6 { protocol, dest_v6: Some(ipv6_host(ip)) },
        ports: Some(port_match(!send, port)),
    }
}

/// The four filters for a server at an IPv4 address: TCP out and in, UDP out and in.
pub open spec fn proxy_filters_v4(ip: Ipv4Addr, port: u16) -> Seq<PassFilter> {
    seq![
        proxy_filter_v4(ip, port, PROTOCOL_TCP, true),
        proxy_filter_v4(ip, port, PROTOCOL_TCP, false),
        proxy_filter_v4(ip, port, PROTOCOL_UDP, true),
        proxy_filter_v4(ip, port, PROTOCOL_UDP, false),
    ]
}

/// The four filters for a server at an IPv6 address: TCP out and in, UDP out and in.
pub open spec fn proxy_filters_v6(ip: Ipv6Addr, port: u16) -> Seq<PassFilter> {
    seq![
        proxy_filter_v6(ip, port, PROTOCOL_TCP, true),
        proxy_filter_v6(ip, port, PROTOCOL_TCP, false),
        proxy_filter_v6(ip, port, PROTOCOL_UDP, true),
        proxy_filter_v6(ip, port, PROTOCOL_UDP, false),
    ]
}

/// The four filters for a server at an IPv4 address: TCP out and in, UDP out and in.
pub fn build_proxy_pass_filters(ip: Ipv4Addr, port: u16) -> (r: Vec<PassFilter>)
    ensures
        r@ == proxy_filters_v4(ip, port),
{
    let dest = Ipv4Subnet { ip, mask: Ipv4Addr { octets: [255, 255, 255, 255] } };
    let tcp_out = build_proxy_pass_filter(FilterDirection::Send, dest, PROTOCOL_TCP, false, port);
    let tcp_in = build_proxy_pass_filter(FilterDirection::Receive, dest, PROTOCOL_TCP, true, port);
    let udp_out = build_proxy_pass_filter(FilterDirection::Send, dest, PROTOCOL_UDP, false, port);
    let udp_in = build_proxy_pass_filter(FilterDirection::Receive, dest, PROTOCOL_UDP, true, port);
    let filters = vec![tcp_out, tcp_in, udp_out, udp_in];
    assert(filters@ =~= proxy_filters_v4(ip, port));
    filters
}

/// The four filters for a server at an IPv6 address: TCP out and in, UDP out and in.
pub fn build_proxy_pass_filters_v6(ip: Ipv6Addr, port: u16) -> (r: Vec<PassFilter>)
    ensures
        r@ == proxy_filters_v6(ip, port),
{
    let dest = Ipv6Subnet {
        ip,
        mask: Ipv6Addr {
            octets: [
                255,
                255,
                255,
                255,
                255,
                255,
                255,
                255,
                255,
                255,
                255,
                255,
                255,
                255,
                255,
                255,
            ],
        },
    };
    let tcp_out = build_proxy_pass_filter_v6(
        FilterDirection::Send,
        dest,
        PROTOCOL_TCP,
        false,
        port,
    );
    let tcp_in = build_proxy_pass_filter_v6(
        FilterDirection::Receive,
        dest,
        PROTOCOL_TCP,
        true,
        port,
    );
    let udp_out = build_proxy_pass_filter_v6(
        FilterDirection::Send,
        dest,
        PROTOCOL_UDP,
        false,
        port,
    );
    let udp_in = build_proxy_pass_filter_v6(
        FilterDirection::Receive,
        dest,
        PROTOCOL_UDP,
        true,
        port,
    );
    let filters = vec![tcp_out, tcp_in, udp_out, udp_in];
    assert(filters@ =~= proxy_filters_v6(ip, port));
    filters
}

/// `ip` lies in the subnet.
pub open spec fn in_ipv4_subnet(subnet: Ipv4Subnet, ip: Ipv4Addr) -> bool {
    forall|i: int|
        0 <= i < 4 ==> (#[trigger] ip.octets[i] & subnet.mask.octets[i]) == (subnet.ip.octets[i]
            & subnet.mask.octets[i])
}

/// `ip` lies in the subnet.
pub open spec fn in_ipv6_subnet(subnet: Ipv6Subnet, ip: Ipv6Addr) -> bool {
    forall|i: int|
        0 <= i < 16 ==> (#[trigger] ip.octets[i] & subnet.mask.octets[i]) == (subnet.ip.octets[i]
            & subnet.mask.octets[i])
}

/// A server's filters are for that server alone: their subnet holds its address and no other.
pub proof fn law_filters_name_one_host(ip4: Ipv4Addr, other4: Ipv4Addr, ip6: Ipv6Addr, other6: Ipv6Addr)
    ensures
        in_ipv4_subnet(ipv4_host(ip4), other4) <==> other4 == ip4,
        in_ipv6_subnet(ipv6_host(ip6), other6) <==> other6 == ip6,
{
    assert(forall|a: u8| #[trigger] (a & 255u8) == a) by (bit_vector);
    if in_ipv4_subnet(ipv4_host(ip4), other4) {
        assert(forall|i: int| 0 <= i < 4 ==> other4.octets[i] == ip4.octets[i]) by {
            assert(forall|i: int| 0 <= i < 4 ==> ipv4_host(ip4).mask.octets[i] == 255);
        }
        assert(other4.octets =~= ip4.octets);
    }
    if in_ipv6_subnet(ipv6_host(ip6), other6) {
        assert(forall|i: int| 0 <= i < 16 ==> other6.octets[i] == ip6.octets[i]) by {
            assert(forall|i: int| 0 <= i < 16 ==> ipv6_host(ip6).mask.octets[i] == 255);
        }
        assert(other6.octets =~= ip6.octets);
    }
}

} // verus!
