//! What the router tells a local proxy of where its traffic wanted to go.
use vstd::prelude::*;
use crate::net::{normalized, IpAddr, SocketAddr};
use crate::router::flow::{TcpFlowKey, TcpFlows, UdpFlowKey, UdpFlows, UdpIndexKey};
use crate::router::query::{
    tcp_answer, tcp_destination, udp_answer, udp_destination, Destination, QueryError,
};

verus! {

/// The answer for traffic that is known, and the one for traffic that is not.
pub open spec fn answers(r: Destination, known: bool, dst_ip: IpAddr, dst_port: u16) -> bool {
    if known {
        r matches Ok(to) && to.0 == dst_ip && to.1 == dst_port
    } else {
        r matches Err(e) && e == QueryError::NotFound
    }
}

/// A proxy that accepts a connection learns where it wanted to go: the router looks for the
/// connection to the peer's address, from the proxy's own address, at the peer's port.
pub proof fn law_tcp_query(m: TcpFlows, peer: SocketAddr, local: SocketAddr, key: TcpFlowKey)
    requires
        key.dst_ip == normalized(peer).spec_ip(),
        key.src_ip == normalized(local).spec_ip(),
        key.src_port == normalized(peer).spec_port(),
    ensures
        answers(tcp_answer(m, peer, local), m.contains_key(key), m[key].dst_ip, m[key].dst_port),
        answers(tcp_destination(m, key), m.contains_key(key), m[key].dst_ip, m[key].dst_port),
{
    assert(key == (TcpFlowKey {
        dst_ip: normalized(peer).spec_ip(),
        src_ip: normalized(local).spec_ip(),
        src_port: normalized(peer).spec_port(),
    }));
}

/// A proxy whose socket has an address of its own learns of a datagram in the same way.
pub proof fn law_udp_query(m: UdpFlows, peer: SocketAddr, local: SocketAddr, key: UdpFlowKey)
    requires
        key.dst_ip == normalized(peer).spec_ip(),
        key.src_ip == normalized(local).spec_ip(),
        key.src_port == normalized(peer).spec_port(),
        match key.src_ip {
            IpAddr::V4(a) => exists|k: int| 0 <= k < 4 && a.octets@[k] != 0,
            IpAddr::V6(a) => exists|k: int| 0 <= k < 16 && a.octets@[k] != 0,
        },
    ensures
        answers(udp_answer(m, peer, local), m.contains_key(key), m[key].dst_ip, m[key].dst_port),
        answers(udp_destination(m, key), m.contains_key(key), m[key].dst_ip, m[key].dst_port),
{
    match key.src_ip {
        IpAddr::V4(a) => {
            crate::laws::net::law_address_classes(a, crate::net::ipv6_at(Seq::empty(), 0));
        },
        IpAddr::V6(a) => {
            crate::laws::net::law_address_classes(crate::net::ipv4_at(Seq::empty(), 0), a);
        },
    }
    assert(key == (UdpFlowKey {
        dst_ip: normalized(peer).spec_ip(),
        src_ip: normalized(local).spec_ip(),
        src_port: normalized(peer).spec_port(),
    }));
}

/// A proxy whose socket is bound to all addresses learns of a datagram where it wanted to go if
/// just one flow goes to the peer's address from the peer's port. If several do, the router says
/// so, and if none does, that it found nothing.
pub proof fn law_udp_query_without_address(
    m: UdpFlows,
    peer: SocketAddr,
    local: SocketAddr,
    a: UdpFlowKey,
    b: UdpFlowKey,
)
    requires
        match normalized(local).spec_ip() {
            IpAddr::V4(ip) => forall|k: int| 0 <= k < 4 ==> ip.octets@[k] == 0,
            IpAddr::V6(ip) => forall|k: int| 0 <= k < 16 ==> ip.octets@[k] == 0,
        },
    ensures
        ({
            let ip = normalized(peer).spec_ip();
            let port = normalized(peer).spec_port();
            let of_a = m.contains_key(a) && a.dst_ip == ip && a.src_port == port;
            let of_b = m.contains_key(b) && b.dst_ip == ip && b.src_port == port;
            &&& of_a && (forall|k: UdpFlowKey|
                #[trigger] m.contains_key(k) && k.dst_ip == ip && k.src_port == port ==> k == a)
                ==> (udp_answer(m, peer, local) matches Ok(to) && to.0 == m[a].dst_ip && to.1
                == m[a].dst_port)
            &&& of_a && of_b && a != b ==> (udp_answer(m, peer, local) matches Err(e) && e
                == QueryError::Ambiguous)
            &&& (forall|k: UdpFlowKey| #[trigger]
                m.contains_key(k) ==> k.dst_ip != ip || k.src_port != port) ==> (udp_answer(
                m,
                peer,
                local,
            ) matches Err(e) && e == QueryError::NotFound)
        }),
{
    match normalized(local).spec_ip() {
        IpAddr::V4(ip) => {
            crate::laws::net::law_address_classes(ip, crate::net::ipv6_at(Seq::empty(), 0));
        },
        IpAddr::V6(ip) => {
            crate::laws::net::law_address_classes(crate::net::ipv4_at(Seq::empty(), 0), ip);
        },
    }
    let ip = normalized(peer).spec_ip();
    let port = normalized(peer).spec_port();
    let idx = UdpIndexKey { dst_ip: ip, src_port: port };
    crate::laws::flow::law_index_of_flows(m.dom(), ip, port, a, b);
    assert(forall|k: UdpFlowKey| #[trigger] m.contains_key(k) == m.dom().contains(k));
    if forall|k: UdpFlowKey|
        #[trigger] m.contains_key(k) && k.dst_ip == ip && k.src_port == port ==> k == a {
        assert(forall|k: UdpFlowKey|
            #[trigger] m.dom().contains(k) && k.dst_ip == ip && k.src_port == port ==> k == a);
    }
    if forall|k: UdpFlowKey| #[trigger] m.contains_key(k) ==> k.dst_ip != ip || k.src_port != port {
        assert(forall|k: UdpFlowKey| #[trigger]
            m.dom().contains(k) ==> k.dst_ip != ip || k.src_port != port);
    }
}

} // verus!
