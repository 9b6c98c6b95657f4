//! Where redirected traffic wanted to go: what a local proxy asks the router.
use vstd::prelude::*;
use crate::net::{maybe_mapped, normalize_mapped_ipv6, normalized, IpAddr, SocketAddr};
use crate::net::{is_mapped, law_normalize_undoes_mapping};
use crate::proxy::ErrorKind;
use crate::router::flow::{
    flow_live, index_entry, indexed_flow, is_index, lemma_index_entry, live_flows,
    opens_connection, tcp_inside, tcp_key, tcp_opened, udp_inside, udp_key,
    udp_opened, TcpFlowKey, TcpFlows, UdpFlowKey, UdpFlows, UdpIndexKey,
};
use crate::router::packet::{
    frame_rewritten, headers_apart, law_rewrite_turns_packet, packet_info, single_receiver,
    turned_info, PacketInfo, PortRewrite,
};
use crate::router::SocksLocalRouter;

verus! {

/// Why the router cannot tell where traffic wanted to go.
#[derive(Clone, Copy, Debug, PartialEq, Eq, Structural)]
pub enum QueryError {
    NotFound,
    Ambiguous,
}

impl QueryError {
    /// What is told to the user.
    pub fn message(&self) -> (r: &'static str)
        ensures
            r@ == match *self {
                QueryError::NotFound => "original destination not found"@,
                QueryError::Ambiguous => "ambiguous destination mapping"@,
            },
    {
        match *self {
            QueryError::NotFound => "original destination not found",
            QueryError::Ambiguous => "ambiguous destination mapping",
        }
    }

    /// In both cases there is no one destination to be found.
    pub fn kind(&self) -> (r: ErrorKind)
        ensures
            r == ErrorKind::NotFound,
    {
        ErrorKind::NotFound
    }
}

/// A destination, or why there is none.
pub type Destination = Result<(IpAddr, u16), QueryError>;

/// Where the connection under `key` wanted to go.
pub open spec fn tcp_destination(m: TcpFlows, key: TcpFlowKey) -> Destination {
    if m.contains_key(key) {
        Ok((m[key].dst_ip, m[key].dst_port))
    } else {
        Err(QueryError::NotFound)
    }
}

/// Where the flow under `key` wanted to go.
pub open spec fn udp_destination(m: UdpFlows, key: UdpFlowKey) -> Destination {
    if m.contains_key(key) {
        Ok((m[key].dst_ip, m[key].dst_port))
    } else {
        Err(QueryError::NotFound)
    }
}

/// Where the connection that a proxy accepted wanted to go. Its peer is the destination's
/// address with the client's port, and its own end is the client's address.
pub open spec fn tcp_answer(m: TcpFlows, peer: SocketAddr, local: SocketAddr) -> Destination {
    tcp_destination(
        m,
        TcpFlowKey {
            dst_ip: normalized(peer).spec_ip(),
            src_ip: normalized(local).spec_ip(),
            src_port: normalized(peer).spec_port(),
        },
    )
}

/// Where a datagram that a proxy received wanted to go. A socket that is bound to no address
/// does not tell at which one the datagram arrived; then there must be one flow only that
/// looks like it.
pub open spec fn udp_answer(m: UdpFlows, peer: SocketAddr, local: SocketAddr) -> Destination {
    let from = normalized(peer);
    let to = normalized(local).spec_ip();
    if !to.spec_is_unspecified() {
        udp_destination(
            m,
            UdpFlowKey { dst_ip: from.spec_ip(), src_ip: to, src_port: from.spec_port() },
        )
    } else {
        match index_entry(
            m.dom(),
            UdpIndexKey { dst_ip: from.spec_ip(), src_port: from.spec_port() },
        ) {
            Some(Some(key)) => udp_destination(m, key),
            Some(None) => Err(QueryError::Ambiguous),
            None => Err(QueryError::NotFound),
        }
    }
}

impl SocksLocalRouter {
    /// Tells where the connection that a proxy accepted wanted to go.
    pub fn query_tcp(&self, peer: SocketAddr, local: SocketAddr) -> (r: Destination)
        requires
            self.wf(),
        ensures
            r == tcp_answer(self.tcp_connections@, peer, local),
    {
        let peer = normalize_mapped_ipv6(peer);
        let local = normalize_mapped_ipv6(local);
        let key = TcpFlowKey { dst_ip: peer.ip(), src_ip: local.ip(), src_port: peer.port() };
        match self.tcp_connections.get(&key) {
            Some(entry) => Ok((entry.dst_ip, entry.dst_port)),
            None => Err(QueryError::NotFound),
        }
    }

    /// Tells where a datagram that a proxy received wanted to go.
    pub fn query_udp(&self, peer: SocketAddr, local: SocketAddr) -> (r: Destination)
        requires
            self.wf(),
        ensures
            r == udp_answer(self.udp_endpoints.by_flow@, peer, local),
    {
        let peer = normalize_mapped_ipv6(peer);
        let local_ip = normalize_mapped_ipv6(local).ip();
        if !local_ip.is_unspecified() {
            let key = UdpFlowKey::new(peer.ip(), local_ip, peer.port());
            return self.udp_flow_destination(&key);
        }
        let index = UdpIndexKey::new(peer.ip(), peer.port());
        assert(is_index(self.udp_endpoints.by_flow@.dom(), self.udp_endpoints.by_peer@));
        assert(self.udp_endpoints.by_peer@.contains_key(index) == (index_entry(
            self.udp_endpoints.by_flow@.dom(),
            index,
        ) is Some));
        match self.udp_endpoints.by_peer.get(&index) {
            Some(Some(key)) => self.udp_flow_destination(key),
            Some(None) => Err(QueryError::Ambiguous),
            None => Err(QueryError::NotFound),
        }
    }

    fn udp_flow_destination(&self, key: &UdpFlowKey) -> (r: Destination)
        requires
            self.wf(),
        ensures
            r == udp_destination(self.udp_endpoints.by_flow@, *key),
    {
        match self.udp_endpoints.by_flow.get(key) {
            Some(entry) => Ok((entry.dst_ip, entry.dst_port)),
            None => Err(QueryError::NotFound),
        }
    }
}

/// `seen` is how a socket for both address families shows `addr`: as it is, or, for an IPv4
/// address, in its IPv4-mapped form.
pub open spec fn shows(seen: SocketAddr, addr: SocketAddr) -> bool {
    exists|m: bool| seen == #[trigger] maybe_mapped(addr, m)
}

/// An IPv4 address, or an IPv6 address that is not the mapped form of one.
pub open spec fn unmapped(ip: IpAddr) -> bool {
    ip matches IpAddr::V6(v6) ==> !is_mapped(v6)
}

proof fn lemma_shown_address(seen: SocketAddr, ip: IpAddr, port: u16)
    requires
        shows(seen, SocketAddr::spec_new(ip, port)),
        unmapped(ip),
    ensures
        normalized(seen) == SocketAddr::spec_new(ip, port),
{
    let addr = SocketAddr::spec_new(ip, port);
    let m = choose|m: bool| seen == #[trigger] maybe_mapped(addr, m);
    if let SocketAddr::V4(v4) = addr {
        law_normalize_undoes_mapping(v4, m);
    }
}

/// A connection is redirected transparently. Once its first segment was sent to a proxy, the
/// proxy, which sees the rewritten segment, learns from the router the destination that the
/// client wrote into it.
pub proof fn law_tcp_proxy_learns_destination(
    m: TcpFlows,
    info: PacketInfo,
    proxy_port: u16,
    from_proxy: bool,
    peer: SocketAddr,
    local: SocketAddr,
)
    requires
        proxy_port != 0,
        !m.contains_key(tcp_key(info)),
        unmapped(info.src_ip),
        unmapped(info.dst_ip),
        shows(peer, turned_info(info, PortRewrite::ToProxy(proxy_port)).spec_src()),
        shows(local, turned_info(info, PortRewrite::ToProxy(proxy_port)).spec_dst()),
    ensures
        tcp_opened(m, info, proxy_port, from_proxy).1 == Some(PortRewrite::ToProxy(proxy_port)),
        tcp_answer(tcp_opened(m, info, proxy_port, from_proxy).0, peer, local) == Ok::<
            (IpAddr, u16),
            QueryError,
        >((info.dst_ip, info.dst_port)),
{
    lemma_shown_address(peer, info.dst_ip, info.src_port);
    lemma_shown_address(local, info.src_ip, proxy_port);
}

/// The same on frames. The frame that opens a connection, rewritten for the proxy, is one that the
/// machine reads as coming from the destination's address to the client's; from the two ends that
/// the proxy sees in it, the router tells the destination in the frame as it was sent.
pub proof fn law_tcp_frame_is_traced(
    m: TcpFlows,
    frame: Seq<u8>,
    info: PacketInfo,
    proxy_port: u16,
    peer: SocketAddr,
    local: SocketAddr,
)
    requires
        packet_info(frame) == Some(info),
        headers_apart(frame, info.kind),
        !info.kind.spec_is_udp(),
        proxy_port != 0,
        !m.contains_key(tcp_key(info)),
        unmapped(info.src_ip),
        unmapped(info.dst_ip),
        ({
            let sent = frame_rewritten(frame, info.kind, PortRewrite::ToProxy(proxy_port));
            packet_info(sent->Some_0) matches Some(seen) ==> shows(peer, seen.spec_src())
                && shows(local, seen.spec_dst())
        }),
    ensures
        frame_rewritten(frame, info.kind, PortRewrite::ToProxy(proxy_port)) matches Some(sent)
            && packet_info(sent) matches Some(seen) && seen.src_ip == info.dst_ip && seen.dst_ip
            == info.src_ip && seen.src_port == info.src_port && seen.dst_port == proxy_port,
        tcp_answer(tcp_opened(m, info, proxy_port, false).0, peer, local) == Ok::<
            (IpAddr, u16),
            QueryError,
        >((info.dst_ip, info.dst_port)),
{
    law_rewrite_turns_packet(frame, info, PortRewrite::ToProxy(proxy_port));
    law_tcp_proxy_learns_destination(m, info, proxy_port, false, peer, local);
}

/// A frame that the proxy answers in a redirected connection, rewritten for the client, is one that
/// the client reads as coming from the destination that it wrote to.
pub proof fn law_tcp_reply_frame_comes_from_destination(
    m: TcpFlows,
    info: PacketInfo,
    reply_frame: Seq<u8>,
    reply: PacketInfo,
    proxy_port: u16,
)
    requires
        packet_info(reply_frame) == Some(reply),
        headers_apart(reply_frame, reply.kind),
        !reply.kind.spec_is_udp(),
        proxy_port != 0,
        !m.contains_key(tcp_key(info)),
        reply.src_ip == info.src_ip,
        reply.src_port == proxy_port,
        reply.dst_ip == info.dst_ip,
        reply.dst_port == info.src_port,
        !opens_connection(reply),
        !tcp_opened(m, info, proxy_port, false).0.contains_key(tcp_key(reply)),
    ensures
        tcp_inside(tcp_opened(m, info, proxy_port, false).0, reply, true).1 matches Some(rewrite)
            && frame_rewritten(reply_frame, reply.kind, rewrite) matches Some(got) && packet_info(
            got,
        ) matches Some(seen) && seen.spec_src() == info.spec_dst() && seen.spec_dst()
            == info.spec_src(),
{
    law_tcp_reply_comes_from_destination(m, info, reply, proxy_port);
    law_rewrite_turns_packet(reply_frame, reply, PortRewrite::FromProxy(info.dst_port));
}

/// Every later segment of a redirected connection goes to the proxy that the connection was
/// entered with, and the connection stays known until a segment closes it.
pub proof fn law_tcp_segments_follow(m: TcpFlows, info: PacketInfo, from_proxy: bool)
    requires
        m.contains_key(tcp_key(info)),
        !opens_connection(info),
    ensures
        tcp_inside(m, info, from_proxy).1 == Some(
            PortRewrite::ToProxy(m[tcp_key(info)].proxy_port),
        ),
        !(info.rst || info.fin) ==> tcp_inside(m, info, from_proxy).0 == m,
        info.rst || info.fin ==> !tcp_inside(m, info, from_proxy).0.contains_key(tcp_key(info)),
{
}

/// What the proxy answers in a redirected connection reaches the client as if the destination
/// itself had sent it: from the address and the port that the client wrote to.
pub proof fn law_tcp_reply_comes_from_destination(
    m: TcpFlows,
    info: PacketInfo,
    reply: PacketInfo,
    proxy_port: u16,
)
    requires
        proxy_port != 0,
        !m.contains_key(tcp_key(info)),
        reply.src_ip == info.src_ip,
        reply.src_port == proxy_port,
        reply.dst_ip == info.dst_ip,
        reply.dst_port == info.src_port,
        !opens_connection(reply),
        !tcp_opened(m, info, proxy_port, false).0.contains_key(tcp_key(reply)),
    ensures
        ({
            let known = tcp_opened(m, info, proxy_port, false).0;
            &&& tcp_inside(known, reply, true).1 == Some(PortRewrite::FromProxy(info.dst_port))
            &&& turned_info(reply, PortRewrite::FromProxy(info.dst_port)).spec_src()
                == info.spec_dst()
            &&& turned_info(reply, PortRewrite::FromProxy(info.dst_port)).spec_dst()
                == info.spec_src()
        }),
{
}

/// Traffic that is not redirected is left alone: no rewrite, and nothing is remembered of it.
pub proof fn law_other_traffic_untouched(
    tcp: TcpFlows,
    udp: UdpFlows,
    info: PacketInfo,
    now: u64,
)
    requires
        !tcp.contains_key(tcp_key(info)),
        !udp.contains_key(udp_key(info)),
    ensures
        tcp_opened(tcp, info, 0, false) == (tcp, None::<PortRewrite>),
        tcp_inside(tcp, info, false) == (tcp, None::<PortRewrite>),
        udp_opened(udp, info, 0, false, now) == (udp, None::<PortRewrite>),
{
}

/// A datagram is redirected transparently. The proxy that receives it learns from the router
/// the destination that the client wrote into it, if its socket tells at which address the
/// datagram arrived, and also if it does not but no other flow has the same destination address
/// and client port.
pub proof fn law_udp_proxy_learns_destination(
    m: UdpFlows,
    info: PacketInfo,
    proxy_port: u16,
    from_proxy: bool,
    now: u64,
    peer: SocketAddr,
    local: SocketAddr,
)
    requires
        proxy_port != 0,
        unmapped(info.src_ip),
        unmapped(info.dst_ip),
        shows(peer, turned_info(info, PortRewrite::ToProxy(proxy_port)).spec_src()),
        ({
            ||| normalized(local).spec_ip().spec_is_unspecified() && forall|k: UdpFlowKey|
                #![trigger m.contains_key(k)]
                m.contains_key(k) && k.dst_ip == info.dst_ip && k.src_port == info.src_port ==> k
                    == udp_key(info)
            ||| !info.src_ip.spec_is_unspecified() && shows(
                local,
                turned_info(info, PortRewrite::ToProxy(proxy_port)).spec_dst(),
            )
        }),
    ensures
        udp_opened(m, info, proxy_port, from_proxy, now).1 == Some(
            PortRewrite::ToProxy(proxy_port),
        ),
        udp_answer(udp_opened(m, info, proxy_port, from_proxy, now).0, peer, local) == Ok::<
            (IpAddr, u16),
            QueryError,
        >((info.dst_ip, info.dst_port)),
{
    let known = udp_opened(m, info, proxy_port, from_proxy, now).0;
    let key = udp_key(info);
    lemma_shown_address(peer, info.dst_ip, info.src_port);
    if normalized(local).spec_ip().spec_is_unspecified() && forall|k: UdpFlowKey|
        #![trigger m.contains_key(k)]
        m.contains_key(k) && k.dst_ip == info.dst_ip && k.src_port == info.src_port ==> k
            == udp_key(info) {
        let idx = key.spec_index();
        assert(indexed_flow(known.dom(), idx, key));
        assert forall|o: UdpFlowKey| indexed_flow(known.dom(), idx, o) implies o == key by {
            if o != key {
                assert(m.contains_key(o));
            }
        }
        lemma_index_entry(known.dom(), idx, key);
    } else {
        lemma_shown_address(local, info.src_ip, proxy_port);
    }
}

/// A proxy whose socket does not tell at which address a datagram arrived is told that its
/// destination is ambiguous exactly if two flows look like it, and that there is none exactly
/// if no flow does.
pub proof fn law_udp_wildcard_answer(m: UdpFlows, peer: SocketAddr, local: SocketAddr)
    requires
        normalized(local).spec_ip().spec_is_unspecified(),
    ensures
        ({
            let idx = UdpIndexKey {
                dst_ip: normalized(peer).spec_ip(),
                src_port: normalized(peer).spec_port(),
            };
            &&& udp_answer(m, peer, local) == Err::<(IpAddr, u16), QueryError>(
                QueryError::Ambiguous,
            ) <==> exists|a: UdpFlowKey, b: UdpFlowKey|
                #![trigger indexed_flow(m.dom(), idx, a), indexed_flow(m.dom(), idx, b)]
                indexed_flow(m.dom(), idx, a) && indexed_flow(m.dom(), idx, b) && a != b
            &&& udp_answer(m, peer, local) == Err::<(IpAddr, u16), QueryError>(
                QueryError::NotFound,
            ) <==> !exists|a: UdpFlowKey| indexed_flow(m.dom(), idx, a)
        }),
{
    let idx = UdpIndexKey {
        dst_ip: normalized(peer).spec_ip(),
        src_port: normalized(peer).spec_port(),
    };
    if exists|a: UdpFlowKey| indexed_flow(m.dom(), idx, a) {
        let a = choose|a: UdpFlowKey| indexed_flow(m.dom(), idx, a);
        lemma_index_entry(m.dom(), idx, a);
        if exists|o: UdpFlowKey| indexed_flow(m.dom(), idx, o) && o != a {
            let o = choose|o: UdpFlowKey| indexed_flow(m.dom(), idx, o) && o != a;
            assert(indexed_flow(m.dom(), idx, a) && indexed_flow(m.dom(), idx, o) && a != o);
        }
    }
}

/// Every later datagram of a redirected flow to the same port goes to the same proxy and counts
/// as a use; one to another port is left alone and does not.
pub proof fn law_udp_datagrams_follow(m: UdpFlows, info: PacketInfo, now: u64)
    requires
        m.contains_key(udp_key(info)),
    ensures
        m[udp_key(info)].dst_port == info.dst_port ==> udp_inside(m, info, now).1 == Some(
            PortRewrite::ToProxy(m[udp_key(info)].proxy_port),
        ) && udp_inside(m, info, now).0[udp_key(info)].last_active == now,
        m[udp_key(info)].dst_port != info.dst_port ==> udp_inside(m, info, now) == (
            m,
            None::<PortRewrite>,
        ),
        udp_inside(m, info, now).0.dom() == m.dom(),
{
    assert(udp_inside(m, info, now).0.dom() =~= m.dom());
}

/// What a proxy answers in a redirected flow reaches the client as if the destination itself
/// had sent it.
pub proof fn law_udp_reply_comes_from_destination(
    m: UdpFlows,
    info: PacketInfo,
    reply: PacketInfo,
    proxy_port: u16,
    now: u64,
    later: u64,
)
    requires
        proxy_port != 0,
        reply.src_ip == info.src_ip,
        reply.src_port == proxy_port,
        reply.dst_ip == info.dst_ip,
        reply.dst_port == info.src_port,
    ensures
        ({
            let known = udp_opened(m, info, proxy_port, false, now).0;
            &&& udp_opened(known, reply, 0, true, later) == (
                known,
                Some(PortRewrite::FromProxy(info.dst_port)),
            )
            &&& turned_info(reply, PortRewrite::FromProxy(info.dst_port)).spec_src()
                == info.spec_dst()
            &&& turned_info(reply, PortRewrite::FromProxy(info.dst_port)).spec_dst()
                == info.spec_src()
        }),
{
}

/// The redirection of a datagram on frames. The frame of a datagram, rewritten for the proxy, is
/// one that the machine reads as coming from the destination's address to the client's; from the
/// two ends that the proxy sees in it, the router tells the destination in the frame as it was
/// sent. The client's address is that of a single receiver.
pub proof fn law_udp_frame_is_traced(
    m: UdpFlows,
    frame: Seq<u8>,
    info: PacketInfo,
    proxy_port: u16,
    now: u64,
    peer: SocketAddr,
    local: SocketAddr,
)
    requires
        packet_info(frame) == Some(info),
        headers_apart(frame, info.kind),
        info.kind.spec_is_udp(),
        single_receiver(info.src_ip),
        !info.src_ip.spec_is_unspecified(),
        proxy_port != 0,
        unmapped(info.src_ip),
        unmapped(info.dst_ip),
        ({
            let sent = frame_rewritten(frame, info.kind, PortRewrite::ToProxy(proxy_port));
            packet_info(sent->Some_0) matches Some(seen) ==> shows(peer, seen.spec_src())
                && shows(local, seen.spec_dst())
        }),
    ensures
        frame_rewritten(frame, info.kind, PortRewrite::ToProxy(proxy_port)) matches Some(sent)
            && packet_info(sent) matches Some(seen) && seen.src_ip == info.dst_ip && seen.dst_ip
            == info.src_ip && seen.src_port == info.src_port && seen.dst_port == proxy_port,
        udp_answer(udp_opened(m, info, proxy_port, false, now).0, peer, local) == Ok::<
            (IpAddr, u16),
            QueryError,
        >((info.dst_ip, info.dst_port)),
{
    law_rewrite_turns_packet(frame, info, PortRewrite::ToProxy(proxy_port));
    law_udp_proxy_learns_destination(m, info, proxy_port, false, now, peer, local);
}

/// The frame of a datagram that the proxy answers in a redirected flow, rewritten for the client,
/// is one that the client reads as coming from the destination that it wrote to. The client's
/// address is that of a single receiver.
pub proof fn law_udp_reply_frame_comes_from_destination(
    m: UdpFlows,
    info: PacketInfo,
    reply_frame: Seq<u8>,
    reply: PacketInfo,
    proxy_port: u16,
    now: u64,
    later: u64,
)
    requires
        packet_info(reply_frame) == Some(reply),
        headers_apart(reply_frame, reply.kind),
        reply.kind.spec_is_udp(),
        single_receiver(reply.src_ip),
        proxy_port != 0,
        reply.src_ip == info.src_ip,
        reply.src_port == proxy_port,
        reply.dst_ip == info.dst_ip,
        reply.dst_port == info.src_port,
    ensures
        udp_opened(udp_opened(m, info, proxy_port, false, now).0, reply, 0, true, later).1 matches
            Some(rewrite) && frame_rewritten(reply_frame, reply.kind, rewrite) matches Some(got)
            && packet_info(got) matches Some(seen) && seen.spec_src() == info.spec_dst()
            && seen.spec_dst() == info.spec_src(),
{
    law_udp_reply_comes_from_destination(m, info, reply, proxy_port, now, later);
    law_rewrite_turns_packet(reply_frame, reply, PortRewrite::FromProxy(info.dst_port));
}

/// Cleaning up drops exactly the flows that were idle for the timeout, and what a proxy learns
/// of the flows that stay does not change.
pub proof fn law_cleanup_keeps_live_flows(m: UdpFlows, key: UdpFlowKey, now: u64)
    requires
        m.contains_key(key),
    ensures
        live_flows(m, now).contains_key(key) <==> flow_live(m[key], now),
        flow_live(m[key], now) ==> udp_destination(live_flows(m, now), key) == udp_destination(
            m,
            key,
        ),
{
}

} // verus!
