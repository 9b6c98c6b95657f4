//! How connections and flows are entered, followed and forgotten, stated on the fields of the
//! packets and on the tables.
use vstd::prelude::*;
use crate::net::IpAddr;
use crate::proxy::transparent_proxy::TransparentProxy;
use crate::router::flow::{
    begins_part, flow_live, flow_outcome, found_outcome, index_entry, index_of, index_with,
    indexed_flow, is_separator, label_of, last_component, lemma_index_entry, listens_on,
    live_flows, local_port, name_matches, name_start, name_text, path_text, plain_start, portable,
    proxy_of, slash_path, tcp_inside, tcp_opened, tcp_reply, udp_inside, udp_opened, without_drive,
    FlowStep, TcpFlowKey, TcpFlows, TcpPortMapping, UdpFlowKey, UdpFlows, UdpIndexKey, UdpPeers,
    UdpPortMapping,
};
use crate::router::packet::{PacketInfo, PacketKind, PortRewrite};
use crate::router::{names_text, SocksLocalRouter};
use crate::text;

verus! {

/// `after` is `before` without what stood under `key`; everything else stays.
pub open spec fn only_gone<K, V>(before: Map<K, V>, after: Map<K, V>, key: K) -> bool {
    &&& !after.contains_key(key)
    &&& forall|k: K| #![auto] k != key ==> after.contains_key(k) == before.contains_key(k)
    &&& forall|k: K| #![auto] after.contains_key(k) ==> after[k] == before[k]
}

/// `after` is `before` with `value` under `key`; everything else stays.
pub open spec fn only_entered<K, V>(
    before: Map<K, V>,
    after: Map<K, V>,
    key: K,
    value: V,
) -> bool {
    &&& after.contains_key(key)
    &&& after[key] == value
    &&& forall|k: K| #![auto] k != key ==> after.contains_key(k) == before.contains_key(k)
    &&& forall|k: K| #![auto] k != key && after.contains_key(k) ==> after[k] == before[k]
}

/// The connection of a packet that a client sent.
pub open spec fn sent_on(info: PacketInfo, key: TcpFlowKey) -> bool {
    key.dst_ip == info.dst_ip && key.src_ip == info.src_ip && key.src_port == info.src_port
}

/// The connection of a packet that a proxy sent: the client's port is where it goes.
pub open spec fn answered_on(info: PacketInfo, key: TcpFlowKey) -> bool {
    key.dst_ip == info.dst_ip && key.src_ip == info.src_ip && key.src_port == info.dst_port
}

/// The flow of a packet that a client sent.
pub open spec fn sent_in(info: PacketInfo, key: UdpFlowKey) -> bool {
    key.dst_ip == info.dst_ip && key.src_ip == info.src_ip && key.src_port == info.src_port
}

/// The flow of a packet that a proxy sent: the client's port is where it goes.
pub open spec fn answered_in(info: PacketInfo, key: UdpFlowKey) -> bool {
    key.dst_ip == info.dst_ip && key.src_ip == info.src_ip && key.src_port == info.dst_port
}

/// A segment that a proxy answers in a known connection goes to the client from the port that the
/// client wrote to. It leaves the table of connections exactly as it was unless it carries RST or
/// FIN, and then takes that connection out alone. Other segments are not its business.
pub proof fn law_reply_leaves_the_table(
    m: TcpFlows,
    info: PacketInfo,
    from_proxy: bool,
    key: TcpFlowKey,
)
    requires
        answered_on(info, key),
    ensures
        from_proxy && m.contains_key(key) ==> tcp_reply(m, info, from_proxy).1 == Some(
            PortRewrite::FromProxy(m[key].dst_port),
        ),
        !info.rst && !info.fin ==> tcp_reply(m, info, from_proxy).0 == m,
        (info.rst || info.fin) && from_proxy ==> only_gone(
            m,
            tcp_reply(m, info, from_proxy).0,
            key,
        ),
        !from_proxy || !m.contains_key(key) ==> tcp_reply(m, info, from_proxy).0 == m && tcp_reply(
            m,
            info,
            from_proxy,
        ).1 is None,
{
    assert(key == crate::router::flow::tcp_reply_key(info));
}

/// A segment that a client sends on a known connection goes to the proxy of that connection. It
/// leaves the table exactly as it was unless it carries RST or FIN, and then takes that connection
/// out alone.
pub proof fn law_segment_leaves_the_table(
    m: TcpFlows,
    info: PacketInfo,
    from_proxy: bool,
    key: TcpFlowKey,
)
    requires
        sent_on(info, key),
        m.contains_key(key),
    ensures
        tcp_inside(m, info, from_proxy).1 == Some(PortRewrite::ToProxy(m[key].proxy_port)),
        !info.rst && !info.fin ==> tcp_inside(m, info, from_proxy).0 == m,
        info.rst || info.fin ==> only_gone(m, tcp_inside(m, info, from_proxy).0, key),
{
    assert(key == crate::router::flow::tcp_key(info));
}

/// A segment that is on no known connection of a client is held for a proxy's answer.
pub proof fn law_other_segments_may_be_answers(
    m: TcpFlows,
    info: PacketInfo,
    from_proxy: bool,
    sent: TcpFlowKey,
    answered: TcpFlowKey,
)
    requires
        sent_on(info, sent),
        answered_on(info, answered),
        !m.contains_key(sent),
    ensures
        from_proxy && m.contains_key(answered) ==> tcp_inside(m, info, from_proxy).1 == Some(
            PortRewrite::FromProxy(m[answered].dst_port),
        ),
        !info.rst && !info.fin ==> tcp_inside(m, info, from_proxy).0 == m,
        (info.rst || info.fin) && from_proxy ==> only_gone(
            m,
            tcp_inside(m, info, from_proxy).0,
            answered,
        ),
        !from_proxy || !m.contains_key(answered) ==> tcp_inside(m, info, from_proxy).0 == m
            && tcp_inside(m, info, from_proxy).1 is None,
{
    assert(sent == crate::router::flow::tcp_key(info));
    law_reply_leaves_the_table(m, info, from_proxy, answered);
}

/// The first segment of a process that goes to a proxy is sent to that proxy's port, and the
/// connection is entered with where it went. One that is known already stays as it is known.
pub proof fn law_opening_enters_the_connection(
    m: TcpFlows,
    info: PacketInfo,
    proxy_port: u16,
    from_proxy: bool,
    key: TcpFlowKey,
)
    requires
        sent_on(info, key),
        proxy_port != 0,
    ensures
        tcp_opened(m, info, proxy_port, from_proxy).1 == Some(PortRewrite::ToProxy(proxy_port)),
        m.contains_key(key) ==> tcp_opened(m, info, proxy_port, from_proxy).0 == m,
        !m.contains_key(key) ==> only_entered(
            m,
            tcp_opened(m, info, proxy_port, from_proxy).0,
            key,
            (TcpPortMapping { dst_ip: info.dst_ip, dst_port: info.dst_port, proxy_port }),
        ),
{
    assert(key == crate::router::flow::tcp_key(info));
}

/// The first segment of a process that goes to no proxy enters nothing. It is sent on only as the
/// answer of a proxy.
pub proof fn law_opening_without_proxy(
    m: TcpFlows,
    info: PacketInfo,
    from_proxy: bool,
    key: TcpFlowKey,
)
    requires
        answered_on(info, key),
    ensures
        from_proxy && m.contains_key(key) ==> tcp_opened(m, info, 0, from_proxy).1 == Some(
            PortRewrite::FromProxy(m[key].dst_port),
        ),
        !info.rst && !info.fin ==> tcp_opened(m, info, 0, from_proxy).0 == m,
        (info.rst || info.fin) && from_proxy ==> only_gone(
            m,
            tcp_opened(m, info, 0, from_proxy).0,
            key,
        ),
        !from_proxy || !m.contains_key(key) ==> tcp_opened(m, info, 0, from_proxy).0 == m
            && tcp_opened(m, info, 0, from_proxy).1 is None,
{
    law_reply_leaves_the_table(m, info, from_proxy, key);
}

/// A handshake goes through. The client's SYN opens the connection to the proxy, the proxy's
/// SYN-ACK goes back from the port that the client wrote to, and the client's ACK goes to the proxy
/// again; the connection stays known from the first of them on.
pub proof fn law_handshake_goes_through(
    m: TcpFlows,
    udp: UdpFlows,
    proxies: Seq<TransparentProxy>,
    syn: PacketInfo,
    answer: PacketInfo,
    ack: PacketInfo,
    proxy_port: u16,
    now: u64,
    key: TcpFlowKey,
)
    requires
        syn.kind == PacketKind::TcpV4 || syn.kind == PacketKind::TcpV6,
        answer.kind == syn.kind,
        ack.kind == syn.kind,
        syn.syn && !syn.ack,
        answer.syn && answer.ack && !answer.rst && !answer.fin,
        !ack.syn && ack.ack && !ack.rst && !ack.fin,
        answer.src_ip == syn.src_ip && answer.dst_ip == syn.dst_ip,
        answer.src_port == proxy_port && answer.dst_port == syn.src_port,
        ack.src_ip == syn.src_ip && ack.dst_ip == syn.dst_ip,
        ack.src_port == syn.src_port && ack.dst_port == syn.dst_port,
        proxy_port != 0,
        listens_on(proxies, false, proxy_port),
        sent_on(syn, key),
        !m.contains_key(key),
        syn.src_port != proxy_port,
        forall|k: TcpFlowKey| #[trigger] m.contains_key(k) ==> !sent_on(answer, k),
    ensures
        flow_outcome(m, udp, proxies, syn, now) == (m, udp, FlowStep::Lookup),
        ({
            let opened = found_outcome(m, udp, proxies, syn, proxy_port, now);
            let answered = flow_outcome(opened.0, opened.1, proxies, answer, now);
            let acked = flow_outcome(answered.0, answered.1, proxies, ack, now);
            &&& opened.2 == Some(PortRewrite::ToProxy(proxy_port))
            &&& opened.0.contains_key(key)
            &&& opened.0[key].dst_port == syn.dst_port
            &&& answered == (
                opened.0,
                opened.1,
                FlowStep::Decided(Some(PortRewrite::FromProxy(syn.dst_port))),
            )
            &&& acked == (
                opened.0,
                opened.1,
                FlowStep::Decided(Some(PortRewrite::ToProxy(proxy_port))),
            )
        }),
{
    assert(key == crate::router::flow::tcp_key(syn));
    assert(key == crate::router::flow::tcp_reply_key(answer));
    assert(key == crate::router::flow::tcp_key(ack));
    let opened = found_outcome(m, udp, proxies, syn, proxy_port, now);
    let other = crate::router::flow::tcp_key(answer);
    assert(sent_on(answer, other));
    assert(!m.contains_key(other));
    assert(!opened.0.contains_key(other));
}

/// A datagram on a known flow goes to the flow's proxy if it goes where the flow went, and the time
/// is noted; if it goes to another port, it passes and nothing changes.
pub proof fn law_datagram_on_a_flow(m: UdpFlows, info: PacketInfo, now: u64, key: UdpFlowKey)
    requires
        sent_in(info, key),
        m.contains_key(key),
    ensures
        info.dst_port != m[key].dst_port ==> udp_inside(m, info, now) == (
            m,
            None::<PortRewrite>,
        ),
        info.dst_port == m[key].dst_port ==> udp_inside(m, info, now).1 == Some(
            PortRewrite::ToProxy(m[key].proxy_port),
        ) && only_entered(
            m,
            udp_inside(m, info, now).0,
            key,
            (UdpPortMapping {
                dst_ip: m[key].dst_ip,
                dst_port: m[key].dst_port,
                proxy_port: m[key].proxy_port,
                last_active: now,
            }),
        ),
{
    assert(key == crate::router::flow::udp_key(info));
}

/// The first datagram of a flow is sent to its process's proxy, and the flow is entered with where
/// it went and when.
pub proof fn law_first_datagram_enters_the_flow(
    m: UdpFlows,
    info: PacketInfo,
    proxy_port: u16,
    from_proxy: bool,
    now: u64,
    key: UdpFlowKey,
)
    requires
        sent_in(info, key),
        proxy_port != 0,
    ensures
        udp_opened(m, info, proxy_port, from_proxy, now).1 == Some(
            PortRewrite::ToProxy(proxy_port),
        ),
        only_entered(
            m,
            udp_opened(m, info, proxy_port, from_proxy, now).0,
            key,
            (UdpPortMapping {
                dst_ip: info.dst_ip,
                dst_port: info.dst_port,
                proxy_port,
                last_active: now,
            }),
        ),
{
    assert(key == crate::router::flow::udp_key(info));
}

/// A datagram of a process that goes to no proxy changes nothing, and is sent on only as the answer
/// of a proxy on a known flow: from the port that the client wrote to.
pub proof fn law_datagram_without_proxy(
    m: UdpFlows,
    info: PacketInfo,
    from_proxy: bool,
    now: u64,
    key: UdpFlowKey,
)
    requires
        answered_in(info, key),
    ensures
        udp_opened(m, info, 0, from_proxy, now).0 == m,
        udp_opened(m, info, 0, from_proxy, now).1 == if from_proxy && m.contains_key(key) {
            Some(PortRewrite::FromProxy(m[key].dst_port))
        } else {
            None
        },
{
    assert(key == crate::router::flow::udp_reply_key(info));
}

/// The process at the source of a packet is looked up for the first segment of a connection, with
/// SYN and without ACK, and for a datagram on no known flow; nothing changes before it is found.
pub proof fn law_when_the_process_is_looked_up(
    tcp: TcpFlows,
    udp: UdpFlows,
    proxies: Seq<TransparentProxy>,
    info: PacketInfo,
    now: u64,
    key: UdpFlowKey,
)
    requires
        sent_in(info, key),
    ensures
        ({
            let is_udp = info.kind == PacketKind::UdpV4 || info.kind == PacketKind::UdpV6;
            let out = flow_outcome(tcp, udp, proxies, info, now);
            &&& out.2 is Lookup <==> if is_udp {
                !udp.contains_key(key)
            } else {
                info.syn && !info.ack
            }
            &&& out.2 is Lookup ==> out.0 == tcp && out.1 == udp
            &&& is_udp ==> out.0 == tcp
            &&& !is_udp ==> out.1 == udp
            &&& is_udp && udp.contains_key(key) ==> out.1 == udp_inside(udp, info, now).0 && out.2
                == FlowStep::Decided(udp_inside(udp, info, now).1)
            &&& !is_udp && !(info.syn && !info.ack) ==> {
                let inside = tcp_inside(tcp, info, listens_on(proxies, false, info.src_port));
                out.0 == inside.0 && out.2 == FlowStep::Decided(inside.1)
            }
        }),
{
    assert(key == crate::router::flow::udp_key(info));
}

/// Once the process is found, a segment touches the connections alone and a datagram the flows
/// alone, and it is a proxy's answer only if a proxy listens on its source port for its protocol.
pub proof fn law_what_the_process_decides(
    tcp: TcpFlows,
    udp: UdpFlows,
    proxies: Seq<TransparentProxy>,
    info: PacketInfo,
    proxy_port: u16,
    now: u64,
)
    ensures
        ({
            let out = found_outcome(tcp, udp, proxies, info, proxy_port, now);
            match info.kind {
                PacketKind::TcpV4 | PacketKind::TcpV6 => {
                    let opened = tcp_opened(
                        tcp,
                        info,
                        proxy_port,
                        listens_on(proxies, false, info.src_port),
                    );
                    out.0 == opened.0 && out.1 == udp && out.2 == opened.1
                },
                PacketKind::UdpV4 | PacketKind::UdpV6 => {
                    let opened = udp_opened(
                        udp,
                        info,
                        proxy_port,
                        listens_on(proxies, true, info.src_port),
                        now,
                    );
                    out.0 == tcp && out.1 == opened.0 && out.2 == opened.1
                },
            }
        }),
{
}

/// A flow lives for 60 seconds after its last datagram, and a cleanup keeps exactly the flows that
/// live, as they were.
pub proof fn law_idle_flows_expire(m: UdpFlows, now: u64, key: UdpFlowKey, entry: UdpPortMapping)
    ensures
        flow_live(entry, now) <==> now - entry.last_active < 60 * 1_000_000_000,
        live_flows(m, now).contains_key(key) <==> m.contains_key(key) && now - m[key].last_active
            < 60 * 1_000_000_000,
        live_flows(m, now).contains_key(key) ==> live_flows(m, now)[key] == m[key],
{
}

/// Each proxy has a port of its own for each protocol and family.
pub proof fn law_ports_of_a_proxy(proxy: TransparentProxy)
    ensures
        local_port(proxy, false, false) == proxy.tcp_port_v4,
        local_port(proxy, false, true) == proxy.tcp_port_v6,
        local_port(proxy, true, false) == proxy.udp_port_v4,
        local_port(proxy, true, true) == proxy.udp_port_v6,
{
}

/// A proxy listens on the ports it has, of either family, and on no other.
pub proof fn law_who_listens(proxies: Seq<TransparentProxy>, port: u16, i: int)
    ensures
        0 <= i < proxies.len() && (proxies[i].tcp_port_v4 == port || proxies[i].tcp_port_v6
            == port) ==> listens_on(proxies, false, port),
        0 <= i < proxies.len() && (proxies[i].udp_port_v4 == port || proxies[i].udp_port_v6
            == port) ==> listens_on(proxies, true, port),
        (forall|k: int|
            0 <= k < proxies.len() ==> (#[trigger] proxies[k]).tcp_port_v4 != port
                && proxies[k].tcp_port_v6 != port) ==> !listens_on(proxies, false, port),
        (forall|k: int|
            0 <= k < proxies.len() ==> (#[trigger] proxies[k]).udp_port_v4 != port
                && proxies[k].udp_port_v6 != port) ==> !listens_on(proxies, true, port),
{
    if 0 <= i < proxies.len() {
        assert(local_port(proxies[i], false, false) == proxies[i].tcp_port_v4);
        assert(local_port(proxies[i], true, false) == proxies[i].udp_port_v4);
    }
}

/// `name` stands in `path`, from place `at` on.
pub open spec fn stands_at(path: Seq<char>, name: Seq<char>, at: int) -> bool {
    0 <= at <= path.len() - name.len() && path.subrange(at, at + name.len()) == name
}

/// `name` stands somewhere in `path`.
pub open spec fn stands_in(path: Seq<char>, name: Seq<char>) -> bool {
    exists|at: int| stands_at(path, name, at)
}

proof fn lemma_stands_in(path: Seq<char>, name: Seq<char>)
    ensures
        stands_in(path, name) <==> text::occurs(path, name),
{
    if stands_in(path, name) {
        let at = choose|at: int| stands_at(path, name, at);
        assert(text::occurs_at(path, name, at));
    }
    if text::occurs(path, name) {
        let at = choose|at: int| text::occurs_at(path, name, at);
        assert(stands_at(path, name, at));
    }
}

/// A process goes through the proxy of the first configured name that stands in its path.
pub proof fn law_name_picks_its_proxy(names: Seq<(Seq<char>, usize)>, path: Seq<char>, i: int)
    requires
        0 <= i < names.len(),
        stands_in(path, names[i].0),
        forall|j: int| 0 <= j < i ==> !stands_in(path, (#[trigger] names[j]).0),
    ensures
        proxy_of(names, path) == Some(names[i].1),
{
    lemma_stands_in(path, names[i].0);
    assert forall|j: int| 0 <= j < i implies !text::occurs(path, (#[trigger] names[j]).0) by {
        lemma_stands_in(path, names[j].0);
    }
    assert(name_matches(names, path, i));
    let k = choose|k: int| name_matches(names, path, k);
    assert(name_matches(names, path, k));
    assert(k == i) by {
        if k < i {
            assert(!text::occurs(path, names[k].0));
        }
        if i < k {
            assert(!text::occurs(path, names[i].0));
        }
    }
}

/// If just one configured name stands in the path, the process goes through the proxy that this
/// name was associated with, wherever the name stands among the others.
pub proof fn law_only_name_picks_its_proxy(names: Seq<(Seq<char>, usize)>, path: Seq<char>, i: int)
    requires
        0 <= i < names.len(),
        stands_in(path, names[i].0),
        forall|j: int|
            0 <= j < names.len() && j != i ==> !stands_in(path, (#[trigger] names[j]).0),
    ensures
        proxy_of(names, path) == Some(names[i].1),
{
    law_name_picks_its_proxy(names, path, i);
}

/// A process in whose path no configured name stands goes through no proxy.
pub proof fn law_no_name_no_proxy(names: Seq<(Seq<char>, usize)>, path: Seq<char>)
    requires
        forall|j: int| 0 <= j < names.len() ==> !stands_in(path, (#[trigger] names[j]).0),
    ensures
        proxy_of(names, path) is None,
{
    assert forall|i: int| !name_matches(names, path, i) by {
        if 0 <= i < names.len() {
            lemma_stands_in(path, names[i].0);
        }
    }
}

/// The port that a process is sent to is the one, for the protocol and the family, of the proxy
/// that the first name in its path goes through.
pub proof fn law_port_of_a_process(router: &SocksLocalRouter, path: Seq<char>, i: int)
    requires
        0 <= i < router.name_to_proxy@.len(),
        stands_in(path, router.name_to_proxy@[i].0@),
        forall|j: int|
            0 <= j < i ==> !stands_in(path, (#[trigger] router.name_to_proxy@[j]).0@),
    ensures
        ({
            let proxy = router.proxies@[router.name_to_proxy@[i].1 as int];
            &&& router.proxy_port_for(false, path, false) == proxy.tcp_port_v4
            &&& router.proxy_port_for(false, path, true) == proxy.tcp_port_v6
            &&& router.proxy_port_for(true, path, false) == proxy.udp_port_v4
            &&& router.proxy_port_for(true, path, true) == proxy.udp_port_v6
        }),
{
    let names = names_text(router.name_to_proxy@);
    assert forall|j: int| 0 <= j < i implies !stands_in(path, (#[trigger] names[j]).0) by {
        assert(names[j].0 == router.name_to_proxy@[j].0@);
    }
    law_name_picks_its_proxy(names, path, i);
}

/// A process in whose path no configured name stands is sent nowhere.
pub proof fn law_no_port_without_name(
    router: &SocksLocalRouter,
    path: Seq<char>,
    udp: bool,
    v6: bool,
)
    ensures
        (forall|j: int|
            0 <= j < router.name_to_proxy@.len() ==> !stands_in(
                path,
                (#[trigger] router.name_to_proxy@[j]).0@,
            )) ==> router.proxy_port_for(udp, path, v6) == 0,
        router.port_if_known(udp, None, v6) == 0,
        router.port_if_known(udp, Some(path), v6) == router.proxy_port_for(udp, path, v6),
{
    let names = names_text(router.name_to_proxy@);
    if forall|j: int|
        0 <= j < router.name_to_proxy@.len() ==> !stands_in(
            path,
            (#[trigger] router.name_to_proxy@[j]).0@,
        ) {
        assert forall|j: int| 0 <= j < names.len() implies !stands_in(
            path,
            (#[trigger] names[j]).0,
        ) by {
            assert(names[j].0 == router.name_to_proxy@[j].0@);
        }
        law_no_name_no_proxy(names, path);
    }
}

/// The names keep their order and their proxies when they are read as text.
pub proof fn law_names_as_text(names: Seq<(String, usize)>, i: int)
    requires
        0 <= i < names.len(),
    ensures
        names_text(names).len() == names.len(),
        names_text(names)[i].0 == names[i].0@,
        names_text(names)[i].1 == names[i].1,
{
}

/// A step of a packet touches the connections and flows alone.
pub proof fn law_the_rest_of_the_router_stays(after: &SocksLocalRouter, before: &SocksLocalRouter)
    requires
        after.same_but_flows(before),
    ensures
        after.adapter_name == before.adapter_name,
        after.proxies == before.proxies,
        after.name_to_proxy == before.name_to_proxy,
        after.static_filters == before.static_filters,
        after.shutdown == before.shutdown,
        after.restart == before.restart,
        after.is_active == before.is_active,
        after.bytes_sent == before.bytes_sent,
        after.bytes_received == before.bytes_received,
        after.start_time == before.start_time,
{
}

/// The index says of a destination and a client's port: nothing if no flow has both, the flow if
/// just one has, and that there are several otherwise.
pub proof fn law_index_of_flows(
    flows: Set<UdpFlowKey>,
    dst_ip: IpAddr,
    src_port: u16,
    a: UdpFlowKey,
    b: UdpFlowKey,
)
    ensures
        ({
            let idx = UdpIndexKey { dst_ip, src_port };
            let of_a = flows.contains(a) && a.dst_ip == dst_ip && a.src_port == src_port;
            let of_b = flows.contains(b) && b.dst_ip == dst_ip && b.src_port == src_port;
            &&& of_a && (forall|k: UdpFlowKey|
                #[trigger] flows.contains(k) && k.dst_ip == dst_ip && k.src_port == src_port ==> k
                    == a) ==> index_entry(flows, idx) == Some(Some(a)) && index_of(
                flows,
            ).contains_key(idx) && index_of(flows)[idx] == Some(a)
            &&& of_a && of_b && a != b ==> index_entry(flows, idx) == Some(None::<UdpFlowKey>)
                && index_of(flows).contains_key(idx) && index_of(flows)[idx] is None
            &&& (forall|k: UdpFlowKey| #[trigger]
                flows.contains(k) ==> k.dst_ip != dst_ip || k.src_port != src_port)
                ==> index_entry(flows, idx) is None && !index_of(flows).contains_key(idx)
        }),
{
    let idx = UdpIndexKey { dst_ip, src_port };
    if flows.contains(a) && a.dst_ip == dst_ip && a.src_port == src_port {
        assert(indexed_flow(flows, idx, a));
        lemma_index_entry(flows, idx, a);
        if flows.contains(b) && b.dst_ip == dst_ip && b.src_port == src_port && a != b {
            assert(indexed_flow(flows, idx, b));
        }
    }
}

/// A flow is entered into the index under its destination's address and the client's port: alone if
/// nothing or the flow itself stood there, and as one of several otherwise. The rest stays.
pub proof fn law_entering_into_the_index(peers: UdpPeers, key: UdpFlowKey)
    ensures
        ({
            let idx = UdpIndexKey { dst_ip: key.dst_ip, src_port: key.src_port };
            &&& !peers.contains_key(idx) || peers[idx] == Some(key) ==> only_entered(
                peers,
                index_with(peers, key),
                idx,
                Some(key),
            )
            &&& peers.contains_key(idx) && peers[idx] != Some(key) ==> only_entered(
                peers,
                index_with(peers, key),
                idx,
                None,
            )
        }),
{
}

/// A slash separates the components of a path everywhere, a backslash on Windows alone, and no
/// other character does.
pub proof fn law_separators(c: char)
    ensures
        is_separator(true, c) <==> c == '/' || c == '\\',
        is_separator(false, c) <==> c == '/',
{
}

/// Empty parts and single dots at the end of a path do not count, and two dots name nothing.
pub proof fn law_dots_name_nothing(windows: bool, dir: Seq<char>, separator: char)
    requires
        separator == '/' || (windows && separator == '\\'),
    ensures
        last_component(windows, Seq::<char>::empty()) is None,
        last_component(windows, seq!['.']) is None,
        last_component(windows, seq!['.', '.']) is None,
        last_component(windows, dir.push(separator)) == last_component(windows, dir),
        last_component(windows, dir.push(separator).push('.')) == last_component(windows, dir),
        last_component(windows, dir.push(separator).push('.').push('.')) is None,
{
    reveal_with_fuel(name_start, 3);
    let slashed = dir.push(separator);
    assert(slashed.take(slashed.len() - 1) =~= dir);
    let dotted = slashed.push('.');
    assert(dotted.drop_last() =~= slashed);
    assert(dotted.skip(slashed.len() as int) =~= seq!['.']);
    assert(dotted.take(slashed.len() - 1) =~= dir);
    let twice = dotted.push('.');
    assert(twice.drop_last() =~= dotted);
    assert(twice.skip(slashed.len() as int) =~= seq!['.', '.']);
    let one = seq!['.'];
    assert(one.drop_last() =~= Seq::<char>::empty());
    assert(one.skip(0) =~= one);
    let two = seq!['.', '.'];
    assert(two.drop_last() =~= one);
    assert(two.skip(0) =~= two);
}

/// A process is called after its file, or by its whole path if that names no file.
pub proof fn law_labels(name: Seq<char>, path: Seq<char>, given: &str, text: String)
    ensures
        label_of(Some(name), path) == name,
        label_of(None, path) == path,
        path_text(Some(given)) == Some(given@),
        path_text(None) is None,
        name_text(Some(text)) == Some(text@),
        name_text(None) is None,
{
}

/// Which paths are read alike on all systems, and which of the others start plainly: neither as
/// paths to a server do nor with something else than a letter before a colon at the second place.
pub proof fn law_kinds_of_paths(path: Seq<char>)
    ensures
        portable(path) <==> (forall|i: int|
            0 <= i < path.len() ==> path[i] != '\\' && path[i] != ':') && !(path.len() >= 2
            && path[0] == '/' && path[1] == '/'),
        ({
            let letter = 'a' <= path[0] <= 'z' || 'A' <= path[0] <= 'Z';
            let twice = (path[0] == '/' || path[0] == '\\') && (path[1] == '/' || path[1] == '\\');
            &&& path.len() < 2 ==> plain_start(path) && without_drive(path) == path
            &&& path.len() >= 2 ==> (plain_start(path) <==> !twice && (path[1] == ':' ==> letter))
            &&& path.len() >= 2 && path[1] == ':' && letter ==> without_drive(path) == path.skip(2)
            &&& path.len() >= 2 && !(path[1] == ':' && letter) ==> without_drive(path) == path
        }),
{
    if portable(path) {
        assert forall|i: int| 0 <= i < path.len() implies path[i] != '\\' && path[i] != ':' by {
            assert(path.contains(path[i]));
        }
    }
}

/// A directory, a slash and a name make a path that is read alike everywhere, if the name is more
/// than dots and none of the characters that systems read differently stands in it.
pub proof fn law_directory_and_name(dir: Seq<char>, name: Seq<char>)
    requires
        name.len() > 0,
        name != seq!['.'],
        name != seq!['.', '.'],
        forall|i: int| 0 <= i < name.len() ==> name[i] != '/' && name[i] != '\\' && name[i] != ':',
        forall|i: int| 0 <= i < dir.len() ==> dir[i] != '\\' && dir[i] != ':',
        !(dir.len() > 0 && dir[0] == '/' && (dir.len() == 1 || dir[1] == '/')),
    ensures
        slash_path(dir.push('/') + name, dir, name),
{
    let path = dir.push('/') + name;
    assert forall|i: int| 0 <= i < path.len() implies path[i] != '\\' && path[i] != ':' by {
        if i < dir.len() {
            assert(path[i] == dir[i]);
        } else if i > dir.len() {
            assert(path[i] == name[i - dir.len() - 1]);
        }
    }
    if dir.len() == 0 {
        assert(path[1] == name[0]);
    } else {
        assert(path[0] == dir[0]);
        if dir.len() > 1 {
            assert(path[1] == dir[1]);
        }
    }
}

/// A part of a path starts where a component can: at the beginning, or behind a slash, a backslash
/// or a colon.
pub proof fn law_where_parts_begin(path: Seq<char>, part: Seq<char>, i: int)
    ensures
        begins_part(path, part, i) <==> stands_at(path, part, i) && (i == 0 || path[i - 1] == '/'
            || path[i - 1] == '\\' || path[i - 1] == ':'),
{
}

} // verus!
