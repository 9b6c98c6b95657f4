//! What the router lets pass, which names it knows, and how it starts and stops, stated on its
//! fields.
use vstd::prelude::*;
use crate::net::{Ipv4Addr, Ipv6Addr, SocketAddr};
use crate::proxy::socks5::Socks5Dialer;
use crate::proxy::transparent_proxy::{TransparentProxy, UdpAssociationKey};
use crate::router::filters::{
    icmp_filter, proxy_filters_v4, proxy_filters_v6, FilterDirection, NetworkMatch, PassFilter,
    PortMatch,
};
use crate::router::{
    all_filters, associated, names_distinct, server_filters, FilterPlan, RouterError,
    SocksLocalRouter,
};

verus! {

/// A filter that looks at packets of one direction, of one protocol and with one port, to the one
/// address `ip`: what is sent has the port as its destination, what is received as its source.
pub open spec fn passes_v4(
    f: PassFilter,
    send: bool,
    protocol: u8,
    ip: Ipv4Addr,
    port: u16,
) -> bool {
    &&& f.direction == if send {
        FilterDirection::Send
    } else {
        FilterDirection::Receive
    }
    &&& f.network matches NetworkMatch::Ipv4 { protocol: p, dest: Some(subnet) } && p == protocol
        && subnet.ip == ip && forall|k: int| 0 <= k < 4 ==> subnet.mask.octets@[k] == 255
    &&& f.ports == Some(
        if send {
            PortMatch::Destination { low: port, high: port }
        } else {
            PortMatch::Source { low: port, high: port }
        },
    )
}

/// The same for IPv6.
pub open spec fn passes_v6(
    f: PassFilter,
    send: bool,
    protocol: u8,
    ip: Ipv6Addr,
    port: u16,
) -> bool {
    &&& f.direction == if send {
        FilterDirection::Send
    } else {
        FilterDirection::Receive
    }
    &&& f.network matches NetworkMatch::Ipv6 { protocol: p, dest_v6: Some(subnet) } && p == protocol
        && subnet.ip == ip && forall|k: int| 0 <= k < 16 ==> subnet.mask.octets@[k] == 255
    &&& f.ports == Some(
        if send {
            PortMatch::Destination { low: port, high: port }
        } else {
            PortMatch::Source { low: port, high: port }
        },
    )
}

/// The filters of a server let TCP and then UDP pass, each out and in, for its address and port
/// alone.
pub proof fn law_filters_of_a_server(ip4: Ipv4Addr, ip6: Ipv6Addr, port: u16)
    ensures
        ({
            let f = proxy_filters_v4(ip4, port);
            &&& f.len() == 4
            &&& passes_v4(f[0], true, 6, ip4, port)
            &&& passes_v4(f[1], false, 6, ip4, port)
            &&& passes_v4(f[2], true, 17, ip4, port)
            &&& passes_v4(f[3], false, 17, ip4, port)
        }),
        ({
            let f = proxy_filters_v6(ip6, port);
            &&& f.len() == 4
            &&& passes_v6(f[0], true, 6, ip6, port)
            &&& passes_v6(f[1], false, 6, ip6, port)
            &&& passes_v6(f[2], true, 17, ip6, port)
            &&& passes_v6(f[3], false, 17, ip6, port)
        }),
{
}

/// The filter for ICMP: both ways, protocol 1 over IPv4, whatever the address.
pub proof fn law_icmp_passes()
    ensures
        icmp_filter().direction == FilterDirection::Both,
        icmp_filter().network matches NetworkMatch::Ipv4 { protocol, dest } && protocol == 1
            && dest is None,
        icmp_filter().ports is None,
{
}

/// The filters of a server are those of its family, address and port.
pub proof fn law_server_filters_by_family(addr: SocketAddr)
    ensures
        server_filters(addr) == match addr {
            SocketAddr::V4(a) => proxy_filters_v4(a.ip, a.port),
            SocketAddr::V6(a) => proxy_filters_v6(a.ip, a.port),
        },
{
}

/// The table starts with the filter for ICMP, and the four filters of each proxy's server follow in
/// the order of the proxies.
pub proof fn law_place_of_the_filters(proxies: Seq<TransparentProxy>, id: int, i: int)
    requires
        0 <= id < proxies.len(),
        0 <= i < 4,
    ensures
        all_filters(proxies).len() == 1 + 4 * proxies.len(),
        all_filters(proxies)[0] == icmp_filter(),
        all_filters(proxies)[1 + 4 * id + i] == server_filters(
            proxies[id].socks5.proxy_addr,
        )[i],
    decreases proxies.len(),
{
    let fewer = proxies.drop_last();
    assert(all_filters(proxies) == all_filters(fewer) + server_filters(
        proxies.last().socks5.proxy_addr,
    ));
    if fewer.len() == 0 {
        assert(all_filters(fewer) =~= seq![icmp_filter()]);
    } else if id < fewer.len() {
        law_place_of_the_filters(fewer, id, i);
        assert(fewer[id] == proxies[id]);
    } else {
        law_place_of_the_filters(fewer, 0, 0);
    }
}

/// The driver's table is emptied if there are no filters, and filled if there are at most 256; of
/// more the number is told.
pub proof fn law_room_for_filters(router: &SocksLocalRouter)
    requires
        router.static_filters@.len() <= usize::MAX,
    ensures
        router.static_filters@.len() == 0 ==> router.filter_plan() == Ok::<
            FilterPlan,
            RouterError,
        >(FilterPlan::Reset),
        1 <= router.static_filters@.len() <= 256 ==> router.filter_plan() == Ok::<
            FilterPlan,
            RouterError,
        >(FilterPlan::Install),
        router.static_filters@.len() > 256 ==> (router.filter_plan() matches Err(
            RouterError::TooManyFilters(n),
        ) && n == router.static_filters@.len()),
{
}

/// A proxy is added behind the others, in front of its server and with no port yet, and the filters
/// of its server behind the other filters. Nothing else changes.
pub proof fn law_adding_a_proxy(
    after: &SocksLocalRouter,
    before: &SocksLocalRouter,
    dialer: Socks5Dialer,
    i: int,
)
    requires
        after.has_added(before, dialer),
    ensures
        ({
            let n = before.proxies@.len() as int;
            let f = before.static_filters@.len() as int;
            let added = after.proxies@[n];
            &&& after.proxies@.len() == n + 1
            &&& 0 <= i < n ==> after.proxies@[i] == before.proxies@[i]
            &&& added.socks5 == dialer
            &&& added.port == 0
            &&& added.tcp_port_v4 == 0
            &&& added.tcp_port_v6 == 0
            &&& added.udp_port_v4 == 0
            &&& added.udp_port_v6 == 0
            &&& !added.shutdown
            &&& added.udp_connections@.dom() == Set::<UdpAssociationKey>::empty()
            &&& after.static_filters@.len() == f + 4
            &&& 0 <= i < f ==> after.static_filters@[i] == before.static_filters@[i]
            &&& f <= i < f + 4 ==> after.static_filters@[i] == server_filters(
                dialer.proxy_addr,
            )[i - f]
        }),
        after.adapter_name == before.adapter_name,
        after.tcp_connections == before.tcp_connections,
        after.udp_endpoints == before.udp_endpoints,
        after.name_to_proxy == before.name_to_proxy,
        after.shutdown == before.shutdown,
        after.restart == before.restart,
        after.is_active == before.is_active,
        after.bytes_sent == before.bytes_sent,
        after.bytes_received == before.bytes_received,
        after.start_time == before.start_time,
{
    let n = before.proxies@.len() as int;
    if 0 <= i < n {
        assert(after.proxies@.drop_last()[i] == before.proxies@[i]);
    }
    assert(after.proxies@.last() == after.proxies@[n]);
}

/// A name is associated where it stood before, or behind the others if it is new; the other names
/// keep their places and their proxies.
pub proof fn law_place_of_a_name(
    names: Seq<(Seq<char>, usize)>,
    name: Seq<char>,
    id: usize,
    i: int,
)
    requires
        forall|a: int, b: int|
            #![trigger names[a], names[b]]
            0 <= a < b < names.len() ==> names[a].0 != names[b].0,
    ensures
        ({
            let after = associated(names, name, id);
            let known = exists|k: int| 0 <= k < names.len() && (#[trigger] names[k]).0 == name;
            &&& known ==> after.len() == names.len()
            &&& !known ==> after.len() == names.len() + 1 && after[names.len() as int].0 == name
                && after[names.len() as int].1 == id
            &&& 0 <= i < names.len() && names[i].0 != name ==> after[i] == names[i]
            &&& 0 <= i < names.len() && names[i].0 == name ==> after[i].0 == name && after[i].1
                == id
        }),
{
    if 0 <= i < names.len() && names[i].0 == name {
        let k = choose|k: int| 0 <= k < names.len() && (#[trigger] names[k]).0 == name;
        assert(names[k].0 == names[i].0);
    }
}

/// Names are distinct if no two of them are equal.
pub proof fn law_distinct_names(names: Seq<(Seq<char>, usize)>, a: int, b: int)
    ensures
        names_distinct(names) && 0 <= a < b < names.len() ==> names[a].0 != names[b].0,
        (forall|i: int, j: int|
            #![trigger names[i], names[j]]
            0 <= i < j < names.len() ==> names[i].0 != names[j].0) ==> names_distinct(names),
{
}

/// A router can start that neither runs nor was stopped. Stopping it clears the request to start
/// over, and changes nothing else but that it no longer runs.
pub proof fn law_starting_and_stopping(after: &SocksLocalRouter, before: &SocksLocalRouter)
    ensures
        before.can_start() <==> !before.shutdown && !before.is_active,
        after.is_stopped(before) ==> {
            &&& !after.is_active
            &&& after.shutdown
            &&& !after.restart
            &&& after.adapter_name == before.adapter_name
            &&& after.tcp_connections == before.tcp_connections
            &&& after.udp_endpoints == before.udp_endpoints
            &&& after.proxies == before.proxies
            &&& after.name_to_proxy == before.name_to_proxy
            &&& after.static_filters == before.static_filters
            &&& after.bytes_sent == before.bytes_sent
            &&& after.bytes_received == before.bytes_received
            &&& after.start_time == before.start_time
        },
{
}

/// A router that was stopped is told so at every start, whether it runs or not; one that runs is
/// told that; every other one starts exactly if its filters fit. Only one that runs can be
/// stopped.
pub proof fn law_verdicts(router: &SocksLocalRouter)
    ensures
        router.shutdown ==> router.start_verdict() == Err::<FilterPlan, RouterError>(
            RouterError::AlreadyStopped,
        ),
        !router.shutdown && router.is_active ==> router.start_verdict() == Err::<
            FilterPlan,
            RouterError,
        >(RouterError::AlreadyActive),
        !router.shutdown && !router.is_active && 1 <= router.static_filters@.len() <= 256
            ==> router.start_verdict() == Ok::<FilterPlan, RouterError>(FilterPlan::Install),
        !router.shutdown && !router.is_active && router.static_filters@.len() > 256 ==> (
        router.start_verdict() matches Err(e) && e is TooManyFilters),
        router.is_active ==> router.stop_verdict() == Ok::<(), RouterError>(()),
        !router.is_active ==> router.stop_verdict() == Err::<(), RouterError>(
            RouterError::AlreadyStopped,
        ),
{
}

/// Another adapter asks for a start over, the same one does not, and a request that is there stays.
pub proof fn law_another_adapter_starts_over(router: &SocksLocalRouter, new_name: Seq<char>)
    ensures
        router.adapter_name@ != new_name ==> router.restart_wanted(new_name),
        router.adapter_name@ == new_name ==> router.restart_wanted(new_name) == router.restart,
        router.restart ==> router.restart_wanted(new_name),
{
}

} // verus!
