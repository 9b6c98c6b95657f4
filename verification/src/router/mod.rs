//! The router: which processes go through which proxy, what the driver lets pass, and the
//! router's way from its start to its end.
pub mod adapter;
pub mod checksum;
pub mod filters;
pub mod flow;
pub mod packet;
pub mod query;
pub mod wire;

use vstd::prelude::*;
use vstd::string::StringExecFns;
use crate::clock;
use crate::clock::time_since;
use crate::net::{IpAddr, SocketAddr};
use crate::proxy::endpoint::{parts_of, spells, with_port, EndpointError, EndpointFault, EndpointParts};
use crate::proxy::endpoint::auth_view;
use crate::proxy::socks5::{DialerStep, Socks5Dialer};
use crate::proxy::transparent_proxy::{Associations, TransparentProxy};
use crate::router::filters::{
    build_icmp_pass_filter, build_proxy_pass_filters, build_proxy_pass_filters_v6, icmp_filter,
    proxy_filters_v4, proxy_filters_v6, PassFilter,
};
use crate::router::flow::{TcpFlowKey, TcpPortMapping, UdpFlowKey, UdpMappings, UdpPortMapping};
use crate::table::Table;
use crate::text;
use crate::text::decimal;

verus! {

/// How many filters the driver's table holds.
pub const MAX_STATIC_FILTERS: usize = 256;

/// Why the router refused.
#[derive(Debug, PartialEq, Eq)]
pub enum RouterError {
    Endpoint { endpoint: String, error: EndpointError },
    ProxyIndexOutOfRange,
    AlreadyStopped,
    AlreadyActive,
    TooManyFilters(usize),
    NoAdapters,
    AdapterNotFound(String),
}

impl RouterError {
    /// What is told to the user.
    pub open spec fn spec_message(&self) -> Seq<char> {
        match self {
            RouterError::Endpoint { endpoint, .. } => "failed to parse SOCKS5 endpoint: "@
                + endpoint@,
            RouterError::ProxyIndexOutOfRange => "proxy index is out of range"@,
            RouterError::AlreadyStopped => "router already stopped"@,
            RouterError::AlreadyActive => "router already active"@,
            RouterError::TooManyFilters(n) => "too many static filters: "@ + decimal(*n as nat)
                + " (max 256)"@,
            RouterError::NoAdapters => "no network adapters found"@,
            RouterError::AdapterNotFound(name) => "adapter not found: "@ + name@,
        }
    }

    /// What is told to the user.
    pub fn message(&self) -> (r: String)
        ensures
            r@ == self.spec_message(),
    {
        match self {
            RouterError::Endpoint { endpoint, .. } => {
                let mut out = "failed to parse SOCKS5 endpoint: ".to_owned();
                out.append(endpoint.as_str());
                out
            },
            RouterError::ProxyIndexOutOfRange => "proxy index is out of range".to_owned(),
            RouterError::AlreadyStopped => "router already stopped".to_owned(),
            RouterError::AlreadyActive => "router already active".to_owned(),
            RouterError::TooManyFilters(n) => {
                let mut out = "too many static filters: ".to_owned();
                text::append_decimal(&mut out, *n as u64);
                out.append(" (max 256)");
                out
            },
            RouterError::NoAdapters => "no network adapters found".to_owned(),
            RouterError::AdapterNotFound(name) => {
                let mut out = "adapter not found: ".to_owned();
                out.append(name.as_str());
                out
            },
        }
    }
}

/// What to do with the driver's table of filters.
#[derive(Clone, Copy, Debug, PartialEq, Eq, Structural)]
pub enum FilterPlan {
    /// Empty it.
    Reset,
    /// Fill it with the router's filters.
    Install,
}

/// What adding a proxy comes to: its number and what to do with the driver's filters, or a host
/// name that has to be resolved first.
#[derive(Debug, PartialEq, Eq)]
pub enum AddProxyStep {
    Added { id: usize, plan: FilterPlan },
    Resolve(EndpointParts),
}

/// The filters that let the traffic to a SOCKS5 server pass.
pub open spec fn server_filters(addr: SocketAddr) -> Seq<PassFilter> {
    match addr.spec_ip() {
        IpAddr::V4(ip) => proxy_filters_v4(ip, addr.spec_port()),
        IpAddr::V6(ip) => proxy_filters_v6(ip, addr.spec_port()),
    }
}

/// The filters of a router with these proxies: one for ICMP, then those of each server.
pub open spec fn all_filters(proxies: Seq<TransparentProxy>) -> Seq<PassFilter>
    decreases proxies.len(),
{
    if proxies.len() == 0 {
        seq![icmp_filter()]
    } else {
        all_filters(proxies.drop_last()) + server_filters(proxies.last().socks5.proxy_addr)
    }
}

/// The names of processes and the proxies they go through, as text.
pub open spec fn names_text(names: Seq<(String, usize)>) -> Seq<(Seq<char>, usize)> {
    names.map_values(|e: (String, usize)| (e.0@, e.1))
}

/// No name stands there twice.
pub open spec fn names_distinct(names: Seq<(Seq<char>, usize)>) -> bool {
    forall|i: int, j: int|
        #![trigger names[i], names[j]]
        0 <= i < names.len() && 0 <= j < names.len() && i != j ==> names[i].0 != names[j].0
}

/// The names with `name` going through proxy `id`: in its old place if it has one, else at the
/// end.
pub open spec fn associated(
    names: Seq<(Seq<char>, usize)>,
    name: Seq<char>,
    id: usize,
) -> Seq<(Seq<char>, usize)> {
    if exists|i: int| 0 <= i < names.len() && (#[trigger] names[i]).0 == name {
        let i = choose|i: int| 0 <= i < names.len() && (#[trigger] names[i]).0 == name;
        names.update(i, (name, id))
    } else {
        names.push((name, id))
    }
}

/// The state of the router.
pub struct SocksLocalRouter {
    pub adapter_name: String,
    pub tcp_connections: Table<TcpFlowKey, TcpPortMapping>,
    pub udp_endpoints: UdpMappings,
    pub proxies: Vec<TransparentProxy>,
    pub name_to_proxy: Vec<(String, usize)>,
    pub static_filters: Vec<PassFilter>,
    pub shutdown: bool,
    pub restart: bool,
    pub is_active: bool,
    pub bytes_sent: u64,
    pub bytes_received: u64,
    pub start_time: u64,
}

impl SocksLocalRouter {
    /// The tables are sound, every name goes through a proxy that exists, and the filters are
    /// those of the proxies.
    pub open spec fn wf(&self) -> bool {
        &&& self.tcp_connections.wf()
        &&& self.udp_endpoints.wf()
        &&& forall|i: int| 0 <= i < self.proxies@.len() ==> (#[trigger] self.proxies@[i]).wf()
        &&& forall|i: int|
            0 <= i < self.name_to_proxy@.len() ==> (#[trigger] self.name_to_proxy@[i]).1
                < self.proxies@.len()
        &&& names_distinct(names_text(self.name_to_proxy@))
        &&& self.static_filters@ == all_filters(self.proxies@)
        &&& self.is_active ==> !self.shutdown
    }

    /// A router that never ran, or whose start failed.
    pub open spec fn can_start(&self) -> bool {
        !self.shutdown && !self.is_active
    }

    /// The router after it was stopped.
    pub open spec fn is_stopped(&self, before: &Self) -> bool {
        *self == (SocksLocalRouter {
            is_active: false,
            shutdown: true,
            restart: false,
            ..*before
        })
    }

    /// What a start comes to: a router that was stopped never starts again, one that runs does not
    /// start twice, and the filters have to fit.
    pub open spec fn start_verdict(&self) -> Result<FilterPlan, RouterError> {
        if self.shutdown {
            Err(RouterError::AlreadyStopped)
        } else if self.is_active {
            Err(RouterError::AlreadyActive)
        } else {
            self.filter_plan()
        }
    }

    /// What a stop comes to: only a router that runs can be stopped.
    pub open spec fn stop_verdict(&self) -> Result<(), RouterError> {
        if self.is_active {
            Ok(())
        } else {
            Err(RouterError::AlreadyStopped)
        }
    }

    /// A router on the given adapter, without proxies.
    pub fn new(adapter_name: String, now: u64) -> (r: Self)
        ensures
            r.wf(),
            r.adapter_name == adapter_name,
            r.tcp_connections@ == Map::<TcpFlowKey, TcpPortMapping>::empty(),
            r.udp_endpoints.by_flow@ == Map::<UdpFlowKey, UdpPortMapping>::empty(),
            r.proxies@ == Seq::<TransparentProxy>::empty(),
            r.name_to_proxy@ == Seq::<(String, usize)>::empty(),
            r.static_filters@ == seq![icmp_filter()],
            !r.shutdown,
            !r.restart,
            !r.is_active,
            r.bytes_sent == 0,
            r.bytes_received == 0,
            r.start_time == now,
    {
        let filters = vec![build_icmp_pass_filter()];
        assert(filters@ =~= seq![icmp_filter()]);
        SocksLocalRouter {
            adapter_name,
            tcp_connections: Table::new(),
            udp_endpoints: UdpMappings::new(),
            proxies: Vec::new(),
            name_to_proxy: Vec::new(),
            static_filters: filters,
            shutdown: false,
            restart: false,
            is_active: false,
            bytes_sent: 0,
            bytes_received: 0,
            start_time: now,
        }
    }

    /// What to do with the driver's filters: fill them in if they fit.
    pub open spec fn filter_plan(&self) -> Result<FilterPlan, RouterError> {
        if self.static_filters@.len() == 0 {
            Ok(FilterPlan::Reset)
        } else if self.static_filters@.len() > MAX_STATIC_FILTERS {
            Err(RouterError::TooManyFilters(self.static_filters@.len() as usize))
        } else {
            Ok(FilterPlan::Install)
        }
    }

    /// Tells what to do with the driver's filters.
    pub fn apply_static_filters(&self) -> (r: Result<FilterPlan, RouterError>)
        ensures
            r == self.filter_plan(),
    {
        let n: usize = self.static_filters.len();
        if n == 0 {
            Ok(FilterPlan::Reset)
        } else if n > MAX_STATIC_FILTERS {
            Err(RouterError::TooManyFilters(n))
        } else {
            Ok(FilterPlan::Install)
        }
    }

    /// What a router with one more proxy, in front of the server of `dialer`, is like.
    pub open spec fn has_added(&self, before: &Self, dialer: Socks5Dialer) -> bool {
        &&& self.proxies@.len() == before.proxies@.len() + 1
        &&& self.proxies@.drop_last() == before.proxies@
        &&& self.proxies@.last().socks5 == dialer
        &&& self.proxies@.last().port == 0
        &&& self.proxies@.last().tcp_port_v4 == 0
        &&& self.proxies@.last().tcp_port_v6 == 0
        &&& self.proxies@.last().udp_port_v4 == 0
        &&& self.proxies@.last().udp_port_v6 == 0
        &&& !self.proxies@.last().shutdown
        &&& self.proxies@.last().udp_connections@ == Associations::empty()
        &&& self.static_filters@ == before.static_filters@ + server_filters(dialer.proxy_addr)
        &&& *self == (SocksLocalRouter {
            proxies: self.proxies,
            static_filters: self.static_filters,
            ..*before
        })
    }

    /// Adds a proxy in front of the server of `dialer`. The proxy is there even if its filters
    /// no longer fit.
    pub fn add_dialer(&mut self, dialer: Socks5Dialer) -> (r: Result<(usize, FilterPlan), RouterError>)
        requires
            old(self).wf(),
            dialer.wf(),
        ensures
            final(self).wf(),
            final(self).has_added(old(self), dialer),
            match final(self).filter_plan() {
                Ok(plan) => r == Ok::<(usize, FilterPlan), RouterError>(
                    (old(self).proxies@.len() as usize, plan),
                ),
                Err(e) => r == Err::<(usize, FilterPlan), RouterError>(e),
            },
    {
        let proxy_addr = dialer.proxy_addr();
        let mut more = match proxy_addr.ip() {
            IpAddr::V4(ipv4) => build_proxy_pass_filters(ipv4, proxy_addr.port()),
            IpAddr::V6(ipv6) => build_proxy_pass_filters_v6(ipv6, proxy_addr.port()),
        };
        assert(more@ == server_filters(proxy_addr));
        self.static_filters.append(&mut more);
        let id: usize = self.proxies.len();
        self.proxies.push(TransparentProxy::new(0, dialer));
        proof {
            assert(self.proxies@.drop_last() =~= old(self).proxies@);
            assert forall|i: int| 0 <= i < self.proxies@.len() implies (
            #[trigger] self.proxies@[i]).wf() by {
                if i < id {
                    assert(self.proxies@[i] == old(self).proxies@[i]);
                }
            }
        }
        match self.apply_static_filters() {
            Ok(plan) => Ok((id, plan)),
            Err(e) => Err(e),
        }
    }

    /// Adds a proxy in front of the SOCKS5 server at `endpoint`. A host that is no address is
    /// handed back to be resolved; the proxy is then added by `add_resolved_proxy`.
    pub fn add_socks5_proxy(&mut self, endpoint: &str) -> (r: Result<AddProxyStep, RouterError>)
        requires
            old(self).wf(),
        ensures
            final(self).wf(),
            match parts_of(endpoint@) {
                Err(fault) => *final(self) == *old(self) && (r matches Err(
                    RouterError::Endpoint { endpoint: e, error },
                ) && e@ == endpoint@ && error@ == fault),
                Ok(parts) => exists|ip: Option<IpAddr>| #[trigger]
                    spells(parts.host, ip) && match ip {
                        None => *final(self) == *old(self) && (r matches Ok(
                            AddProxyStep::Resolve(p),
                        ) && p@ == parts),
                        Some(_) => match with_port(ip, parts.port) {
                            Err(fault) => *final(self) == *old(self) && (r matches Err(
                                RouterError::Endpoint { endpoint: e, error },
                            ) && e@ == endpoint@ && error@ == fault),
                            Ok(addr) => exists|dialer: Socks5Dialer|
                                dialer.wf() && dialer.proxy_addr == addr && auth_view(dialer.auth)
                                    == parts.auth && #[trigger] final(self).has_added(
                                    old(self),
                                    dialer,
                                ) && match final(self).filter_plan() {
                                    Ok(plan) => r == Ok::<AddProxyStep, RouterError>(
                                        AddProxyStep::Added {
                                            id: old(self).proxies@.len() as usize,
                                            plan,
                                        },
                                    ),
                                    Err(e) => r == Err::<AddProxyStep, RouterError>(e),
                                },
                        },
                    },
            },
    {
        match Socks5Dialer::new(endpoint) {
            Err(error) => Err(RouterError::Endpoint { endpoint: endpoint.to_owned(), error }),
            Ok(DialerStep::Resolve(parts)) => Ok(AddProxyStep::Resolve(parts)),
            Ok(DialerStep::Ready(dialer)) => match self.add_dialer(dialer) {
                Ok((id, plan)) => Ok(AddProxyStep::Added { id, plan }),
                Err(e) => Err(e),
            },
        }
    }

    /// Adds a proxy in front of a SOCKS5 server whose host name was resolved. `None` means that
    /// the name has no address.
    pub fn add_resolved_proxy(
        &mut self,
        endpoint: &str,
        parts: EndpointParts,
        ip: Option<IpAddr>,
    ) -> (r: Result<(usize, FilterPlan), RouterError>)
        requires
            old(self).wf(),
        ensures
            final(self).wf(),
            match with_port(ip, parts@.port) {
                Err(fault) => *final(self) == *old(self) && (r matches Err(
                    RouterError::Endpoint { endpoint: e, error },
                ) && e@ == endpoint@ && error@ == fault),
                Ok(addr) => exists|dialer: Socks5Dialer|
                    dialer.wf() && dialer.proxy_addr == addr && auth_view(dialer.auth)
                        == parts@.auth && #[trigger] final(self).has_added(old(self), dialer)
                        && match final(self).filter_plan() {
                        Ok(plan) => r == Ok::<(usize, FilterPlan), RouterError>(
                            (old(self).proxies@.len() as usize, plan),
                        ),
                        Err(e) => r == Err::<(usize, FilterPlan), RouterError>(e),
                    },
            },
    {
        match Socks5Dialer::resolved(parts, ip) {
            Err(error) => Err(RouterError::Endpoint { endpoint: endpoint.to_owned(), error }),
            Ok(dialer) => self.add_dialer(dialer),
        }
    }

    /// Sends the processes whose path holds `process_name` through proxy `proxy_id`.
    pub fn associate_process_name_to_proxy(&mut self, process_name: &str, proxy_id: usize) -> (r:
        Result<(), RouterError>)
        requires
            old(self).wf(),
        ensures
            final(self).wf(),
            *final(self) == (SocksLocalRouter {
                name_to_proxy: final(self).name_to_proxy,
                ..*old(self)
            }),
            if proxy_id >= old(self).proxies@.len() {
                &&& r == Err::<(), RouterError>(RouterError::ProxyIndexOutOfRange)
                &&& final(self).name_to_proxy == old(self).name_to_proxy
            } else {
                &&& r == Ok::<(), RouterError>(())
                &&& names_text(final(self).name_to_proxy@) == associated(
                    names_text(old(self).name_to_proxy@),
                    process_name@,
                    proxy_id,
                )
            },
    {
        if proxy_id >= self.proxies.len() {
            return Err(RouterError::ProxyIndexOutOfRange);
        }
        let ghost before = names_text(self.name_to_proxy@);
        let entry = (process_name.to_owned(), proxy_id);
        let mut i: usize = 0;
        while i < self.name_to_proxy.len()
            invariant
                i <= self.name_to_proxy@.len(),
                *self == *old(self),
                old(self).wf(),
                before == names_text(self.name_to_proxy@),
                proxy_id < self.proxies@.len(),
                entry.0@ == process_name@,
                entry.1 == proxy_id,
                forall|j: int| 0 <= j < i ==> (#[trigger] before[j]).0 != process_name@,
            decreases self.name_to_proxy@.len() - i,
        {
            if text::same_text(self.name_to_proxy[i].0.as_str(), process_name) {
                assert(before[i as int].0 == process_name@);
                self.name_to_proxy.set(i, entry);
                proof {
                    let after = names_text(self.name_to_proxy@);
                    let k = choose|k: int|
                        0 <= k < before.len() && (#[trigger] before[k]).0 == process_name@;
                    assert(k == i) by {
                        assert(before[k].0 == before[i as int].0);
                    }
                    assert(after =~= before.update(i as int, (process_name@, proxy_id)));
                    assert(names_distinct(after)) by {
                        assert forall|a: int, b: int|
                            #![trigger after[a], after[b]]
                            0 <= a < after.len() && 0 <= b < after.len() && a != b implies after[a].0
                            != after[b].0 by {
                            assert(after[a].0 == before[a].0);
                            assert(after[b].0 == before[b].0);
                        }
                    }
                }
                return Ok(());
            }
            i += 1;
        }
        self.name_to_proxy.push(entry);
        proof {
            let after = names_text(self.name_to_proxy@);
            assert(after =~= before.push((process_name@, proxy_id)));
        }
        Ok(())
    }

    /// Begins to start the router, and tells what to do with the driver's filters.
    pub fn start(&mut self) -> (r: Result<FilterPlan, RouterError>)
        ensures
            old(self).wf() ==> final(self).wf(),
            r is Ok <==> old(self).can_start() && old(self).filter_plan() is Ok,
            r == old(self).start_verdict(),
            if old(self).shutdown {
                r == Err::<FilterPlan, RouterError>(RouterError::AlreadyStopped) && *final(self)
                    == *old(self)
            } else if old(self).is_active {
                r == Err::<FilterPlan, RouterError>(RouterError::AlreadyActive) && *final(self)
                    == *old(self)
            } else {
                r == old(self).filter_plan() && *final(self) == (SocksLocalRouter {
                    is_active: r is Ok,
                    ..*old(self)
                })
            },
    {
        if self.shutdown {
            return Err(RouterError::AlreadyStopped);
        }
        if self.is_active {
            return Err(RouterError::AlreadyActive);
        }
        self.is_active = true;
        match self.apply_static_filters() {
            Ok(plan) => Ok(plan),
            Err(e) => {
                self.is_active = false;
                Err(e)
            },
        }
    }

    /// Takes a start back that failed later on, at the driver or at a proxy.
    pub fn start_failed(&mut self)
        ensures
            old(self).wf() ==> final(self).wf(),
            *final(self) == (SocksLocalRouter { is_active: false, ..*old(self) }),
    {
        self.is_active = false;
    }

    /// Begins to stop the router: its packet loop ends, and it never starts again.
    pub fn stop(&mut self) -> (r: Result<(), RouterError>)
        ensures
            old(self).wf() ==> final(self).wf(),
            if !old(self).is_active {
                r == Err::<(), RouterError>(RouterError::AlreadyStopped) && *final(self) == *old(
                    self,
                )
            } else {
                r == Ok::<(), RouterError>(()) && final(self).is_stopped(old(self))
            },
            r == old(self).stop_verdict(),
    {
        if !self.is_active {
            return Err(RouterError::AlreadyStopped);
        }
        self.is_active = false;
        self.shutdown = true;
        self.restart = false;
        Ok(())
    }

    /// Stops the router, and tells to empty the driver's filters.
    pub fn close(&mut self) -> (r: Result<FilterPlan, RouterError>)
        ensures
            old(self).wf() ==> final(self).wf(),
            if !old(self).is_active {
                r == Err::<FilterPlan, RouterError>(RouterError::AlreadyStopped) && *final(self)
                    == *old(self)
            } else {
                r == Ok::<FilterPlan, RouterError>(FilterPlan::Reset) && final(self).is_stopped(
                    old(self),
                )
            },
            r is Ok <==> old(self).stop_verdict() is Ok,
    {
        match self.stop() {
            Ok(()) => Ok(FilterPlan::Reset),
            Err(e) => Err(e),
        }
    }

    /// Takes the name of the adapter that is best now, and tells whether it is another one.
    pub fn refresh_adapter_name(&mut self, new_name: String) -> (r: bool)
        ensures
            old(self).wf() ==> final(self).wf(),
            r == (old(self).adapter_name@ != new_name@),
            *final(self) == (SocksLocalRouter { adapter_name: final(self).adapter_name, ..*old(self) }),
            final(self).adapter_name@ == new_name@,
    {
        if !text::same_text(self.adapter_name.as_str(), new_name.as_str()) {
            self.adapter_name = new_name;
            return true;
        }
        false
    }

    /// Takes the name of the adapter that is best after the interfaces of the machine have
    /// changed. Another adapter means that the packet loop starts over.
    pub fn interface_changed(&mut self, new_name: String) -> (r: bool)
        ensures
            old(self).wf() ==> final(self).wf(),
            r == (old(self).adapter_name@ != new_name@),
            *final(self) == (SocksLocalRouter {
                adapter_name: final(self).adapter_name,
                restart: old(self).restart || r,
                ..*old(self)
            }),
            final(self).restart == old(self).restart_wanted(new_name@),
            final(self).adapter_name@ == new_name@,
    {
        let changed = self.refresh_adapter_name(new_name);
        if changed {
            self.restart = true;
        }
        changed
    }

    /// Whether the packet loop is to start over once `new_name` is the best adapter: if it was to
    /// before, or if that is another adapter.
    pub open spec fn restart_wanted(&self, new_name: Seq<char>) -> bool {
        self.restart || self.adapter_name@ != new_name
    }

    /// How many TCP connections are redirected.
    pub fn get_tcp_connection_count(&self) -> (r: usize)
        requires
            self.wf(),
        ensures
            r == self.tcp_connections@.len(),
    {
        self.tcp_connections.len()
    }

    /// How many UDP flows are redirected.
    pub fn get_udp_connection_count(&self) -> (r: usize)
        requires
            self.wf(),
        ensures
            r == self.udp_endpoints.by_flow@.len(),
    {
        self.udp_endpoints.by_flow.len()
    }

    /// How many octets went to the proxies.
    pub fn get_bytes_sent(&self) -> (r: u64)
        ensures
            r == self.bytes_sent,
    {
        self.bytes_sent
    }

    /// How many octets came from the proxies.
    pub fn get_bytes_received(&self) -> (r: u64)
        ensures
            r == self.bytes_received,
    {
        self.bytes_received
    }

    /// How long the router has been there.
    pub fn get_running_time(&self, now: u64) -> (r: u64)
        ensures
            r == time_since(now, self.start_time),
    {
        clock::elapsed(now, self.start_time)
    }
}

/// Each proxy adds four filters to the one for ICMP, so the driver's table holds those of up to
/// 63 proxies.
pub proof fn law_filter_count(router: &SocksLocalRouter)
    requires
        router.wf(),
    ensures
        router.static_filters@.len() == 1 + 4 * router.proxies@.len(),
        router.filter_plan() is Ok <==> router.proxies@.len() <= 63,
{
    lemma_filter_count(router.proxies@);
}

proof fn lemma_filter_count(proxies: Seq<TransparentProxy>)
    ensures
        all_filters(proxies).len() == 1 + 4 * proxies.len(),
    decreases proxies.len(),
{
    if proxies.len() > 0 {
        lemma_filter_count(proxies.drop_last());
    }
}

/// The filters of every proxy's server stand in the table, so that the proxies' own traffic is
/// never redirected.
pub proof fn law_server_filters_present(router: &SocksLocalRouter, id: int, i: int)
    requires
        router.wf(),
        0 <= id < router.proxies@.len(),
        0 <= i < 4,
    ensures
        router.static_filters@.contains(server_filters(router.proxies@[id].socks5.proxy_addr)[i]),
{
    lemma_server_filters_present(router.proxies@, id, i);
}

proof fn lemma_server_filters_present(proxies: Seq<TransparentProxy>, id: int, i: int)
    requires
        0 <= id < proxies.len(),
        0 <= i < 4,
    ensures
        all_filters(proxies).contains(server_filters(proxies[id].socks5.proxy_addr)[i]),
    decreases proxies.len(),
{
    let all = all_filters(proxies);
    let fewer = all_filters(proxies.drop_last());
    let wanted = server_filters(proxies[id].socks5.proxy_addr)[i];
    if id == proxies.len() - 1 {
        assert(all[fewer.len() + i] == wanted);
    } else {
        lemma_server_filters_present(proxies.drop_last(), id, i);
        let k = choose|k: int| 0 <= k < fewer.len() && fewer[k] == wanted;
        assert(all[k] == wanted);
    }
}

/// A name that was sent through a proxy goes through it, and no other name is touched.
pub proof fn law_association_takes_effect(
    names: Seq<(Seq<char>, usize)>,
    name: Seq<char>,
    id: usize,
    other: (Seq<char>, usize),
)
    requires
        names_distinct(names),
        other.0 != name,
    ensures
        associated(names, name, id).contains((name, id)),
        names_distinct(associated(names, name, id)),
        associated(names, name, id).contains(other) <==> names.contains(other),
{
    let after = associated(names, name, id);
    if exists|i: int| 0 <= i < names.len() && (#[trigger] names[i]).0 == name {
        let i = choose|i: int| 0 <= i < names.len() && (#[trigger] names[i]).0 == name;
        assert(after[i] == (name, id));
        if names.contains(other) {
            let k = choose|k: int| 0 <= k < names.len() && names[k] == other;
            assert(after[k] == other);
        }
        if after.contains(other) {
            let k = choose|k: int| 0 <= k < after.len() && after[k] == other;
            assert(names[k] == other);
        }
        assert forall|a: int, b: int|
            #![trigger after[a], after[b]]
            0 <= a < after.len() && 0 <= b < after.len() && a != b implies after[a].0
            != after[b].0 by {
            assert(after[a].0 == names[a].0 && after[b].0 == names[b].0);
        }
    } else {
        assert(after[names.len() as int] == (name, id));
        if names.contains(other) {
            let k = choose|k: int| 0 <= k < names.len() && names[k] == other;
            assert(after[k] == other);
        }
        if after.contains(other) {
            let k = choose|k: int| 0 <= k < after.len() && after[k] == other;
            assert(names[k] == other);
        }
    }
}

/// A router that was stopped is stopped for good: it can neither be started nor be stopped
/// again, and its packet loop is told to end.
pub proof fn law_stopped_for_good(before: &SocksLocalRouter, after: &SocksLocalRouter)
    requires
        before.wf(),
        before.is_active,
        after.is_stopped(before),
    ensures
        !after.can_start(),
        !after.is_active,
        after.shutdown,
        after.wf(),
{
}

} // verus!
