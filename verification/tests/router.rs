use proxifyre::net::{IpAddr, Ipv4Addr, Ipv6Addr};
use proxifyre::router::adapter::{
    find_adapter_handle, get_best_interface_index, select_best_adapter_name, split_batch,
    AdapterHandle, AdapterInfo, InterfaceInfo, LoopAction, LoopEvent, PacketLoop,
};
use proxifyre::router::filters::{
    build_icmp_pass_filter, build_proxy_pass_filters, build_proxy_pass_filters_v6,
    FilterDirection, Ipv4Subnet, NetworkMatch, PassFilter, PortMatch,
};
use proxifyre::router::flow::{UdpFlowKey, UdpPortMapping};
use proxifyre::router::packet::ProxyDirection;
use proxifyre::router::{AddProxyStep, FilterPlan, RouterError, SocksLocalRouter};

fn router() -> SocksLocalRouter {
    SocksLocalRouter::new("eth0".to_string(), 1_000)
}

#[test]
fn a_new_router_passes_icmp_alone() {
    let router = router();
    assert_eq!(
        router.static_filters,
        vec![PassFilter {
            direction: FilterDirection::Both,
            network: NetworkMatch::Ipv4 { protocol: 1, dest: None },
            ports: None,
        }]
    );
    assert_eq!(router.static_filters[0], build_icmp_pass_filter());
    assert_eq!(router.apply_static_filters(), Ok(FilterPlan::Install));
    assert_eq!(router.get_tcp_connection_count(), 0);
    assert_eq!(router.get_udp_connection_count(), 0);
    assert_eq!((router.get_bytes_sent(), router.get_bytes_received()), (0, 0));
    assert_eq!(router.get_running_time(5_000), 4_000);
    assert_eq!(router.get_running_time(500), 0);
}

#[test]
fn proxies_are_numbered_and_bring_filters() {
    let mut router = router();
    let step = router.add_socks5_proxy("socks5://192.0.2.1:1080");
    assert_eq!(step, Ok(AddProxyStep::Added { id: 0, plan: FilterPlan::Install }));
    let step = router.add_socks5_proxy("[2001::1]:1081");
    assert_eq!(step, Ok(AddProxyStep::Added { id: 1, plan: FilterPlan::Install }));
    assert_eq!(router.static_filters.len(), 9);
    let ip = Ipv4Addr::new(192, 0, 2, 1);
    assert_eq!(router.static_filters[1..5].to_vec(), build_proxy_pass_filters(ip, 1080));
    let mut octets = [0u8; 16];
    octets[0] = 0x20;
    octets[1] = 0x01;
    octets[15] = 1;
    assert_eq!(
        router.static_filters[5..9].to_vec(),
        build_proxy_pass_filters_v6(Ipv6Addr { octets }, 1081)
    );
}

#[test]
fn a_servers_filters() {
    let ip = Ipv4Addr::new(192, 0, 2, 1);
    let dest = Some(Ipv4Subnet { ip, mask: Ipv4Addr::new(255, 255, 255, 255) });
    let filter = |direction, protocol, ports| PassFilter {
        direction,
        network: NetworkMatch::Ipv4 { protocol, dest },
        ports: Some(ports),
    };
    let from = PortMatch::Source { low: 1080, high: 1080 };
    let to = PortMatch::Destination { low: 1080, high: 1080 };
    assert_eq!(
        build_proxy_pass_filters(ip, 1080),
        vec![
            filter(FilterDirection::Send, 6, to),
            filter(FilterDirection::Receive, 6, from),
            filter(FilterDirection::Send, 17, to),
            filter(FilterDirection::Receive, 17, from),
        ]
    );
    let v6 = build_proxy_pass_filters_v6(Ipv6Addr { octets: [7; 16] }, 9);
    assert_eq!(v6.len(), 4);
    for filter in v6 {
        match filter.network {
            NetworkMatch::Ipv6 { dest_v6: Some(subnet), .. } => {
                assert_eq!(subnet.ip.octets, [7; 16]);
                assert_eq!(subnet.mask.octets, [255; 16]);
            }
            other => panic!("{:?}", other),
        }
    }
}

#[test]
fn too_many_proxies_are_refused_but_kept() {
    let mut router = router();
    for id in 0..63 {
        let step = router.add_socks5_proxy("127.0.0.1:1080");
        assert_eq!(step, Ok(AddProxyStep::Added { id, plan: FilterPlan::Install }));
    }
    assert_eq!(router.static_filters.len(), 253);
    let error = router.add_socks5_proxy("127.0.0.1:1080").unwrap_err();
    assert_eq!(error, RouterError::TooManyFilters(257));
    assert_eq!(error.message(), "too many static filters: 257 (max 256)");
    assert_eq!(router.proxies.len(), 64);
    assert_eq!(router.start(), Err(RouterError::TooManyFilters(257)));
    assert!(!router.is_active);
}

#[test]
fn a_proxy_behind_a_host_name_is_added_once_resolved() {
    let mut router = router();
    let parts = match router.add_socks5_proxy("proxy.example:1080") {
        Ok(AddProxyStep::Resolve(parts)) => parts,
        other => panic!("{:?}", other),
    };
    assert_eq!(router.proxies.len(), 0);
    let ip = IpAddr::V4(Ipv4Addr::new(192, 0, 2, 9));
    assert_eq!(
        router.add_resolved_proxy("proxy.example:1080", parts, Some(ip)),
        Ok((0, FilterPlan::Install))
    );
    assert_eq!(router.proxies[0].socks5.proxy_addr().ip(), ip);
    let parts = match router.add_socks5_proxy("proxy.example:1080") {
        Ok(AddProxyStep::Resolve(parts)) => parts,
        other => panic!("{:?}", other),
    };
    let error = router.add_resolved_proxy("proxy.example:1080", parts, None).unwrap_err();
    assert_eq!(error.message(), "failed to parse SOCKS5 endpoint: proxy.example:1080");
    assert_eq!(router.proxies.len(), 1);
}

#[test]
fn a_malformed_endpoint_changes_nothing() {
    let mut router = router();
    let error = router.add_socks5_proxy("http://x").unwrap_err();
    assert_eq!(error.message(), "failed to parse SOCKS5 endpoint: http://x");
    match error {
        RouterError::Endpoint { error, .. } => {
            assert_eq!(error.message(), "unsupported proxy scheme: http");
        }
        other => panic!("{:?}", other),
    }
    assert_eq!((router.proxies.len(), router.static_filters.len()), (0, 1));
}

#[test]
fn names_need_a_proxy() {
    let mut router = router();
    let error = router.associate_process_name_to_proxy("a", 0).unwrap_err();
    assert_eq!(error, RouterError::ProxyIndexOutOfRange);
    assert_eq!(error.message(), "proxy index is out of range");
    router.add_socks5_proxy("127.0.0.1:1080").unwrap();
    router.add_socks5_proxy("127.0.0.1:1081").unwrap();
    assert_eq!(router.associate_process_name_to_proxy("a", 0), Ok(()));
    assert_eq!(router.associate_process_name_to_proxy("b", 1), Ok(()));
    assert_eq!(router.associate_process_name_to_proxy("a", 1), Ok(()));
    assert_eq!(
        router.name_to_proxy,
        vec![("a".to_string(), 1), ("b".to_string(), 1)]
    );
}

#[test]
fn a_router_runs_once() {
    let mut router = router();
    assert_eq!(router.stop(), Err(RouterError::AlreadyStopped));
    assert_eq!(router.start(), Ok(FilterPlan::Install));
    assert_eq!(router.start(), Err(RouterError::AlreadyActive));
    router.start_failed();
    assert_eq!(router.start(), Ok(FilterPlan::Install));
    router.restart = true;
    assert_eq!(router.close(), Ok(FilterPlan::Reset));
    assert!(router.shutdown && !router.restart && !router.is_active);
    assert_eq!(router.close(), Err(RouterError::AlreadyStopped));
    assert_eq!(router.start(), Err(RouterError::AlreadyStopped));
    assert_eq!(RouterError::AlreadyStopped.message(), "router already stopped");
    assert_eq!(RouterError::AlreadyActive.message(), "router already active");
}

#[test]
fn another_adapter_restarts_the_loop() {
    let mut router = router();
    assert!(!router.interface_changed("eth0".to_string()));
    assert!(!router.restart);
    assert!(router.refresh_adapter_name("eth1".to_string()));
    assert!(!router.restart);
    assert!(router.interface_changed("eth2".to_string()));
    assert!(router.restart);
    assert_eq!(router.adapter_name, "eth2");
}

#[test]
fn the_packet_loop() {
    let mut router = router();
    let mut state = PacketLoop::new();
    let mut step = |router: &mut SocksLocalRouter, event| router.packet_loop_step(&mut state, event, 0);
    assert_eq!(step(&mut router, LoopEvent::Begin), LoopAction::Open);
    assert_eq!(step(&mut router, LoopEvent::AdapterMissing), LoopAction::Sleep(200));
    assert_eq!(step(&mut router, LoopEvent::AdapterOpened), LoopAction::Read);
    assert_eq!(step(&mut router, LoopEvent::ReadFailed), LoopAction::Read);
    assert_eq!(step(&mut router, LoopEvent::Read(0)), LoopAction::Read);
    assert_eq!(step(&mut router, LoopEvent::Read(3)), LoopAction::Handle(3));
    assert_eq!(step(&mut router, LoopEvent::BatchSent), LoopAction::Read);
    router.restart = true;
    assert_eq!(step(&mut router, LoopEvent::BatchSent), LoopAction::ResetMode);
    assert!(!router.restart);
    assert_eq!(step(&mut router, LoopEvent::ModeReset), LoopAction::Open);
    router.shutdown = true;
    assert_eq!(step(&mut router, LoopEvent::AdapterOpened), LoopAction::ResetMode);
    assert_eq!(step(&mut router, LoopEvent::ModeReset), LoopAction::Exit);
    assert_eq!(step(&mut router, LoopEvent::AdapterMissing), LoopAction::Exit);
}

#[test]
fn every_twentieth_batch_cleans_up() {
    let mut router = router();
    let ip = IpAddr::V4(Ipv4Addr::new(1, 2, 3, 4));
    let entry = UdpPortMapping { dst_ip: ip, dst_port: 1, proxy_port: 2, last_active: 0 };
    router.udp_endpoints.insert(UdpFlowKey::new(ip, ip, 5), entry);
    let mut state = PacketLoop::new();
    for _ in 0..19 {
        router.packet_loop_step(&mut state, LoopEvent::BatchSent, u64::MAX);
    }
    assert_eq!(router.get_udp_connection_count(), 1);
    assert_eq!(state.cleanup_counter, 19);
    router.packet_loop_step(&mut state, LoopEvent::BatchSent, u64::MAX);
    assert_eq!(router.get_udp_connection_count(), 0);
    assert_eq!(state.cleanup_counter, 0);
}

#[test]
fn redirected_packets_turn_round_and_are_counted() {
    let mut router = router();
    assert!(router.route_packet(None, true, 100));
    assert!(!router.route_packet(None, false, 100));
    assert!(!router.route_packet(Some(ProxyDirection::ToProxy), true, 60));
    assert!(router.route_packet(Some(ProxyDirection::FromProxy), false, 40));
    assert_eq!((router.get_bytes_sent(), router.get_bytes_received()), (60, 40));
    router.bytes_sent = u64::MAX;
    router.route_packet(Some(ProxyDirection::ToProxy), true, 2);
    assert_eq!(router.get_bytes_sent(), 1);
}

#[test]
fn a_batch_is_split_in_order() {
    let (to_adapter, to_mstcp) = split_batch(&vec![true, false, false, true, true]);
    assert_eq!(to_adapter, vec![0, 3, 4]);
    assert_eq!(to_mstcp, vec![1, 2]);
    assert_eq!(split_batch(&vec![]), (vec![], vec![]));
}

fn adapter(name: &str, hw_address: &[u8]) -> AdapterInfo {
    AdapterInfo { name: name.to_string(), hw_address: hw_address.to_vec() }
}

#[test]
fn the_best_adapter_has_the_best_route() {
    let adapters = vec![
        adapter("short", &[1, 1, 1]),
        adapter("first", &[1, 1, 1, 1, 1, 1]),
        adapter("second", &[2, 2, 2, 2, 2, 2]),
        adapter("third", &[2, 2, 2, 2, 2, 2]),
    ];
    let interfaces = vec![
        InterfaceInfo { mac: [2; 6], if_index: 8 },
        InterfaceInfo { mac: [1; 6], if_index: 7 },
        InterfaceInfo { mac: [2; 6], if_index: 9 },
    ];
    let best = |index| select_best_adapter_name(&adapters, index, &interfaces).unwrap();
    assert_eq!(best(Some(7)), "first");
    assert_eq!(best(Some(9)), "second");
    assert_eq!(best(Some(8)), "short");
    assert_eq!(best(None), "short");
    let error = select_best_adapter_name(&vec![], Some(7), &interfaces).unwrap_err();
    assert_eq!(error, RouterError::NoAdapters);
    assert_eq!(error.message(), "no network adapters found");
    assert_eq!(get_best_interface_index(0, 7), Some(7));
    assert_eq!(get_best_interface_index(87, 7), None);
}

#[test]
fn adapters_are_found_by_name() {
    let handle = |name: &str, handle| AdapterHandle { name: name.to_string(), handle };
    let adapters = vec![handle("a", 1), handle("b", 2), handle("b", 3)];
    assert_eq!(find_adapter_handle(&adapters, "b"), Ok(2));
    let error = find_adapter_handle(&adapters, "c").unwrap_err();
    assert_eq!(error.message(), "adapter not found: c");
}
