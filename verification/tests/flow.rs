use proxifyre::net::{IpAddr, Ipv4Addr, SocketAddr};
use proxifyre::router::flow::{
    format_process_label, insert_peer_index, process_label, FlowStep, UdpFlowKey, UdpIndexKey, UdpMappings,
    UdpPortMapping,
};
use proxifyre::router::packet::{PacketInfo, PacketKind, PacketStep, PortRewrite};
use proxifyre::router::query::QueryError;
use proxifyre::router::{AddProxyStep, SocksLocalRouter};

const SECOND: u64 = 1_000_000_000;

fn v4(a: u8, b: u8, c: u8, d: u8) -> IpAddr {
    IpAddr::V4(Ipv4Addr::new(a, b, c, d))
}

fn udp_entry(dst_ip: IpAddr, dst_port: u16) -> UdpPortMapping {
    UdpPortMapping {
        dst_ip,
        dst_port,
        proxy_port: 10000,
        last_active: 0,
    }
}

#[test]
fn udp_peer_index_tracks_unique_mapping() {
    let dst = IpAddr::V4(Ipv4Addr::new(203, 0, 113, 10));
    let src = IpAddr::V4(Ipv4Addr::new(192, 0, 2, 10));
    let key = UdpFlowKey::new(dst, src, 53000);
    let mut mappings = UdpMappings::new();

    mappings.insert(key, udp_entry(dst, 53));

    assert_eq!(
        mappings.by_peer.get(&UdpIndexKey::new(dst, 53000)),
        Some(&Some(key))
    );
}

#[test]
fn udp_peer_index_marks_ambiguous_mapping() {
    let dst = IpAddr::V4(Ipv4Addr::new(203, 0, 113, 10));
    let src_a = IpAddr::V4(Ipv4Addr::new(192, 0, 2, 10));
    let src_b = IpAddr::V4(Ipv4Addr::new(192, 0, 2, 11));
    let mut mappings = UdpMappings::new();

    mappings.insert(UdpFlowKey::new(dst, src_a, 53000), udp_entry(dst, 53));
    mappings.insert(UdpFlowKey::new(dst, src_b, 53000), udp_entry(dst, 53));

    assert_eq!(
        mappings.by_peer.get(&UdpIndexKey::new(dst, 53000)),
        Some(&None)
    );
}

#[test]
fn udp_peer_index_rebuilds_after_cleanup() {
    let dst = IpAddr::V4(Ipv4Addr::new(203, 0, 113, 10));
    let src_a = IpAddr::V4(Ipv4Addr::new(192, 0, 2, 10));
    let src_b = IpAddr::V4(Ipv4Addr::new(192, 0, 2, 11));
    let key_a = UdpFlowKey::new(dst, src_a, 53000);
    let key_b = UdpFlowKey::new(dst, src_b, 53000);
    let mut mappings = UdpMappings::new();

    mappings.insert(key_a, udp_entry(dst, 53));
    mappings.insert(key_b, udp_entry(dst, 123));
    mappings.retain_active(|entry| entry.dst_port == 53);

    assert_eq!(
        mappings.by_peer.get(&UdpIndexKey::new(dst, 53000)),
        Some(&Some(key_a))
    );
}

#[test]
fn an_index_is_made_anew_whatever_it_held() {
    let dst = v4(203, 0, 113, 10);
    let key_a = UdpFlowKey::new(dst, v4(192, 0, 2, 10), 53000);
    let key_b = UdpFlowKey::new(dst, v4(192, 0, 2, 11), 53001);
    let mut mappings = UdpMappings::new();
    mappings.insert(key_a, udp_entry(dst, 53));
    mappings.insert(key_b, udp_entry(dst, 53));
    mappings.by_peer.insert(UdpIndexKey::new(dst, 53000), None);
    mappings.by_peer.insert(UdpIndexKey::new(dst, 7), Some(key_a));
    let _ = mappings.by_peer.remove(&UdpIndexKey::new(dst, 53001));
    for _ in 0..2 {
        mappings.rebuild_peer_index();
        assert_eq!(mappings.by_flow.len(), 2);
        assert_eq!(mappings.by_peer.len(), 2);
        assert_eq!(mappings.by_peer.get(&UdpIndexKey::new(dst, 53000)), Some(&Some(key_a)));
        assert_eq!(mappings.by_peer.get(&UdpIndexKey::new(dst, 53001)), Some(&Some(key_b)));
    }
    mappings.by_peer.clear();
    mappings.retain_active(|_| true);
    assert_eq!(mappings.by_peer.get(&UdpIndexKey::new(dst, 53000)), Some(&Some(key_a)));
}

#[test]
fn the_order_of_flows_does_not_matter() {
    let dst = v4(203, 0, 113, 10);
    let keys = [10u8, 11, 12].map(|n| UdpFlowKey::new(dst, v4(192, 0, 2, n), 53000));
    for order in [[0usize, 1, 2], [2, 1, 0], [1, 0, 2]] {
        let mut mappings = UdpMappings::new();
        for i in order {
            mappings.insert(keys[i], udp_entry(dst, 53));
        }
        assert_eq!(mappings.by_peer.len(), 1);
        assert_eq!(mappings.by_peer.get(&UdpIndexKey::new(dst, 53000)), Some(&None));
        for key in keys {
            insert_peer_index(&mut mappings.by_peer, key);
            assert_eq!(mappings.by_peer.get(&UdpIndexKey::new(dst, 53000)), Some(&None));
        }
    }
}

#[test]
fn entering_a_flow_twice_keeps_it_unique() {
    let dst = v4(203, 0, 113, 10);
    let key = UdpFlowKey::new(dst, v4(192, 0, 2, 10), 53000);
    let mut mappings = UdpMappings::new();
    mappings.insert(key, udp_entry(dst, 53));
    mappings.insert(key, udp_entry(dst, 54));
    assert_eq!(mappings.by_flow.len(), 1);
    assert_eq!(mappings.by_flow.get(&key), Some(&udp_entry(dst, 54)));
    assert_eq!(
        mappings.by_peer.get(&UdpIndexKey::new(dst, 53000)),
        Some(&Some(key))
    );
    assert_eq!(mappings.by_peer.get(&UdpIndexKey::new(dst, 53001)), None);
}

/// A router with two proxies; the processes whose path holds `firefox` go through the second.
fn router() -> SocksLocalRouter {
    let mut router = SocksLocalRouter::new("adapter".to_string(), 0);
    for endpoint in ["127.0.0.1:1080", "socks5://127.0.0.2:1081"] {
        let step = router.add_socks5_proxy(endpoint);
        assert!(matches!(step, Ok(AddProxyStep::Added { .. })));
    }
    router.proxies[0].tcp_listening(9000);
    router.proxies[0].udp_listening(9001);
    router.proxies[1].tcp_listening(10000);
    router.proxies[1].udp_listening(10001);
    assert!(router.associate_process_name_to_proxy("firefox", 1).is_ok());
    router
}

fn tcp(src: (IpAddr, u16), dst: (IpAddr, u16), syn: bool, ack: bool, fin: bool) -> PacketInfo {
    PacketInfo {
        kind: PacketKind::TcpV4,
        src_ip: src.0,
        dst_ip: dst.0,
        src_port: src.1,
        dst_port: dst.1,
        syn,
        ack,
        rst: false,
        fin,
    }
}

fn udp(src: (IpAddr, u16), dst: (IpAddr, u16)) -> PacketInfo {
    PacketInfo {
        kind: PacketKind::UdpV4,
        ..tcp(src, dst, false, false, false)
    }
}

#[test]
fn ports_follow_the_names() {
    let mut router = router();
    let path = "C:\\Program Files\\Mozilla\\firefox.exe";
    assert_eq!(router.get_proxy_port_tcp(path, false), 10000);
    assert_eq!(router.get_proxy_port_tcp(path, true), 10000);
    assert_eq!(router.get_proxy_port_udp(path, false), 10001);
    assert_eq!(router.get_proxy_port_udp(path, true), 10001);
    assert_eq!(router.get_proxy_port_tcp("C:\\chrome.exe", false), 0);
    assert!(router.is_tcp_proxy_port(9000) && router.is_tcp_proxy_port(10000));
    assert!(!router.is_tcp_proxy_port(10001) && router.is_udp_proxy_port(10001));
    assert!(!router.is_udp_proxy_port(9000));
    router.associate_process_name_to_proxy("firefox", 0).unwrap();
    assert_eq!(router.get_proxy_port_tcp(path, false), 9000);
}

#[test]
fn a_tcp_connection_is_redirected_and_closed() {
    let mut router = router();
    let client = (v4(192, 0, 2, 10), 50000);
    let server = (v4(203, 0, 113, 7), 443);
    let syn = tcp(client, server, true, false, false);

    assert_eq!(router.process_tcp_payload(&syn), FlowStep::Lookup);
    assert_eq!(
        router.tcp_process_found(&syn, Some("/usr/lib/firefox/firefox")),
        Some(PortRewrite::ToProxy(10000))
    );
    assert_eq!(router.get_tcp_connection_count(), 1);

    let peer = SocketAddr::new(server.0, client.1);
    let local = SocketAddr::new(client.0, 10000);
    assert_eq!(router.query_tcp(peer, local), Ok((server.0, 443)));
    let mapped_peer = proxifyre::net::maybe_map_ipv4_to_ipv6_mapped(peer, true);
    let mapped_local = proxifyre::net::maybe_map_ipv4_to_ipv6_mapped(local, true);
    assert_eq!(router.query_tcp(mapped_peer, mapped_local), Ok((server.0, 443)));

    let data = tcp(client, server, false, true, false);
    assert_eq!(
        router.process_tcp_payload(&data),
        FlowStep::Decided(Some(PortRewrite::ToProxy(10000)))
    );
    let reply = tcp((client.0, 10000), (server.0, client.1), false, true, false);
    assert_eq!(
        router.process_tcp_payload(&reply),
        FlowStep::Decided(Some(PortRewrite::FromProxy(443)))
    );
    let fin = tcp((client.0, 10000), (server.0, client.1), false, true, true);
    assert_eq!(
        router.process_tcp_payload(&fin),
        FlowStep::Decided(Some(PortRewrite::FromProxy(443)))
    );
    assert_eq!(router.get_tcp_connection_count(), 0);
    assert_eq!(router.process_tcp_payload(&data), FlowStep::Decided(None));
    assert_eq!(router.query_tcp(peer, local), Err(QueryError::NotFound));
}

#[test]
fn other_processes_are_left_alone() {
    let mut router = router();
    let syn = tcp((v4(192, 0, 2, 10), 50000), (v4(203, 0, 113, 7), 443), true, false, false);
    assert_eq!(router.tcp_process_found(&syn, Some("/usr/bin/curl")), None);
    assert_eq!(router.tcp_process_found(&syn, None), None);
    assert_eq!(router.get_tcp_connection_count(), 0);
    let datagram = udp((v4(192, 0, 2, 10), 53000), (v4(203, 0, 113, 7), 53));
    assert_eq!(router.udp_process_found(&datagram, Some("/usr/bin/dig"), 0), None);
    assert_eq!(router.get_udp_connection_count(), 0);
}

#[test]
fn a_known_connection_stays_as_it_is_known() {
    let mut router = router();
    let syn = tcp((v4(192, 0, 2, 10), 50000), (v4(203, 0, 113, 7), 443), true, false, false);
    router.tcp_process_found(&syn, Some("firefox"));
    router.associate_process_name_to_proxy("firefox", 0).unwrap();
    let again = PacketInfo { dst_port: 80, ..syn };
    assert_eq!(
        router.tcp_process_found(&again, Some("firefox")),
        Some(PortRewrite::ToProxy(9000))
    );
    let data = tcp((v4(192, 0, 2, 10), 50000), (v4(203, 0, 113, 7), 443), false, true, false);
    assert_eq!(
        router.process_tcp_payload(&data),
        FlowStep::Decided(Some(PortRewrite::ToProxy(10000)))
    );
}

#[test]
fn a_udp_flow_is_redirected_and_expires() {
    let mut router = router();
    let client = (v4(192, 0, 2, 10), 53000);
    let server = (v4(203, 0, 113, 7), 53);
    let datagram = udp(client, server);
    assert_eq!(router.process_udp_payload(&datagram, 0), FlowStep::Lookup);
    assert_eq!(
        router.udp_process_found(&datagram, Some("firefox"), 0),
        Some(PortRewrite::ToProxy(10001))
    );
    assert_eq!(
        router.process_udp_payload(&datagram, 50 * SECOND),
        FlowStep::Decided(Some(PortRewrite::ToProxy(10001)))
    );
    let other_port = udp(client, (server.0, 54));
    assert_eq!(
        router.process_udp_payload(&other_port, 55 * SECOND),
        FlowStep::Decided(None)
    );
    let reply = udp((client.0, 10001), (server.0, client.1));
    assert_eq!(router.process_udp_payload(&reply, 56 * SECOND), FlowStep::Lookup);
    assert_eq!(
        router.udp_process_found(&reply, None, 56 * SECOND),
        Some(PortRewrite::FromProxy(53))
    );

    let peer = SocketAddr::new(server.0, client.1);
    let any = SocketAddr::new(v4(0, 0, 0, 0), 10001);
    assert_eq!(router.query_udp(peer, any), Ok((server.0, 53)));
    let local = SocketAddr::new(client.0, 10001);
    assert_eq!(router.query_udp(peer, local), Ok((server.0, 53)));
    let elsewhere = SocketAddr::new(v4(192, 0, 2, 99), 10001);
    assert_eq!(router.query_udp(peer, elsewhere), Err(QueryError::NotFound));

    router.cleanup_stale_udp_endpoints(110 * SECOND - 1);
    assert_eq!(router.get_udp_connection_count(), 1);
    router.cleanup_stale_udp_endpoints(110 * SECOND);
    assert_eq!(router.get_udp_connection_count(), 0);
    assert_eq!(router.query_udp(peer, any), Err(QueryError::NotFound));
}

#[test]
fn two_flows_that_look_alike_are_ambiguous() {
    let mut router = router();
    let server = (v4(203, 0, 113, 7), 53);
    for last in [10, 11] {
        let datagram = udp((v4(192, 0, 2, last), 53000), server);
        router.udp_process_found(&datagram, Some("firefox"), 0);
    }
    let peer = SocketAddr::new(server.0, 53000);
    let any = SocketAddr::new(v4(0, 0, 0, 0), 10001);
    assert_eq!(router.query_udp(peer, any), Err(QueryError::Ambiguous));
    let local = SocketAddr::new(v4(192, 0, 2, 11), 10001);
    assert_eq!(router.query_udp(peer, local), Ok((server.0, 53)));
    assert_eq!(QueryError::Ambiguous.message(), "ambiguous destination mapping");
    assert_eq!(QueryError::NotFound.message(), "original destination not found");
    assert_eq!(QueryError::NotFound.kind(), proxifyre::proxy::ErrorKind::NotFound);
}

#[test]
fn frames_are_taken_step_by_step() {
    let mut router = router();
    assert_eq!(router.process_packet(&[0u8; 20], 0), PacketStep::Pass);
    let mut frame = vec![2u8, 2, 2, 2, 2, 2, 1, 1, 1, 1, 1, 1, 0x08, 0x00];
    frame.extend_from_slice(&[0x45, 0, 0, 40, 0, 1, 0, 0, 64, 6, 0, 0]);
    frame.extend_from_slice(&[192, 0, 2, 10, 203, 0, 113, 7]);
    frame.extend_from_slice(&[0xc3, 0x50, 0x01, 0xbb, 0, 0, 0, 1, 0, 0, 0, 0, 0x50, 0x02]);
    frame.extend_from_slice(&[0x20, 0, 0, 0, 0, 0]);
    let info = match router.process_packet(&frame, 0) {
        PacketStep::Lookup(info) => info,
        other => panic!("{:?}", other),
    };
    assert_eq!(
        router.process_found(&info, Some("firefox"), 0),
        Some(PortRewrite::ToProxy(10000))
    );
    frame[47] = 0x10;
    assert_eq!(
        router.process_packet(&frame, 0),
        PacketStep::Rewrite(PacketKind::TcpV4, PortRewrite::ToProxy(10000))
    );
}

#[test]
fn processes_are_labelled_by_their_file() {
    assert_eq!(format_process_label("/usr/lib/firefox/firefox"), "firefox");
    assert_eq!(format_process_label("/"), "/");
    assert_eq!(format_process_label(""), "");
    assert_eq!(format_process_label("firefox"), "firefox");
    assert_eq!(format_process_label("/opt/firefox/./"), "firefox");
    assert_eq!(format_process_label("/opt/firefox/.."), "/opt/firefox/..");
    assert_eq!(format_process_label("."), ".");
    let label = format_process_label("C:\\bin\\firefox.exe");
    assert!(label == "firefox.exe" || label == "C:\\bin\\firefox.exe");
    assert_eq!(process_label(Some("a.exe".to_string()), "C:\\a.exe"), "a.exe");
    assert_eq!(process_label(None, "C:\\"), "C:\\");
}
