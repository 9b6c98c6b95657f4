use proxifyre::net::{IpAddr, Ipv4Addr, SocketAddr};
use proxifyre::proxy::session::Command;
use proxifyre::proxy::socks5::{DialerStep, Socks5Dialer};
use proxifyre::proxy::transparent_proxy::{
    Associated, ReaderAction, ReaderEvent, TransparentProxy, UdpAssociationKey, UdpStep,
};

const SECOND: u64 = 1_000_000_000;

fn proxy() -> TransparentProxy {
    match Socks5Dialer::new("127.0.0.1:1080") {
        Ok(DialerStep::Ready(dialer)) => TransparentProxy::new(0, dialer),
        other => panic!("{:?}", other),
    }
}

fn ip() -> IpAddr {
    IpAddr::V4(Ipv4Addr::new(203, 0, 113, 7))
}

fn key() -> UdpAssociationKey {
    UdpAssociationKey { dst_ip: ip(), client_port: 53000 }
}

#[test]
fn ports_are_zero_until_the_proxy_listens() {
    let mut proxy = proxy();
    assert_eq!(proxy.port, 0);
    assert_eq!(proxy.get_local_tcp_proxy_port_v4(), 0);
    assert_eq!(proxy.get_local_udp_proxy_port_v6(), 0);
    proxy.tcp_listening(9000);
    proxy.udp_listening(9001);
    assert_eq!(proxy.get_local_tcp_proxy_port_v4(), 9000);
    assert_eq!(proxy.get_local_tcp_proxy_port_v6(), 9000);
    assert_eq!(proxy.get_local_udp_proxy_port_v4(), 9001);
    assert_eq!(proxy.get_local_udp_proxy_port_v6(), 9001);
}

#[test]
fn connections_go_through_the_server() {
    let (addr, session) = proxy().handle_tcp_connection(ip(), 443);
    assert_eq!(addr, SocketAddr::new(ip(), 443));
    assert_eq!(session.cmd, Command::Connect);
    assert_eq!(session.dst, addr);
}

#[test]
fn datagrams_share_an_association() {
    let mut proxy = proxy();
    let remote = SocketAddr::new(ip(), 53);
    assert_eq!(
        proxy.handle_udp_packet(ip(), 53, 53000, 0),
        UdpStep::Associate { key: key(), remote }
    );
    assert_eq!(
        proxy.udp_associated(key(), 1, SECOND),
        Associated { assoc: 1, spawn_reader: true }
    );
    assert_eq!(
        proxy.udp_associated(key(), 2, 2 * SECOND),
        Associated { assoc: 1, spawn_reader: false }
    );
    assert_eq!(
        proxy.handle_udp_packet(ip(), 53, 53000, 3 * SECOND),
        UdpStep::Send { assoc: 1, remote }
    );
    assert!(matches!(
        proxy.handle_udp_packet(ip(), 53, 53001, 3 * SECOND),
        UdpStep::Associate { .. }
    ));
}

#[test]
fn idle_associations_are_dropped() {
    let mut proxy = proxy();
    proxy.udp_associated(key(), 1, 0);
    proxy.cleanup_stale_udp_associations(120 * SECOND - 1);
    assert_eq!(proxy.udp_connections.len(), 1);
    proxy.reader_step(key(), ReaderEvent::Forwarded, 100 * SECOND);
    proxy.cleanup_stale_udp_associations(219 * SECOND);
    assert_eq!(proxy.udp_connections.len(), 1);
    proxy.cleanup_stale_udp_associations(220 * SECOND);
    assert_eq!(proxy.udp_connections.len(), 0);
}

#[test]
fn a_reader_goes_on_while_its_association_is_there() {
    let mut proxy = proxy();
    proxy.udp_associated(key(), 1, 0);
    assert_eq!(proxy.reader_step(key(), ReaderEvent::Begin, 0), ReaderAction::Wait);
    assert_eq!(proxy.reader_step(key(), ReaderEvent::Received(0), 0), ReaderAction::Again);
    assert_eq!(proxy.reader_step(key(), ReaderEvent::Received(9), 0), ReaderAction::Forward(9));
    assert_eq!(proxy.reader_step(key(), ReaderEvent::Forwarded, 0), ReaderAction::Again);
    assert_eq!(proxy.reader_step(key(), ReaderEvent::TimedOut, 0), ReaderAction::Again);
    proxy.cleanup_stale_udp_associations(u64::MAX);
    assert_eq!(proxy.reader_step(key(), ReaderEvent::TimedOut, 0), ReaderAction::Stop);
    assert_eq!(proxy.reader_step(key(), ReaderEvent::Forwarded, 0), ReaderAction::Stop);
}

#[test]
fn a_reader_that_stops_takes_its_association_along() {
    for event in [ReaderEvent::Failed, ReaderEvent::Shutdown] {
        let mut proxy = proxy();
        proxy.udp_associated(key(), 1, 0);
        assert_eq!(proxy.reader_step(key(), event, 0), ReaderAction::Stop);
        assert_eq!(proxy.udp_connections.len(), 0);
    }
    let mut proxy = proxy();
    proxy.udp_associated(key(), 1, 0);
    proxy.stop();
    assert_eq!(proxy.reader_step(key(), ReaderEvent::Begin, 0), ReaderAction::Stop);
    assert_eq!(proxy.udp_connections.len(), 0);
}
