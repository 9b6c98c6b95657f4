use proxifyre::net::{IpAddr, Ipv4Addr, Ipv6Addr};
use proxifyre::router::packet::{
    apply_rewrite, can_apply_rewrite, parse_packet_info, PacketInfo, PacketKind, PacketStep,
    PortRewrite, ProxyDirection,
};
use proxifyre::router::SocksLocalRouter;

const SRC4: [u8; 4] = [192, 0, 2, 10];
const DST4: [u8; 4] = [203, 0, 113, 7];

fn src6() -> [u8; 16] {
    let mut a = [0u8; 16];
    a[0] = 0x20;
    a[1] = 0x01;
    a[15] = 1;
    a
}

fn dst6() -> [u8; 16] {
    let mut a = [0u8; 16];
    a[0] = 0x20;
    a[1] = 0x01;
    a[2] = 0x0d;
    a[3] = 0xb8;
    a[15] = 2;
    a
}

fn ones_sum(data: &[u8], start: u32) -> u32 {
    let mut sum = start;
    let mut i = 0;
    while i < data.len() {
        let hi = data[i] as u32;
        let lo = if i + 1 < data.len() { data[i + 1] as u32 } else { 0 };
        sum += hi * 256 + lo;
        i += 2;
    }
    while sum > 0xffff {
        sum = (sum & 0xffff) + (sum >> 16);
    }
    sum
}

fn pseudo_sum(src: &[u8], dst: &[u8], protocol: u8, segment: &[u8]) -> u32 {
    let mut sum = ones_sum(src, 0);
    sum = ones_sum(dst, sum);
    sum += protocol as u32 + segment.len() as u32;
    ones_sum(segment, sum)
}

fn ethernet(ethertype: u16, payload: &[u8]) -> Vec<u8> {
    let mut frame = vec![2, 2, 2, 2, 2, 2, 1, 1, 1, 1, 1, 1];
    frame.push((ethertype >> 8) as u8);
    frame.push(ethertype as u8);
    frame.extend_from_slice(payload);
    frame
}

fn ipv4(protocol: u8, src: [u8; 4], dst: [u8; 4], payload: &[u8]) -> Vec<u8> {
    let total = 20 + payload.len();
    let mut p = vec![0x45, 0, (total >> 8) as u8, total as u8, 0, 1, 0, 0, 64, protocol, 0, 0];
    p.extend_from_slice(&src);
    p.extend_from_slice(&dst);
    p.extend_from_slice(payload);
    p
}

fn ipv6(protocol: u8, src: [u8; 16], dst: [u8; 16], payload: &[u8]) -> Vec<u8> {
    let mut p = vec![0x60, 0, 0, 0, (payload.len() >> 8) as u8, payload.len() as u8, protocol, 64];
    p.extend_from_slice(&src);
    p.extend_from_slice(&dst);
    p.extend_from_slice(payload);
    p
}

fn tcp(src: u16, dst: u16, flags: u8, data: &[u8]) -> Vec<u8> {
    let mut s = vec![(src >> 8) as u8, src as u8, (dst >> 8) as u8, dst as u8];
    s.extend_from_slice(&[0, 0, 0, 1, 0, 0, 0, 0, 0x50, flags, 0x20, 0, 0, 0, 0, 0]);
    s.extend_from_slice(data);
    s
}

fn udp(src: u16, dst: u16, data: &[u8]) -> Vec<u8> {
    let len = 8 + data.len();
    let mut s = vec![(src >> 8) as u8, src as u8, (dst >> 8) as u8, dst as u8];
    s.extend_from_slice(&[(len >> 8) as u8, len as u8, 0, 0]);
    s.extend_from_slice(data);
    s
}

fn v4(octets: [u8; 4]) -> IpAddr {
    IpAddr::V4(Ipv4Addr { octets })
}

fn v6(octets: [u8; 16]) -> IpAddr {
    IpAddr::V6(Ipv6Addr { octets })
}

#[test]
fn tcp_over_ipv4_is_read() {
    let frame = ethernet(0x0800, &ipv4(6, SRC4, DST4, &tcp(50000, 443, 0x02, b"")));
    assert_eq!(
        parse_packet_info(&frame),
        Some(PacketInfo {
            kind: PacketKind::TcpV4,
            src_ip: v4(SRC4),
            dst_ip: v4(DST4),
            src_port: 50000,
            dst_port: 443,
            syn: true,
            ack: false,
            rst: false,
            fin: false,
        })
    );
}

#[test]
fn tcp_flags_are_read() {
    for (flags, syn, ack, rst, fin) in [
        (0x12u8, true, true, false, false),
        (0x14, false, true, true, false),
        (0x11, false, true, false, true),
        (0x00, false, false, false, false),
    ] {
        let frame = ethernet(0x86dd, &ipv6(6, src6(), dst6(), &tcp(1, 2, flags, b"x")));
        let info = parse_packet_info(&frame).unwrap();
        assert_eq!(info.kind, PacketKind::TcpV6);
        assert_eq!((info.syn, info.ack, info.rst, info.fin), (syn, ack, rst, fin));
    }
}

#[test]
fn udp_over_both_families_is_read() {
    let frame = ethernet(0x0800, &ipv4(17, SRC4, DST4, &udp(53000, 53, b"query")));
    let info = parse_packet_info(&frame).unwrap();
    assert_eq!(info.kind, PacketKind::UdpV4);
    assert_eq!((info.src_port, info.dst_port), (53000, 53));
    assert_eq!(info.src(), proxifyre::net::SocketAddr::new(v4(SRC4), 53000));
    assert_eq!(info.dst(), proxifyre::net::SocketAddr::new(v4(DST4), 53));

    let frame = ethernet(0x86dd, &ipv6(17, src6(), dst6(), &udp(53000, 53, b"query")));
    let info = parse_packet_info(&frame).unwrap();
    assert_eq!(info.kind, PacketKind::UdpV6);
    assert_eq!((info.src_ip, info.dst_ip), (v6(src6()), v6(dst6())));
}

#[test]
fn datagrams_to_many_receivers_are_not_read() {
    for dst in [[224, 0, 0, 251], [239, 255, 255, 250], [255, 255, 255, 255]] {
        let frame = ethernet(0x0800, &ipv4(17, SRC4, dst, &udp(1, 2, b"")));
        assert_eq!(parse_packet_info(&frame), None);
    }
    let mut group = [0u8; 16];
    group[0] = 0xff;
    group[1] = 0x02;
    let frame = ethernet(0x86dd, &ipv6(17, src6(), group, &udp(1, 2, b"")));
    assert_eq!(parse_packet_info(&frame), None);
}

#[test]
fn other_frames_are_not_read() {
    assert_eq!(parse_packet_info(&[]), None);
    assert_eq!(parse_packet_info(&[0u8; 13]), None);
    let arp = ethernet(0x0806, &[0u8; 28]);
    assert_eq!(parse_packet_info(&arp), None);
    let icmp = ethernet(0x0800, &ipv4(1, SRC4, DST4, &[8, 0, 0, 0, 0, 0, 0, 0]));
    assert_eq!(parse_packet_info(&icmp), None);
    let mut cut = ethernet(0x0800, &ipv4(6, SRC4, DST4, &tcp(1, 2, 2, b"")));
    cut.truncate(14 + 30);
    assert_eq!(parse_packet_info(&cut), None);
    let short_udp = ethernet(0x0800, &ipv4(17, SRC4, DST4, &[0, 1, 0, 2]));
    assert_eq!(parse_packet_info(&short_udp), None);
}

#[test]
fn rewrite_to_proxy_turns_a_tcp_segment() {
    let mut frame = ethernet(0x0800, &ipv4(6, SRC4, DST4, &tcp(50000, 443, 0x02, b"hello")));
    let before = frame.clone();
    let rewrite = PortRewrite::ToProxy(10800);
    assert!(can_apply_rewrite(&frame, PacketKind::TcpV4, rewrite));
    let direction = apply_rewrite(&mut frame, PacketKind::TcpV4, Some(rewrite));
    assert_eq!(direction, Some(ProxyDirection::ToProxy));
    let info = parse_packet_info(&frame).unwrap();
    assert_eq!((info.src_ip, info.src_port), (v4(DST4), 50000));
    assert_eq!((info.dst_ip, info.dst_port), (v4(SRC4), 10800));
    assert_eq!(&frame[0..6], &before[6..12]);
    assert_eq!(&frame[6..12], &before[0..6]);
    assert_eq!(&frame[54..], b"hello");
    assert_eq!(ones_sum(&frame[14..34], 0), 0xffff);
    assert_eq!(pseudo_sum(&DST4, &SRC4, 6, &frame[34..]), 0xffff);
}

#[test]
fn rewrite_from_proxy_turns_a_tcp_segment_back() {
    let original = ethernet(0x0800, &ipv4(6, SRC4, DST4, &tcp(50000, 443, 0x10, b"")));
    let mut reply = ethernet(0x0800, &ipv4(6, SRC4, DST4, &tcp(10800, 50000, 0x10, b"page")));
    let rewrite = PortRewrite::FromProxy(443);
    let direction = apply_rewrite(&mut reply, PacketKind::TcpV4, Some(rewrite));
    assert_eq!(direction, Some(ProxyDirection::FromProxy));
    let info = parse_packet_info(&reply).unwrap();
    let first = parse_packet_info(&original).unwrap();
    assert_eq!(info.src(), first.dst());
    assert_eq!(info.dst(), first.src());
    assert_eq!(pseudo_sum(&DST4, &SRC4, 6, &reply[34..]), 0xffff);
}

#[test]
fn rewrite_turns_a_udp_datagram_over_ipv6() {
    let mut frame = ethernet(0x86dd, &ipv6(17, src6(), dst6(), &udp(53000, 53, b"abc")));
    let direction =
        apply_rewrite(&mut frame, PacketKind::UdpV6, Some(PortRewrite::ToProxy(20000)));
    assert_eq!(direction, Some(ProxyDirection::ToProxy));
    let info = parse_packet_info(&frame).unwrap();
    assert_eq!((info.src_ip, info.src_port), (v6(dst6()), 53000));
    assert_eq!((info.dst_ip, info.dst_port), (v6(src6()), 20000));
    assert_eq!(pseudo_sum(&dst6(), &src6(), 17, &frame[54..]), 0xffff);
}

#[test]
fn rewrite_turns_the_other_two_kinds() {
    let mut frame = ethernet(0x0800, &ipv4(17, SRC4, DST4, &udp(53000, 53, b"q")));
    apply_rewrite(&mut frame, PacketKind::UdpV4, Some(PortRewrite::FromProxy(7)));
    let info = parse_packet_info(&frame).unwrap();
    assert_eq!((info.src_port, info.dst_port), (7, 53));
    assert_eq!(pseudo_sum(&DST4, &SRC4, 17, &frame[34..]), 0xffff);

    let mut frame = ethernet(0x86dd, &ipv6(6, src6(), dst6(), &tcp(9, 80, 0x10, b"zz")));
    apply_rewrite(&mut frame, PacketKind::TcpV6, Some(PortRewrite::FromProxy(7)));
    let info = parse_packet_info(&frame).unwrap();
    assert_eq!((info.src_port, info.dst_port), (7, 80));
    assert_eq!(pseudo_sum(&dst6(), &src6(), 6, &frame[54..]), 0xffff);
}

#[test]
fn without_rewrite_a_frame_stays() {
    let mut frame = ethernet(0x0800, &ipv4(6, SRC4, DST4, &tcp(50000, 443, 0x02, b"hello")));
    let before = frame.clone();
    assert_eq!(apply_rewrite(&mut frame, PacketKind::TcpV4, None), None);
    assert_eq!(frame, before);
    let mut short = vec![0u8; 10];
    let direction = apply_rewrite(&mut short, PacketKind::TcpV4, Some(PortRewrite::ToProxy(1)));
    assert_eq!(direction, None);
    assert_eq!(short, vec![0u8; 10]);
}

#[test]
fn a_rewrite_keeps_everything_else() {
    let mut frame = ethernet(0x0800, &ipv4(6, SRC4, DST4, &tcp(50000, 443, 0x18, b"payload")));
    let before = frame.clone();
    apply_rewrite(&mut frame, PacketKind::TcpV4, Some(PortRewrite::ToProxy(10800)));
    assert_eq!(frame.len(), before.len());
    for i in 0..frame.len() {
        let changes = i < 12 || (24..34).contains(&i) || (34..38).contains(&i) || i == 50 || i == 51;
        if !changes {
            assert_eq!(frame[i], before[i], "octet {}", i);
        }
    }
}

#[test]
fn kinds_are_labelled() {
    assert_eq!(PacketKind::TcpV4.label(), "TCP");
    assert_eq!(PacketKind::TcpV6.label(), "TCPv6");
    assert_eq!(PacketKind::UdpV4.label(), "UDP");
    assert_eq!(PacketKind::UdpV6.label(), "UDPv6");
    assert!(PacketKind::UdpV6.is_v6() && PacketKind::TcpV6.is_v6());
    assert!(!PacketKind::UdpV4.is_v6() && !PacketKind::TcpV4.is_v6());
    assert!(PacketKind::UdpV4.is_udp() && !PacketKind::TcpV4.is_udp());
}

#[test]
fn an_ipv4_header_without_length_does_not_take_every_port() {
    let mut frame = ethernet(0x0800, &ipv4(6, SRC4, DST4, &tcp(1, 2, 0x50, b"")));
    frame[14] = 0x40;
    frame[26] = 0x50;
    assert!(can_apply_rewrite(&frame, PacketKind::TcpV4, PortRewrite::ToProxy(40)));
    assert!(!can_apply_rewrite(&frame, PacketKind::TcpV4, PortRewrite::ToProxy(60000)));
}

fn router() -> SocksLocalRouter {
    let mut router = SocksLocalRouter::new("adapter".to_string(), 0);
    assert!(router.add_socks5_proxy("198.51.100.1:1080").is_ok());
    router.proxies[0].tcp_listening(40001);
    router.proxies[0].udp_listening(40002);
    router.associate_process_name_to_proxy("firefox", 0).unwrap();
    router
}

fn sent_and_answered(frame: Vec<u8>, reply: Vec<u8>, udp: bool) {
    let mut router = router();
    let first = parse_packet_info(&frame).unwrap();
    let mut sent = frame;
    assert_eq!(router.process_packet(&sent, 1), PacketStep::Lookup(first));
    let rewrite = router.process_found(&first, Some("C:\\firefox.exe"), 1);
    apply_rewrite(&mut sent, first.kind, rewrite);
    let seen = parse_packet_info(&sent).unwrap();
    let answer = if udp {
        router.query_udp(seen.src(), seen.dst())
    } else {
        router.query_tcp(seen.src(), seen.dst())
    };
    assert_eq!(answer, Ok((first.dst_ip, first.dst_port)));

    let mut got = reply;
    let back = parse_packet_info(&got).unwrap();
    let rewrite = match router.process_packet(&got, 2) {
        PacketStep::Rewrite(_, rewrite) => Some(rewrite),
        PacketStep::Lookup(info) => router.process_found(&info, None, 2),
        PacketStep::Pass => None,
    };
    assert_eq!(rewrite, Some(PortRewrite::FromProxy(first.dst_port)));
    apply_rewrite(&mut got, back.kind, rewrite);
    let seen = parse_packet_info(&got).unwrap();
    assert_eq!((seen.src(), seen.dst()), (first.dst(), first.src()));
}

#[test]
fn a_tcp_frame_is_traced_and_answered() {
    sent_and_answered(
        ethernet(0x0800, &ipv4(6, SRC4, DST4, &tcp(50000, 443, 0x02, b""))),
        ethernet(0x0800, &ipv4(6, SRC4, DST4, &tcp(40001, 50000, 0x12, b""))),
        false,
    );
}

#[test]
fn a_udp_frame_is_traced_and_answered() {
    sent_and_answered(
        ethernet(0x86dd, &ipv6(17, src6(), dst6(), &udp(53000, 53, b"query"))),
        ethernet(0x86dd, &ipv6(17, src6(), dst6(), &udp(40002, 53000, b"answer"))),
        true,
    );
}
