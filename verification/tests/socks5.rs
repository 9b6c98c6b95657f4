use proxifyre::net::{IpAddr, Ipv4Addr, Ipv6Addr, SocketAddr};
use proxifyre::proxy::endpoint::{
    finish_endpoint, parse_ip_literal, parse_socks5_endpoint, split_host_port, EndpointError,
    EndpointStep, Socks5Auth,
};
use proxifyre::proxy::session::{encode_addr, Action, Command, Session, SessionError};
use proxifyre::proxy::socks5::{
    build_udp_request, normalize_udp_relay, parse_udp_response, Datagram, DialerStep,
    Socks5Dialer, Socks5UdpAssociation, UdpError, UdpSource,
};
use proxifyre::proxy::ErrorKind;

fn v4(a: u8, b: u8, c: u8, d: u8) -> IpAddr {
    IpAddr::V4(Ipv4Addr::new(a, b, c, d))
}

fn v6(first: u8, last: u8) -> IpAddr {
    let mut octets = [0u8; 16];
    octets[0] = first;
    octets[15] = last;
    IpAddr::V6(Ipv6Addr { octets })
}

fn ready(endpoint: &str) -> (SocketAddr, Option<Socks5Auth>) {
    match parse_socks5_endpoint(endpoint) {
        Ok(EndpointStep::Ready(e)) => (e.addr, e.auth),
        other => panic!("{}: {:?}", endpoint, other),
    }
}

fn refused(endpoint: &str) -> String {
    match parse_socks5_endpoint(endpoint) {
        Err(e) => {
            assert_eq!(e.kind(), ErrorKind::InvalidInput);
            e.message()
        }
        other => panic!("{}: {:?}", endpoint, other),
    }
}

fn auth(username: &str, password: &str) -> Socks5Auth {
    Socks5Auth {
        username: username.to_string(),
        password: password.to_string(),
    }
}

#[test]
fn endpoints_with_addresses_are_read() {
    let addr = SocketAddr::new(v4(127, 0, 0, 1), 1080);
    assert_eq!(ready("127.0.0.1:1080"), (addr, None));
    assert_eq!(ready("socks5://127.0.0.1:1080"), (addr, None));
    assert_eq!(ready("socks5h:// 127.0.0.1 :1080"), (addr, None));
    assert_eq!(ready("://127.0.0.1:+1080"), (addr, None));
    assert_eq!(ready("@127.0.0.1:1080"), (addr, None));
    assert_eq!(
        ready("socks5://user:pa:ss@word@127.0.0.1:1080"),
        (addr, Some(auth("user", "pa:ss@word")))
    );
    let loopback = SocketAddr::new(v6(0, 1), 1080);
    assert_eq!(ready("socks5://[::1]:1080"), (loopback, None));
    assert_eq!(ready("u:p@[::1]:1080"), (loopback, Some(auth("u", "p"))));
    assert_eq!(ready("::1:1080"), (SocketAddr::new(v6(0, 1), 1080), None));
}

#[test]
fn host_names_are_handed_back() {
    let parts = match parse_socks5_endpoint("socks5://u:p@proxy.example:1080") {
        Ok(EndpointStep::Resolve(parts)) => parts,
        other => panic!("{:?}", other),
    };
    assert_eq!(parts.query(), "proxy.example:1080");
    let endpoint = finish_endpoint(parts, Some(v4(192, 0, 2, 1))).unwrap();
    assert_eq!(endpoint.addr, SocketAddr::new(v4(192, 0, 2, 1), 1080));
    assert_eq!(endpoint.auth, Some(auth("u", "p")));
}

#[test]
fn only_canonical_octets_are_an_address() {
    for (text, octets) in [("0.0.0.0", [0u8; 4]), ("255.10.9.100", [255, 10, 9, 100])] {
        assert_eq!(parse_ip_literal(text), Some(IpAddr::V4(Ipv4Addr { octets })));
    }
    for text in ["127.0.0.01", "256.0.0.1", "127.0.1", "127.0.0.1.", "+1.0.0.0", "0x7f.0.0.1", ""] {
        assert_eq!(parse_ip_literal(text), None);
    }
}

#[test]
fn host_names_without_address_are_refused() {
    let parts = match parse_socks5_endpoint("proxy.example:1080") {
        Ok(EndpointStep::Resolve(parts)) => parts,
        other => panic!("{:?}", other),
    };
    let error = finish_endpoint(parts, None).unwrap_err();
    assert_eq!(error, EndpointError::HostNotResolved);
    assert_eq!(error.message(), "failed to resolve SOCKS5 host");
    let parts = match parse_socks5_endpoint("proxy.example:0") {
        Ok(EndpointStep::Resolve(parts)) => parts,
        other => panic!("{:?}", other),
    };
    let error = finish_endpoint(parts, Some(v4(1, 2, 3, 4))).unwrap_err();
    assert_eq!(error, EndpointError::InvalidPort);
}

#[test]
fn malformed_endpoints_are_refused() {
    assert_eq!(refused("http://127.0.0.1:1080"), "unsupported proxy scheme: http");
    assert_eq!(refused("user@127.0.0.1:1080"), "invalid SOCKS5 credentials format");
    assert_eq!(refused(":p@127.0.0.1:1080"), "invalid SOCKS5 credentials format");
    assert_eq!(refused("u:@127.0.0.1:1080"), "invalid SOCKS5 credentials format");
    assert_eq!(refused("[::1"), "invalid IPv6 host format");
    assert_eq!(refused("[::1]1080"), "missing port separator");
    assert_eq!(refused("[::1]"), "missing port separator");
    assert_eq!(refused("localhost"), "missing port separator");
    assert_eq!(refused(":1080"), "missing SOCKS5 host");
    assert_eq!(refused("  :1080"), "missing SOCKS5 host");
    assert_eq!(refused("127.0.0.1:0"), "invalid SOCKS5 endpoint port");
    assert_eq!(refused("127.0.0.1:65536"), "invalid SOCKS5 endpoint port");
    assert_eq!(refused("127.0.0.1:"), "invalid SOCKS5 endpoint port");
    assert_eq!(refused("127.0.0.1:-1"), "invalid SOCKS5 endpoint port");
    assert_eq!(refused("ftp://u@x"), "unsupported proxy scheme: ftp");
}

#[test]
fn hosts_and_ports_are_split() {
    assert_eq!(split_host_port("[::1]:80"), Ok(("[::1]", "80")));
    assert_eq!(split_host_port("a:b:80"), Ok(("a:b", "80")));
    assert_eq!(split_host_port("ä:80"), Ok(("ä", "80")));
    assert_eq!(split_host_port(""), Err(EndpointError::MissingPortSeparator));
}

#[test]
fn address_literals_are_read() {
    assert_eq!(parse_ip_literal("203.0.113.7"), Some(v4(203, 0, 113, 7)));
    assert_eq!(parse_ip_literal("ff00::9"), Some(v6(0xff, 9)));
    assert_eq!(parse_ip_literal("203.0.113"), None);
    assert_eq!(parse_ip_literal("example.org"), None);
}

fn exchange(action: Result<Action, SessionError>) -> (Vec<u8>, usize) {
    match action {
        Ok(Action::Exchange { send, read }) => (send, read),
        other => panic!("{:?}", other),
    }
}

#[test]
fn a_connection_without_authentication() {
    let dialer = match Socks5Dialer::new("127.0.0.1:1080") {
        Ok(DialerStep::Ready(dialer)) => dialer,
        other => panic!("{:?}", other),
    };
    assert_eq!(dialer.proxy_addr(), SocketAddr::new(v4(127, 0, 0, 1), 1080));
    let mut session = dialer.connect_tcp(SocketAddr::new(v4(203, 0, 113, 7), 443));
    assert_eq!(session.greeting(), vec![5, 1, 0]);
    assert_eq!(session.phase.wanted(), 2);
    assert_eq!(
        exchange(session.feed(&[5, 0])),
        (vec![5, 1, 0, 1, 203, 0, 113, 7, 1, 187], 4)
    );
    assert_eq!(exchange(session.feed(&[5, 0, 0, 1])), (vec![], 6));
    assert_eq!(
        session.feed(&[10, 0, 0, 1, 0x1f, 0x90]),
        Ok(Action::Finish(SocketAddr::new(v4(10, 0, 0, 1), 8080)))
    );
    assert_eq!(session.phase.wanted(), 0);
}

#[test]
fn an_association_with_password() {
    let dialer = match Socks5Dialer::new("socks5://me:secret@[::1]:1080") {
        Ok(DialerStep::Ready(dialer)) => dialer,
        other => panic!("{:?}", other),
    };
    let mut session = dialer.udp_associate();
    assert_eq!(session.greeting(), vec![5, 2, 0, 2]);
    assert_eq!(
        exchange(session.feed(&[5, 2])),
        (vec![1, 2, b'm', b'e', 6, b's', b'e', b'c', b'r', b'e', b't'], 2)
    );
    assert_eq!(
        exchange(session.feed(&[1, 0])),
        (vec![5, 3, 0, 1, 0, 0, 0, 0, 0, 0], 4)
    );
    assert_eq!(exchange(session.feed(&[5, 0, 0, 4])), (vec![], 18));
    let mut reply = vec![0u8; 18];
    reply[17] = 7;
    let relay = match session.feed(&reply) {
        Ok(Action::Finish(relay)) => relay,
        other => panic!("{:?}", other),
    };
    let (addr, assoc) = dialer.associated(relay);
    assert_eq!(addr, SocketAddr::new(v6(0, 1), 7));
    assert!(assoc.prefer_ipv4_mapped_ipv6);
}

#[test]
fn the_method_octet_alone_asks_for_a_password() {
    let mut session = Session::new(
        Some(auth("u", "p")),
        Command::Connect,
        SocketAddr::new(v4(1, 2, 3, 4), 5),
    );
    assert_eq!(exchange(session.feed(&[4, 2])).0, vec![1, 1, b'u', 1, b'p']);
}

#[test]
fn a_reply_with_a_host_name() {
    let mut session = Session::new(None, Command::Connect, SocketAddr::new(v6(0x20, 1), 80));
    let (request, _) = exchange(session.feed(&[5, 0]));
    assert_eq!(request.len(), 22);
    assert_eq!(request[3], 4);
    assert_eq!(exchange(session.feed(&[5, 0, 0, 3])), (vec![], 1));
    assert_eq!(exchange(session.feed(&[7])), (vec![], 9));
    assert_eq!(
        session.feed(&[b'e', b'x', b'.', b'o', b'r', b'g', 0xff, 0, 80]),
        Ok(Action::Resolve {
            host: "ex.org\u{fffd}".to_string(),
            port: 80
        })
    );
    assert_eq!(Session::resolved(None), Err(SessionError::HostNotResolved));
    let addr = SocketAddr::new(v4(1, 1, 1, 1), 80);
    assert_eq!(Session::resolved(Some(addr)), Ok(addr));
}

fn failure(auth: Option<Socks5Auth>, replies: &[&[u8]]) -> SessionError {
    let mut session = Session::new(auth, Command::Connect, SocketAddr::new(v4(1, 2, 3, 4), 5));
    for reply in replies {
        if let Err(e) = session.feed(reply) {
            return e;
        }
    }
    panic!("no error");
}

#[test]
fn failures_of_a_session() {
    assert_eq!(failure(None, &[&[5, 2]]).message(), "SOCKS5 auth required");
    assert_eq!(failure(None, &[&[5, 255]]).message(), "SOCKS5 auth methods rejected");
    assert_eq!(failure(None, &[&[4, 0]]).message(), "SOCKS5 auth failed: [4, 0]");
    assert_eq!(failure(None, &[&[5, 128]]).message(), "SOCKS5 auth failed: [5, 128]");
    let long = auth(&"x".repeat(256), "p");
    let error = failure(Some(long), &[&[5, 2]]);
    assert_eq!(error.message(), "SOCKS5 credentials too long");
    assert_eq!(error.kind(), ErrorKind::InvalidInput);
    let error = failure(Some(auth("u", "p")), &[&[5, 2], &[1, 1]]);
    assert_eq!(error.message(), "SOCKS5 username/password auth failed");
    assert_eq!(error.kind(), ErrorKind::Other);
    let error = failure(None, &[&[5, 0], &[4, 0, 0, 1]]);
    assert_eq!(error.message(), "invalid SOCKS5 response version: 4");
    let error = failure(None, &[&[5, 0], &[5, 5, 0, 1]]);
    assert_eq!(error.message(), "SOCKS5 request failed with code: 5");
    let error = failure(None, &[&[5, 0], &[5, 0, 0, 9]]);
    assert_eq!(error.message(), "unsupported SOCKS5 address type: 9");
    assert_eq!(SessionError::HostNotResolved.message(), "failed to resolve host");
}

#[test]
fn the_longest_credentials_fit() {
    let mut session = Session::new(
        Some(auth(&"u".repeat(255), &"ü".repeat(127))),
        Command::Connect,
        SocketAddr::new(v4(1, 2, 3, 4), 5),
    );
    let (message, _) = exchange(session.feed(&[5, 2]));
    assert_eq!(message.len(), 3 + 255 + 254);
    assert_eq!(message[1], 255);
    assert_eq!(message[257], 254);
}

#[test]
fn datagrams_round_trip() {
    for dst in [
        SocketAddr::new(v4(203, 0, 113, 7), 53),
        SocketAddr::new(v6(0x20, 1), 65535),
    ] {
        let datagram = build_udp_request(dst, b"payload");
        let (offset, source) = parse_udp_response(&datagram).unwrap();
        assert_eq!(source, UdpSource::Addr(dst));
        assert_eq!(&datagram[offset..], b"payload");
    }
    let datagram = build_udp_request(SocketAddr::new(v4(1, 2, 3, 4), 258), b"x");
    assert_eq!(datagram, vec![0, 0, 0, 1, 1, 2, 3, 4, 1, 2, b'x']);
}

#[test]
fn malformed_datagrams_are_refused() {
    let cases: [(&[u8], UdpError, &str); 8] = [
        (&[0, 0, 0], UdpError::HeaderTooShort, "SOCKS5 UDP header too short"),
        (&[0, 1, 0, 1], UdpError::ReservedNotZero, "SOCKS5 UDP reserved bytes not zero"),
        (&[0, 0, 1, 1], UdpError::Fragmented, "SOCKS5 UDP fragmentation not supported"),
        (&[0, 0, 0, 1, 1, 2, 3, 4, 0], UdpError::Ipv4Truncated, "IPv4 addr truncated"),
        (&[0, 0, 0, 4, 1], UdpError::Ipv6Truncated, "IPv6 addr truncated"),
        (&[0, 0, 0, 3], UdpError::DomainTruncated, "domain truncated"),
        (&[0, 0, 0, 3, 2, b'a', b'b', 0], UdpError::DomainAddrTruncated, "domain addr truncated"),
        (
            &[0, 0, 0, 9],
            UdpError::UnsupportedAddressType(9),
            "unsupported UDP address type: 9",
        ),
    ];
    for (datagram, error, message) in cases {
        assert_eq!(parse_udp_response(datagram), Err(error));
        assert_eq!(error.message(), message);
        assert_eq!(error.kind(), ErrorKind::InvalidData);
    }
}

#[test]
fn the_payload_moves_to_the_front() {
    let assoc = Socks5UdpAssociation { prefer_ipv4_mapped_ipv6: true };
    let dst = SocketAddr::new(v4(203, 0, 113, 7), 53);
    let datagram = assoc.send_to(b"hello", dst);
    assert_eq!(datagram[3], 4);
    let mut buf = vec![0u8; 64];
    buf[..datagram.len()].copy_from_slice(&datagram);
    let got = assoc.recv_datagram(&mut buf, datagram.len()).unwrap();
    let mapped = proxifyre::net::maybe_map_ipv4_to_ipv6_mapped(dst, true);
    assert_eq!(got, Datagram::Payload { len: 5, addr: mapped });
    assert_eq!(&buf[..5], b"hello");
    let plain = Socks5UdpAssociation { prefer_ipv4_mapped_ipv6: false };
    assert_eq!(plain.send_to(b"", dst), vec![0, 0, 0, 1, 203, 0, 113, 7, 0, 53]);
}

#[test]
fn host_names_read_back() {
    for name in ["", "proxy.example", "m\u{fc}nchen.example"] {
        let mut body = name.as_bytes().to_vec();
        body.extend_from_slice(&[1, 187]);
        let mut datagram = vec![0, 0, 0, 3, name.len() as u8];
        datagram.extend_from_slice(&body);
        datagram.extend_from_slice(b"payload");
        assert_eq!(
            parse_udp_response(&datagram),
            Ok((7 + name.len(), UdpSource::Domain { host: name.to_string(), port: 443 }))
        );

        let mut session = Session::new(None, Command::Connect, SocketAddr::new(v4(1, 1, 1, 1), 80));
        let _ = exchange(session.feed(&[5, 0]));
        let _ = exchange(session.feed(&[5, 0, 0, 3]));
        assert_eq!(exchange(session.feed(&[name.len() as u8])), (vec![], body.len()));
        assert_eq!(
            session.feed(&body),
            Ok(Action::Resolve { host: name.to_string(), port: 443 })
        );
    }
}

#[test]
fn a_datagram_from_a_host_name() {
    let assoc = Socks5UdpAssociation { prefer_ipv4_mapped_ipv6: false };
    let mut buf = vec![0, 0, 0, 3, 2, b'a', b'b', 0, 53, b'x', b'y'];
    let n = buf.len();
    let got = assoc.recv_datagram(&mut buf, n).unwrap();
    assert_eq!(
        got,
        Datagram::Resolve { host: "ab".to_string(), port: 53, offset: 9 }
    );
    assert_eq!(
        assoc.resolved(&mut buf, n, 9, None),
        Err(UdpError::DomainNotResolved)
    );
    assert_eq!(UdpError::DomainNotResolved.message(), "failed to resolve domain");
    assert_eq!(UdpError::DomainNotResolved.kind(), ErrorKind::Other);
    let addr = SocketAddr::new(v4(9, 9, 9, 9), 53);
    assert_eq!(assoc.resolved(&mut buf, n, 9, Some(addr)), Ok((2, addr)));
    assert_eq!(&buf[..2], b"xy");
}

#[test]
fn the_relay_is_filled_in() {
    let any4 = SocketAddr::new(v4(0, 0, 0, 0), 7000);
    let any6 = SocketAddr::new(v6(0, 0), 7000);
    let proxy4 = SocketAddr::new(v4(192, 0, 2, 1), 1080);
    let proxy6 = SocketAddr::new(v6(0x20, 1), 1080);
    assert_eq!(normalize_udp_relay(any4, proxy4), SocketAddr::new(v4(192, 0, 2, 1), 7000));
    assert_eq!(normalize_udp_relay(any6, proxy6), SocketAddr::new(v6(0x20, 1), 7000));
    assert_eq!(normalize_udp_relay(any4, proxy6), any4);
    let compatible = SocketAddr::new(v6(0, 1), 1080);
    assert_eq!(normalize_udp_relay(any4, compatible), SocketAddr::new(v4(0, 0, 0, 1), 7000));
    let mapped = proxifyre::net::maybe_map_ipv4_to_ipv6_mapped(proxy4, true);
    assert_eq!(normalize_udp_relay(any6, proxy4), SocketAddr::new(mapped.ip(), 7000));
    let relay = SocketAddr::new(v4(198, 51, 100, 1), 7000);
    assert_eq!(normalize_udp_relay(relay, proxy4), relay);
}

#[test]
fn commands_and_addresses_are_encoded() {
    assert_eq!(Command::Connect.as_byte(), 1);
    assert_eq!(Command::UdpAssociate.as_byte(), 3);
    let mut buf = vec![9];
    encode_addr(&mut buf, SocketAddr::new(v4(1, 2, 3, 4), 0x0506));
    assert_eq!(buf, vec![9, 1, 1, 2, 3, 4, 5, 6]);
}
