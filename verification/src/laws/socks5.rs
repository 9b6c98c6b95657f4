//! The datagrams that a SOCKS5 server relays, octet by octet.
use vstd::prelude::*;
use vstd::utf8::encode_utf8;
use crate::laws::session::{
    address_length, address_stands_at, law_address_layout, law_request_layout,
};
use crate::net::{maybe_mapped, SocketAddr};
use crate::proxy::session::{encoded, Command};
use crate::proxy::socks5::{
    domain_octets, moved_to_front, payload_from, relay_addr, udp_request, udp_response,
    Socks5Dialer, UdpError, UdpOrigin, UdpSource,
};

verus! {

/// A request to the relay: three zeros, the type of the address, its octets from the fourth place
/// on, its port with the upper octet first right behind them, and then the payload alone.
pub proof fn law_request_octets(dst: SocketAddr, payload: Seq<u8>)
    ensures
        ({
            let m = udp_request(dst, payload);
            let n = 3 + address_length(dst) as int;
            &&& m.len() == n + payload.len()
            &&& m[0] == 0 && m[1] == 0 && m[2] == 0
            &&& address_stands_at(m, 3, dst)
            &&& m.skip(n) == payload
        }),
        ({
            let m = udp_request(dst, payload);
            match dst {
                SocketAddr::V4(a) => {
                    &&& m[3] == 1
                    &&& m.subrange(4, 8) == a.ip.octets@
                    &&& m[8] * 256 + m[9] == a.port
                    &&& m.skip(10) == payload
                },
                SocketAddr::V6(a) => {
                    &&& m[3] == 4
                    &&& m.subrange(4, 20) == a.ip.octets@
                    &&& m[20] * 256 + m[21] == a.port
                    &&& m.skip(22) == payload
                },
            }
        }),
{
    law_address_layout(dst);
    let m = udp_request(dst, payload);
    let e = encoded(dst);
    let n = 3 + e.len() as int;
    assert(forall|k: int| 0 <= k < e.len() ==> #[trigger] m[3 + k] == e[k]);
    assert(m.skip(n) =~= payload);
    match dst {
        SocketAddr::V4(a) => {
            assert forall|k: int| 0 <= k < 4 implies #[trigger] m[4 + k] == a.ip.octets@[k] by {
                assert(m[4 + k] == e[1 + k]);
            }
            assert(m[8] == e[5] && m[9] == e[6] && m[3] == e[0]);
            assert(m.subrange(4, 8) =~= a.ip.octets@);
        },
        SocketAddr::V6(a) => {
            assert forall|k: int| 0 <= k < 16 implies #[trigger] m[4 + k]
                == a.ip.octets@[k] by {
                assert(m[4 + k] == e[1 + k]);
            }
            assert(m[20] == e[17] && m[21] == e[18] && m[3] == e[0]);
            assert(m.subrange(4, 20) =~= a.ip.octets@);
        },
    }
}

/// A relayed datagram is read from the same places: its address, its port, and where its payload
/// begins.
pub proof fn law_response_octets(buf: Seq<u8>)
    requires
        buf.len() >= 4,
        buf[0] == 0,
        buf[1] == 0,
        buf[2] == 0,
    ensures
        buf[3] == 1 && buf.len() >= 10 ==> (udp_response(buf) matches Ok(
            (at, UdpOrigin::Addr(SocketAddr::V4(v))),
        ) && at == 10 && v.ip.octets@ == buf.subrange(4, 8)
            && v.port == buf[8] * 256 + buf[9]),
        buf[3] == 4 && buf.len() >= 22 ==> (udp_response(buf) matches Ok(
            (at, UdpOrigin::Addr(SocketAddr::V6(v))),
        ) && at == 22 && v.ip.octets@ == buf.subrange(4, 20)
            && v.port == buf[20] * 256 + buf[21] && v.flowinfo == 0 && v.scope_id == 0),
        buf[3] == 3 && buf.len() >= 5 && buf.len() >= 7 + buf[4] ==> (udp_response(buf) matches Ok(
            (at, UdpOrigin::Domain(_, port)),
        ) && at == 7 + buf[4] && port == buf[5 + buf[4]] * 256 + buf[6 + buf[4]]),
        forall|name: Seq<char>|
            buf[3] == 3 && buf.len() >= 5 && buf.len() >= 7 + buf[4] && buf.subrange(5, 5 + buf[4])
                == #[trigger] encode_utf8(name) ==> (udp_response(buf) matches Ok(
                (_, UdpOrigin::Domain(host, _)),
            ) && host == name),
        buf[3] == 1 && buf.len() < 10 ==> udp_response(buf) == Err::<(nat, UdpOrigin), UdpError>(
            UdpError::Ipv4Truncated,
        ),
        buf[3] == 4 && buf.len() < 22 ==> udp_response(buf) == Err::<(nat, UdpOrigin), UdpError>(
            UdpError::Ipv6Truncated,
        ),
        buf[3] == 3 && buf.len() < 5 ==> udp_response(buf) == Err::<(nat, UdpOrigin), UdpError>(
            UdpError::DomainTruncated,
        ),
        buf[3] == 3 && buf.len() >= 5 && buf.len() < 7 + buf[4] ==> udp_response(buf) == Err::<
            (nat, UdpOrigin),
            UdpError,
        >(UdpError::DomainAddrTruncated),
        buf[3] != 1 && buf[3] != 3 && buf[3] != 4 ==> udp_response(buf) == Err::<
            (nat, UdpOrigin),
            UdpError,
        >(UdpError::UnsupportedAddressType(buf[3])),
{
    if buf[3] == 1 && buf.len() >= 10 {
        assert(crate::net::ipv4_at(buf, 4).octets@ =~= buf.subrange(4, 8));
    }
    if buf[3] == 4 && buf.len() >= 22 {
        assert(crate::net::ipv6_at(buf, 4).octets@ =~= buf.subrange(4, 20));
    }
    assert forall|name: Seq<char>|
        buf[3] == 3 && buf.len() >= 5 && buf.len() >= 7 + buf[4] && buf.subrange(5, 5 + buf[4])
            == #[trigger] encode_utf8(name) implies (udp_response(buf) matches Ok(
        (_, UdpOrigin::Domain(host, _)),
    ) && host == name) by {
        assert(domain_octets(buf) == encode_utf8(name));
        crate::text::law_encoded_text_reads_back(name);
    }
}

/// A datagram that is too short, whose reserved octets are not zero, or that is a fragment, is
/// refused in this order.
pub proof fn law_bad_heads_are_refused(buf: Seq<u8>)
    ensures
        buf.len() < 4 ==> udp_response(buf) == Err::<(nat, UdpOrigin), UdpError>(
            UdpError::HeaderTooShort,
        ),
        buf.len() >= 4 && (buf[0] != 0 || buf[1] != 0) ==> udp_response(buf) == Err::<
            (nat, UdpOrigin),
            UdpError,
        >(UdpError::ReservedNotZero),
        buf.len() >= 4 && buf[0] == 0 && buf[1] == 0 && buf[2] != 0 ==> udp_response(buf) == Err::<
            (nat, UdpOrigin),
            UdpError,
        >(UdpError::Fragmented),
{
}

/// Datagrams go to the address that the server named. Where it named none, they go to the server's
/// own address, brought to the family of the answer, with the port that was named; an IPv6 address
/// that holds no IPv4 address changes nothing then.
pub proof fn law_relay_is_found(relay: SocketAddr, server: SocketAddr)
    ensures
        !relay.spec_ip().spec_is_unspecified() ==> relay_addr(relay, server) == relay,
        relay.spec_ip().spec_is_unspecified() ==> {
            let found = relay_addr(relay, server);
            match (relay, server) {
                (SocketAddr::V4(r), SocketAddr::V4(s)) => found matches SocketAddr::V4(f) && f.ip
                    == s.ip && f.port == r.port,
                (SocketAddr::V6(r), SocketAddr::V6(s)) => found matches SocketAddr::V6(f) && f.ip
                    == s.ip && f.port == r.port,
                (SocketAddr::V6(r), SocketAddr::V4(s)) => found matches SocketAddr::V6(f)
                    && f.port == r.port && (forall|k: int|
                    0 <= k < 10 ==> f.ip.octets@[k] == 0) && f.ip.octets@[10] == 0xff
                    && f.ip.octets@[11] == 0xff && forall|k: int|
                    12 <= k < 16 ==> f.ip.octets@[k] == s.ip.octets@[k - 12],
                (SocketAddr::V4(r), SocketAddr::V6(s)) => {
                    let zeros = forall|k: int| 0 <= k < 10 ==> s.ip.octets@[k] == 0;
                    let ones = s.ip.octets@[10] == 0xff && s.ip.octets@[11] == 0xff;
                    let none = s.ip.octets@[10] == 0 && s.ip.octets@[11] == 0;
                    if zeros && (ones || none) {
                        found matches SocketAddr::V4(f) && f.port == r.port && forall|k: int|
                            0 <= k < 4 ==> f.ip.octets@[k] == s.ip.octets@[12 + k]
                    } else {
                        found == relay
                    }
                },
            }
        },
{
    if let SocketAddr::V6(s) = server {
        crate::laws::net::law_embedded_ipv4(s.ip);
    }
}

/// Taking a header off moves what follows it to the front, and touches nothing behind.
pub proof fn law_payload_moves_to_front(buf: Seq<u8>, offset: int, n: int)
    requires
        0 <= offset <= n <= buf.len(),
    ensures
        moved_to_front(buf, offset, n).len() == buf.len(),
        forall|i: int|
            0 <= i < n - offset ==> #[trigger] moved_to_front(buf, offset, n)[i] == buf[offset + i],
        forall|i: int|
            n - offset <= i < buf.len() ==> #[trigger] moved_to_front(buf, offset, n)[i] == buf[i],
{
}

/// A source stands for its address, or for its host name and port.
pub proof fn law_sources_as_text(addr: SocketAddr, host: String, port: u16)
    ensures
        UdpSource::Addr(addr)@ == UdpOrigin::Addr(addr),
        (UdpSource::Domain { host, port })@ == UdpOrigin::Domain(host@, port),
{
}

/// A server at an IPv6 address is asked for IPv6 destinations alone, an IPv4 one being written in
/// its mapped form with the same port; a server at an IPv4 address is asked for what it is.
pub proof fn law_destinations_suit_the_server(dialer: Socks5Dialer, dst: SocketAddr)
    requires
        dialer.wf(),
    ensures
        dialer.proxy_addr is V4 ==> maybe_mapped(dst, dialer.prefer_ipv4_mapped_ipv6) == dst,
        dialer.proxy_addr is V6 ==> maybe_mapped(dst, dialer.prefer_ipv4_mapped_ipv6) is V6,
        maybe_mapped(dst, dialer.prefer_ipv4_mapped_ipv6).spec_port() == dst.spec_port(),
        dst is V6 ==> maybe_mapped(dst, dialer.prefer_ipv4_mapped_ipv6) == dst,
{
}

/// The payload of a datagram starts at the tenth octet behind an IPv4 address and at the
/// twenty-second behind an IPv6 address, and ends with the datagram; its source is the address and
/// port in the header.
pub proof fn law_payload_and_source(buf: Seq<u8>, n: int)
    requires
        0 <= n <= buf.len(),
    ensures
        n >= 10 && buf[0] == 0 && buf[1] == 0 && buf[2] == 0 && buf[3] == 1 ==> (payload_from(
            buf,
            n,
        ) matches Some((payload, SocketAddr::V4(a))) && payload == buf.subrange(10, n) && (forall|
            k: int,
        |
            0 <= k < 4 ==> a.ip.octets@[k] == buf[4 + k]) && a.port == buf[8] * 256 + buf[9]),
        n >= 22 && buf[0] == 0 && buf[1] == 0 && buf[2] == 0 && buf[3] == 4 ==> (payload_from(
            buf,
            n,
        ) matches Some((payload, SocketAddr::V6(a))) && payload == buf.subrange(22, n) && (forall|
            k: int,
        |
            0 <= k < 16 ==> a.ip.octets@[k] == buf[4 + k]) && a.port == buf[20] * 256 + buf[21]),
        n < 4 || buf[0] != 0 || buf[1] != 0 || buf[2] != 0 || (buf[3] != 1 && buf[3] != 4)
            ==> payload_from(buf, n) is None,
{
    let d = buf.take(n);
    assert(forall|k: int| 0 <= k < n ==> d[k] == buf[k]);
}

/// What a server is asked for, octet by octet: a connection to the destination in the form that
/// suits the server, or a relay at whatever address the server likes.
pub proof fn law_requests_of_a_dialer(dialer: Socks5Dialer, dst: SocketAddr)
    ensures
        dialer.associate_request() == seq![5u8, 3, 0, 1, 0, 0, 0, 0, 0, 0],
        ({
            let m = dialer.connect_request(dst);
            let to = maybe_mapped(dst, dialer.prefer_ipv4_mapped_ipv6);
            &&& m.len() == 3 + address_length(to)
            &&& m[0] == 5 && m[1] == 1 && m[2] == 0
            &&& address_stands_at(m, 3, to)
        }),
{
    law_request_layout(Command::Connect, maybe_mapped(dst, dialer.prefer_ipv4_mapped_ipv6));
    assert(dialer.associate_request() =~= seq![5u8, 3, 0, 1, 0, 0, 0, 0, 0, 0]);
}

} // verus!
