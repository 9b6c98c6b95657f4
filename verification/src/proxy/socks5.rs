//! The SOCKS5 client: where the server is, and the datagrams that it relays.
use vstd::prelude::*;
use vstd::utf8::{encode_utf8, valid_utf8};
use vstd::string::StringExecFns;
use crate::net::{
    be16, be16_bytes, ipv4_at, ipv6_at, lemma_be16_roundtrip, lemma_ipv4_octets, lemma_ipv6_octets, mapped,
    maybe_map_ipv4_to_ipv6_mapped, maybe_mapped, read_be16, read_ipv4, read_ipv6, IpAddr, Ipv4Addr,
    SocketAddr,
};
use crate::proxy::endpoint;
use crate::proxy::endpoint::{
    auth_view, parts_of, spells, with_port, Endpoint, EndpointError, EndpointFault, EndpointParts,
    EndpointStep, Socks5Auth,
};
use crate::proxy::session::{encode_addr, encoded, request_message, Command, Session};
use crate::proxy::ErrorKind;
use crate::text;
use crate::text::{append_bytes, decimal, decoded_text};

verus! {

/// Why a datagram of the relay is no SOCKS5 datagram.
#[derive(Clone, Copy, Debug, PartialEq, Eq, Structural)]
pub enum UdpError {
    HeaderTooShort,
    ReservedNotZero,
    Fragmented,
    Ipv4Truncated,
    Ipv6Truncated,
    DomainTruncated,
    DomainAddrTruncated,
    UnsupportedAddressType(u8),
    DomainNotResolved,
}

impl UdpError {
    /// What is told to the user.
    pub open spec fn spec_message(self) -> Seq<char> {
        match self {
            UdpError::HeaderTooShort => "SOCKS5 UDP header too short"@,
            UdpError::ReservedNotZero => "SOCKS5 UDP reserved bytes not zero"@,
            UdpError::Fragmented => "SOCKS5 UDP fragmentation not supported"@,
            UdpError::Ipv4Truncated => "IPv4 addr truncated"@,
            UdpError::Ipv6Truncated => "IPv6 addr truncated"@,
            UdpError::DomainTruncated => "domain truncated"@,
            UdpError::DomainAddrTruncated => "domain addr truncated"@,
            UdpError::UnsupportedAddressType(t) => "unsupported UDP address type: "@ + decimal(
                t as nat,
            ),
            UdpError::DomainNotResolved => "failed to resolve domain"@,
        }
    }

    /// What is told to the user.
    pub fn message(&self) -> (r: String)
        ensures
            r@ == self.spec_message(),
    {
        match *self {
            UdpError::HeaderTooShort => "SOCKS5 UDP header too short".to_owned(),
            UdpError::ReservedNotZero => "SOCKS5 UDP reserved bytes not zero".to_owned(),
            UdpError::Fragmented => "SOCKS5 UDP fragmentation not supported".to_owned(),
            UdpError::Ipv4Truncated => "IPv4 addr truncated".to_owned(),
            UdpError::Ipv6Truncated => "IPv6 addr truncated".to_owned(),
            UdpError::DomainTruncated => "domain truncated".to_owned(),
            UdpError::DomainAddrTruncated => "domain addr truncated".to_owned(),
            UdpError::UnsupportedAddressType(t) => {
                let mut out = "unsupported UDP address type: ".to_owned();
                text::append_decimal(&mut out, t as u64);
                out
            },
            UdpError::DomainNotResolved => "failed to resolve domain".to_owned(),
        }
    }

    /// A malformed datagram is invalid data; a name without an address is not.
    pub fn kind(&self) -> (r: ErrorKind)
        ensures
            r == if *self is DomainNotResolved {
                ErrorKind::Other
            } else {
                ErrorKind::InvalidData
            },
    {
        match *self {
            UdpError::DomainNotResolved => ErrorKind::Other,
            _ => ErrorKind::InvalidData,
        }
    }
}

/// The datagram that asks the relay to send `payload` to `dst`.
pub open spec fn udp_request(dst: SocketAddr, payload: Seq<u8>) -> Seq<u8> {
    seq![0x00u8, 0x00, 0x00] + encoded(dst) + payload
}

/// The datagram that asks the relay to send `payload` to `dst`.
pub fn build_udp_request(dst: SocketAddr, payload: &[u8]) -> (r: Vec<u8>)
    ensures
        r@ == udp_request(dst, payload@),
{
    let mut buf: Vec<u8> = Vec::new();
    buf.push(0x00);
    buf.push(0x00);
    buf.push(0x00);
    encode_addr(&mut buf, dst);
    append_bytes(&mut buf, payload);
    assert(buf@ =~= udp_request(dst, payload@));
    buf
}

/// Where a datagram came from, as its header says.
#[derive(Debug, PartialEq, Eq)]
pub enum UdpSource {
    Addr(SocketAddr),
    Domain { host: String, port: u16 },
}

/// A `UdpSource` with its text as a sequence of characters.
pub enum UdpOrigin {
    Addr(SocketAddr),
    Domain(Seq<char>, u16),
}

impl View for UdpSource {
    type V = UdpOrigin;

    open spec fn view(&self) -> UdpOrigin {
        match self {
            UdpSource::Addr(a) => UdpOrigin::Addr(*a),
            UdpSource::Domain { host, port } => UdpOrigin::Domain(host@, *port),
        }
    }
}

/// The octets of the host name in the header of a relayed datagram.
pub open spec fn domain_octets(buf: Seq<u8>) -> Seq<u8> {
    buf.subrange(5, 5 + buf[4])
}

/// Where the payload of a relayed datagram begins, and where the datagram came from.
pub open spec fn udp_response(buf: Seq<u8>) -> Result<(nat, UdpOrigin), UdpError> {
    if buf.len() < 4 {
        Err(UdpError::HeaderTooShort)
    } else if buf[0] != 0x00 || buf[1] != 0x00 {
        Err(UdpError::ReservedNotZero)
    } else if buf[2] != 0x00 {
        Err(UdpError::Fragmented)
    } else if buf[3] == 0x01 {
        if buf.len() < 10 {
            Err(UdpError::Ipv4Truncated)
        } else {
            Ok(
                (
                    10,
                    UdpOrigin::Addr(
                        SocketAddr::spec_new(IpAddr::V4(ipv4_at(buf, 4)), be16(buf, 8)),
                    ),
                ),
            )
        }
    } else if buf[3] == 0x04 {
        if buf.len() < 22 {
            Err(UdpError::Ipv6Truncated)
        } else {
            Ok(
                (
                    22,
                    UdpOrigin::Addr(
                        SocketAddr::spec_new(IpAddr::V6(ipv6_at(buf, 4)), be16(buf, 20)),
                    ),
                ),
            )
        }
    } else if buf[3] == 0x03 {
        if buf.len() < 5 {
            Err(UdpError::DomainTruncated)
        } else {
            let n = buf[4] as nat;
            if buf.len() < 5 + n + 2 {
                Err(UdpError::DomainAddrTruncated)
            } else {
                Ok(
                    (
                        5 + n + 2,
                        UdpOrigin::Domain(
                            decoded_text(domain_octets(buf)),
                            be16(buf, 5 + n as int),
                        ),
                    ),
                )
            }
        }
    } else {
        Err(UdpError::UnsupportedAddressType(buf[3]))
    }
}

/// Reads the header of a relayed datagram: where the payload begins, and where the datagram
/// came from.
pub fn parse_udp_response(buf: &[u8]) -> (r: Result<(usize, UdpSource), UdpError>)
    ensures
        match r {
            Ok((offset, source)) => udp_response(buf@) == Ok::<(nat, UdpOrigin), UdpError>(
                (offset as nat, source@),
            ) && offset <= buf@.len(),
            Err(e) => udp_response(buf@) == Err::<(nat, UdpOrigin), UdpError>(e),
        },
        r matches Ok((_, UdpSource::Domain { host, .. })) ==> valid_utf8(domain_octets(buf@))
            ==> encode_utf8(host@) == domain_octets(buf@),
{
    let len: usize = buf.len();
    if len < 4 {
        return Err(UdpError::HeaderTooShort);
    }
    if buf[0] != 0x00 || buf[1] != 0x00 {
        return Err(UdpError::ReservedNotZero);
    }
    if buf[2] != 0x00 {
        return Err(UdpError::Fragmented);
    }
    match buf[3] {
        0x01 => {
            if len < 10 {
                return Err(UdpError::Ipv4Truncated);
            }
            let ip = read_ipv4(buf, 4);
            Ok((10, UdpSource::Addr(SocketAddr::new(IpAddr::V4(ip), read_be16(buf, 8)))))
        },
        0x04 => {
            if len < 22 {
                return Err(UdpError::Ipv6Truncated);
            }
            let ip = read_ipv6(buf, 4);
            Ok((22, UdpSource::Addr(SocketAddr::new(IpAddr::V6(ip), read_be16(buf, 20)))))
        },
        0x03 => {
            if len < 5 {
                return Err(UdpError::DomainTruncated);
            }
            let n: usize = buf[4] as usize;
            if len < 5 + n + 2 {
                return Err(UdpError::DomainAddrTruncated);
            }
            let host = text::text_of_bytes(&buf[5..5 + n]);
            Ok((5 + n + 2, UdpSource::Domain { host, port: read_be16(buf, 5 + n) }))
        },
        t => Err(UdpError::UnsupportedAddressType(t)),
    }
}

/// A datagram reads back as it was written: the address it was built with, without flow
/// information and scope, and the payload untouched behind the header.
pub proof fn law_udp_round_trip(dst: SocketAddr, payload: Seq<u8>)
    ensures
        udp_response(udp_request(dst, payload)) matches Ok((offset, origin)) && origin
            == UdpOrigin::Addr(SocketAddr::spec_new(dst.spec_ip(), dst.spec_port())) && offset
            <= udp_request(dst, payload).len() && udp_request(dst, payload).skip(offset as int)
            == payload,
{
    let buf = udp_request(dst, payload);
    match dst {
        SocketAddr::V4(v4) => {
            assert(ipv4_at(buf, 4).octets@ =~= v4.ip.octets@);
            lemma_ipv4_octets(ipv4_at(buf, 4), v4.ip);
            lemma_be16_roundtrip(v4.port, buf, 8);
            assert(buf.skip(10) =~= payload);
        },
        SocketAddr::V6(v6) => {
            assert(ipv6_at(buf, 4).octets@ =~= v6.ip.octets@);
            lemma_ipv6_octets(ipv6_at(buf, 4), v6.ip);
            lemma_be16_roundtrip(v6.port, buf, 20);
            assert(buf.skip(22) =~= payload);
        },
    }
}

/// The address to send datagrams to: the relay's own, or, where the server left it open, the
/// server's address with the relay's port.
pub open spec fn relay_addr(relay: SocketAddr, proxy_addr: SocketAddr) -> SocketAddr {
    match relay {
        SocketAddr::V4(v4) if v4.ip == Ipv4Addr::spec_unspecified() => match proxy_addr.spec_ip() {
            IpAddr::V4(ip) => SocketAddr::spec_new(IpAddr::V4(ip), v4.port),
            IpAddr::V6(ip) => match ip.spec_to_ipv4() {
                Some(v4_ip) => SocketAddr::spec_new(IpAddr::V4(v4_ip), v4.port),
                None => relay,
            },
        },
        SocketAddr::V6(v6) if v6.ip.spec_is_unspecified() => match proxy_addr.spec_ip() {
            IpAddr::V6(ip) => SocketAddr::spec_new(IpAddr::V6(ip), v6.port),
            IpAddr::V4(ip) => SocketAddr::spec_new(IpAddr::V6(mapped(ip)), v6.port),
        },
        _ => relay,
    }
}

/// The address to send datagrams to: the relay's own, or, where the server left it open, the
/// server's address with the relay's port.
pub fn normalize_udp_relay(relay: SocketAddr, proxy_addr: SocketAddr) -> (r: SocketAddr)
    ensures
        r == relay_addr(relay, proxy_addr),
{
    match relay {
        SocketAddr::V4(v4) => {
            if !v4.ip.is_unspecified() {
                return relay;
            }
            match proxy_addr.ip() {
                IpAddr::V4(ip) => SocketAddr::new(IpAddr::V4(ip), v4.port),
                IpAddr::V6(ip) => match ip.to_ipv4() {
                    Some(v4_ip) => SocketAddr::new(IpAddr::V4(v4_ip), v4.port),
                    None => relay,
                },
            }
        },
        SocketAddr::V6(v6) => {
            if !v6.ip.is_unspecified() {
                return relay;
            }
            match proxy_addr.ip() {
                IpAddr::V6(ip) => SocketAddr::new(IpAddr::V6(ip), v6.port),
                IpAddr::V4(ip) => SocketAddr::new(IpAddr::V6(ip.to_ipv6_mapped()), v6.port),
            }
        },
    }
}

/// Filling in the relay's address keeps its port and its family.
pub proof fn law_relay_keeps_port_and_family(relay: SocketAddr, proxy_addr: SocketAddr)
    ensures
        relay_addr(relay, proxy_addr).spec_port() == relay.spec_port(),
        relay_addr(relay, proxy_addr) is V4 <==> relay is V4,
{
}

/// The client of one SOCKS5 server.
#[derive(Debug, PartialEq, Eq)]
pub struct Socks5Dialer {
    pub proxy_addr: SocketAddr,
    pub auth: Option<Socks5Auth>,
    pub prefer_ipv4_mapped_ipv6: bool,
}

/// What making a client comes to: the client, or a host name that has to be resolved first.
#[derive(Debug, PartialEq, Eq)]
pub enum DialerStep {
    Ready(Socks5Dialer),
    Resolve(EndpointParts),
}

impl Socks5Dialer {
    /// IPv4 destinations are written in IPv4-mapped form exactly when the server itself has
    /// an IPv6 address.
    pub open spec fn wf(self) -> bool {
        self.prefer_ipv4_mapped_ipv6 == (self.proxy_addr is V6)
    }

    /// The request for a connection to `dst`.
    pub open spec fn connect_request(self, dst: SocketAddr) -> Seq<u8> {
        request_message(Command::Connect, maybe_mapped(dst, self.prefer_ipv4_mapped_ipv6))
    }

    /// The request for a relay of datagrams.
    pub open spec fn associate_request(self) -> Seq<u8> {
        request_message(
            Command::UdpAssociate,
            SocketAddr::spec_new(IpAddr::V4(Ipv4Addr::spec_unspecified()), 0),
        )
    }

    fn of_endpoint(endpoint: Endpoint) -> (r: Self)
        ensures
            r.wf(),
            r.proxy_addr == endpoint.addr,
            r.auth == endpoint.auth,
    {
        let prefer_ipv4_mapped_ipv6 = endpoint.addr.is_ipv6();
        Socks5Dialer { proxy_addr: endpoint.addr, auth: endpoint.auth, prefer_ipv4_mapped_ipv6 }
    }

    /// Reads the endpoint of a server. A host that is no address is handed back to be
    /// resolved, and the client is then made by `resolved`.
    pub fn new(endpoint: &str) -> (r: Result<DialerStep, EndpointError>)
        ensures
            match parts_of(endpoint@) {
                Err(fault) => r matches Err(e) && e@ == fault,
                Ok(parts) => exists|ip: Option<IpAddr>| #[trigger]
                    spells(parts.host, ip) && match r {
                        Ok(DialerStep::Resolve(p)) => ip is None && p@ == parts,
                        Ok(DialerStep::Ready(d)) => ip is Some && d.wf() && with_port(
                            ip,
                            parts.port,
                        ) == Ok::<SocketAddr, EndpointFault>(d.proxy_addr) && auth_view(d.auth)
                            == parts.auth,
                        Err(e) => ip is Some && with_port(ip, parts.port) == Err::<
                            SocketAddr,
                            EndpointFault,
                        >(e@),
                    },
            },
    {
        match endpoint::parse_socks5_endpoint(endpoint) {
            Ok(EndpointStep::Ready(e)) => Ok(DialerStep::Ready(Socks5Dialer::of_endpoint(e))),
            Ok(EndpointStep::Resolve(parts)) => Ok(DialerStep::Resolve(parts)),
            Err(e) => Err(e),
        }
    }

    /// Makes the client of a server whose host name was resolved. `None` means that the name
    /// has no address.
    pub fn resolved(parts: EndpointParts, ip: Option<IpAddr>) -> (r: Result<
        Socks5Dialer,
        EndpointError,
    >)
        ensures
            match r {
                Ok(d) => d.wf() && with_port(ip, parts@.port) == Ok::<SocketAddr, EndpointFault>(
                    d.proxy_addr,
                ) && auth_view(d.auth) == parts@.auth,
                Err(e) => with_port(ip, parts@.port) == Err::<SocketAddr, EndpointFault>(e@),
            },
    {
        match endpoint::finish_endpoint(parts, ip) {
            Ok(e) => Ok(Socks5Dialer::of_endpoint(e)),
            Err(e) => Err(e),
        }
    }

    /// The server's address.
    pub fn proxy_addr(&self) -> (r: SocketAddr)
        ensures
            r == self.proxy_addr,
    {
        self.proxy_addr
    }

    fn auth_copy(&self) -> (r: Option<Socks5Auth>)
        ensures
            r == self.auth,
    {
        match &self.auth {
            Some(a) => Some(a.clone()),
            None => None,
        }
    }

    /// Begins to ask the server for a connection to `dst`.
    pub fn connect_tcp(&self, dst: SocketAddr) -> (r: Session)
        ensures
            r.auth == self.auth,
            r.cmd == Command::Connect,
            r.dst == maybe_mapped(dst, self.prefer_ipv4_mapped_ipv6),
            r.phase is Method,
            request_message(r.cmd, r.dst) == self.connect_request(dst),
    {
        let dst = maybe_map_ipv4_to_ipv6_mapped(dst, self.prefer_ipv4_mapped_ipv6);
        Session::new(self.auth_copy(), Command::Connect, dst)
    }

    /// Begins to ask the server for a relay of datagrams. The address `0.0.0.0:0` in the
    /// request lets the server pick the relay.
    pub fn udp_associate(&self) -> (r: Session)
        ensures
            r.auth == self.auth,
            r.cmd == Command::UdpAssociate,
            r.dst == SocketAddr::spec_new(IpAddr::V4(Ipv4Addr::spec_unspecified()), 0),
            r.phase is Method,
            request_message(r.cmd, r.dst) == self.associate_request(),
    {
        let bind_addr = SocketAddr::new(IpAddr::V4(Ipv4Addr::new(0, 0, 0, 0)), 0);
        Session::new(self.auth_copy(), Command::UdpAssociate, bind_addr)
    }

    /// Where to send datagrams, given the address in the server's reply, and how to write
    /// them.
    pub fn associated(&self, reply: SocketAddr) -> (r: (SocketAddr, Socks5UdpAssociation))
        ensures
            r.0 == relay_addr(reply, self.proxy_addr),
            r.1.prefer_ipv4_mapped_ipv6 == self.prefer_ipv4_mapped_ipv6,
    {
        (
            normalize_udp_relay(reply, self.proxy_addr),
            Socks5UdpAssociation { prefer_ipv4_mapped_ipv6: self.prefer_ipv4_mapped_ipv6 },
        )
    }
}

/// A relay of datagrams through a SOCKS5 server.
#[derive(Clone, Copy, Debug, PartialEq, Eq)]
pub struct Socks5UdpAssociation {
    pub prefer_ipv4_mapped_ipv6: bool,
}

/// What a received datagram comes to: its payload, moved to the front of the buffer, and its
/// source; or a host name that has to be resolved to that source first.
#[derive(Debug, PartialEq, Eq)]
pub enum Datagram {
    Payload { len: usize, addr: SocketAddr },
    Resolve { host: String, port: u16, offset: usize },
}

/// `buf` with the octets from `offset` to `n` moved to its front.
pub open spec fn moved_to_front(buf: Seq<u8>, offset: int, n: int) -> Seq<u8> {
    buf.subrange(offset, n) + buf.skip(n - offset)
}

/// Moves the octets from `offset` to `n` to the front of the buffer.
fn move_to_front(buf: &mut [u8], offset: usize, n: usize)
    requires
        offset <= n <= old(buf)@.len(),
    ensures
        final(buf)@ == moved_to_front(old(buf)@, offset as int, n as int),
{
    let mut i: usize = 0;
    while i < n - offset
        invariant
            offset <= n <= buf@.len(),
            buf@.len() == old(buf)@.len(),
            i <= n - offset,
            forall|k: int| 0 <= k < i ==> buf@[k] == old(buf)@[offset + k],
            forall|k: int| i <= k < buf@.len() ==> buf@[k] == old(buf)@[k],
        decreases n - offset - i,
    {
        buf[i] = buf[offset + i];
        i += 1;
    }
    assert(buf@ =~= moved_to_front(old(buf)@, offset as int, n as int));
}

/// The payload of a datagram of `n` octets whose header names an address, and that address.
pub open spec fn payload_from(buf: Seq<u8>, n: int) -> Option<(Seq<u8>, SocketAddr)> {
    match udp_response(buf.take(n)) {
        Ok((at, UdpOrigin::Addr(a))) => Some((buf.subrange(at as int, n), a)),
        _ => None,
    }
}

impl Socks5UdpAssociation {
    /// The datagram to send to the relay so that `payload` goes to `dst`.
    pub fn send_to(&self, payload: &[u8], dst: SocketAddr) -> (r: Vec<u8>)
        ensures
            r@ == udp_request(maybe_mapped(dst, self.prefer_ipv4_mapped_ipv6), payload@),
    {
        let dst = maybe_map_ipv4_to_ipv6_mapped(dst, self.prefer_ipv4_mapped_ipv6);
        build_udp_request(dst, payload)
    }

    /// Takes the header off a datagram of `n` octets that the relay sent.
    pub fn recv_datagram(&self, buf: &mut [u8], n: usize) -> (r: Result<Datagram, UdpError>)
        requires
            n <= old(buf)@.len(),
        ensures
            match udp_response(old(buf)@.take(n as int)) {
                Err(e) => r == Err::<Datagram, UdpError>(e) && final(buf)@ == old(buf)@,
                Ok((at, UdpOrigin::Addr(a))) => r == Ok::<Datagram, UdpError>(
                    Datagram::Payload { len: (n - at) as usize, addr: a },
                ) && at <= n && final(buf)@ == moved_to_front(old(buf)@, at as int, n as int),
                Ok((at, UdpOrigin::Domain(name, p))) => (r matches Ok(
                    Datagram::Resolve { host, port, offset },
                ) && host@ == name && port == p && offset == at && offset <= n) && final(buf)@
                    == old(buf)@,
            },
            r matches Ok(Datagram::Resolve { host, .. }) ==> valid_utf8(domain_octets(old(buf)@))
                ==> encode_utf8(host@) == domain_octets(old(buf)@),
            payload_from(old(buf)@, n as int) matches Some((payload, a)) ==> (r matches Ok(
                Datagram::Payload { len, addr },
            ) && addr == a && len == payload.len() && final(buf)@.take(len as int) == payload),
            r matches Ok(Datagram::Payload { .. }) ==> payload_from(old(buf)@, n as int) is Some,
    {
        let parsed = parse_udp_response(&buf[0..n]);
        assert(old(buf)@.subrange(0, n as int) =~= old(buf)@.take(n as int));
        match parsed {
            Err(e) => Err(e),
            Ok((offset, UdpSource::Addr(addr))) => {
                move_to_front(buf, offset, n);
                assert(buf@.take(n - offset) =~= old(buf)@.subrange(offset as int, n as int));
                Ok(Datagram::Payload { len: n - offset, addr })
            },
            Ok((offset, UdpSource::Domain { host, port })) => {
                assert(domain_octets(old(buf)@.take(n as int)) =~= domain_octets(old(buf)@));
                Ok(Datagram::Resolve { host, port, offset })
            },
        }
    }

    /// Finishes a datagram whose source was a host name. `None` means that the name has no
    /// address.
    pub fn resolved(
        &self,
        buf: &mut [u8],
        n: usize,
        offset: usize,
        addr: Option<SocketAddr>,
    ) -> (r: Result<(usize, SocketAddr), UdpError>)
        requires
            offset <= n <= old(buf)@.len(),
        ensures
            match addr {
                None => r == Err::<(usize, SocketAddr), UdpError>(UdpError::DomainNotResolved)
                    && final(buf)@ == old(buf)@,
                Some(a) => r == Ok::<(usize, SocketAddr), UdpError>(((n - offset) as usize, a))
                    && final(buf)@ == moved_to_front(old(buf)@, offset as int, n as int),
            },
    {
        match addr {
            None => Err(UdpError::DomainNotResolved),
            Some(a) => {
                move_to_front(buf, offset, n);
                Ok((n - offset, a))
            },
        }
    }
}

/// The header of a relayed datagram from a host of this name.
pub open spec fn domain_header(name: Seq<char>, port: u16) -> Seq<u8> {
    seq![0x00u8, 0x00, 0x00, 0x03, encode_utf8(name).len() as u8] + encode_utf8(name)
        + be16_bytes(port)
}

/// The host name that a relay wrote into the header of a datagram reads back as itself, with its
/// port and with the payload behind them.
pub proof fn law_udp_domain_reads_back(name: Seq<char>, port: u16, payload: Seq<u8>)
    requires
        encode_utf8(name).len() <= 255,
    ensures
        ({
            let buf = domain_header(name, port) + payload;
            udp_response(buf) matches Ok((at, origin)) && origin == UdpOrigin::Domain(name, port)
                && buf.skip(at as int) == payload
        }),
{
    let n = encode_utf8(name).len() as int;
    let buf = domain_header(name, port) + payload;
    assert(domain_octets(buf) =~= encode_utf8(name));
    text::law_encoded_text_reads_back(name);
    lemma_be16_roundtrip(port, buf, 5 + n);
    assert(buf.skip(5 + n + 2) =~= payload);
}

/// What one end sends to the relay, the other end gets out of it: the payload at the front of
/// its buffer, and the address that the sender named.
pub proof fn law_datagram_carries_payload(dst: SocketAddr, prefer: bool, payload: Seq<u8>, buf: Seq<u8>)
    requires
        udp_request(maybe_mapped(dst, prefer), payload).len() <= buf.len(),
        buf.take(udp_request(maybe_mapped(dst, prefer), payload).len() as int) == udp_request(
            maybe_mapped(dst, prefer),
            payload,
        ),
    ensures
        ({
            let n = udp_request(maybe_mapped(dst, prefer), payload).len() as int;
            udp_response(buf.take(n)) matches Ok((at, UdpOrigin::Addr(a))) && a.spec_port()
                == dst.spec_port() && a.spec_ip() == maybe_mapped(dst, prefer).spec_ip()
                && moved_to_front(buf, at as int, n).take(payload.len() as int) == payload
        }),
{
    let to = maybe_mapped(dst, prefer);
    let n = udp_request(to, payload).len() as int;
    law_udp_round_trip(to, payload);
    if let Ok((at, _)) = udp_response(buf.take(n)) {
        assert(buf.subrange(at as int, n) =~= buf.take(n).skip(at as int));
        assert(moved_to_front(buf, at as int, n).take(payload.len() as int) =~= payload);
    }
}

} // verus!
