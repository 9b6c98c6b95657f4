//! How endpoints of SOCKS5 servers are taken apart, and which texts are refused.
use vstd::prelude::*;
use crate::net::{IpAddr, SocketAddr};
use crate::proxy::endpoint::{
    auth_of, auth_view, dotted, host_and_port, ipv6_literal, is_dotted, law_dotted_reads_back,
    lemma_first_char, lemma_first_of, lemma_last_char, parts_of, spells, trim_of, with_port,
    EndpointError, EndpointFault, EndpointParts, PartsView, Socks5Auth,
};
use crate::text;
use crate::text::{decimal, first_occurrence, occurs, occurs_at, trimmed, u16_of};

verus! {

/// A host and a port are parted by the last colon.
pub proof fn law_last_colon_parts_host_and_port(host: Seq<char>, port: Seq<char>)
    requires
        host.len() == 0 || host[0] != '[',
        !port.contains(':'),
    ensures
        host_and_port(host.push(':') + port) == Ok::<(Seq<char>, Seq<char>), EndpointFault>(
            (host, port),
        ),
{
    let s = host.push(':') + port;
    let n = host.len() as int;
    assert forall|j: int| n < j < s.len() implies s[j] != ':' by {
        assert(s[j] == port[j - n - 1]);
    }
    assert(s[n] == ':');
    lemma_last_char(s, ':', n);
    assert(s.take(n) =~= host);
    assert(s.skip(n + 1) =~= port);
    if n > 0 {
        assert(s[0] == host[0]);
    }
}

/// A host in brackets ends with the first closing bracket, and a colon has to follow.
pub proof fn law_brackets_hold_the_host(inner: Seq<char>, port: Seq<char>, tail: Seq<char>)
    requires
        !inner.contains(']'),
    ensures
        ({
            let host = seq!['['] + inner + seq![']'];
            &&& host_and_port(host.push(':') + port) == Ok::<
                (Seq<char>, Seq<char>),
                EndpointFault,
            >((host, port))
            &&& tail.len() == 0 || tail[0] != ':' ==> host_and_port(host + tail) == Err::<
                (Seq<char>, Seq<char>),
                EndpointFault,
            >(EndpointFault::MissingPortSeparator)
        }),
{
    let host = seq!['['] + inner + seq![']'];
    let n = inner.len() as int;
    let s = host.push(':') + port;
    assert forall|j: int| 0 <= j < n + 1 implies s[j] != ']' && host[j] != ']' by {
        if j > 0 {
            assert(s[j] == inner[j - 1]);
            assert(host[j] == inner[j - 1]);
        }
    }
    assert(s[n + 1] == ']');
    lemma_first_char(s, ']', n + 1);
    assert(s.take(n + 2) =~= host);
    assert(s.skip(n + 3) =~= port);
    let u = host + tail;
    assert forall|j: int| 0 <= j < n + 1 implies u[j] != ']' by {
        assert(u[j] == host[j]);
    }
    assert(u[n + 1] == ']');
    lemma_first_char(u, ']', n + 1);
    if tail.len() > 0 {
        assert(u[n + 2] == tail[0]);
    }
}

/// A text without a colon has no port, and a bracket that opens has to close.
pub proof fn law_hosts_that_are_refused(s: Seq<char>)
    ensures
        (s.len() == 0 || s[0] != '[') && !s.contains(':') ==> host_and_port(s) == Err::<
            (Seq<char>, Seq<char>),
            EndpointFault,
        >(EndpointFault::MissingPortSeparator),
        s.len() > 0 && s[0] == '[' && !s.contains(']') ==> host_and_port(s) == Err::<
            (Seq<char>, Seq<char>),
            EndpointFault,
        >(EndpointFault::InvalidIpv6Host),
{
}

/// A user name and a password are parted by the first colon, and neither may be empty. No text
/// means that there are none.
pub proof fn law_first_colon_parts_the_credentials(username: Seq<char>, password: Seq<char>)
    requires
        !username.contains(':'),
    ensures
        auth_of(Seq::empty()) == Ok::<Option<(Seq<char>, Seq<char>)>, EndpointFault>(None),
        username.len() > 0 ==> auth_of(username) == Err::<
            Option<(Seq<char>, Seq<char>)>,
            EndpointFault,
        >(EndpointFault::InvalidCredentials),
        username.len() > 0 && password.len() > 0 ==> auth_of(username.push(':') + password) == Ok::<
            Option<(Seq<char>, Seq<char>)>,
            EndpointFault,
        >(Some((username, password))),
        username.len() == 0 || password.len() == 0 ==> auth_of(username.push(':') + password)
            == Err::<Option<(Seq<char>, Seq<char>)>, EndpointFault>(
            EndpointFault::InvalidCredentials,
        ),
{
    let s = username.push(':') + password;
    let n = username.len() as int;
    assert forall|j: int| 0 <= j < n implies s[j] != ':' by {
        assert(s[j] == username[j]);
    }
    assert(s[n] == ':');
    lemma_first_char(s, ':', n);
    assert(s.take(n) =~= username);
    assert(s.skip(n + 1) =~= password);
}

/// `e` is a scheme, `://` and a rest, and `://` stands nowhere before that.
pub open spec fn starts_with_scheme(e: Seq<char>, scheme: Seq<char>, rest: Seq<char>) -> bool {
    &&& e == scheme + seq![':', '/', '/'] + rest
    &&& forall|j: int|
        0 <= j < scheme.len() ==> !(e[j] == ':' && #[trigger] e[j + 1] == '/' && e[j + 2] == '/')
}

/// `://` stands nowhere in `e`.
pub open spec fn has_no_scheme(e: Seq<char>) -> bool {
    forall|j: int|
        0 <= j < e.len() - 2 ==> !(e[j] == ':' && #[trigger] e[j + 1] == '/' && e[j + 2] == '/')
}

proof fn lemma_scheme(e: Seq<char>, scheme: Seq<char>, rest: Seq<char>)
    requires
        starts_with_scheme(e, scheme, rest),
    ensures
        crate::proxy::endpoint::scheme_of(e) == scheme,
        crate::proxy::endpoint::after_scheme(e) == rest,
{
    reveal_strlit("://");
    let n = scheme.len() as int;
    let mark = "://"@;
    assert(mark =~= seq![':', '/', '/']);
    assert(e.subrange(n, n + 3) =~= mark);
    assert forall|j: int| 0 <= j < n implies !occurs_at(e, mark, j) by {
        if occurs_at(e, mark, j) {
            let part = e.subrange(j, j + 3);
            assert(part[0] == e[j] && part[1] == e[j + 1] && part[2] == e[j + 2]);
        }
    }
    assert(first_occurrence(e, mark, n));
    lemma_first_of(e, mark, n);
    assert(e.take(n) =~= scheme);
    assert(e.skip(n + 3) =~= rest);
}

proof fn lemma_no_scheme(e: Seq<char>)
    requires
        has_no_scheme(e),
    ensures
        crate::proxy::endpoint::scheme_of(e) == Seq::<char>::empty(),
        crate::proxy::endpoint::after_scheme(e) == e,
{
    reveal_strlit("://");
    let mark = "://"@;
    if occurs(e, mark) {
        let j = choose|j: int| occurs_at(e, mark, j);
        let part = e.subrange(j, j + 3);
        assert(part[0] == e[j] && part[1] == e[j + 1] && part[2] == e[j + 2]);
    }
}

/// A scheme other than `socks5` and `socks5h` is refused and told.
pub proof fn law_other_schemes_are_refused(e: Seq<char>, scheme: Seq<char>, rest: Seq<char>)
    requires
        starts_with_scheme(e, scheme, rest),
        scheme.len() > 0,
        scheme != seq!['s', 'o', 'c', 'k', 's', '5'],
        scheme != seq!['s', 'o', 'c', 'k', 's', '5', 'h'],
    ensures
        parts_of(e) == Err::<PartsView, EndpointFault>(EndpointFault::UnsupportedScheme(scheme)),
{
    reveal_strlit("socks5");
    reveal_strlit("socks5h");
    lemma_scheme(e, scheme, rest);
    if scheme == "socks5"@ {
        assert(scheme =~= seq!['s', 'o', 'c', 'k', 's', '5']);
    }
    if scheme == "socks5h"@ {
        assert(scheme =~= seq!['s', 'o', 'c', 'k', 's', '5', 'h']);
    }
}

/// What stands before the last `@` is read as credentials, and what follows as host and port; a
/// fault of the former comes first. White space around the host does not count, a host of nothing
/// else is missing, and brackets around it are taken away.
pub proof fn law_parts_of_an_endpoint(
    e: Seq<char>,
    scheme: Seq<char>,
    rest: Seq<char>,
    credentials: Seq<char>,
    place: Seq<char>,
    host: Seq<char>,
)
    requires
        (has_no_scheme(e) && rest == e) || (starts_with_scheme(e, scheme, rest) && (scheme
            == Seq::<char>::empty() || scheme == seq!['s', 'o', 'c', 'k', 's', '5'] || scheme
            == seq!['s', 'o', 'c', 'k', 's', '5', 'h'])),
        !place.contains('@'),
        rest == credentials.push('@') + place || (rest == place && credentials
            == Seq::<char>::empty()),
        host_and_port(place) matches Ok(hp) ==> trimmed(hp.0, host),
    ensures
        auth_of(credentials) matches Err(fault) ==> parts_of(e) == Err::<PartsView, EndpointFault>(
            fault,
        ),
        auth_of(credentials) is Ok ==> (host_and_port(place) matches Err(fault) ==> parts_of(e)
            == Err::<PartsView, EndpointFault>(fault)),
        auth_of(credentials) matches Ok(auth) ==> (host_and_port(place) matches Ok(hp) ==> {
            if host.len() == 0 {
                parts_of(e) == Err::<PartsView, EndpointFault>(EndpointFault::MissingHost)
            } else {
                parts_of(e) matches Ok(parts) && parts.port == hp.1 && parts.auth == auth
                    && if host[0] == '[' && host.last() == ']' {
                    parts.host == host.subrange(1, host.len() - 1)
                } else {
                    parts.host == host
                }
            }
        }),
{
    reveal_strlit("socks5");
    reveal_strlit("socks5h");
    assert("socks5"@ =~= seq!['s', 'o', 'c', 'k', 's', '5']);
    assert("socks5h"@ =~= seq!['s', 'o', 'c', 'k', 's', '5', 'h']);
    if has_no_scheme(e) && rest == e {
        lemma_no_scheme(e);
    } else {
        lemma_scheme(e, scheme, rest);
    }
    if rest == credentials.push('@') + place {
        let n = credentials.len() as int;
        assert forall|j: int| n < j < rest.len() implies rest[j] != '@' by {
            assert(rest[j] == place[j - n - 1]);
        }
        assert(rest[n] == '@');
        lemma_last_char(rest, '@', n);
        assert(rest.take(n) =~= credentials);
        assert(rest.skip(n + 1) =~= place);
    }
    if let Ok(hp) = host_and_port(place) {
        text::lemma_trimmed_unique(hp.0, host, trim_of(hp.0));
    }
}

/// A server is at the address of its host and at the port, which is a number from 1 to 65535. A
/// host without an address is told first.
pub proof fn law_address_of_a_server(ip: IpAddr, port: Seq<char>)
    ensures
        with_port(None, port) == Err::<SocketAddr, EndpointFault>(EndpointFault::HostNotResolved),
        u16_of(port) is None || u16_of(port) == Some(0u16) ==> with_port(Some(ip), port) == Err::<
            SocketAddr,
            EndpointFault,
        >(EndpointFault::InvalidPort),
        u16_of(port) matches Some(n) ==> n > 0 ==> (with_port(Some(ip), port) matches Ok(addr)
            && addr.spec_ip() == ip && addr.spec_port() == n && (addr matches SocketAddr::V6(a)
            ==> a.flowinfo == 0 && a.scope_id == 0)),
{
}

/// Four octets, written in decimal with dots between them, spell out that IPv4 address and nothing
/// else. Only what spells out no IPv4 address is read as an IPv6 address, and what spells out
/// neither is no address.
pub proof fn law_addresses_that_are_spelled_out(
    octets: Seq<u8>,
    text: Seq<char>,
    r: Option<IpAddr>,
)
    requires
        octets.len() == 4,
    ensures
        text == decimal(octets[0] as nat) + seq!['.'] + decimal(octets[1] as nat) + seq!['.']
            + decimal(octets[2] as nat) + seq!['.'] + decimal(octets[3] as nat) ==> (spells(text, r)
            <==> (r matches Some(IpAddr::V4(ip)) && ip.octets@ == octets)),
        spells(text, r) ==> (r matches Some(IpAddr::V4(ip)) ==> text == decimal(
            ip.octets@[0] as nat,
        ) + seq!['.'] + decimal(ip.octets@[1] as nat) + seq!['.'] + decimal(ip.octets@[2] as nat)
            + seq!['.'] + decimal(ip.octets@[3] as nat)),
        spells(text, r) ==> (r matches Some(IpAddr::V6(ip)) ==> ipv6_literal(text) == Some(
            ip.octets@,
        )),
        spells(text, r) && r is None ==> ipv6_literal(text) is None,
{
    assert forall|o: Seq<u8>| o.len() == 4 implies #[trigger] dotted(o) == decimal(o[0] as nat)
        + seq!['.'] + decimal(o[1] as nat) + seq!['.'] + decimal(o[2] as nat) + seq!['.'] + decimal(
        o[3] as nat,
    ) by {
        assert(dotted(o) =~= decimal(o[0] as nat) + seq!['.'] + decimal(o[1] as nat) + seq!['.']
            + decimal(o[2] as nat) + seq!['.'] + decimal(o[3] as nat));
    }
    law_dotted_reads_back(octets);
    if let Some(IpAddr::V4(ip)) = r {
        if spells(text, r) {
            let o = choose|o: Seq<u8>| is_dotted(text, o);
            assert(is_dotted(text, o));
            assert(dotted(o) == text);
        }
    }
}

/// Parts and credentials stand for their texts.
pub proof fn law_texts_of_the_parts(parts: EndpointParts, auth: Socks5Auth)
    ensures
        parts@.host == parts.host@,
        parts@.port == parts.port@,
        parts.auth is None ==> parts@.auth is None,
        parts.auth matches Some(a) ==> parts@.auth == Some((a.username@, a.password@)),
        auth@.0 == auth.username@,
        auth@.1 == auth.password@,
        auth_view(Some(auth)) == Some((auth.username@, auth.password@)),
        auth_view(None) is None,
{
}

/// Each error stands for the fault of its name.
pub proof fn law_errors_name_their_faults(scheme: String)
    ensures
        EndpointError::UnsupportedScheme(scheme)@ == EndpointFault::UnsupportedScheme(scheme@),
        EndpointError::InvalidCredentials@ == EndpointFault::InvalidCredentials,
        EndpointError::InvalidIpv6Host@ == EndpointFault::InvalidIpv6Host,
        EndpointError::MissingPortSeparator@ == EndpointFault::MissingPortSeparator,
        EndpointError::MissingHost@ == EndpointFault::MissingHost,
        EndpointError::HostNotResolved@ == EndpointFault::HostNotResolved,
        EndpointError::InvalidPort@ == EndpointFault::InvalidPort,
{
}

} // verus!
