//! What the user is told of what went wrong.
use vstd::prelude::*;
use crate::proxy::endpoint::{fault_message, EndpointError, EndpointFault};
use crate::proxy::session::SessionError;
use crate::proxy::socks5::UdpError;
use crate::router::RouterError;
use crate::text::decimal;

verus! {

/// Of an endpoint that is refused: the scheme, or which part is wrong.
pub proof fn law_endpoint_faults_are_told(scheme: Seq<char>)
    ensures
        fault_message(EndpointFault::UnsupportedScheme(scheme)) == "unsupported proxy scheme: "@
            + scheme,
        fault_message(EndpointFault::InvalidCredentials) == "invalid SOCKS5 credentials format"@,
        fault_message(EndpointFault::InvalidIpv6Host) == "invalid IPv6 host format"@,
        fault_message(EndpointFault::MissingPortSeparator) == "missing port separator"@,
        fault_message(EndpointFault::MissingHost) == "missing SOCKS5 host"@,
        fault_message(EndpointFault::HostNotResolved) == "failed to resolve SOCKS5 host"@,
        fault_message(EndpointFault::InvalidPort) == "invalid SOCKS5 endpoint port"@,
{
}

/// Of a negotiation that failed: what the server said, with its numbers in decimal.
pub proof fn law_session_faults_are_told(a: u8, b: u8)
    ensures
        SessionError::AuthRequired.spec_message() == "SOCKS5 auth required"@,
        SessionError::AuthMethodsRejected.spec_message() == "SOCKS5 auth methods rejected"@,
        SessionError::AuthFailed(a, b).spec_message() == "SOCKS5 auth failed: ["@ + decimal(
            a as nat,
        ) + ", "@ + decimal(b as nat) + "]"@,
        SessionError::CredentialsTooLong.spec_message() == "SOCKS5 credentials too long"@,
        SessionError::PasswordRejected.spec_message() == "SOCKS5 username/password auth failed"@,
        SessionError::InvalidVersion(a).spec_message() == "invalid SOCKS5 response version: "@
            + decimal(a as nat),
        SessionError::RequestFailed(a).spec_message() == "SOCKS5 request failed with code: "@
            + decimal(a as nat),
        SessionError::UnsupportedAddressType(a).spec_message()
            == "unsupported SOCKS5 address type: "@ + decimal(a as nat),
        SessionError::HostNotResolved.spec_message() == "failed to resolve host"@,
{
}

/// Of a datagram that is no SOCKS5 datagram: what is wrong with it.
pub proof fn law_datagram_faults_are_told(t: u8)
    ensures
        UdpError::HeaderTooShort.spec_message() == "SOCKS5 UDP header too short"@,
        UdpError::ReservedNotZero.spec_message() == "SOCKS5 UDP reserved bytes not zero"@,
        UdpError::Fragmented.spec_message() == "SOCKS5 UDP fragmentation not supported"@,
        UdpError::Ipv4Truncated.spec_message() == "IPv4 addr truncated"@,
        UdpError::Ipv6Truncated.spec_message() == "IPv6 addr truncated"@,
        UdpError::DomainTruncated.spec_message() == "domain truncated"@,
        UdpError::DomainAddrTruncated.spec_message() == "domain addr truncated"@,
        UdpError::UnsupportedAddressType(t).spec_message() == "unsupported UDP address type: "@
            + decimal(t as nat),
        UdpError::DomainNotResolved.spec_message() == "failed to resolve domain"@,
{
}

/// Of what the router refuses: the text or the number it is about.
pub proof fn law_router_faults_are_told(
    endpoint: String,
    error: EndpointError,
    n: usize,
    name: String,
)
    ensures
        (RouterError::Endpoint { endpoint, error }).spec_message()
            == "failed to parse SOCKS5 endpoint: "@ + endpoint@,
        RouterError::ProxyIndexOutOfRange.spec_message() == "proxy index is out of range"@,
        RouterError::AlreadyStopped.spec_message() == "router already stopped"@,
        RouterError::AlreadyActive.spec_message() == "router already active"@,
        RouterError::TooManyFilters(n).spec_message() == "too many static filters: "@ + decimal(
            n as nat,
        ) + " (max 256)"@,
        RouterError::NoAdapters.spec_message() == "no network adapters found"@,
        RouterError::AdapterNotFound(name).spec_message() == "adapter not found: "@ + name@,
{
}

} // verus!
