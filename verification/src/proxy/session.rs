//! The negotiation with a SOCKS5 server, as the client's side of it.
//!
//! A `Session` tells which bytes to send and how many to read next, and is fed what was
//! read. It ends with the address in the server's reply, with a host name that has to be
//! resolved to that address, or with an error.
use vstd::prelude::*;
use vstd::string::{StrSliceExecFns, StringExecFns};
use vstd::utf8::{encode_utf8, valid_utf8};
use crate::net::{be16, be16_bytes, ipv4_at, ipv6_at, read_be16, read_ipv4, read_ipv6};
use crate::net::{lemma_be16_roundtrip, lemma_ipv4_octets, lemma_ipv6_octets};
use crate::net::{IpAddr, SocketAddr};
use crate::proxy::endpoint::{auth_view, Socks5Auth};
use crate::proxy::ErrorKind;
use crate::text;
use crate::text::{append_bytes, decimal, decoded_text};

verus! {

/// What the server is asked for.
#[derive(Clone, Copy, Debug, PartialEq, Eq, Structural)]
pub enum Command {
    Connect,
    UdpAssociate,
}

impl Command {
    /// The octet that stands for the command in a request.
    pub open spec fn spec_as_byte(self) -> u8 {
        match self {
            Command::Connect => 0x01,
            Command::UdpAssociate => 0x03,
        }
    }

    /// The octet that stands for the command in a request.
    pub fn as_byte(self) -> (r: u8)
        ensures
            r == self.spec_as_byte(),
    {
        match self {
            Command::Connect => 0x01,
            Command::UdpAssociate => 0x03,
        }
    }
}

/// An address as SOCKS5 messages carry it: its type, its octets, its port.
pub open spec fn encoded(addr: SocketAddr) -> Seq<u8> {
    match addr {
        SocketAddr::V4(v4) => seq![0x01u8] + v4.ip.octets@ + be16_bytes(v4.port),
        SocketAddr::V6(v6) => seq![0x04u8] + v6.ip.octets@ + be16_bytes(v6.port),
    }
}

/// Writes an address at the end of a message.
pub fn encode_addr(buf: &mut Vec<u8>, addr: SocketAddr)
    ensures
        final(buf)@ == old(buf)@ + encoded(addr),
{
    match addr {
        SocketAddr::V4(v4) => {
            buf.push(0x01);
            append_bytes(buf, &v4.ip.octets);
            buf.push((v4.port / 256) as u8);
            buf.push((v4.port % 256) as u8);
        },
        SocketAddr::V6(v6) => {
            buf.push(0x04);
            append_bytes(buf, &v6.ip.octets);
            buf.push((v6.port / 256) as u8);
            buf.push((v6.port % 256) as u8);
        },
    }
    assert(buf@ =~= old(buf)@ + encoded(addr));
}

/// Why a negotiation failed.
#[derive(Clone, Copy, Debug, PartialEq, Eq, Structural)]
pub enum SessionError {
    AuthRequired,
    AuthMethodsRejected,
    AuthFailed(u8, u8),
    CredentialsTooLong,
    PasswordRejected,
    InvalidVersion(u8),
    RequestFailed(u8),
    UnsupportedAddressType(u8),
    HostNotResolved,
}

impl SessionError {
    /// What is told to the user.
    pub open spec fn spec_message(self) -> Seq<char> {
        match self {
            SessionError::AuthRequired => "SOCKS5 auth required"@,
            SessionError::AuthMethodsRejected => "SOCKS5 auth methods rejected"@,
            SessionError::AuthFailed(a, b) => "SOCKS5 auth failed: ["@ + decimal(a as nat) + ", "@
                + decimal(b as nat) + "]"@,
            SessionError::CredentialsTooLong => "SOCKS5 credentials too long"@,
            SessionError::PasswordRejected => "SOCKS5 username/password auth failed"@,
            SessionError::InvalidVersion(v) => "invalid SOCKS5 response version: "@ + decimal(
                v as nat,
            ),
            SessionError::RequestFailed(c) => "SOCKS5 request failed with code: "@ + decimal(
                c as nat,
            ),
            SessionError::UnsupportedAddressType(t) => "unsupported SOCKS5 address type: "@
                + decimal(t as nat),
            SessionError::HostNotResolved => "failed to resolve host"@,
        }
    }

    /// What is told to the user.
    pub fn message(&self) -> (r: String)
        ensures
            r@ == self.spec_message(),
    {
        match *self {
            SessionError::AuthRequired => "SOCKS5 auth required".to_owned(),
            SessionError::AuthMethodsRejected => "SOCKS5 auth methods rejected".to_owned(),
            SessionError::AuthFailed(a, b) => {
                let mut out = "SOCKS5 auth failed: [".to_owned();
                text::append_decimal(&mut out, a as u64);
                out.append(", ");
                text::append_decimal(&mut out, b as u64);
                out.append("]");
                out
            },
            SessionError::CredentialsTooLong => "SOCKS5 credentials too long".to_owned(),
            SessionError::PasswordRejected => "SOCKS5 username/password auth failed".to_owned(),
            SessionError::InvalidVersion(v) => {
                let mut out = "invalid SOCKS5 response version: ".to_owned();
                text::append_decimal(&mut out, v as u64);
                out
            },
            SessionError::RequestFailed(c) => {
                let mut out = "SOCKS5 request failed with code: ".to_owned();
                text::append_decimal(&mut out, c as u64);
                out
            },
            SessionError::UnsupportedAddressType(t) => {
                let mut out = "unsupported SOCKS5 address type: ".to_owned();
                text::append_decimal(&mut out, t as u64);
                out
            },
            SessionError::HostNotResolved => "failed to resolve host".to_owned(),
        }
    }

    /// Credentials that do not fit are invalid input; the rest is the server's doing.
    pub fn kind(&self) -> (r: ErrorKind)
        ensures
            r == if *self is CredentialsTooLong {
                ErrorKind::InvalidInput
            } else {
                ErrorKind::Other
            },
    {
        match *self {
            SessionError::CredentialsTooLong => ErrorKind::InvalidInput,
            _ => ErrorKind::Other,
        }
    }
}

/// What the session is waiting to read.
#[derive(Clone, Copy, Debug, PartialEq, Eq, Structural)]
pub enum Phase {
    /// The authentication method that the server picked.
    Method,
    /// The server's word on the user name and password.
    Password,
    /// The first four octets of the reply to the request.
    Header,
    /// An IPv4 address and a port.
    Ipv4,
    /// An IPv6 address and a port.
    Ipv6,
    /// The length of a host name.
    DomainLength,
    /// A host name of this length and a port.
    Domain(u8),
    /// Nothing more.
    Closed,
}

impl Phase {
    /// How many octets are read next.
    pub open spec fn spec_wanted(self) -> nat {
        match self {
            Phase::Method => 2,
            Phase::Password => 2,
            Phase::Header => 4,
            Phase::Ipv4 => 6,
            Phase::Ipv6 => 18,
            Phase::DomainLength => 1,
            Phase::Domain(n) => n as nat + 2,
            Phase::Closed => 0,
        }
    }

    /// How many octets are read next.
    pub fn wanted(self) -> (r: usize)
        ensures
            r == self.spec_wanted(),
    {
        match self {
            Phase::Method => 2,
            Phase::Password => 2,
            Phase::Header => 4,
            Phase::Ipv4 => 6,
            Phase::Ipv6 => 18,
            Phase::DomainLength => 1,
            Phase::Domain(n) => n as usize + 2,
            Phase::Closed => 0,
        }
    }

    /// How many reads are still to come at most.
    pub open spec fn reads_left(self) -> nat {
        match self {
            Phase::Method => 5,
            Phase::Password => 4,
            Phase::Header => 3,
            Phase::DomainLength => 2,
            Phase::Ipv4 => 1,
            Phase::Ipv6 => 1,
            Phase::Domain(_) => 1,
            Phase::Closed => 0,
        }
    }
}

/// The first message: the methods that the client can use.
pub open spec fn greeting_message(has_auth: bool) -> Seq<u8> {
    if has_auth {
        seq![0x05u8, 0x02, 0x00, 0x02]
    } else {
        seq![0x05u8, 0x01, 0x00]
    }
}

/// The message with the user name and the password.
pub open spec fn password_message(username: Seq<u8>, password: Seq<u8>) -> Seq<u8> {
    seq![0x01u8, username.len() as u8] + username + seq![password.len() as u8] + password
}

/// The request proper.
pub open spec fn request_message(cmd: Command, dst: SocketAddr) -> Seq<u8> {
    seq![0x05u8, cmd.spec_as_byte(), 0x00] + encoded(dst)
}

/// What the session does next.
pub enum Move {
    Fail(SessionError),
    Exchange(Seq<u8>, Phase),
    Resolve(Seq<char>, u16),
    Finish(SocketAddr),
}

/// What follows the server's choice of a method.
pub open spec fn after_method(
    auth: Option<(Seq<char>, Seq<char>)>,
    request: Seq<u8>,
    reply: Seq<u8>,
) -> Move {
    if reply[0] == 0x05 && reply[1] == 0x00 {
        Move::Exchange(request, Phase::Header)
    } else if reply[1] == 0x02 {
        match auth {
            None => Move::Fail(SessionError::AuthRequired),
            Some((username, password)) => {
                let u = encode_utf8(username);
                let p = encode_utf8(password);
                if u.len() > 255 || p.len() > 255 {
                    Move::Fail(SessionError::CredentialsTooLong)
                } else {
                    Move::Exchange(password_message(u, p), Phase::Password)
                }
            },
        }
    } else if reply[1] == 0xff {
        Move::Fail(SessionError::AuthMethodsRejected)
    } else {
        Move::Fail(SessionError::AuthFailed(reply[0], reply[1]))
    }
}

/// What follows the first four octets of the reply to the request.
pub open spec fn after_header(reply: Seq<u8>) -> Move {
    if reply[0] != 0x05 {
        Move::Fail(SessionError::InvalidVersion(reply[0]))
    } else if reply[1] != 0x00 {
        Move::Fail(SessionError::RequestFailed(reply[1]))
    } else if reply[3] == 0x01 {
        Move::Exchange(Seq::empty(), Phase::Ipv4)
    } else if reply[3] == 0x04 {
        Move::Exchange(Seq::empty(), Phase::Ipv6)
    } else if reply[3] == 0x03 {
        Move::Exchange(Seq::empty(), Phase::DomainLength)
    } else {
        Move::Fail(SessionError::UnsupportedAddressType(reply[3]))
    }
}

/// What follows each read.
pub open spec fn next_move(
    auth: Option<(Seq<char>, Seq<char>)>,
    request: Seq<u8>,
    phase: Phase,
    reply: Seq<u8>,
) -> Move
    recommends
        reply.len() == phase.spec_wanted(),
        !(phase is Closed),
{
    match phase {
        Phase::Method => after_method(auth, request, reply),
        Phase::Password => if reply[0] != 0x01 || reply[1] != 0x00 {
            Move::Fail(SessionError::PasswordRejected)
        } else {
            Move::Exchange(request, Phase::Header)
        },
        Phase::Header => after_header(reply),
        Phase::Ipv4 => Move::Finish(
            SocketAddr::spec_new(IpAddr::V4(ipv4_at(reply, 0)), be16(reply, 4)),
        ),
        Phase::Ipv6 => Move::Finish(
            SocketAddr::spec_new(IpAddr::V6(ipv6_at(reply, 0)), be16(reply, 16)),
        ),
        Phase::DomainLength => Move::Exchange(Seq::empty(), Phase::Domain(reply[0])),
        Phase::Domain(n) => Move::Resolve(decoded_text(reply.take(n as int)), be16(reply, n as int)),
        Phase::Closed => Move::Fail(SessionError::HostNotResolved),
    }
}

/// What the driver of a session does next: send and read, resolve a host name, or take the
/// address in the reply.
#[derive(Debug, PartialEq, Eq)]
pub enum Action {
    Exchange { send: Vec<u8>, read: usize },
    Resolve { host: String, port: u16 },
    Finish(SocketAddr),
}

/// `r` is what `m` says, and the session is then in `phase`.
pub open spec fn carries_out(r: Result<Action, SessionError>, phase: Phase, m: Move) -> bool {
    match m {
        Move::Fail(e) => r == Err::<Action, SessionError>(e) && phase is Closed,
        Move::Exchange(bytes, next) => r matches Ok(Action::Exchange { send, read }) && send@
            == bytes && read == next.spec_wanted() && phase == next,
        Move::Resolve(name, p) => r matches Ok(Action::Resolve { host, port }) && host@ == name
            && port == p && phase is Closed,
        Move::Finish(addr) => r == Ok::<Action, SessionError>(Action::Finish(addr))
            && phase is Closed,
    }
}

/// One negotiation with a SOCKS5 server.
#[derive(Debug, PartialEq, Eq)]
pub struct Session {
    pub auth: Option<Socks5Auth>,
    pub cmd: Command,
    pub dst: SocketAddr,
    pub phase: Phase,
}

impl Session {
    /// A negotiation that has not begun.
    pub fn new(auth: Option<Socks5Auth>, cmd: Command, dst: SocketAddr) -> (r: Self)
        ensures
            r == (Session { auth, cmd, dst, phase: Phase::Method }),
    {
        Session { auth, cmd, dst, phase: Phase::Method }
    }

    /// The first message, after which the chosen method is read.
    pub fn greeting(&self) -> (r: Vec<u8>)
        ensures
            r@ == greeting_message(self.auth is Some),
    {
        if self.auth.is_some() {
            vec![0x05, 0x02, 0x00, 0x02]
        } else {
            vec![0x05, 0x01, 0x00]
        }
    }

    fn request(&self) -> (r: Vec<u8>)
        ensures
            r@ == request_message(self.cmd, self.dst),
    {
        let mut buf: Vec<u8> = Vec::new();
        buf.push(0x05);
        buf.push(self.cmd.as_byte());
        buf.push(0x00);
        encode_addr(&mut buf, self.dst);
        assert(buf@ =~= request_message(self.cmd, self.dst));
        buf
    }

    fn method_chosen(&self, reply: &[u8]) -> (r: Result<(Vec<u8>, Phase), SessionError>)
        requires
            reply@.len() == 2,
        ensures
            match after_method(
                auth_view(self.auth),
                request_message(self.cmd, self.dst),
                reply@,
            ) {
                Move::Fail(e) => r == Err::<(Vec<u8>, Phase), SessionError>(e),
                Move::Exchange(bytes, next) => r matches Ok((send, phase)) && send@ == bytes
                    && phase == next,
                _ => false,
            },
    {
        if reply[0] == 0x05 && reply[1] == 0x00 {
            return Ok((self.request(), Phase::Header));
        }
        if reply[1] == 0x02 {
            return match &self.auth {
                None => Err(SessionError::AuthRequired),
                Some(auth) => {
                    let username = auth.username.as_str().as_bytes();
                    let password = auth.password.as_str().as_bytes();
                    if username.len() > 255 || password.len() > 255 {
                        return Err(SessionError::CredentialsTooLong);
                    }
                    let mut buf: Vec<u8> = Vec::new();
                    buf.push(0x01);
                    buf.push(username.len() as u8);
                    append_bytes(&mut buf, username);
                    buf.push(password.len() as u8);
                    append_bytes(&mut buf, password);
                    assert(buf@ =~= password_message(username@, password@));
                    Ok((buf, Phase::Password))
                },
            };
        }
        if reply[1] == 0xff {
            Err(SessionError::AuthMethodsRejected)
        } else {
            Err(SessionError::AuthFailed(reply[0], reply[1]))
        }
    }

    fn header_read(reply: &[u8]) -> (r: Result<(Vec<u8>, Phase), SessionError>)
        requires
            reply@.len() == 4,
        ensures
            match after_header(reply@) {
                Move::Fail(e) => r == Err::<(Vec<u8>, Phase), SessionError>(e),
                Move::Exchange(bytes, next) => r matches Ok((send, phase)) && send@ == bytes
                    && phase == next,
                _ => false,
            },
    {
        if reply[0] != 0x05 {
            return Err(SessionError::InvalidVersion(reply[0]));
        }
        if reply[1] != 0x00 {
            return Err(SessionError::RequestFailed(reply[1]));
        }
        match reply[3] {
            0x01 => Ok((Vec::new(), Phase::Ipv4)),
            0x04 => Ok((Vec::new(), Phase::Ipv6)),
            0x03 => Ok((Vec::new(), Phase::DomainLength)),
            t => Err(SessionError::UnsupportedAddressType(t)),
        }
    }

    fn advance(&mut self, step: Result<(Vec<u8>, Phase), SessionError>) -> (r: Result<
        Action,
        SessionError,
    >)
        ensures
            *final(self) == (Session { phase: final(self).phase, ..*old(self) }),
            match step {
                Ok((send, phase)) => final(self).phase == phase && r == Ok::<Action, SessionError>(
                    Action::Exchange { send, read: phase.spec_wanted() as usize },
                ),
                Err(e) => final(self).phase is Closed && r == Err::<Action, SessionError>(e),
            },
    {
        match step {
            Ok((send, phase)) => {
                self.phase = phase;
                Ok(Action::Exchange { send, read: phase.wanted() })
            },
            Err(e) => {
                self.phase = Phase::Closed;
                Err(e)
            },
        }
    }

    /// Takes what was read, and tells what to do next.
    pub fn feed(&mut self, reply: &[u8]) -> (r: Result<Action, SessionError>)
        requires
            !(old(self).phase is Closed),
            reply@.len() == old(self).phase.spec_wanted(),
        ensures
            *final(self) == (Session { phase: final(self).phase, ..*old(self) }),
            carries_out(
                r,
                final(self).phase,
                next_move(
                    auth_view(old(self).auth),
                    request_message(old(self).cmd, old(self).dst),
                    old(self).phase,
                    reply@,
                ),
            ),
            r matches Ok(Action::Resolve { host, .. }) ==> old(self).phase matches Phase::Domain(n)
                && (valid_utf8(reply@.take(n as int)) ==> encode_utf8(host@) == reply@.take(
                n as int,
            )),
    {
        match self.phase {
            Phase::Method => {
                let step = self.method_chosen(reply);
                self.advance(step)
            },
            Phase::Password => {
                let step = if reply[0] != 0x01 || reply[1] != 0x00 {
                    Err(SessionError::PasswordRejected)
                } else {
                    Ok((self.request(), Phase::Header))
                };
                self.advance(step)
            },
            Phase::Header => {
                let step = Session::header_read(reply);
                self.advance(step)
            },
            Phase::Ipv4 => {
                self.phase = Phase::Closed;
                Ok(
                    Action::Finish(
                        SocketAddr::new(IpAddr::V4(read_ipv4(reply, 0)), read_be16(reply, 4)),
                    ),
                )
            },
            Phase::Ipv6 => {
                self.phase = Phase::Closed;
                Ok(
                    Action::Finish(
                        SocketAddr::new(IpAddr::V6(read_ipv6(reply, 0)), read_be16(reply, 16)),
                    ),
                )
            },
            Phase::DomainLength => {
                self.advance(Ok((Vec::new(), Phase::Domain(reply[0]))))
            },
            Phase::Domain(n) => {
                self.phase = Phase::Closed;
                let host = text::text_of_bytes(&reply[0..n as usize]);
                assert(reply@.subrange(0, n as int) =~= reply@.take(n as int));
                Ok(Action::Resolve { host, port: read_be16(reply, n as usize) })
            },
            Phase::Closed => Err(SessionError::HostNotResolved),
        }
    }

    /// Ends a session with the address that the host name in the reply has, if it has one.
    pub fn resolved(addr: Option<SocketAddr>) -> (r: Result<SocketAddr, SessionError>)
        ensures
            r == match addr {
                Some(a) => Ok::<SocketAddr, SessionError>(a),
                None => Err::<SocketAddr, SessionError>(SessionError::HostNotResolved),
            },
    {
        match addr {
            Some(a) => Ok(a),
            None => Err(SessionError::HostNotResolved),
        }
    }
}

/// The user name and the password are sent only when the server asked for them, and only if
/// there are any to send.
pub proof fn law_credentials_only_when_asked(
    auth: Option<(Seq<char>, Seq<char>)>,
    request: Seq<u8>,
    phase: Phase,
    reply: Seq<u8>,
)
    requires
        reply.len() == phase.spec_wanted(),
    ensures
        next_move(auth, request, phase, reply) matches Move::Exchange(bytes, next) ==> {
            ||| bytes == Seq::<u8>::empty()
            ||| bytes == request && next is Header
            ||| {
                &&& next is Password
                &&& phase is Method
                &&& reply[1] == 0x02
                &&& auth matches Some((username, password))
                &&& bytes == password_message(encode_utf8(username), encode_utf8(password))
            }
        },
{
}

/// The request goes out only after the server has accepted the client: it picked the method
/// without authentication, or it took the user name and the password.
pub proof fn law_request_only_when_accepted(
    auth: Option<(Seq<char>, Seq<char>)>,
    request: Seq<u8>,
    phase: Phase,
    reply: Seq<u8>,
)
    requires
        reply.len() == phase.spec_wanted(),
    ensures
        next_move(auth, request, phase, reply) matches Move::Exchange(bytes, next) ==> next
            is Header ==> bytes == request && {
            ||| phase is Method && reply == seq![0x05u8, 0x00]
            ||| phase is Password && reply == seq![0x01u8, 0x00]
        },
{
    if phase is Method && reply[0] == 0x05 && reply[1] == 0x00 {
        assert(reply =~= seq![0x05u8, 0x00]);
    }
    if phase is Password && reply[0] == 0x01 && reply[1] == 0x00 {
        assert(reply =~= seq![0x01u8, 0x00]);
    }
}

/// A negotiation ends whatever the server says: each read brings it closer to its end.
pub proof fn law_session_ends(
    auth: Option<(Seq<char>, Seq<char>)>,
    request: Seq<u8>,
    phase: Phase,
    reply: Seq<u8>,
)
    requires
        reply.len() == phase.spec_wanted(),
    ensures
        next_move(auth, request, phase, reply) matches Move::Exchange(_, next) ==> {
            &&& next.reads_left() < phase.reads_left()
            &&& next.spec_wanted() > 0
        },
{
}

/// The client reads the address that a server wrote into its reply.
pub proof fn law_reply_address_reads_back(
    auth: Option<(Seq<char>, Seq<char>)>,
    request: Seq<u8>,
    reserved: u8,
    addr: SocketAddr,
)
    ensures
        next_move(
            auth,
            request,
            Phase::Header,
            seq![0x05u8, 0x00, reserved, encoded(addr)[0]],
        ) matches Move::Exchange(bytes, next) && bytes == Seq::<u8>::empty() && encoded(addr).skip(
            1,
        ).len() == next.spec_wanted() && next_move(auth, request, next, encoded(addr).skip(1))
            == Move::Finish(SocketAddr::spec_new(addr.spec_ip(), addr.spec_port())),
{
    let body = encoded(addr).skip(1);
    match addr {
        SocketAddr::V4(v4) => {
            assert(ipv4_at(body, 0).octets@ =~= v4.ip.octets@);
            lemma_ipv4_octets(ipv4_at(body, 0), v4.ip);
            lemma_be16_roundtrip(v4.port, body, 4);
        },
        SocketAddr::V6(v6) => {
            assert(ipv6_at(body, 0).octets@ =~= v6.ip.octets@);
            lemma_ipv6_octets(ipv6_at(body, 0), v6.ip);
            lemma_be16_roundtrip(v6.port, body, 16);
        },
    }
}

/// The client reads the host name that a server wrote into its reply, and its port.
pub proof fn law_reply_domain_reads_back(
    auth: Option<(Seq<char>, Seq<char>)>,
    request: Seq<u8>,
    name: Seq<char>,
    port: u16,
)
    requires
        encode_utf8(name).len() <= 255,
    ensures
        ({
            let n = encode_utf8(name).len() as u8;
            let body = encode_utf8(name) + be16_bytes(port);
            &&& next_move(auth, request, Phase::DomainLength, seq![n]) == Move::Exchange(
                Seq::empty(),
                Phase::Domain(n),
            )
            &&& body.len() == Phase::Domain(n).spec_wanted()
            &&& next_move(auth, request, Phase::Domain(n), body) == Move::Resolve(name, port)
        }),
{
    let n = encode_utf8(name).len() as int;
    let body = encode_utf8(name) + be16_bytes(port);
    assert(body.take(n) =~= encode_utf8(name));
    text::law_encoded_text_reads_back(name);
    lemma_be16_roundtrip(port, body, n);
}

} // verus!
