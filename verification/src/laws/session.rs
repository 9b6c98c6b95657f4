//! The messages of a negotiation with a SOCKS5 server, octet by octet.
use vstd::prelude::*;
use vstd::utf8::encode_utf8;
use crate::net::SocketAddr;
use crate::proxy::session::{
    carries_out, encoded, greeting_message, next_move, password_message, request_message, Action,
    Command, Move, Phase, SessionError,
};

verus! {

/// The octets of an address as messages carry it: its type, its own octets in order, and its port
/// with the upper octet first.
pub open spec fn address_stands_at(s: Seq<u8>, at: int, addr: SocketAddr) -> bool {
    match addr {
        SocketAddr::V4(a) => {
            &&& s.len() >= at + 7
            &&& s[at] == 1
            &&& forall|k: int| 0 <= k < 4 ==> #[trigger] s[at + 1 + k] == a.ip.octets@[k]
            &&& s[at + 5] == a.port / 256
            &&& s[at + 6] == a.port % 256
        },
        SocketAddr::V6(a) => {
            &&& s.len() >= at + 19
            &&& s[at] == 4
            &&& forall|k: int| 0 <= k < 16 ==> #[trigger] s[at + 1 + k] == a.ip.octets@[k]
            &&& s[at + 17] == a.port / 256
            &&& s[at + 18] == a.port % 256
        },
    }
}

/// How many octets an address takes in a message.
pub open spec fn address_length(addr: SocketAddr) -> nat {
    if addr is V4 {
        7
    } else {
        19
    }
}

/// An address is written as its type, its octets and its port, and nothing else.
pub proof fn law_address_layout(addr: SocketAddr)
    ensures
        encoded(addr).len() == address_length(addr),
        address_stands_at(encoded(addr), 0, addr),
{
}

/// The greeting names version 5, tells how many methods follow, offers to go without
/// authentication always, and a user name and password exactly if there are any.
pub proof fn law_greeting_layout(has_auth: bool)
    ensures
        greeting_message(has_auth)[0] == 5,
        greeting_message(has_auth).len() == 2 + greeting_message(has_auth)[1],
        greeting_message(has_auth).skip(2).contains(0),
        greeting_message(has_auth).skip(2).contains(2) <==> has_auth,
        forall|i: int|
            2 <= i < greeting_message(has_auth).len() ==> greeting_message(has_auth)[i] == 0
                || greeting_message(has_auth)[i] == 2,
{
    let m = greeting_message(has_auth);
    let methods = m.skip(2);
    assert(methods[0] == m[2]);
    if has_auth {
        assert(methods[1] == m[3]);
    } else {
        assert(forall|i: int| 0 <= i < methods.len() ==> methods[i] == m[i + 2]);
    }
}

/// The message with the credentials: version 1, then each of the two with its length in front.
pub proof fn law_password_layout(username: Seq<u8>, password: Seq<u8>)
    requires
        username.len() <= 255,
        password.len() <= 255,
    ensures
        ({
            let m = password_message(username, password);
            let n = username.len() as int;
            &&& m.len() == 3 + n + password.len()
            &&& m[0] == 1
            &&& m[1] == n
            &&& m.subrange(2, 2 + n) == username
            &&& m[2 + n] == password.len()
            &&& m.skip(3 + n) == password
        }),
{
    let m = password_message(username, password);
    let n = username.len() as int;
    assert(m.subrange(2, 2 + n) =~= username);
    assert(m.skip(3 + n) =~= password);
}

/// The request: version 5, 1 for a connection or 3 for a relay of datagrams, a zero, and the
/// address.
pub proof fn law_request_layout(cmd: Command, dst: SocketAddr)
    ensures
        ({
            let m = request_message(cmd, dst);
            &&& m.len() == 3 + address_length(dst)
            &&& m[0] == 5
            &&& cmd is Connect ==> m[1] == 1
            &&& cmd is UdpAssociate ==> m[1] == 3
            &&& m[2] == 0
            &&& address_stands_at(m, 3, dst)
        }),
{
    law_address_layout(dst);
    let m = request_message(cmd, dst);
    let e = encoded(dst);
    assert(forall|k: int| 0 <= k < e.len() ==> #[trigger] m[3 + k] == e[k]);
    match dst {
        SocketAddr::V4(a) => {
            assert forall|k: int| 0 <= k < 4 implies #[trigger] m[4 + k] == a.ip.octets@[k] by {
                assert(m[4 + k] == e[1 + k]);
            }
            assert(m[8] == e[5] && m[9] == e[6] && m[3] == e[0]);
        },
        SocketAddr::V6(a) => {
            assert forall|k: int| 0 <= k < 16 implies #[trigger] m[4 + k]
                == a.ip.octets@[k] by {
                assert(m[4 + k] == e[1 + k]);
            }
            assert(m[20] == e[17] && m[21] == e[18] && m[3] == e[0]);
        },
    }
}

/// How much is read in each phase: two octets for a choice or a verdict, four for the head of the
/// reply, an address with its port, the length of a name, or the name with its port.
pub proof fn law_reads(n: u8)
    ensures
        Phase::Method.spec_wanted() == 2,
        Phase::Password.spec_wanted() == 2,
        Phase::Header.spec_wanted() == 4,
        Phase::Ipv4.spec_wanted() == 4 + 2,
        Phase::Ipv6.spec_wanted() == 16 + 2,
        Phase::DomainLength.spec_wanted() == 1,
        Phase::Domain(n).spec_wanted() == n + 2,
        Phase::Closed.spec_wanted() == 0,
{
}

/// The server's choice of a method: none goes on with the request; the password is answered with
/// the credentials, if there are any and if they fit; everything else ends the negotiation.
pub proof fn law_method_is_followed(
    auth: Option<(Seq<char>, Seq<char>)>,
    request: Seq<u8>,
    reply: Seq<u8>,
)
    requires
        reply.len() == 2,
    ensures
        ({
            let m = next_move(auth, request, Phase::Method, reply);
            &&& reply == seq![5u8, 0u8] ==> m == Move::Exchange(request, Phase::Header)
            &&& reply[1] == 2 && auth is None ==> m == Move::Fail(SessionError::AuthRequired)
            &&& auth matches Some((u, p)) ==> reply[1] == 2 ==> {
                if encode_utf8(u).len() <= 255 && encode_utf8(p).len() <= 255 {
                    m == Move::Exchange(
                        password_message(encode_utf8(u), encode_utf8(p)),
                        Phase::Password,
                    )
                } else {
                    m == Move::Fail(SessionError::CredentialsTooLong)
                }
            }
            &&& reply[1] == 0xff ==> m == Move::Fail(SessionError::AuthMethodsRejected)
            &&& reply[1] != 0 && reply[1] != 2 && reply[1] != 0xff ==> m == Move::Fail(
                SessionError::AuthFailed(reply[0], reply[1]),
            )
            &&& reply[0] != 5 && reply[1] == 0 ==> m == Move::Fail(
                SessionError::AuthFailed(reply[0], reply[1]),
            )
        }),
{
}

/// The server's word on the credentials: only version 1 and status 0 go on with the request.
pub proof fn law_password_verdict(
    auth: Option<(Seq<char>, Seq<char>)>,
    request: Seq<u8>,
    reply: Seq<u8>,
)
    requires
        reply.len() == 2,
    ensures
        next_move(auth, request, Phase::Password, reply) == if reply == seq![1u8, 0u8] {
            Move::Exchange(request, Phase::Header)
        } else {
            Move::Fail(SessionError::PasswordRejected)
        },
{
    if reply[0] == 1 && reply[1] == 0 {
        assert(reply =~= seq![1u8, 0u8]);
    }
}

/// The head of the reply: its version, its status, and the type of the address that follows.
pub proof fn law_reply_head(
    auth: Option<(Seq<char>, Seq<char>)>,
    request: Seq<u8>,
    reply: Seq<u8>,
)
    requires
        reply.len() == 4,
    ensures
        ({
            let m = next_move(auth, request, Phase::Header, reply);
            let fine = reply[0] == 5 && reply[1] == 0;
            &&& reply[0] != 5 ==> m == Move::Fail(SessionError::InvalidVersion(reply[0]))
            &&& reply[0] == 5 && reply[1] != 0 ==> m == Move::Fail(
                SessionError::RequestFailed(reply[1]),
            )
            &&& fine && reply[3] == 1 ==> m == Move::Exchange(Seq::empty(), Phase::Ipv4)
            &&& fine && reply[3] == 3 ==> m == Move::Exchange(Seq::empty(), Phase::DomainLength)
            &&& fine && reply[3] == 4 ==> m == Move::Exchange(Seq::empty(), Phase::Ipv6)
            &&& fine && reply[3] != 1 && reply[3] != 3 && reply[3] != 4 ==> m == Move::Fail(
                SessionError::UnsupportedAddressType(reply[3]),
            )
        }),
{
}

/// The address in the reply: its octets come first, in order, and then its port.
pub proof fn law_reply_address(
    auth: Option<(Seq<char>, Seq<char>)>,
    request: Seq<u8>,
    reply: Seq<u8>,
)
    ensures
        reply.len() == 6 ==> (next_move(auth, request, Phase::Ipv4, reply) matches Move::Finish(
            SocketAddr::V4(a),
        ) && (forall|k: int| 0 <= k < 4 ==> a.ip.octets@[k] == reply[k]) && a.port == reply[4] * 256
            + reply[5]),
        reply.len() == 18 ==> (next_move(auth, request, Phase::Ipv6, reply) matches Move::Finish(
            SocketAddr::V6(a),
        ) && (forall|k: int| 0 <= k < 16 ==> a.ip.octets@[k] == reply[k]) && a.port == reply[16]
            * 256 + reply[17] && a.flowinfo == 0 && a.scope_id == 0),
{
}

/// The host name in the reply: its length comes first, then its octets, then the port.
pub proof fn law_reply_name(
    auth: Option<(Seq<char>, Seq<char>)>,
    request: Seq<u8>,
    n: u8,
    name: Seq<char>,
    reply: Seq<u8>,
)
    requires
        reply.len() == n + 2,
        reply.take(n as int) == encode_utf8(name),
    ensures
        next_move(auth, request, Phase::DomainLength, seq![n]) == Move::Exchange(
            Seq::empty(),
            Phase::Domain(n),
        ),
        next_move(auth, request, Phase::Domain(n), reply) matches Move::Resolve(host, port) && host
            == name && port == reply[n as int] * 256 + reply[n + 1],
{
    crate::text::law_encoded_text_reads_back(name);
}

/// Behind a name of any octets stands its port, and the name is what those octets stand for.
pub proof fn law_reply_name_and_port(
    auth: Option<(Seq<char>, Seq<char>)>,
    request: Seq<u8>,
    n: u8,
    reply: Seq<u8>,
)
    requires
        reply.len() == n + 2,
    ensures
        next_move(auth, request, Phase::Domain(n), reply) matches Move::Resolve(host, port) && port
            == reply[n as int] * 256 + reply[n + 1] && host == crate::text::decoded_text(
            reply.take(n as int),
        ),
{
}

/// A message is handed out as it is, together with how much is to be read after it; a name or an
/// address is handed out as it is too, and ends the negotiation, as a failure does.
pub proof fn law_moves_are_carried_out(r: Result<Action, SessionError>, phase: Phase, m: Move)
    requires
        carries_out(r, phase, m),
    ensures
        m matches Move::Fail(e) ==> (r matches Err(got) && got == e) && phase == Phase::Closed,
        m matches Move::Exchange(bytes, next) ==> phase == next && (r matches Ok(
            Action::Exchange { send, read },
        ) && send@ == bytes && read == next.spec_wanted()),
        m matches Move::Resolve(name, p) ==> phase == Phase::Closed && (r matches Ok(
            Action::Resolve { host, port },
        ) && host@ == name && port == p),
        m matches Move::Finish(addr) ==> phase == Phase::Closed && (r matches Ok(
            Action::Finish(got),
        ) && got == addr),
{
}

} // verus!
