//! The local proxy that the redirected traffic arrives at.
//!
//! The sockets belong to the program around this module. What is kept here is the ports
//! that the proxy listens on, and the table of relays: one association with the SOCKS5 server
//! for each pair of a destination and a client port. An association is known by a number that
//! the program gives it.
use vstd::prelude::*;
use crate::clock;
use crate::clock::time_since;
use crate::net::{maybe_mapped, IpAddr, SocketAddr};
use crate::proxy::session::{Command, Session};
use crate::proxy::socks5::Socks5Dialer;
use crate::table::{Key, Table};

verus! {

/// How many datagrams may wait to be relayed.
pub const UDP_QUEUE_SIZE: usize = 1024;

/// How long an association outlives its last datagram: 120 seconds.
pub const UDP_ASSOCIATION_TIMEOUT: u64 = 120_000_000_000;

/// What an association is for: datagrams of one client port to one destination address.
#[derive(Clone, Copy, Debug, PartialEq, Eq)]
pub struct UdpAssociationKey {
    pub dst_ip: IpAddr,
    pub client_port: u16,
}

impl Key for UdpAssociationKey {
    fn same(&self, other: &Self) -> (r: bool) {
        self.dst_ip.same(&other.dst_ip) && self.client_port == other.client_port
    }
}

/// An association with the SOCKS5 server and when it was last used.
#[derive(Clone, Copy, Debug, PartialEq, Eq, Structural)]
pub struct UdpAssociationEntry {
    pub assoc: u64,
    pub last_active: u64,
}

impl UdpAssociationEntry {
    /// Whether the association was used so recently that it is kept.
    pub fn is_live(&self, now: u64) -> (r: bool)
        ensures
            r == association_live(*self, now),
    {
        let idle: u64 = clock::elapsed(now, self.last_active);
        idle < UDP_ASSOCIATION_TIMEOUT
    }
}

/// The associations at hand.
pub type Associations = Map<UdpAssociationKey, UdpAssociationEntry>;

/// Used so recently that it is kept.
pub open spec fn association_live(entry: UdpAssociationEntry, now: u64) -> bool {
    time_since(now, entry.last_active) < UDP_ASSOCIATION_TIMEOUT
}

/// The associations that are still live at `now`.
pub open spec fn live_associations(m: Associations, now: u64) -> Associations {
    Map::new(|k| m.contains_key(k) && association_live(m[k], now), |k| m[k])
}

/// The association under `key`, if there is one, used at `now`.
pub open spec fn used(m: Associations, key: UdpAssociationKey, now: u64) -> Associations {
    if m.contains_key(key) {
        m.insert(key, UdpAssociationEntry { assoc: m[key].assoc, last_active: now })
    } else {
        m
    }
}

/// What to do with a datagram of a client.
#[derive(Clone, Copy, Debug, PartialEq, Eq)]
pub enum UdpStep {
    /// Send it through this association.
    Send { assoc: u64, remote: SocketAddr },
    /// Make an association for this key first.
    Associate { key: UdpAssociationKey, remote: SocketAddr },
}

/// What becomes of a datagram from `client_port` to `dst_ip` at `dst_port`: it goes through the
/// association of its client and its destination's address, once there is one.
pub open spec fn udp_step(
    m: Associations,
    dst_ip: IpAddr,
    dst_port: u16,
    client_port: u16,
) -> UdpStep {
    let key = UdpAssociationKey { dst_ip, client_port };
    let remote = SocketAddr::spec_new(dst_ip, dst_port);
    if m.contains_key(key) {
        UdpStep::Send { assoc: m[key].assoc, remote }
    } else {
        UdpStep::Associate { key, remote }
    }
}

/// The association to use, and whether it is the new one, whose replies nobody reads yet.
#[derive(Clone, Copy, Debug, PartialEq, Eq, Structural)]
pub struct Associated {
    pub assoc: u64,
    pub spawn_reader: bool,
}

/// The associations after `fresh` was made for `key`, and the one to use: `fresh`, or one that was
/// there before.
pub open spec fn after_associating(
    m: Associations,
    key: UdpAssociationKey,
    fresh: u64,
    now: u64,
) -> (Associations, Associated) {
    if m.contains_key(key) {
        (used(m, key, now), Associated { assoc: m[key].assoc, spawn_reader: false })
    } else {
        (
            m.insert(key, UdpAssociationEntry { assoc: fresh, last_active: now }),
            Associated { assoc: fresh, spawn_reader: true },
        )
    }
}

/// What happened to the reader of an association's replies.
#[derive(Clone, Copy, Debug, PartialEq, Eq, Structural)]
pub enum ReaderEvent {
    /// It is about to wait for a reply.
    Begin,
    /// The proxy was told to stop while it waited.
    Shutdown,
    /// A reply with a payload of this length came.
    Received(usize),
    /// The payload was passed on to the client.
    Forwarded,
    /// The association failed.
    Failed,
    /// No reply came for a while.
    TimedOut,
}

/// What the reader of an association's replies does next.
#[derive(Clone, Copy, Debug, PartialEq, Eq, Structural)]
pub enum ReaderAction {
    /// Wait for a reply.
    Wait,
    /// Pass this many octets on to the client.
    Forward(usize),
    /// Start over.
    Again,
    /// End.
    Stop,
}

/// What the reader does next.
pub open spec fn reader_action(
    m: Associations,
    shutdown: bool,
    key: UdpAssociationKey,
    event: ReaderEvent,
) -> ReaderAction {
    match event {
        ReaderEvent::Begin => if shutdown {
            ReaderAction::Stop
        } else {
            ReaderAction::Wait
        },
        ReaderEvent::Shutdown => ReaderAction::Stop,
        ReaderEvent::Received(len) => if len == 0 {
            ReaderAction::Again
        } else {
            ReaderAction::Forward(len)
        },
        ReaderEvent::Forwarded => if m.contains_key(key) {
            ReaderAction::Again
        } else {
            ReaderAction::Stop
        },
        ReaderEvent::Failed => ReaderAction::Stop,
        ReaderEvent::TimedOut => if m.contains_key(key) {
            ReaderAction::Again
        } else {
            ReaderAction::Stop
        },
    }
}

/// The associations after the reader's event: a reply that was passed on counts as a use, and
/// a reader that stops takes its association along.
pub open spec fn after_reader(
    m: Associations,
    shutdown: bool,
    key: UdpAssociationKey,
    event: ReaderEvent,
    now: u64,
) -> Associations {
    if reader_action(m, shutdown, key, event) is Stop {
        m.remove(key)
    } else if event is Forwarded {
        used(m, key, now)
    } else {
        m
    }
}

/// The local proxy in front of one SOCKS5 server.
pub struct TransparentProxy {
    pub port: u16,
    pub socks5: Socks5Dialer,
    pub tcp_port_v4: u16,
    pub tcp_port_v6: u16,
    pub udp_port_v4: u16,
    pub udp_port_v6: u16,
    pub shutdown: bool,
    pub udp_connections: Table<UdpAssociationKey, UdpAssociationEntry>,
}

impl TransparentProxy {
    /// The table of associations is sound, and so is the client of the server.
    pub open spec fn wf(&self) -> bool {
        self.udp_connections.wf() && self.socks5.wf()
    }

    /// Everything but the associations.
    pub open spec fn same_but_associations(&self, other: &Self) -> bool {
        &&& self.port == other.port
        &&& self.socks5 == other.socks5
        &&& self.tcp_port_v4 == other.tcp_port_v4
        &&& self.tcp_port_v6 == other.tcp_port_v6
        &&& self.udp_port_v4 == other.udp_port_v4
        &&& self.udp_port_v6 == other.udp_port_v6
        &&& self.shutdown == other.shutdown
    }

    /// A proxy that does not listen yet. It is to listen on `local_proxy_port`, or on ports of
    /// the system's choice if that is zero.
    pub fn new(local_proxy_port: u16, socks5: Socks5Dialer) -> (r: Self)
        requires
            socks5.wf(),
        ensures
            r.wf(),
            r.port == local_proxy_port,
            r.socks5 == socks5,
            r.tcp_port_v4 == 0,
            r.tcp_port_v6 == 0,
            r.udp_port_v4 == 0,
            r.udp_port_v6 == 0,
            !r.shutdown,
            r.udp_connections@ == Associations::empty(),
    {
        TransparentProxy {
            port: local_proxy_port,
            socks5,
            tcp_port_v4: 0,
            tcp_port_v6: 0,
            udp_port_v4: 0,
            udp_port_v6: 0,
            shutdown: false,
            udp_connections: Table::new(),
        }
    }

    /// The port for TCP over IPv4, zero while the proxy does not listen.
    pub fn get_local_tcp_proxy_port_v4(&self) -> (r: u16)
        ensures
            r == self.tcp_port_v4,
    {
        self.tcp_port_v4
    }

    /// The port for TCP over IPv6, zero while the proxy does not listen.
    pub fn get_local_tcp_proxy_port_v6(&self) -> (r: u16)
        ensures
            r == self.tcp_port_v6,
    {
        self.tcp_port_v6
    }

    /// The port for UDP over IPv4, zero while the proxy does not listen.
    pub fn get_local_udp_proxy_port_v4(&self) -> (r: u16)
        ensures
            r == self.udp_port_v4,
    {
        self.udp_port_v4
    }

    /// The port for UDP over IPv6, zero while the proxy does not listen.
    pub fn get_local_udp_proxy_port_v6(&self) -> (r: u16)
        ensures
            r == self.udp_port_v6,
    {
        self.udp_port_v6
    }

    /// Notes the port of the TCP socket, which serves both address families.
    pub fn tcp_listening(&mut self, port: u16)
        ensures
            *final(self) == (TransparentProxy { tcp_port_v4: port, tcp_port_v6: port, ..*old(self) }),
    {
        self.tcp_port_v4 = port;
        self.tcp_port_v6 = port;
    }

    /// Notes the port of the UDP socket, which serves both address families.
    pub fn udp_listening(&mut self, port: u16)
        ensures
            *final(self) == (TransparentProxy { udp_port_v4: port, udp_port_v6: port, ..*old(self) }),
    {
        self.udp_port_v4 = port;
        self.udp_port_v6 = port;
    }

    /// Tells the workers of the proxy to stop.
    pub fn stop(&mut self)
        ensures
            *final(self) == (TransparentProxy { shutdown: true, ..*old(self) }),
    {
        self.shutdown = true;
    }

    /// Begins the connection through the server for a client that wanted to reach `dst_ip` at
    /// `dst_port`.
    pub fn handle_tcp_connection(&self, dst_ip: IpAddr, dst_port: u16) -> (r: (SocketAddr, Session))
        ensures
            r.0 == SocketAddr::spec_new(dst_ip, dst_port),
            r.1.auth == self.socks5.auth,
            r.1.cmd == Command::Connect,
            r.1.dst == maybe_mapped(r.0, self.socks5.prefer_ipv4_mapped_ipv6),
            r.1.phase is Method,
    {
        let dst_addr = SocketAddr::new(dst_ip, dst_port);
        (dst_addr, self.socks5.connect_tcp(dst_addr))
    }

    /// Takes a datagram of a client that wanted to reach `dst_ip` at `dst_port`.
    pub fn handle_udp_packet(
        &mut self,
        dst_ip: IpAddr,
        dst_port: u16,
        client_port: u16,
        now: u64,
    ) -> (r: UdpStep)
        requires
            old(self).wf(),
        ensures
            final(self).wf(),
            final(self).same_but_associations(old(self)),
            ({
                let key = UdpAssociationKey { dst_ip, client_port };
                let remote = SocketAddr::spec_new(dst_ip, dst_port);
                let m = old(self).udp_connections@;
                &&& final(self).udp_connections@ == used(m, key, now)
                &&& r == if m.contains_key(key) {
                    UdpStep::Send { assoc: m[key].assoc, remote }
                } else {
                    UdpStep::Associate { key, remote }
                }
            }),
            r == udp_step(old(self).udp_connections@, dst_ip, dst_port, client_port),
    {
        let key = UdpAssociationKey { dst_ip, client_port };
        let remote = SocketAddr::new(dst_ip, dst_port);
        match self.touch(&key, now) {
            Some(assoc) => UdpStep::Send { assoc, remote },
            None => UdpStep::Associate { key, remote },
        }
    }

    /// Marks the association under `key`, if there is one, as used at `now`.
    fn touch(&mut self, key: &UdpAssociationKey, now: u64) -> (r: Option<u64>)
        requires
            old(self).wf(),
        ensures
            final(self).wf(),
            final(self).same_but_associations(old(self)),
            final(self).udp_connections@ == used(old(self).udp_connections@, *key, now),
            r == if old(self).udp_connections@.contains_key(*key) {
                Some(old(self).udp_connections@[*key].assoc)
            } else {
                None
            },
    {
        let assoc = match self.udp_connections.get(key) {
            Some(entry) => entry.assoc,
            None => return None,
        };
        self.udp_connections.insert(*key, UdpAssociationEntry { assoc, last_active: now });
        Some(assoc)
    }

    /// Takes the new association `fresh` for `key`. One that was made for the key in the
    /// meantime is used instead.
    pub fn udp_associated(&mut self, key: UdpAssociationKey, fresh: u64, now: u64) -> (r: Associated)
        requires
            old(self).wf(),
        ensures
            final(self).wf(),
            final(self).same_but_associations(old(self)),
            ({
                let m = old(self).udp_connections@;
                if m.contains_key(key) {
                    &&& final(self).udp_connections@ == used(m, key, now)
                    &&& r == (Associated { assoc: m[key].assoc, spawn_reader: false })
                } else {
                    &&& final(self).udp_connections@ == m.insert(
                        key,
                        UdpAssociationEntry { assoc: fresh, last_active: now },
                    )
                    &&& r == (Associated { assoc: fresh, spawn_reader: true })
                }
            }),
            (final(self).udp_connections@, r) == after_associating(
                old(self).udp_connections@,
                key,
                fresh,
                now,
            ),
    {
        match self.touch(&key, now) {
            Some(assoc) => Associated { assoc, spawn_reader: false },
            None => {
                self.udp_connections.insert(
                    key,
                    UdpAssociationEntry { assoc: fresh, last_active: now },
                );
                Associated { assoc: fresh, spawn_reader: true }
            },
        }
    }

    /// Takes what happened to the reader of the association under `key`, and tells what it
    /// does next.
    pub fn reader_step(
        &mut self,
        key: UdpAssociationKey,
        event: ReaderEvent,
        now: u64,
    ) -> (r: ReaderAction)
        requires
            old(self).wf(),
        ensures
            final(self).wf(),
            final(self).same_but_associations(old(self)),
            r == reader_action(old(self).udp_connections@, old(self).shutdown, key, event),
            final(self).udp_connections@ == after_reader(
                old(self).udp_connections@,
                old(self).shutdown,
                key,
                event,
                now,
            ),
    {
        let action = match event {
            ReaderEvent::Begin => if self.shutdown {
                ReaderAction::Stop
            } else {
                ReaderAction::Wait
            },
            ReaderEvent::Shutdown => ReaderAction::Stop,
            ReaderEvent::Received(len) => if len == 0 {
                ReaderAction::Again
            } else {
                ReaderAction::Forward(len)
            },
            ReaderEvent::Forwarded => match self.touch(&key, now) {
                Some(_) => ReaderAction::Again,
                None => ReaderAction::Stop,
            },
            ReaderEvent::Failed => ReaderAction::Stop,
            ReaderEvent::TimedOut => if self.udp_connections.contains(&key) {
                ReaderAction::Again
            } else {
                ReaderAction::Stop
            },
        };
        if action == ReaderAction::Stop {
            let _ = self.udp_connections.remove(&key);
        }
        action
    }

    /// Drops the associations that were not used for a while.
    pub fn cleanup_stale_udp_associations(&mut self, now: u64)
        requires
            old(self).wf(),
        ensures
            final(self).wf(),
            final(self).same_but_associations(old(self)),
            final(self).udp_connections@ == live_associations(old(self).udp_connections@, now),
    {
        let live = |entry: &UdpAssociationEntry| -> (keep: bool)
            ensures
                keep == association_live(*entry, now),
        {
            entry.is_live(now)
        };
        self.udp_connections.retain(live);
        assert(self.udp_connections@ =~= live_associations(old(self).udp_connections@, now));
    }
}

/// A client's datagram is always sent through the association that is in the table under its
/// destination and port, be it an old one or the one just made.
pub proof fn law_datagrams_share_association(
    m: Associations,
    key: UdpAssociationKey,
    fresh: u64,
    now: u64,
    later: u64,
)
    ensures
        ({
            let after = if m.contains_key(key) {
                used(m, key, now)
            } else {
                m.insert(key, UdpAssociationEntry { assoc: fresh, last_active: now })
            };
            &&& after.contains_key(key)
            &&& m.contains_key(key) ==> after[key].assoc == m[key].assoc
            &&& used(after, key, later)[key].assoc == after[key].assoc
        }),
{
}

/// An association lives on exactly as long as the time since its last use is below the
/// timeout.
pub proof fn law_association_expires(
    m: Associations,
    key: UdpAssociationKey,
    last_use: u64,
    now: u64,
)
    requires
        m.contains_key(key),
    ensures
        live_associations(used(m, key, last_use), now).contains_key(key) <==> time_since(
            now,
            last_use,
        ) < UDP_ASSOCIATION_TIMEOUT,
{
}

/// A reader stops once its association has left the table, as soon as it passes on a reply or
/// gets none.
pub proof fn law_reader_follows_table(
    m: Associations,
    shutdown: bool,
    key: UdpAssociationKey,
    event: ReaderEvent,
)
    requires
        !m.contains_key(key),
        event is Forwarded || event is TimedOut,
    ensures
        reader_action(m, shutdown, key, event) is Stop,
{
}

/// A reader that stops leaves no association behind.
pub proof fn law_stopped_reader_leaves_nothing(
    m: Associations,
    shutdown: bool,
    key: UdpAssociationKey,
    event: ReaderEvent,
    now: u64,
)
    requires
        reader_action(m, shutdown, key, event) is Stop,
    ensures
        !after_reader(m, shutdown, key, event, now).contains_key(key),
{
}

} // verus!
