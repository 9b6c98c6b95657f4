//! The associations of a local proxy, and the readers of their replies.
use vstd::prelude::*;
use crate::net::IpAddr;
use crate::proxy::transparent_proxy::{
    after_associating, after_reader, association_live, live_associations, reader_action, udp_step,
    used, Associations, ReaderAction, ReaderEvent, TransparentProxy, UdpAssociationEntry,
    UdpAssociationKey, UdpStep, UDP_QUEUE_SIZE,
};

verus! {

/// An association is kept until it was idle for two minutes.
pub proof fn law_idle_associations_expire(entry: UdpAssociationEntry, now: u64)
    ensures
        association_live(entry, now) <==> now < entry.last_active + 120 * 1_000_000_000,
{
}

/// Cleaning up keeps the associations that are live, as they are, and no others.
pub proof fn law_cleanup_keeps_live_associations(
    m: Associations,
    now: u64,
    key: UdpAssociationKey,
)
    ensures
        live_associations(m, now).contains_key(key) <==> m.contains_key(key) && now
            < m[key].last_active + 120 * 1_000_000_000,
        live_associations(m, now).contains_key(key) ==> live_associations(m, now)[key] == m[key],
{
}

/// A use sets the moment of the association that was used, and changes nothing else.
pub proof fn law_use_is_noted(
    m: Associations,
    key: UdpAssociationKey,
    other: UdpAssociationKey,
    now: u64,
)
    ensures
        used(m, key, now).dom() == m.dom(),
        m.contains_key(key) ==> used(m, key, now)[key].last_active == now && used(
            m,
            key,
            now,
        )[key].assoc == m[key].assoc,
        m.contains_key(other) && other != key ==> used(m, key, now)[other] == m[other],
{
    assert(used(m, key, now).dom() =~= m.dom());
}

/// A reader waits until the proxy stops, passes on every reply that is not empty, whole, and goes
/// on as long as its association is in the table.
pub proof fn law_reader_passes_replies_on(
    m: Associations,
    shutdown: bool,
    key: UdpAssociationKey,
    n: usize,
)
    ensures
        reader_action(m, shutdown, key, ReaderEvent::Begin) == if shutdown {
            ReaderAction::Stop
        } else {
            ReaderAction::Wait
        },
        reader_action(m, shutdown, key, ReaderEvent::Shutdown) == ReaderAction::Stop,
        reader_action(m, shutdown, key, ReaderEvent::Failed) == ReaderAction::Stop,
        n > 0 ==> reader_action(m, shutdown, key, ReaderEvent::Received(n))
            == ReaderAction::Forward(n),
        reader_action(m, shutdown, key, ReaderEvent::Received(0)) == ReaderAction::Again,
        m.contains_key(key) ==> reader_action(m, shutdown, key, ReaderEvent::Forwarded)
            == ReaderAction::Again,
        m.contains_key(key) ==> reader_action(m, shutdown, key, ReaderEvent::TimedOut)
            == ReaderAction::Again,
        !m.contains_key(key) ==> reader_action(m, shutdown, key, ReaderEvent::Forwarded)
            == ReaderAction::Stop,
        !m.contains_key(key) ==> reader_action(m, shutdown, key, ReaderEvent::TimedOut)
            == ReaderAction::Stop,
{
}

/// A reader touches its own association alone: it takes it out when it stops, marks it as used when
/// it has passed a reply on, and leaves it as it is otherwise.
pub proof fn law_reader_touches_its_own(
    m: Associations,
    shutdown: bool,
    key: UdpAssociationKey,
    other: UdpAssociationKey,
    event: ReaderEvent,
    now: u64,
)
    requires
        other != key,
    ensures
        ({
            let after = after_reader(m, shutdown, key, event, now);
            let stops = reader_action(m, shutdown, key, event) == ReaderAction::Stop;
            &&& after.contains_key(other) <==> m.contains_key(other)
            &&& m.contains_key(other) ==> after[other] == m[other]
            &&& after.contains_key(key) <==> m.contains_key(key) && !stops
            &&& m.contains_key(key) && !stops ==> after[key].assoc == m[key].assoc
            &&& m.contains_key(key) && !stops && event == ReaderEvent::Forwarded
                ==> after[key].last_active == now
            &&& m.contains_key(key) && !stops && event != ReaderEvent::Forwarded
                ==> after[key].last_active == m[key].last_active
        }),
{
}

/// What a step of the associations leaves alone is everything else of the proxy.
pub proof fn law_the_rest_of_the_proxy_stays(a: &TransparentProxy, b: &TransparentProxy)
    requires
        a.same_but_associations(b),
    ensures
        a.port == b.port,
        a.socks5 == b.socks5,
        a.tcp_port_v4 == b.tcp_port_v4,
        a.tcp_port_v6 == b.tcp_port_v6,
        a.udp_port_v4 == b.udp_port_v4,
        a.udp_port_v6 == b.udp_port_v6,
        a.shutdown == b.shutdown,
        UDP_QUEUE_SIZE == 1024,
{
}

/// A client's datagrams to one address go through one association, whatever the port they go to;
/// each is sent to the address and port that the client wrote to. The first one asks for the
/// association.
pub proof fn law_datagrams_share_an_association(
    m: Associations,
    dst_ip: IpAddr,
    dst_port: u16,
    client_port: u16,
    key: UdpAssociationKey,
)
    requires
        key.dst_ip == dst_ip,
        key.client_port == client_port,
    ensures
        m.contains_key(key) ==> (udp_step(m, dst_ip, dst_port, client_port) matches UdpStep::Send {
            assoc,
            remote,
        } && assoc == m[key].assoc && remote.spec_ip() == dst_ip && remote.spec_port() == dst_port),
        !m.contains_key(key) ==> (udp_step(
            m,
            dst_ip,
            dst_port,
            client_port,
        ) matches UdpStep::Associate { key: asked, remote } && asked == key && remote.spec_ip()
            == dst_ip && remote.spec_port() == dst_port),
{
    assert(key == (UdpAssociationKey { dst_ip, client_port }));
}

/// Of two associations that are made for one key at the same time the first one stays. It alone
/// gets a reader, both are told to use it, and the later one only counts as a use of it.
pub proof fn law_first_association_stays(
    m: Associations,
    key: UdpAssociationKey,
    other: UdpAssociationKey,
    a: u64,
    b: u64,
    now: u64,
    later: u64,
)
    requires
        !m.contains_key(key),
        other != key,
    ensures
        ({
            let first = after_associating(m, key, a, now);
            let second = after_associating(first.0, key, b, later);
            &&& first.1.assoc == a
            &&& first.1.spawn_reader
            &&& first.0.contains_key(key)
            &&& first.0[key].assoc == a
            &&& first.0[key].last_active == now
            &&& second.1.assoc == a
            &&& !second.1.spawn_reader
            &&& second.0.contains_key(key)
            &&& second.0[key].assoc == a
            &&& second.0[key].last_active == later
            &&& first.0.contains_key(other) == m.contains_key(other)
            &&& second.0.contains_key(other) == m.contains_key(other)
            &&& m.contains_key(other) ==> first.0[other] == m[other] && second.0[other] == m[other]
        }),
{
}

} // verus!
