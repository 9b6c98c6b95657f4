//! How the tables of connections and sockets are read, octet by octet, and how long what was read
//! is kept.
use vstd::prelude::*;
use crate::net::{
    ipv4_at, ipv6_at, lemma_ipv4_octets, lemma_ipv6_octets, IpAddr, Ipv4Addr, Ipv6Addr, SocketAddr,
};
use crate::router::packet::PacketKind;
use crate::windows::process::{
    after_asking, after_finding, find_step, kept_path, law_later_rows_win, live_paths, owner,
    path_live, path_step, refreshed_step, rows_map, session_kind, stale, table_complete, tcp_row,
    tcp_session_key, tcp_sessions, udp_owner, udp_row, udp_sessions, utf16_lossy, CachedProcess,
    LookupStep, ProcessPaths, SessionCache, TcpKey, UdpKey,
};
use crate::windows::stats::{joined, sampled, usage_since, CpuSampler};

verus! {

/// `n` stands at `s[at..at + 4]`, its least significant octet first.
pub open spec fn number_at(s: Seq<u8>, at: int, n: u32) -> bool {
    s[at] + 256 * s[at + 1] + 65536 * s[at + 2] + 16777216 * s[at + 3] == n
}

/// `port` stands at `s[at..at + 2]`, its upper octet first.
pub open spec fn port_at(s: Seq<u8>, at: int, port: u16) -> bool {
    s[at] * 256 + s[at + 1] == port
}

/// A table of the UDP sockets of IPv4 as the system writes it, a `MIB_UDPTABLE_OWNER_PID`: the
/// number of rows, and in each row of 12 octets the address, the port and the owner.
pub open spec fn udp_v4_table(table: Seq<u8>, rows: Seq<(Ipv4Addr, u16, u32)>) -> bool {
    &&& table.len() >= 4 + 12 * rows.len()
    &&& rows.len() <= u32::MAX
    &&& number_at(table, 0, rows.len() as u32)
    &&& forall|i: int| #![trigger rows[i]]
        0 <= i < rows.len() ==> {
            &&& table.subrange(4 + 12 * i, 8 + 12 * i) == rows[i].0.octets@
            &&& port_at(table, 8 + 12 * i, rows[i].1)
            &&& number_at(table, 12 + 12 * i, rows[i].2)
        }
}

/// A table of the UDP sockets of IPv6, a `MIB_UDP6TABLE_OWNER_PID`: rows of 28 octets with the
/// address, its scope, the port and the owner.
pub open spec fn udp_v6_table(table: Seq<u8>, rows: Seq<(Ipv6Addr, u16, u32)>) -> bool {
    &&& table.len() >= 4 + 28 * rows.len()
    &&& rows.len() <= u32::MAX
    &&& number_at(table, 0, rows.len() as u32)
    &&& forall|i: int| #![trigger rows[i]]
        0 <= i < rows.len() ==> {
            &&& table.subrange(4 + 28 * i, 20 + 28 * i) == rows[i].0.octets@
            &&& port_at(table, 24 + 28 * i, rows[i].1)
            &&& number_at(table, 28 + 28 * i, rows[i].2)
        }
}

/// One end of a connection of IPv4.
pub type End4 = (Ipv4Addr, u16);

/// One end of a connection of IPv6.
pub type End6 = (Ipv6Addr, u16);

/// A table of the TCP connections of IPv4, a `MIB_TCPTABLE_OWNER_PID`: rows of 24 octets with the
/// state, the local address and port, the remote address and port, and the owner.
pub open spec fn tcp_v4_table(table: Seq<u8>, rows: Seq<(End4, End4, u32)>) -> bool {
    &&& table.len() >= 4 + 24 * rows.len()
    &&& rows.len() <= u32::MAX
    &&& number_at(table, 0, rows.len() as u32)
    &&& forall|i: int| #![trigger rows[i]]
        0 <= i < rows.len() ==> {
            &&& table.subrange(8 + 24 * i, 12 + 24 * i) == rows[i].0.0.octets@
            &&& port_at(table, 12 + 24 * i, rows[i].0.1)
            &&& table.subrange(16 + 24 * i, 20 + 24 * i) == rows[i].1.0.octets@
            &&& port_at(table, 20 + 24 * i, rows[i].1.1)
            &&& number_at(table, 24 + 24 * i, rows[i].2)
        }
}

/// A table of the TCP connections of IPv6, a `MIB_TCP6TABLE_OWNER_PID`: rows of 56 octets with the
/// local address, its scope and port, the same of the remote end, the state, and the owner.
pub open spec fn tcp_v6_table(table: Seq<u8>, rows: Seq<(End6, End6, u32)>) -> bool {
    &&& table.len() >= 4 + 56 * rows.len()
    &&& rows.len() <= u32::MAX
    &&& number_at(table, 0, rows.len() as u32)
    &&& forall|i: int| #![trigger rows[i]]
        0 <= i < rows.len() ==> {
            &&& table.subrange(4 + 56 * i, 20 + 56 * i) == rows[i].0.0.octets@
            &&& port_at(table, 24 + 56 * i, rows[i].0.1)
            &&& table.subrange(28 + 56 * i, 44 + 56 * i) == rows[i].1.0.octets@
            &&& port_at(table, 48 + 56 * i, rows[i].1.1)
            &&& number_at(table, 56 + 56 * i, rows[i].2)
        }
}

proof fn lemma_ipv4_read(table: Seq<u8>, at: int, ip: Ipv4Addr)
    requires
        0 <= at <= table.len() - 4,
        table.subrange(at, at + 4) == ip.octets@,
    ensures
        ipv4_at(table, at) == ip,
{
    let read = ipv4_at(table, at);
    assert(read.octets@ =~= table.subrange(at, at + 4));
    lemma_ipv4_octets(read, ip);
}

proof fn lemma_ipv6_read(table: Seq<u8>, at: int, ip: Ipv6Addr)
    requires
        0 <= at <= table.len() - 16,
        table.subrange(at, at + 16) == ip.octets@,
    ensures
        ipv6_at(table, at) == ip,
{
    let read = ipv6_at(table, at);
    assert(read.octets@ =~= table.subrange(at, at + 16));
    lemma_ipv6_octets(read, ip);
}

/// A table that the system wrote reads back: the owner found under a socket is that of its row, of
/// the last one if it stands in several, and a socket in no row has no owner.
pub proof fn law_udp_v4_table_reads_back(
    table: Seq<u8>,
    rows: Seq<(Ipv4Addr, u16, u32)>,
    ip: Ipv4Addr,
    port: u16,
)
    requires
        udp_v4_table(table, rows),
    ensures
        table_complete(PacketKind::UdpV4, table),
        ({
            let m = udp_sessions(false, table);
            let key = UdpKey { local_ip: IpAddr::V4(ip), local_port: port };
            &&& (forall|i: int|
                0 <= i < rows.len() && (#[trigger] rows[i]).0 == ip && rows[i].1 == port && (forall|
                    j: int,
                |
                    i < j < rows.len() ==> !((#[trigger] rows[j]).0 == ip && rows[j].1 == port))
                    ==> m.contains_key(key) && m[key] == rows[i].2)
            &&& (forall|i: int|
                0 <= i < rows.len() ==> !((#[trigger] rows[i]).0 == ip && rows[i].1 == port))
                ==> !m.contains_key(key)
        }),
{
    let row = |i: int| udp_row(false, table, i);
    let key = UdpKey { local_ip: IpAddr::V4(ip), local_port: port };
    assert forall|i: int| 0 <= i < rows.len() implies #[trigger] row(i) == (
        UdpKey { local_ip: IpAddr::V4(rows[i].0), local_port: rows[i].1 },
        rows[i].2,
    ) by {
        lemma_ipv4_read(table, 4 + 12 * i, rows[i].0);
    }
    lemma_rows(row, rows.len(), key);
    assert forall|i: int|
        0 <= i < rows.len() && (#[trigger] rows[i]).0 == ip && rows[i].1 == port && (forall|j: int|
            i < j < rows.len() ==> !((#[trigger] rows[j]).0 == ip && rows[j].1 == port)) implies {
        let m = udp_sessions(false, table);
        m.contains_key(key) && m[key] == rows[i].2
    } by {
        assert(row(i).0 == key);
        assert forall|j: int| i < j < rows.len() implies (#[trigger] row(j)).0 != key by {
            assert(!(rows[j].0 == ip && rows[j].1 == port));
        }
    }
    if forall|i: int|
        0 <= i < rows.len() ==> !((#[trigger] rows[i]).0 == ip && rows[i].1 == port) {
        assert forall|i: int| 0 <= i < rows.len() implies (#[trigger] row(i)).0 != key by {
            assert(!(rows[i].0 == ip && rows[i].1 == port));
        }
    }
}

/// The last of the rows under a key says what the rows say, and a key in no row says nothing.
proof fn lemma_rows<K>(row: spec_fn(int) -> (K, u32), n: nat, key: K)
    ensures
        forall|i: int|
            0 <= i < n && (#[trigger] row(i)).0 == key && (forall|j: int|
                i < j < n ==> (#[trigger] row(j)).0 != key) ==> rows_map(row, n).contains_key(key)
                && rows_map(row, n)[key] == row(i).1,
        (forall|i: int| 0 <= i < n ==> (#[trigger] row(i)).0 != key) ==> !rows_map(
            row,
            n,
        ).contains_key(key),
{
    law_later_rows_win(row, n, key);
}

/// The same for the UDP sockets of IPv6.
pub proof fn law_udp_v6_table_reads_back(
    table: Seq<u8>,
    rows: Seq<(Ipv6Addr, u16, u32)>,
    ip: Ipv6Addr,
    port: u16,
)
    requires
        udp_v6_table(table, rows),
    ensures
        table_complete(PacketKind::UdpV6, table),
        ({
            let m = udp_sessions(true, table);
            let key = UdpKey { local_ip: IpAddr::V6(ip), local_port: port };
            &&& (forall|i: int|
                0 <= i < rows.len() && (#[trigger] rows[i]).0 == ip && rows[i].1 == port && (forall|
                    j: int,
                |
                    i < j < rows.len() ==> !((#[trigger] rows[j]).0 == ip && rows[j].1 == port))
                    ==> m.contains_key(key) && m[key] == rows[i].2)
            &&& (forall|i: int|
                0 <= i < rows.len() ==> !((#[trigger] rows[i]).0 == ip && rows[i].1 == port))
                ==> !m.contains_key(key)
        }),
{
    let row = |i: int| udp_row(true, table, i);
    let key = UdpKey { local_ip: IpAddr::V6(ip), local_port: port };
    assert forall|i: int| 0 <= i < rows.len() implies #[trigger] row(i) == (
        UdpKey { local_ip: IpAddr::V6(rows[i].0), local_port: rows[i].1 },
        rows[i].2,
    ) by {
        lemma_ipv6_read(table, 4 + 28 * i, rows[i].0);
    }
    lemma_rows(row, rows.len(), key);
    assert forall|i: int|
        0 <= i < rows.len() && (#[trigger] rows[i]).0 == ip && rows[i].1 == port && (forall|j: int|
            i < j < rows.len() ==> !((#[trigger] rows[j]).0 == ip && rows[j].1 == port)) implies {
        let m = udp_sessions(true, table);
        m.contains_key(key) && m[key] == rows[i].2
    } by {
        assert(row(i).0 == key);
        assert forall|j: int| i < j < rows.len() implies (#[trigger] row(j)).0 != key by {
            assert(!(rows[j].0 == ip && rows[j].1 == port));
        }
    }
    if forall|i: int|
        0 <= i < rows.len() ==> !((#[trigger] rows[i]).0 == ip && rows[i].1 == port) {
        assert forall|i: int| 0 <= i < rows.len() implies (#[trigger] row(i)).0 != key by {
            assert(!(rows[i].0 == ip && rows[i].1 == port));
        }
    }
}

/// The same for the TCP connections of IPv4.
pub proof fn law_tcp_v4_table_reads_back(
    table: Seq<u8>,
    rows: Seq<(End4, End4, u32)>,
    local: End4,
    remote: End4,
)
    requires
        tcp_v4_table(table, rows),
    ensures
        table_complete(PacketKind::TcpV4, table),
        ({
            let m = tcp_sessions(false, table);
            let key = TcpKey {
                local_ip: IpAddr::V4(local.0),
                remote_ip: IpAddr::V4(remote.0),
                local_port: local.1,
                remote_port: remote.1,
            };
            &&& (forall|i: int|
                0 <= i < rows.len() && (#[trigger] rows[i]).0 == local && rows[i].1 == remote && (
                forall|j: int|
                    i < j < rows.len() ==> !((#[trigger] rows[j]).0 == local && rows[j].1
                        == remote)) ==> m.contains_key(key) && m[key] == rows[i].2)
            &&& (forall|i: int|
                0 <= i < rows.len() ==> !((#[trigger] rows[i]).0 == local && rows[i].1 == remote))
                ==> !m.contains_key(key)
        }),
{
    let row = |i: int| tcp_row(false, table, i);
    let key = TcpKey {
        local_ip: IpAddr::V4(local.0),
        remote_ip: IpAddr::V4(remote.0),
        local_port: local.1,
        remote_port: remote.1,
    };
    assert forall|i: int| 0 <= i < rows.len() implies #[trigger] row(i) == (
        TcpKey {
            local_ip: IpAddr::V4(rows[i].0.0),
            remote_ip: IpAddr::V4(rows[i].1.0),
            local_port: rows[i].0.1,
            remote_port: rows[i].1.1,
        },
        rows[i].2,
    ) by {
        lemma_ipv4_read(table, 8 + 24 * i, rows[i].0.0);
        lemma_ipv4_read(table, 16 + 24 * i, rows[i].1.0);
    }
    lemma_rows(row, rows.len(), key);
    assert forall|i: int|
        0 <= i < rows.len() && (#[trigger] rows[i]).0 == local && rows[i].1 == remote && (forall|
            j: int,
        |
            i < j < rows.len() ==> !((#[trigger] rows[j]).0 == local && rows[j].1
                == remote)) implies {
        let m = tcp_sessions(false, table);
        m.contains_key(key) && m[key] == rows[i].2
    } by {
        assert(row(i).0 == key);
        assert forall|j: int| i < j < rows.len() implies (#[trigger] row(j)).0 != key by {
            assert(!(rows[j].0 == local && rows[j].1 == remote));
        }
    }
    if forall|i: int|
        0 <= i < rows.len() ==> !((#[trigger] rows[i]).0 == local && rows[i].1 == remote) {
        assert forall|i: int| 0 <= i < rows.len() implies (#[trigger] row(i)).0 != key by {
            assert(!(rows[i].0 == local && rows[i].1 == remote));
        }
    }
}

/// The same for the TCP connections of IPv6.
pub proof fn law_tcp_v6_table_reads_back(
    table: Seq<u8>,
    rows: Seq<(End6, End6, u32)>,
    local: End6,
    remote: End6,
)
    requires
        tcp_v6_table(table, rows),
    ensures
        table_complete(PacketKind::TcpV6, table),
        ({
            let m = tcp_sessions(true, table);
            let key = TcpKey {
                local_ip: IpAddr::V6(local.0),
                remote_ip: IpAddr::V6(remote.0),
                local_port: local.1,
                remote_port: remote.1,
            };
            &&& (forall|i: int|
                0 <= i < rows.len() && (#[trigger] rows[i]).0 == local && rows[i].1 == remote && (
                forall|j: int|
                    i < j < rows.len() ==> !((#[trigger] rows[j]).0 == local && rows[j].1
                        == remote)) ==> m.contains_key(key) && m[key] == rows[i].2)
            &&& (forall|i: int|
                0 <= i < rows.len() ==> !((#[trigger] rows[i]).0 == local && rows[i].1 == remote))
                ==> !m.contains_key(key)
        }),
{
    let row = |i: int| tcp_row(true, table, i);
    let key = TcpKey {
        local_ip: IpAddr::V6(local.0),
        remote_ip: IpAddr::V6(remote.0),
        local_port: local.1,
        remote_port: remote.1,
    };
    assert forall|i: int| 0 <= i < rows.len() implies #[trigger] row(i) == (
        TcpKey {
            local_ip: IpAddr::V6(rows[i].0.0),
            remote_ip: IpAddr::V6(rows[i].1.0),
            local_port: rows[i].0.1,
            remote_port: rows[i].1.1,
        },
        rows[i].2,
    ) by {
        lemma_ipv6_read(table, 4 + 56 * i, rows[i].0.0);
        lemma_ipv6_read(table, 28 + 56 * i, rows[i].1.0);
    }
    lemma_rows(row, rows.len(), key);
    assert forall|i: int|
        0 <= i < rows.len() && (#[trigger] rows[i]).0 == local && rows[i].1 == remote && (forall|
            j: int,
        |
            i < j < rows.len() ==> !((#[trigger] rows[j]).0 == local && rows[j].1
                == remote)) implies {
        let m = tcp_sessions(true, table);
        m.contains_key(key) && m[key] == rows[i].2
    } by {
        assert(row(i).0 == key);
        assert forall|j: int| i < j < rows.len() implies (#[trigger] row(j)).0 != key by {
            assert(!(rows[j].0 == local && rows[j].1 == remote));
        }
    }
    if forall|i: int|
        0 <= i < rows.len() ==> !((#[trigger] rows[i]).0 == local && rows[i].1 == remote) {
        assert forall|i: int| 0 <= i < rows.len() implies (#[trigger] row(i)).0 != key by {
            assert(!(rows[i].0 == local && rows[i].1 == remote));
        }
    }
}

/// A table is complete exactly if it has room for its rows: four octets for their number, and 24,
/// 56, 12 or 28 octets for each.
pub proof fn law_complete_tables(table: Seq<u8>, n: u32)
    requires
        table.len() >= 4 ==> number_at(table, 0, n),
    ensures
        table_complete(PacketKind::TcpV4, table) <==> table.len() >= 4 && table.len() >= 4 + 24
            * n,
        table_complete(PacketKind::TcpV6, table) <==> table.len() >= 4 && table.len() >= 4 + 56
            * n,
        table_complete(PacketKind::UdpV4, table) <==> table.len() >= 4 && table.len() >= 4 + 12
            * n,
        table_complete(PacketKind::UdpV6, table) <==> table.len() >= 4 && table.len() >= 4 + 28
            * n,
{
}

/// A list is good for half a second, and one that was never made is not good at all.
pub proof fn law_lists_grow_old(made: u64, now: u64)
    ensures
        stale(None, now),
        stale(Some(made), now) <==> now - made > 500 * 1_000_000,
{
}

/// A packet is looked up in the list of its protocol and family. A segment between two families is
/// in none; of a datagram only the source counts.
pub proof fn law_where_packets_are_looked_up(src: SocketAddr, dst: SocketAddr)
    ensures
        session_kind(true, src, dst) == Some(
            if src is V6 {
                PacketKind::UdpV6
            } else {
                PacketKind::UdpV4
            },
        ),
        src is V4 && dst is V4 ==> session_kind(false, src, dst) == Some(PacketKind::TcpV4),
        src is V6 && dst is V6 ==> session_kind(false, src, dst) == Some(PacketKind::TcpV6),
        (src is V4 && dst is V6) || (src is V6 && dst is V4) ==> session_kind(
            false,
            src,
            dst,
        ) is None,
{
}

/// A segment belongs to the connection with its source as the local end and its destination as the
/// remote end; its owner is what the list of its family says of it.
pub proof fn law_owner_of_a_segment(cache: &SessionCache, src: SocketAddr, dst: SocketAddr)
    ensures
        ({
            let key = TcpKey {
                local_ip: src.spec_ip(),
                remote_ip: dst.spec_ip(),
                local_port: src.spec_port(),
                remote_port: dst.spec_port(),
            };
            let v4 = cache.tcp_v4.sessions@;
            let v6 = cache.tcp_v6.sessions@;
            &&& cache.spec_lookup(PacketKind::TcpV4, src, dst) == if v4.contains_key(key) {
                Some(v4[key])
            } else {
                None
            }
            &&& cache.spec_lookup(PacketKind::TcpV6, src, dst) == if v6.contains_key(key) {
                Some(v6[key])
            } else {
                None
            }
            &&& tcp_session_key(src, dst) == key
            &&& owner(v4, key) == if v4.contains_key(key) {
                Some(v4[key])
            } else {
                None
            }
        }),
{
}

/// A datagram belongs to the socket at its source, or else to the one on the same port that is
/// bound to all addresses of the family, whose octets are all zero.
pub proof fn law_owner_of_a_datagram(
    cache: &SessionCache,
    src: SocketAddr,
    dst: SocketAddr,
    any: IpAddr,
)
    requires
        match (src, any) {
            (SocketAddr::V4(_), IpAddr::V4(a)) => forall|k: int| 0 <= k < 4 ==> a.octets@[k] == 0,
            (SocketAddr::V6(_), IpAddr::V6(a)) => forall|k: int| 0 <= k < 16 ==> a.octets@[k] == 0,
            _ => false,
        },
    ensures
        ({
            let exact = UdpKey { local_ip: src.spec_ip(), local_port: src.spec_port() };
            let open = UdpKey { local_ip: any, local_port: src.spec_port() };
            let v4 = cache.udp_v4.sessions@;
            let v6 = cache.udp_v6.sessions@;
            &&& cache.spec_lookup(PacketKind::UdpV4, src, dst) == if v4.contains_key(exact) {
                Some(v4[exact])
            } else if v4.contains_key(open) {
                Some(v4[open])
            } else {
                None
            }
            &&& cache.spec_lookup(PacketKind::UdpV6, src, dst) == if v6.contains_key(exact) {
                Some(v6[exact])
            } else if v6.contains_key(open) {
                Some(v6[open])
            } else {
                None
            }
            &&& udp_owner(v4, src) == cache.spec_lookup(PacketKind::UdpV4, src, dst)
        }),
{
    match any {
        IpAddr::V4(a) => {
            let b = crate::net::Ipv4Addr::spec_unspecified();
            assert(a.octets@ =~= b.octets@);
            lemma_ipv4_octets(a, b);
        },
        IpAddr::V6(a) => {
            let b = Ipv6Addr { octets: [0, 0, 0, 0, 0, 0, 0, 0, 0, 0, 0, 0, 0, 0, 0, 0] };
            assert(a.octets@ =~= b.octets@);
            lemma_ipv6_octets(a, b);
        },
    }
}

/// Reading a table replaces the list of its kind, notes the time, and leaves the other lists and
/// their times as they were.
pub proof fn law_refreshing_one_list(
    after: &SessionCache,
    before: &SessionCache,
    kind: PacketKind,
    other: PacketKind,
    table: Seq<u8>,
    now: u64,
    src: SocketAddr,
    dst: SocketAddr,
)
    requires
        after.is_refreshed(before, kind, table, now),
    ensures
        after.refreshed_at(kind) == Some(now),
        other != kind ==> after.refreshed_at(other) == before.refreshed_at(other),
        other != kind ==> after.spec_lookup(other, src, dst) == before.spec_lookup(
            other,
            src,
            dst,
        ),
        kind == PacketKind::TcpV4 ==> after.tcp_v4.sessions@ == tcp_sessions(false, table),
        kind == PacketKind::TcpV6 ==> after.tcp_v6.sessions@ == tcp_sessions(true, table),
        kind == PacketKind::UdpV4 ==> after.udp_v4.sessions@ == udp_sessions(false, table),
        kind == PacketKind::UdpV6 ==> after.udp_v6.sessions@ == udp_sessions(true, table),
{
}

/// Each list has a time of its own.
pub proof fn law_times_of_the_lists(cache: &SessionCache)
    ensures
        cache.refreshed_at(PacketKind::TcpV4) == cache.tcp_v4.last_refresh,
        cache.refreshed_at(PacketKind::TcpV6) == cache.tcp_v6.last_refresh,
        cache.refreshed_at(PacketKind::UdpV4) == cache.udp_v4.last_refresh,
        cache.refreshed_at(PacketKind::UdpV6) == cache.udp_v6.last_refresh,
{
}

/// A path is given out while it was last asked for at most 300 seconds ago, and its time starts
/// over then. One that is older is dropped, and the system is asked. No other path changes.
pub proof fn law_asking_for_a_path(m: ProcessPaths, pid: u32, other: u32, now: u64)
    ensures
        ({
            let known = m.contains_key(pid) && now - m[pid].last_seen <= 300 * 1_000_000_000;
            let after = after_asking(m, pid, now);
            &&& known ==> path_step(m, pid, now) == LookupStep::Found(m[pid].path)
            &&& known ==> after.contains_key(pid) && after[pid].path == m[pid].path
                && after[pid].last_seen == now
            &&& !known ==> path_step(m, pid, now) == LookupStep::QueryPath(pid)
            &&& !known ==> !after.contains_key(pid)
            &&& kept_path(m, pid, now) == if known {
                Some(m[pid].path)
            } else {
                None
            }
            &&& other != pid ==> after.contains_key(other) == m.contains_key(other)
            &&& other != pid && m.contains_key(other) ==> after[other] == m[other]
        }),
{
}

/// A path that was found is kept with its time. With it there are at most 1024: if they become
/// more, those last asked for more than 300 seconds ago are dropped, and if they are still more,
/// all of them are.
pub proof fn law_keeping_a_path(m: ProcessPaths, pid: u32, path: String, other: u32, now: u64)
    requires
        m.dom().finite(),
    ensures
        ({
            let after = after_finding(m, pid, path, now);
            let more: nat = if m.contains_key(pid) {
                m.len()
            } else {
                m.len() + 1
            };
            let live = live_paths(m.insert(pid, CachedProcess { path, last_seen: now }), now);
            &&& more <= 1024 || live.len() <= 1024 ==> after.contains_key(pid)
                && after[pid].path == path && after[pid].last_seen == now
            &&& other != pid && more <= 1024 ==> after.contains_key(other) == m.contains_key(other)
                && (m.contains_key(other) ==> after[other] == m[other])
            &&& other != pid && more > 1024 && live.len() <= 1024 ==> (after.contains_key(other)
                <==> m.contains_key(other) && now - m[other].last_seen <= 300 * 1_000_000_000) && (
            after.contains_key(other) ==> after[other] == m[other])
            &&& more > 1024 && live.len() > 1024 ==> after.dom() == Set::<u32>::empty()
            &&& after.len() <= 1024
        }),
{
    let all = m.insert(pid, CachedProcess { path, last_seen: now });
    assert(all.dom() =~= m.dom().insert(pid));
    if all.len() > 1024 && live_paths(all, now).len() > 1024 {
        assert(after_finding(m, pid, path, now).dom() =~= Set::<u32>::empty());
    }
}

/// A path lives for 300 seconds after it was last asked for, and exactly the live ones are kept.
pub proof fn law_paths_grow_old(m: ProcessPaths, pid: u32, entry: CachedProcess, now: u64)
    ensures
        path_live(entry, now) <==> now - entry.last_seen <= 300 * 1_000_000_000,
        live_paths(m, now).contains_key(pid) <==> m.contains_key(pid) && now - m[pid].last_seen
            <= 300 * 1_000_000_000,
        live_paths(m, now).contains_key(pid) ==> live_paths(m, now)[pid] == m[pid],
{
}

/// A code unit that is no half of a pair is a character, two halves in their order are one, and a
/// half that stands alone is replaced.
pub proof fn law_code_units(a: u16, b: u16, rest: Seq<u16>)
    ensures
        utf16_lossy(Seq::<u16>::empty()) == Seq::<char>::empty(),
        !(0xd800 <= a < 0xe000) ==> utf16_lossy(seq![a] + rest) == seq![a as char] + utf16_lossy(
            rest,
        ),
        0xd800 <= a < 0xdc00 && 0xdc00 <= b < 0xe000 ==> utf16_lossy(seq![a, b] + rest) == seq![
            (0x10000 + (a - 0xd800) * 0x400 + (b - 0xdc00)) as char,
        ] + utf16_lossy(rest),
        0xdc00 <= a < 0xe000 ==> utf16_lossy(seq![a] + rest) == seq!['\u{fffd}'] + utf16_lossy(
            rest,
        ),
        0xd800 <= a < 0xdc00 && (rest.len() == 0 || !(0xdc00 <= rest[0] < 0xe000))
            ==> utf16_lossy(seq![a] + rest) == seq!['\u{fffd}'] + utf16_lossy(rest),
{
    assert((seq![a] + rest).skip(1) =~= rest);
    assert((seq![a, b] + rest).skip(2) =~= rest);
    assert((seq![a, b] + rest)[1] == b);
}

/// The two halves of a 64-bit number stand for its upper and its lower 32 bits.
pub proof fn law_halves_of_a_number(high: u32, low: u32)
    ensures
        joined(high, low) / 0x1_0000_0000 == high,
        joined(high, low) % 0x1_0000_0000 == low,
{
}

/// A sample tells the processor time since the last one that counted, and the time that went by in
/// units of 100 nanoseconds. The first one, and one within the same unit, tell nothing; the first
/// one counts, and so does each that tells something.
pub proof fn law_samples_of_the_processor(last: CpuSampler, t: u64, now: u64)
    ensures
        last.last_process_100ns == 0 ==> usage_since(last, Some(t), now) is None && sampled(
            last,
            Some(t),
            now,
        ) == (CpuSampler { last_instant: now, last_process_100ns: t }),
        last.last_process_100ns != 0 && now - last.last_instant < 100 ==> usage_since(
            last,
            Some(t),
            now,
        ) is None && sampled(last, Some(t), now) == last,
        last.last_process_100ns != 0 && now - last.last_instant >= 100 ==> {
            &&& usage_since(last, Some(t), now) matches Some(usage)
            &&& usage.process_100ns == if t >= last.last_process_100ns {
                t - last.last_process_100ns
            } else {
                0
            }
            &&& usage.wall_100ns * 100 <= now - last.last_instant < usage.wall_100ns * 100 + 100
            &&& sampled(last, Some(t), now) == (CpuSampler {
                last_instant: now,
                last_process_100ns: t,
            })
        },
        usage_since(last, None, now) is None,
        sampled(last, None, now) == last,
{
}

/// A search without a list for the packet ends at once; with a list that is too old, or in which
/// the packet is not, it asks for the list; and otherwise it goes on with the path of the owner.
/// Only then the paths change, as they do when a path is asked for.
pub proof fn law_first_step_of_a_search(
    sessions: &SessionCache,
    paths: ProcessPaths,
    is_udp: bool,
    src: SocketAddr,
    dst: SocketAddr,
    now: u64,
)
    ensures
        ({
            let r = find_step(sessions, paths, is_udp, src, dst, now);
            match session_kind(is_udp, src, dst) {
                None => r.0 == LookupStep::NotFound && r.1 == paths,
                Some(kind) => {
                    let good = sessions.refreshed_at(kind) matches Some(made) && now - made <= 500
                        * 1_000_000;
                    let found = sessions.spec_lookup(kind, src, dst);
                    &&& !good || found is None ==> r.0 == LookupStep::Refresh(kind) && r.1 == paths
                    &&& good ==> (found matches Some(pid) ==> r.0 == path_step(paths, pid, now)
                        && r.1 == after_asking(paths, pid, now))
                },
            }
        }),
{
}

/// With a list that was just got, a search goes on with the path of the owner, or ends if the
/// packet is not in the list.
pub proof fn law_second_step_of_a_search(
    sessions: &SessionCache,
    paths: ProcessPaths,
    kind: PacketKind,
    src: SocketAddr,
    dst: SocketAddr,
    now: u64,
)
    ensures
        ({
            let r = refreshed_step(sessions, paths, kind, src, dst, now);
            let found = sessions.spec_lookup(kind, src, dst);
            &&& found is None ==> r.0 == LookupStep::NotFound && r.1 == paths
            &&& found matches Some(pid) ==> r.0 == path_step(paths, pid, now) && r.1
                == after_asking(paths, pid, now)
        }),
{
}

/// A search for a packet whose owner's path is known ends with that path: at once while the list is
/// good, and after the list was got anew otherwise.
pub proof fn law_search_ends_with_the_path(
    sessions: &SessionCache,
    paths: ProcessPaths,
    is_udp: bool,
    src: SocketAddr,
    dst: SocketAddr,
    pid: u32,
    made: u64,
    now: u64,
)
    requires
        session_kind(is_udp, src, dst) matches Some(kind) && sessions.spec_lookup(kind, src, dst)
            == Some(pid) && sessions.refreshed_at(kind) == Some(made),
        paths.contains_key(pid),
        now - paths[pid].last_seen <= 300 * 1_000_000_000,
    ensures
        now - made <= 500 * 1_000_000 ==> find_step(sessions, paths, is_udp, src, dst, now).0
            == LookupStep::Found(paths[pid].path),
        refreshed_step(
            sessions,
            paths,
            session_kind(is_udp, src, dst)->Some_0,
            src,
            dst,
            now,
        ).0 == LookupStep::Found(paths[pid].path),
{
}

} // verus!
