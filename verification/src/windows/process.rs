//! The process that a packet comes from.
//!
//! The system lists its TCP connections and UDP sockets with the processes that own them, as
//! tables of bytes. They are kept for a moment, since most packets belong to a connection that
//! was listed before. The paths of the processes are kept for longer.
use std::collections::HashMap;
use vstd::prelude::*;
use crate::clock;
use crate::clock::time_since;
use crate::net::{
    be16, ipv4_at, ipv6_at, read_be16, read_ipv4, read_ipv6, IpAddr, Ipv4Addr, Ipv6Addr, SocketAddr,
};
use crate::router::packet::PacketKind;
use crate::table::{Key, Table};

verus! {

/// How long the path of a process is kept after its last use: 300 seconds.
pub const PROCESS_CACHE_TTL: u64 = 300_000_000_000;

/// How many paths are kept at most.
pub const PROCESS_CACHE_MAX: usize = 1024;

/// How long a list of connections or sockets is good for: 500 milliseconds.
pub const SESSION_CACHE_MAX_AGE: u64 = 500_000_000;

/// The two ends of a TCP connection.
#[derive(Clone, Copy, Debug, PartialEq, Eq)]
pub struct TcpKey {
    pub local_ip: IpAddr,
    pub remote_ip: IpAddr,
    pub local_port: u16,
    pub remote_port: u16,
}

impl Key for TcpKey {
    fn same(&self, other: &Self) -> (r: bool) {
        self.local_ip.same(&other.local_ip) && self.remote_ip.same(&other.remote_ip)
            && self.local_port == other.local_port && self.remote_port == other.remote_port
    }
}

/// The address of a UDP socket.
#[derive(Clone, Copy, Debug, PartialEq, Eq)]
pub struct UdpKey {
    pub local_ip: IpAddr,
    pub local_port: u16,
}

impl Key for UdpKey {
    fn same(&self, other: &Self) -> (r: bool) {
        self.local_ip.same(&other.local_ip) && self.local_port == other.local_port
    }
}

/// The 32-bit number stored at `s[i..i + 4]`, least significant octet first.
pub open spec fn le32(s: Seq<u8>, i: int) -> u32 {
    (s[i] + 256 * s[i + 1] + 65536 * s[i + 2] + 16777216 * s[i + 3]) as u32
}

fn read_le32(buf: &[u8], at: usize) -> (r: u32)
    requires
        at + 4 <= buf@.len(),
    ensures
        r == le32(buf@, at as int),
{
    buf[at] as u32 + 256 * (buf[at + 1] as u32) + 65536 * (buf[at + 2] as u32) + 16777216 * (buf[at
        + 3] as u32)
}

/// Where row `i` of a table of TCP connections begins. The rows, of 24 octets for IPv4 and 56
/// for IPv6, follow their number, which takes four octets.
pub open spec fn tcp_row_at(v6: bool, i: int) -> int {
    if v6 {
        4 + 56 * i
    } else {
        4 + 24 * i
    }
}

/// Where row `i` of a table of UDP sockets begins. The rows, of 12 octets for IPv4 and 28 for
/// IPv6, follow their number, which takes four octets.
pub open spec fn udp_row_at(v6: bool, i: int) -> int {
    if v6 {
        4 + 28 * i
    } else {
        4 + 12 * i
    }
}

/// Row `i` of a table of TCP connections: the connection and the process that owns it.
/// Addresses and ports stand there in network order.
pub open spec fn tcp_row(v6: bool, table: Seq<u8>, i: int) -> (TcpKey, u32) {
    let at = tcp_row_at(v6, i);
    if v6 {
        (
            TcpKey {
                local_ip: IpAddr::V6(ipv6_at(table, at)),
                remote_ip: IpAddr::V6(ipv6_at(table, at + 24)),
                local_port: be16(table, at + 20),
                remote_port: be16(table, at + 44),
            },
            le32(table, at + 52),
        )
    } else {
        (
            TcpKey {
                local_ip: IpAddr::V4(ipv4_at(table, at + 4)),
                remote_ip: IpAddr::V4(ipv4_at(table, at + 12)),
                local_port: be16(table, at + 8),
                remote_port: be16(table, at + 16),
            },
            le32(table, at + 20),
        )
    }
}

/// Row `i` of a table of UDP sockets: the socket and the process that owns it.
pub open spec fn udp_row(v6: bool, table: Seq<u8>, i: int) -> (UdpKey, u32) {
    let at = udp_row_at(v6, i);
    if v6 {
        (
            UdpKey { local_ip: IpAddr::V6(ipv6_at(table, at)), local_port: be16(table, at + 20) },
            le32(table, at + 24),
        )
    } else {
        (
            UdpKey { local_ip: IpAddr::V4(ipv4_at(table, at)), local_port: be16(table, at + 4) },
            le32(table, at + 8),
        )
    }
}

/// What the first `n` rows say, the later row where two speak of the same key.
pub open spec fn rows_map<K>(row: spec_fn(int) -> (K, u32), n: nat) -> Map<K, u32>
    decreases n,
{
    if n == 0 {
        Map::empty()
    } else {
        rows_map(row, (n - 1) as nat).insert(row(n - 1).0, row(n - 1).1)
    }
}

/// The connections of a table.
pub open spec fn tcp_sessions(v6: bool, table: Seq<u8>) -> Map<TcpKey, u32> {
    rows_map(|i: int| tcp_row(v6, table, i), le32(table, 0) as nat)
}

/// The sockets of a table.
pub open spec fn udp_sessions(v6: bool, table: Seq<u8>) -> Map<UdpKey, u32> {
    rows_map(|i: int| udp_row(v6, table, i), le32(table, 0) as nat)
}

/// A table has room for the rows that it says it has.
pub open spec fn table_complete(kind: PacketKind, table: Seq<u8>) -> bool {
    &&& table.len() >= 4
    &&& if kind.spec_is_udp() {
        udp_row_at(kind.spec_is_v6(), le32(table, 0) as int) <= table.len()
    } else {
        tcp_row_at(kind.spec_is_v6(), le32(table, 0) as int) <= table.len()
    }
}

/// Whether a table has room for the rows that it says it has.
pub fn is_table_complete(kind: PacketKind, table: &[u8]) -> (r: bool)
    ensures
        r == table_complete(kind, table@),
{
    if table.len() < 4 {
        return false;
    }
    let entries: u64 = read_le32(table, 0) as u64;
    let row: u64 = match kind {
        PacketKind::TcpV4 => 24,
        PacketKind::TcpV6 => 56,
        PacketKind::UdpV4 => 12,
        PacketKind::UdpV6 => 28,
    };
    assert(entries * row <= 0xffff_ffff * 56) by (nonlinear_arith)
        requires
            entries <= 0xffff_ffff,
            row <= 56,
    ;
    4 + entries * row <= table.len() as u64
}

/// Reads a table of TCP connections.
fn rebuild_tcp_map(v6: bool, table: &[u8], map: &mut Table<TcpKey, u32>)
    requires
        table_complete(
            if v6 {
                PacketKind::TcpV6
            } else {
                PacketKind::TcpV4
            },
            table@,
        ),
    ensures
        final(map).wf(),
        final(map)@ == tcp_sessions(v6, table@),
{
    map.clear();
    let entries: u32 = read_le32(table, 0);
    let len: usize = table.len();
    let ghost row = |i: int| tcp_row(v6, table@, i);
    let mut at: usize = 4;
    let mut i: u32 = 0;
    while i < entries
        invariant
            i <= entries,
            entries == le32(table@, 0),
            len == table@.len(),
            at == tcp_row_at(v6, i as int),
            tcp_row_at(v6, entries as int) <= len,
            row == (|i: int| tcp_row(v6, table@, i)),
            map.wf(),
            map@ == rows_map(row, i as nat),
        decreases entries - i,
    {
        let (key, pid) = if v6 {
            (
                TcpKey {
                    local_ip: IpAddr::V6(read_ipv6(table, at)),
                    remote_ip: IpAddr::V6(read_ipv6(table, at + 24)),
                    local_port: read_be16(table, at + 20),
                    remote_port: read_be16(table, at + 44),
                },
                read_le32(table, at + 52),
            )
        } else {
            (
                TcpKey {
                    local_ip: IpAddr::V4(read_ipv4(table, at + 4)),
                    remote_ip: IpAddr::V4(read_ipv4(table, at + 12)),
                    local_port: read_be16(table, at + 8),
                    remote_port: read_be16(table, at + 16),
                },
                read_le32(table, at + 20),
            )
        };
        assert((key, pid) == row(i as int));
        map.insert(key, pid);
        at = at + if v6 {
            56
        } else {
            24
        };
        i += 1;
    }
}

/// Reads a table of UDP sockets.
fn rebuild_udp_map(v6: bool, table: &[u8], map: &mut Table<UdpKey, u32>)
    requires
        table_complete(
            if v6 {
                PacketKind::UdpV6
            } else {
                PacketKind::UdpV4
            },
            table@,
        ),
    ensures
        final(map).wf(),
        final(map)@ == udp_sessions(v6, table@),
{
    map.clear();
    let entries: u32 = read_le32(table, 0);
    let len: usize = table.len();
    let ghost row = |i: int| udp_row(v6, table@, i);
    let mut at: usize = 4;
    let mut i: u32 = 0;
    while i < entries
        invariant
            i <= entries,
            entries == le32(table@, 0),
            len == table@.len(),
            at == udp_row_at(v6, i as int),
            udp_row_at(v6, entries as int) <= len,
            row == (|i: int| udp_row(v6, table@, i)),
            map.wf(),
            map@ == rows_map(row, i as nat),
        decreases entries - i,
    {
        let (key, pid) = if v6 {
            (
                UdpKey {
                    local_ip: IpAddr::V6(read_ipv6(table, at)),
                    local_port: read_be16(table, at + 20),
                },
                read_le32(table, at + 24),
            )
        } else {
            (
                UdpKey {
                    local_ip: IpAddr::V4(read_ipv4(table, at)),
                    local_port: read_be16(table, at + 4),
                },
                read_le32(table, at + 8),
            )
        };
        assert((key, pid) == row(i as int));
        map.insert(key, pid);
        at = at + if v6 {
            28
        } else {
            12
        };
        i += 1;
    }
}

/// A list is too old, or was never made.
pub open spec fn stale(last_refresh: Option<u64>, now: u64) -> bool {
    match last_refresh {
        Some(ts) => time_since(now, ts) > SESSION_CACHE_MAX_AGE,
        None => true,
    }
}

/// Whether a list is too old, or was never made.
pub fn is_stale(last_refresh: Option<u64>, now: u64) -> (r: bool)
    ensures
        r == stale(last_refresh, now),
{
    match last_refresh {
        Some(ts) => {
            let age: u64 = clock::elapsed(now, ts);
            age > SESSION_CACHE_MAX_AGE
        },
        None => true,
    }
}

/// A list of connections or sockets with their owners, and when it was made.
pub struct SessionTable<K> {
    pub sessions: Table<K, u32>,
    pub last_refresh: Option<u64>,
}

/// The lists that are kept, one for each kind of packet.
pub struct SessionCache {
    pub tcp_v4: SessionTable<TcpKey>,
    pub tcp_v6: SessionTable<TcpKey>,
    pub udp_v4: SessionTable<UdpKey>,
    pub udp_v6: SessionTable<UdpKey>,
}

/// The list under which a packet is looked up. The two ends of a TCP connection are of the
/// same address family; of a UDP packet its source counts alone.
pub open spec fn session_kind(is_udp: bool, src: SocketAddr, dst: SocketAddr) -> Option<PacketKind> {
    match (is_udp, src, dst) {
        (true, SocketAddr::V4(_), _) => Some(PacketKind::UdpV4),
        (true, SocketAddr::V6(_), _) => Some(PacketKind::UdpV6),
        (false, SocketAddr::V4(_), SocketAddr::V4(_)) => Some(PacketKind::TcpV4),
        (false, SocketAddr::V6(_), SocketAddr::V6(_)) => Some(PacketKind::TcpV6),
        _ => None,
    }
}

fn session_kind_of(is_udp: bool, src: SocketAddr, dst: SocketAddr) -> (r: Option<PacketKind>)
    ensures
        r == session_kind(is_udp, src, dst),
{
    if is_udp {
        if src.is_ipv6() {
            Some(PacketKind::UdpV6)
        } else {
            Some(PacketKind::UdpV4)
        }
    } else if src.is_ipv6() && dst.is_ipv6() {
        Some(PacketKind::TcpV6)
    } else if !src.is_ipv6() && !dst.is_ipv6() {
        Some(PacketKind::TcpV4)
    } else {
        None
    }
}

/// The owner under `key`.
pub open spec fn owner<K>(m: Map<K, u32>, key: K) -> Option<u32> {
    if m.contains_key(key) {
        Some(m[key])
    } else {
        None
    }
}

/// The connection from `src` to `dst`.
pub open spec fn tcp_session_key(src: SocketAddr, dst: SocketAddr) -> TcpKey {
    TcpKey {
        local_ip: src.spec_ip(),
        remote_ip: dst.spec_ip(),
        local_port: src.spec_port(),
        remote_port: dst.spec_port(),
    }
}

/// The address of its own family that stands for all addresses.
pub open spec fn wildcard(ip: IpAddr) -> IpAddr {
    match ip {
        IpAddr::V4(_) => IpAddr::V4(Ipv4Addr::spec_unspecified()),
        IpAddr::V6(_) => IpAddr::V6(
            Ipv6Addr { octets: [0, 0, 0, 0, 0, 0, 0, 0, 0, 0, 0, 0, 0, 0, 0, 0] },
        ),
    }
}

/// The owner of the socket at `src`: of the one bound to that address, or else of the one
/// bound to all addresses.
pub open spec fn udp_owner(m: Map<UdpKey, u32>, src: SocketAddr) -> Option<u32> {
    let exact = UdpKey { local_ip: src.spec_ip(), local_port: src.spec_port() };
    let any = UdpKey { local_ip: wildcard(src.spec_ip()), local_port: src.spec_port() };
    if m.contains_key(exact) {
        Some(m[exact])
    } else {
        owner(m, any)
    }
}

fn lookup_udp(sessions: &Table<UdpKey, u32>, src: SocketAddr) -> (r: Option<u32>)
    requires
        sessions.wf(),
    ensures
        r == udp_owner(sessions@, src),
{
    let ip = src.ip();
    let exact = UdpKey { local_ip: ip, local_port: src.port() };
    if let Some(pid) = sessions.get(&exact) {
        return Some(*pid);
    }
    let any = match ip {
        IpAddr::V4(_) => IpAddr::V4(Ipv4Addr { octets: [0, 0, 0, 0] }),
        IpAddr::V6(_) => IpAddr::V6(
            Ipv6Addr { octets: [0, 0, 0, 0, 0, 0, 0, 0, 0, 0, 0, 0, 0, 0, 0, 0] },
        ),
    };
    match sessions.get(&UdpKey { local_ip: any, local_port: src.port() }) {
        Some(pid) => Some(*pid),
        None => None,
    }
}

fn lookup_tcp(sessions: &Table<TcpKey, u32>, src: SocketAddr, dst: SocketAddr) -> (r: Option<u32>)
    requires
        sessions.wf(),
    ensures
        r == owner(sessions@, tcp_session_key(src, dst)),
{
    let key = TcpKey {
        local_ip: src.ip(),
        remote_ip: dst.ip(),
        local_port: src.port(),
        remote_port: dst.port(),
    };
    match sessions.get(&key) {
        Some(pid) => Some(*pid),
        None => None,
    }
}

impl SessionCache {
    /// The lists hold no key twice.
    pub open spec fn wf(&self) -> bool {
        &&& self.tcp_v4.sessions.wf()
        &&& self.tcp_v6.sessions.wf()
        &&& self.udp_v4.sessions.wf()
        &&& self.udp_v6.sessions.wf()
    }

    /// When a list was made.
    pub open spec fn refreshed_at(&self, kind: PacketKind) -> Option<u64> {
        match kind {
            PacketKind::TcpV4 => self.tcp_v4.last_refresh,
            PacketKind::TcpV6 => self.tcp_v6.last_refresh,
            PacketKind::UdpV4 => self.udp_v4.last_refresh,
            PacketKind::UdpV6 => self.udp_v6.last_refresh,
        }
    }

    /// The owner of a packet's connection or socket, as a list has it.
    pub open spec fn spec_lookup(
        &self,
        kind: PacketKind,
        src: SocketAddr,
        dst: SocketAddr,
    ) -> Option<u32> {
        match kind {
            PacketKind::TcpV4 => owner(self.tcp_v4.sessions@, tcp_session_key(src, dst)),
            PacketKind::TcpV6 => owner(self.tcp_v6.sessions@, tcp_session_key(src, dst)),
            PacketKind::UdpV4 => udp_owner(self.udp_v4.sessions@, src),
            PacketKind::UdpV6 => udp_owner(self.udp_v6.sessions@, src),
        }
    }

    fn is_stale(&self, kind: PacketKind, now: u64) -> (r: bool)
        ensures
            r == stale(self.refreshed_at(kind), now),
    {
        match kind {
            PacketKind::TcpV4 => is_stale(self.tcp_v4.last_refresh, now),
            PacketKind::TcpV6 => is_stale(self.tcp_v6.last_refresh, now),
            PacketKind::UdpV4 => is_stale(self.udp_v4.last_refresh, now),
            PacketKind::UdpV6 => is_stale(self.udp_v6.last_refresh, now),
        }
    }

    fn lookup(&self, kind: PacketKind, src: SocketAddr, dst: SocketAddr) -> (r: Option<u32>)
        requires
            self.wf(),
        ensures
            r == self.spec_lookup(kind, src, dst),
    {
        match kind {
            PacketKind::TcpV4 => lookup_tcp(&self.tcp_v4.sessions, src, dst),
            PacketKind::TcpV6 => lookup_tcp(&self.tcp_v6.sessions, src, dst),
            PacketKind::UdpV4 => lookup_udp(&self.udp_v4.sessions, src),
            PacketKind::UdpV6 => lookup_udp(&self.udp_v6.sessions, src),
        }
    }

    /// The lists after `table` was read as the list of a kind at `now`.
    pub open spec fn is_refreshed(
        &self,
        before: &Self,
        kind: PacketKind,
        table: Seq<u8>,
        now: u64,
    ) -> bool {
        match kind {
            PacketKind::TcpV4 => {
                &&& self.tcp_v4.sessions@ == tcp_sessions(false, table)
                &&& self.tcp_v4.last_refresh == Some(now)
                &&& *self == (SessionCache { tcp_v4: self.tcp_v4, ..*before })
            },
            PacketKind::TcpV6 => {
                &&& self.tcp_v6.sessions@ == tcp_sessions(true, table)
                &&& self.tcp_v6.last_refresh == Some(now)
                &&& *self == (SessionCache { tcp_v6: self.tcp_v6, ..*before })
            },
            PacketKind::UdpV4 => {
                &&& self.udp_v4.sessions@ == udp_sessions(false, table)
                &&& self.udp_v4.last_refresh == Some(now)
                &&& *self == (SessionCache { udp_v4: self.udp_v4, ..*before })
            },
            PacketKind::UdpV6 => {
                &&& self.udp_v6.sessions@ == udp_sessions(true, table)
                &&& self.udp_v6.last_refresh == Some(now)
                &&& *self == (SessionCache { udp_v6: self.udp_v6, ..*before })
            },
        }
    }

    fn refresh(&mut self, kind: PacketKind, table: &[u8], now: u64)
        requires
            old(self).wf(),
            table_complete(kind, table@),
        ensures
            final(self).wf(),
            final(self).is_refreshed(old(self), kind, table@, now),
    {
        match kind {
            PacketKind::TcpV4 => {
                rebuild_tcp_map(false, table, &mut self.tcp_v4.sessions);
                self.tcp_v4.last_refresh = Some(now);
            },
            PacketKind::TcpV6 => {
                rebuild_tcp_map(true, table, &mut self.tcp_v6.sessions);
                self.tcp_v6.last_refresh = Some(now);
            },
            PacketKind::UdpV4 => {
                rebuild_udp_map(false, table, &mut self.udp_v4.sessions);
                self.udp_v4.last_refresh = Some(now);
            },
            PacketKind::UdpV6 => {
                rebuild_udp_map(true, table, &mut self.udp_v6.sessions);
                self.udp_v6.last_refresh = Some(now);
            },
        }
    }
}

/// The path of a process, and when it was last asked for.
#[derive(Debug, PartialEq, Eq)]
pub struct CachedProcess {
    pub path: String,
    pub last_seen: u64,
}

/// The paths that are kept.
pub type ProcessPaths = Map<u32, CachedProcess>;

/// Asked for so recently that it is kept.
pub open spec fn path_live(entry: CachedProcess, now: u64) -> bool {
    time_since(now, entry.last_seen) <= PROCESS_CACHE_TTL
}

impl CachedProcess {
    /// Whether the path was asked for so recently that it is kept.
    pub fn is_live(&self, now: u64) -> (r: bool)
        ensures
            r == path_live(*self, now),
    {
        let age: u64 = clock::elapsed(now, self.last_seen);
        age <= PROCESS_CACHE_TTL
    }
}

/// The paths that are still live at `now`.
pub open spec fn live_paths(m: ProcessPaths, now: u64) -> ProcessPaths {
    Map::new(|k| m.contains_key(k) && path_live(m[k], now), |k| m[k])
}

/// The path of a process, if it is kept and live.
pub open spec fn kept_path(m: ProcessPaths, pid: u32, now: u64) -> Option<String> {
    if m.contains_key(pid) && path_live(m[pid], now) {
        Some(m[pid].path)
    } else {
        None
    }
}

/// The paths after that of a process was asked for: a live one is used, a stale one dropped.
pub open spec fn after_asking(m: ProcessPaths, pid: u32, now: u64) -> ProcessPaths {
    match kept_path(m, pid, now) {
        Some(path) => m.insert(pid, CachedProcess { path, last_seen: now }),
        None => m.remove(pid),
    }
}

/// The paths after that of a process was found. If they become too many, the stale ones are
/// dropped, and if that does not help, all of them.
pub open spec fn after_finding(m: ProcessPaths, pid: u32, path: String, now: u64) -> ProcessPaths {
    let more = m.insert(pid, CachedProcess { path, last_seen: now });
    if more.len() <= PROCESS_CACHE_MAX {
        more
    } else if live_paths(more, now).len() <= PROCESS_CACHE_MAX {
        live_paths(more, now)
    } else {
        ProcessPaths::empty()
    }
}

/// What the search for a process comes to.
#[derive(Debug, PartialEq, Eq)]
pub enum LookupStep {
    /// Get this list from the system.
    Refresh(PacketKind),
    /// Ask the system for the path of this process.
    QueryPath(u32),
    /// The process is found.
    Found(String),
    /// There is no process to be found.
    NotFound,
}

/// What is known of the processes.
pub struct WindowsProcessLookup {
    pub cache: HashMap<u32, CachedProcess>,
    pub session_cache: SessionCache,
}

/// The step for a process of which only the number is known.
pub open spec fn path_step(m: ProcessPaths, pid: u32, now: u64) -> LookupStep {
    match kept_path(m, pid, now) {
        Some(path) => LookupStep::Found(path),
        None => LookupStep::QueryPath(pid),
    }
}

/// The first step of a search, and the paths after it: a list that is too old, or that does not
/// have the packet, is got anew first.
pub open spec fn find_step(
    sessions: &SessionCache,
    paths: ProcessPaths,
    is_udp: bool,
    src: SocketAddr,
    dst: SocketAddr,
    now: u64,
) -> (LookupStep, ProcessPaths) {
    match session_kind(is_udp, src, dst) {
        None => (LookupStep::NotFound, paths),
        Some(kind) => match sessions.spec_lookup(kind, src, dst) {
            Some(pid) if !stale(sessions.refreshed_at(kind), now) => (
                path_step(paths, pid, now),
                after_asking(paths, pid, now),
            ),
            _ => (LookupStep::Refresh(kind), paths),
        },
    }
}

/// The step after a list was got anew, and the paths after it: a packet that is not in it belongs
/// to no process.
pub open spec fn refreshed_step(
    sessions: &SessionCache,
    paths: ProcessPaths,
    kind: PacketKind,
    src: SocketAddr,
    dst: SocketAddr,
    now: u64,
) -> (LookupStep, ProcessPaths) {
    match sessions.spec_lookup(kind, src, dst) {
        Some(pid) => (path_step(paths, pid, now), after_asking(paths, pid, now)),
        None => (LookupStep::NotFound, paths),
    }
}

impl WindowsProcessLookup {
    /// The lists hold no key twice, and there are not too many paths.
    pub open spec fn wf(&self) -> bool {
        &&& self.cache@.dom().finite()
        &&& self.cache@.len() <= PROCESS_CACHE_MAX
        &&& self.session_cache.wf()
    }

    /// Nothing is known.
    pub fn new() -> (r: Self)
        ensures
            r.wf(),
            r.cache@ == ProcessPaths::empty(),
            forall|kind: PacketKind| r.session_cache.refreshed_at(kind) is None,
    {
        let sessions = SessionCache {
            tcp_v4: SessionTable { sessions: Table::new(), last_refresh: None },
            tcp_v6: SessionTable { sessions: Table::new(), last_refresh: None },
            udp_v4: SessionTable { sessions: Table::new(), last_refresh: None },
            udp_v6: SessionTable { sessions: Table::new(), last_refresh: None },
        };
        WindowsProcessLookup { cache: HashMap::new(), session_cache: sessions }
    }

    /// Looks the path of a process up among those that are kept.
    fn ask_path(&mut self, pid: u32, now: u64) -> (r: LookupStep)
        requires
            old(self).wf(),
        ensures
            final(self).wf(),
            final(self).session_cache == old(self).session_cache,
            final(self).cache@ == after_asking(old(self).cache@, pid, now),
            r == path_step(old(self).cache@, pid, now),
    {
        let path = match self.cache.get(&pid) {
            Some(entry) => if entry.is_live(now) {
                Some(entry.path.clone())
            } else {
                None
            },
            None => None,
        };
        match path {
            Some(path) => {
                let kept = path.clone();
                let _ = self.cache.insert(pid, CachedProcess { path: kept, last_seen: now });
                LookupStep::Found(path)
            },
            None => {
                let _ = self.cache.remove(&pid);
                LookupStep::QueryPath(pid)
            },
        }
    }

    /// Begins to look for the process at `src` whose packet goes to `dst`. A list that is
    /// missing, too old or without the packet is first got from the system, with which
    /// `sessions_refreshed` goes on.
    pub fn find_process_path(
        &mut self,
        is_udp: bool,
        src: SocketAddr,
        dst: SocketAddr,
        now: u64,
    ) -> (r: LookupStep)
        requires
            old(self).wf(),
        ensures
            final(self).wf(),
            final(self).session_cache == old(self).session_cache,
            match session_kind(is_udp, src, dst) {
                None => r is NotFound && final(self).cache == old(self).cache,
                Some(kind) => match old(self).session_cache.spec_lookup(kind, src, dst) {
                    Some(pid) if !stale(old(self).session_cache.refreshed_at(kind), now) => r
                        == path_step(old(self).cache@, pid, now) && final(self).cache@
                        == after_asking(old(self).cache@, pid, now),
                    _ => r == LookupStep::Refresh(kind) && final(self).cache == old(self).cache,
                },
            },
            (r, final(self).cache@) == find_step(
                &old(self).session_cache,
                old(self).cache@,
                is_udp,
                src,
                dst,
                now,
            ),
    {
        let kind = match session_kind_of(is_udp, src, dst) {
            Some(kind) => kind,
            None => return LookupStep::NotFound,
        };
        if self.session_cache.is_stale(kind, now) {
            return LookupStep::Refresh(kind);
        }
        match self.session_cache.lookup(kind, src, dst) {
            Some(pid) => self.ask_path(pid, now),
            None => LookupStep::Refresh(kind),
        }
    }

    /// Goes on with the list that the system gave. `None` means that it gave none.
    pub fn sessions_refreshed(
        &mut self,
        kind: PacketKind,
        table: Option<&[u8]>,
        src: SocketAddr,
        dst: SocketAddr,
        now: u64,
    ) -> (r: LookupStep)
        requires
            old(self).wf(),
            table matches Some(t) ==> table_complete(kind, t@),
        ensures
            final(self).wf(),
            match table {
                None => r is NotFound && *final(self) == *old(self),
                Some(t) => {
                    &&& final(self).session_cache.is_refreshed(
                        &old(self).session_cache,
                        kind,
                        t@,
                        now,
                    )
                    &&& match final(self).session_cache.spec_lookup(kind, src, dst) {
                        Some(pid) => r == path_step(old(self).cache@, pid, now) && final(
                            self).cache@ == after_asking(old(self).cache@, pid, now),
                        None => r is NotFound && final(self).cache == old(self).cache,
                    }
                },
            },
            table is Some ==> (r, final(self).cache@) == refreshed_step(
                &final(self).session_cache,
                old(self).cache@,
                kind,
                src,
                dst,
                now,
            ),
    {
        let table = match table {
            Some(table) => table,
            None => return LookupStep::NotFound,
        };
        self.session_cache.refresh(kind, table, now);
        match self.session_cache.lookup(kind, src, dst) {
            Some(pid) => self.ask_path(pid, now),
            None => LookupStep::NotFound,
        }
    }

    /// Keeps the path that the system gave for a process.
    pub fn path_found(&mut self, pid: u32, path: String, now: u64)
        requires
            old(self).wf(),
        ensures
            final(self).wf(),
            final(self).session_cache == old(self).session_cache,
            final(self).cache@ == after_finding(old(self).cache@, pid, path, now),
    {
        let _ = self.cache.insert(pid, CachedProcess { path, last_seen: now });
        if self.cache.len() > PROCESS_CACHE_MAX {
            self.drop_stale(now);
            if self.cache.len() > PROCESS_CACHE_MAX {
                self.cache.clear();
            }
        }
    }

    /// The processes whose paths are no longer live.
    fn stale_processes(&self, now: u64) -> (r: Vec<u32>)
        ensures
            forall|k: u32|
                r@.contains(k) <==> self.cache@.contains_key(k) && !path_live(self.cache@[k], now),
    {
        let mut stale: Vec<u32> = Vec::new();
        for pid in keys: self.cache.keys()
            invariant
                keys.seq().unref().to_set() == self.cache@.dom(),
                forall|k: u32|
                    stale@.contains(k) <==> !path_live(self.cache@[k], now) && exists|j: int|
                        0 <= j < keys.index() && *#[trigger] keys.seq()[j] == k,
                keys.index() == keys.seq().len() ==> forall|k: u32|
                    stale@.contains(k) <==> self.cache@.contains_key(k) && !path_live(
                        self.cache@[k],
                        now,
                    ),
        {
            let ghost before = stale@;
            let ghost at = keys.index() as int;
            assert(keys.seq().unref()[at] == *pid);
            assert(keys.seq().unref().contains(*pid));
            assert(self.cache@.contains_key(*pid));
            if let Some(entry) = self.cache.get(pid) {
                if !entry.is_live(now) {
                    stale.push(*pid);
                }
            }
            proof {
                assert forall|k: u32|
                    stale@.contains(k) <==> !path_live(self.cache@[k], now) && exists|j: int|
                        0 <= j < at + 1 && *#[trigger] keys.seq()[j] == k by {
                    if before.contains(k) {
                        let j = choose|j: int| 0 <= j < before.len() && before[j] == k;
                        assert(stale@[j] == k);
                    }
                    if stale@.contains(k) && k != *pid {
                        let j = choose|j: int| 0 <= j < stale@.len() && stale@[j] == k;
                        assert(before[j] == k);
                    }
                    if k == *pid && !path_live(self.cache@[k], now) {
                        assert(stale@[stale@.len() - 1] == k);
                        assert(*keys.seq()[at] == k);
                    }
                }
                assert(forall|j: int|
                    0 <= j < keys.seq().len() ==> *#[trigger] keys.seq()[j]
                        == keys.seq().unref()[j]);
                assert forall|k: u32| at + 1 == keys.seq().len() implies (stale@.contains(k)
                    <==> self.cache@.contains_key(k) && !path_live(self.cache@[k], now)) by {
                    assert(keys.seq().unref().to_set().contains(k) == self.cache@.dom().contains(
                        k,
                    ));
                    if self.cache@.contains_key(k) {
                        assert(exists|j: int|
                            0 <= j < keys.seq().unref().len() && keys.seq().unref()[j] == k);
                        assert(exists|j: int| 0 <= j < at + 1 && *#[trigger] keys.seq()[j] == k);
                    }
                }
            }
        }
        stale
    }

    /// Drops the paths that are no longer live.
    fn drop_stale(&mut self, now: u64)
        ensures
            final(self).session_cache == old(self).session_cache,
            final(self).cache@ == live_paths(old(self).cache@, now),
    {
        let stale = self.stale_processes(now);
        let ghost m = self.cache@;
        let mut i: usize = 0;
        assert(self.cache@ =~= m.remove_keys(stale@.take(0).to_set()));
        while i < stale.len()
            invariant
                i <= stale@.len(),
                m == old(self).cache@,
                self.session_cache == old(self).session_cache,
                self.cache@ == m.remove_keys(stale@.take(i as int).to_set()),
            decreases stale@.len() - i,
        {
            let _ = self.cache.remove(&stale[i]);
            proof {
                let seen = stale@.take(i as int);
                let next = stale@.take(i + 1);
                assert(next =~= seen.push(stale@[i as int]));
                assert forall|k: u32| #[trigger]
                    next.to_set().contains(k) == (seen.to_set().contains(k) || k
                        == stale@[i as int]) by {
                    if seen.contains(k) {
                        let j = choose|j: int| 0 <= j < seen.len() && seen[j] == k;
                        assert(next[j] == k);
                    }
                    if k == stale@[i as int] {
                        assert(next[i as int] == k);
                    }
                    if next.contains(k) && k != stale@[i as int] {
                        let j = choose|j: int| 0 <= j < next.len() && next[j] == k;
                        assert(seen[j] == k);
                    }
                }
                assert(self.cache@ =~= m.remove_keys(next.to_set()));
            }
            i += 1;
        }
        proof {
            assert(stale@.take(i as int) =~= stale@);
            assert(self.cache@ =~= live_paths(m, now));
        }
    }
}

/// The first half of a pair of UTF-16 code units.
pub open spec fn is_high_surrogate(unit: u16) -> bool {
    0xd800 <= unit < 0xdc00
}

/// The second half of a pair of UTF-16 code units.
pub open spec fn is_low_surrogate(unit: u16) -> bool {
    0xdc00 <= unit < 0xe000
}

/// The text of UTF-16 code units that need not be well formed, with a replacement character for
/// each half of a pair that stands alone.
pub open spec fn utf16_lossy(units: Seq<u16>) -> Seq<char>
    decreases units.len(),
{
    if units.len() == 0 {
        Seq::empty()
    } else if units.len() >= 2 && is_high_surrogate(units[0]) && is_low_surrogate(units[1]) {
        seq![(0x10000 + (units[0] - 0xd800) * 0x400 + (units[1] - 0xdc00)) as char] + utf16_lossy(
            units.skip(2),
        )
    } else if is_high_surrogate(units[0]) || is_low_surrogate(units[0]) {
        seq!['\u{fffd}'] + utf16_lossy(units.skip(1))
    } else {
        seq![units[0] as char] + utf16_lossy(units.skip(1))
    }
}

/// Calls `String::from_utf16_lossy`, which decodes UTF-16 and puts a replacement character in the
/// place of each half of a pair that stands alone.
#[verifier::external_body]
fn text_of_units(units: &[u16]) -> (r: String)
    ensures
        r@ == utf16_lossy(units@),
{
    String::from_utf16_lossy(units)
}

/// The path in the first `size` units of a buffer that the system filled.
pub fn process_path_text(buffer: &[u16], size: usize) -> (r: String)
    requires
        size <= buffer@.len(),
    ensures
        r@ == utf16_lossy(buffer@.take(size as int)),
{
    assert(buffer@.subrange(0, size as int) =~= buffer@.take(size as int));
    text_of_units(&buffer[0..size])
}

/// What a table says under a key: something exactly if a row speaks of the key, and then what
/// the last such row says.
pub proof fn law_later_rows_win<K>(row: spec_fn(int) -> (K, u32), n: nat, key: K)
    ensures
        rows_map(row, n).contains_key(key) <==> exists|i: int|
            0 <= i < n && (#[trigger] row(i)).0 == key,
        forall|i: int|
            0 <= i < n && (#[trigger] row(i)).0 == key && (forall|j: int|
                i < j < n ==> (#[trigger] row(j)).0 != key) ==> rows_map(row, n)[key] == row(i).1,
    decreases n,
{
    if n > 0 {
        law_later_rows_win(row, (n - 1) as nat, key);
        assert(rows_map(row, n) == rows_map(row, (n - 1) as nat).insert(
            row(n - 1).0,
            row(n - 1).1,
        ));
        assert forall|i: int|
            0 <= i < n && (#[trigger] row(i)).0 == key && (forall|j: int|
                i < j < n ==> (#[trigger] row(j)).0 != key) implies rows_map(row, n)[key] == row(
            i,
        ).1 by {
            if i < n - 1 {
                assert(row(n - 1).0 != key);
            }
        }
        if rows_map(row, n).contains_key(key) {
            if row(n - 1).0 == key {
                assert(0 <= n - 1 < n && row(n - 1).0 == key);
            } else {
                let i = choose|i: int| 0 <= i < n - 1 && (#[trigger] row(i)).0 == key;
                assert(0 <= i < n && row(i).0 == key);
            }
        }
    }
}

/// A path that was found is the one that is given out while it is kept, and it is kept for as
/// long as it is asked for again in time, unless it came when there were too many.
pub proof fn law_found_path_is_given_out(
    m: ProcessPaths,
    pid: u32,
    path: String,
    found: u64,
    now: u64,
)
    requires
        m.insert(pid, CachedProcess { path, last_seen: found }).len() <= PROCESS_CACHE_MAX,
        time_since(now, found) <= PROCESS_CACHE_TTL,
    ensures
        path_step(after_finding(m, pid, path, found), pid, now) == LookupStep::Found(path),
        after_asking(after_finding(m, pid, path, found), pid, now)[pid].last_seen == now,
{
}

/// A path that was not asked for in time is asked of the system anew.
pub proof fn law_stale_path_is_asked_anew(m: ProcessPaths, pid: u32, now: u64)
    requires
        m.contains_key(pid),
        time_since(now, m[pid].last_seen) > PROCESS_CACHE_TTL,
    ensures
        path_step(m, pid, now) == LookupStep::QueryPath(pid),
        !after_asking(m, pid, now).contains_key(pid),
{
}

} // verus!
