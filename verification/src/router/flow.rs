//! The flows that are redirected, and where they originally went.
use vstd::prelude::*;
use crate::clock;
use crate::clock::time_since;
use crate::net::IpAddr;
use crate::proxy::transparent_proxy::TransparentProxy;
use crate::router::packet::{PacketInfo, PortRewrite};
use crate::router::{names_text, SocksLocalRouter};
use crate::table::{Key, Table};
use crate::text;

verus! {

/// How long a UDP flow outlives its last datagram: 60 seconds.
pub const UDP_TIMEOUT: u64 = 60_000_000_000;

/// The two ends of a TCP connection as far as a redirected segment still shows them.
#[derive(Clone, Copy, Debug, PartialEq, Eq)]
pub struct TcpFlowKey {
    pub dst_ip: IpAddr,
    pub src_ip: IpAddr,
    pub src_port: u16,
}

impl Key for TcpFlowKey {
    fn same(&self, other: &Self) -> (r: bool) {
        self.dst_ip.same(&other.dst_ip) && self.src_ip.same(&other.src_ip) && self.src_port
            == other.src_port
    }
}

/// Where a TCP connection went, and the port of the proxy that it goes to now.
#[derive(Clone, Copy, Debug, PartialEq, Eq)]
pub struct TcpPortMapping {
    pub dst_ip: IpAddr,
    pub dst_port: u16,
    pub proxy_port: u16,
}

/// The two ends of a UDP flow as far as a redirected datagram still shows them.
#[derive(Clone, Copy, Debug, PartialEq, Eq)]
pub struct UdpFlowKey {
    pub dst_ip: IpAddr,
    pub src_ip: IpAddr,
    pub src_port: u16,
}

impl Key for UdpFlowKey {
    fn same(&self, other: &Self) -> (r: bool) {
        self.dst_ip.same(&other.dst_ip) && self.src_ip.same(&other.src_ip) && self.src_port
            == other.src_port
    }
}

impl UdpFlowKey {
    /// The flow from `src_ip` at `src_port` to `dst_ip`.
    pub fn new(dst_ip: IpAddr, src_ip: IpAddr, src_port: u16) -> (r: Self)
        ensures
            r == (UdpFlowKey { dst_ip, src_ip, src_port }),
    {
        UdpFlowKey { dst_ip, src_ip, src_port }
    }

    /// What the receiver of a redirected datagram sees of the flow when it does not know at
    /// which of its own addresses the datagram arrived.
    pub open spec fn spec_index(self) -> UdpIndexKey {
        UdpIndexKey { dst_ip: self.dst_ip, src_port: self.src_port }
    }
}

/// A UDP flow without its source address.
#[derive(Clone, Copy, Debug, PartialEq, Eq)]
pub struct UdpIndexKey {
    pub dst_ip: IpAddr,
    pub src_port: u16,
}

impl Key for UdpIndexKey {
    fn same(&self, other: &Self) -> (r: bool) {
        self.dst_ip.same(&other.dst_ip) && self.src_port == other.src_port
    }
}

impl UdpIndexKey {
    /// The flows from `src_port` to `dst_ip`.
    pub fn new(dst_ip: IpAddr, src_port: u16) -> (r: Self)
        ensures
            r == (UdpIndexKey { dst_ip, src_port }),
    {
        UdpIndexKey { dst_ip, src_port }
    }
}

/// Where a UDP flow went, the port of the proxy that it goes to now, and when it last went
/// there.
#[derive(Clone, Copy, Debug, PartialEq, Eq)]
pub struct UdpPortMapping {
    pub dst_ip: IpAddr,
    pub dst_port: u16,
    pub proxy_port: u16,
    pub last_active: u64,
}

/// The flow went somewhere recently enough to be kept.
pub open spec fn flow_live(entry: UdpPortMapping, now: u64) -> bool {
    time_since(now, entry.last_active) < UDP_TIMEOUT
}

impl UdpPortMapping {
    /// Whether the flow went somewhere recently enough to be kept.
    pub fn is_live(&self, now: u64) -> (r: bool)
        ensures
            r == flow_live(*self, now),
    {
        let idle: u64 = clock::elapsed(now, self.last_active);
        idle < UDP_TIMEOUT
    }
}

/// `k` is one of the flows `flows` that look like `idx` to the receiver.
pub open spec fn indexed_flow(flows: Set<UdpFlowKey>, idx: UdpIndexKey, k: UdpFlowKey) -> bool {
    flows.contains(k) && k.spec_index() == idx
}

/// What the index says under `idx`: nothing if no flow looks like it, the flow if there is
/// just one, and that they are several otherwise.
pub open spec fn index_entry(flows: Set<UdpFlowKey>, idx: UdpIndexKey) -> Option<
    Option<UdpFlowKey>,
> {
    if exists|k: UdpFlowKey| indexed_flow(flows, idx, k) {
        let k = choose|k: UdpFlowKey| indexed_flow(flows, idx, k);
        if forall|o: UdpFlowKey| indexed_flow(flows, idx, o) ==> o == k {
            Some(Some(k))
        } else {
            Some(None)
        }
    } else {
        None
    }
}

/// `peers` is the index of the flows `flows`.
pub open spec fn is_index(
    flows: Set<UdpFlowKey>,
    peers: UdpPeers,
) -> bool {
    forall|idx: UdpIndexKey|
        #![trigger peers.contains_key(idx)]
        #![trigger index_entry(flows, idx)]
        match index_entry(flows, idx) {
            Some(entry) => peers.contains_key(idx) && peers[idx] == entry,
            None => !peers.contains_key(idx),
        }
}

/// What the index says of a flow's kind follows from one flow of that kind.
pub proof fn lemma_index_entry(flows: Set<UdpFlowKey>, idx: UdpIndexKey, k: UdpFlowKey)
    requires
        indexed_flow(flows, idx, k),
    ensures
        (forall|o: UdpFlowKey| indexed_flow(flows, idx, o) ==> o == k) ==> index_entry(flows, idx)
            == Some(Some(k)),
        (exists|o: UdpFlowKey| indexed_flow(flows, idx, o) && o != k) ==> index_entry(flows, idx)
            == Some(None::<UdpFlowKey>),
{
    let c = choose|c: UdpFlowKey| indexed_flow(flows, idx, c);
    assert(indexed_flow(flows, idx, c));
    if exists|o: UdpFlowKey| indexed_flow(flows, idx, o) && o != k {
        let o = choose|o: UdpFlowKey| indexed_flow(flows, idx, o) && o != k;
        assert(!(o == c && k == c));
    }
}

/// The index with one more flow.
pub open spec fn index_with(
    peers: UdpPeers,
    key: UdpFlowKey,
) -> UdpPeers {
    let idx = key.spec_index();
    if peers.contains_key(idx) && peers[idx] != Some(key) {
        peers.insert(idx, None)
    } else {
        peers.insert(idx, Some(key))
    }
}

/// The index of the flows `flows`.
pub open spec fn index_of(flows: Set<UdpFlowKey>) -> UdpPeers {
    Map::new(
        |idx: UdpIndexKey| index_entry(flows, idx) is Some,
        |idx: UdpIndexKey| index_entry(flows, idx)->Some_0,
    )
}

/// The index after the flows `keys` were entered into an empty one in this order.
pub open spec fn index_from(keys: Seq<UdpFlowKey>) -> UdpPeers
    decreases keys.len(),
{
    if keys.len() == 0 {
        UdpPeers::empty()
    } else {
        index_with(index_from(keys.drop_last()), keys.last())
    }
}

/// The flows and their index after the index was made anew.
pub open spec fn reindexed(flows: UdpFlows, peers: UdpPeers) -> (UdpFlows, UdpPeers) {
    (flows, index_of(flows.dom()))
}

proof fn lemma_index_of(flows: Set<UdpFlowKey>)
    ensures
        is_index(flows, index_of(flows)),
{
}

proof fn lemma_index_is_unique(flows: Set<UdpFlowKey>, peers: UdpPeers)
    requires
        is_index(flows, peers),
    ensures
        peers == index_of(flows),
{
    assert forall|idx: UdpIndexKey| peers.contains_key(idx) == index_of(flows).contains_key(
        idx,
    ) by {
        assert(index_entry(flows, idx) is Some == peers.contains_key(idx));
    }
    assert(peers =~= index_of(flows));
}

proof fn lemma_index_from(keys: Seq<UdpFlowKey>)
    ensures
        index_from(keys) == index_of(keys.to_set()),
    decreases keys.len(),
{
    if keys.len() == 0 {
        assert(keys.to_set() =~= Set::<UdpFlowKey>::empty());
        assert(index_from(keys) =~= index_of(keys.to_set()));
    } else {
        let seen = keys.drop_last();
        let key = keys.last();
        lemma_index_from(seen);
        lemma_index_of(seen.to_set());
        assert forall|k: UdpFlowKey|
            keys.to_set().contains(k) == seen.to_set().insert(key).contains(k) by {
            assert(keys =~= seen.push(key));
            if seen.contains(k) {
                let j = choose|j: int| 0 <= j < seen.len() && seen[j] == k;
                assert(keys[j] == k);
            }
            if k == key {
                assert(keys[keys.len() - 1] == k);
            }
            if keys.contains(k) && k != key {
                let j = choose|j: int| 0 <= j < keys.len() && keys[j] == k;
                assert(seen[j] == k);
            }
        }
        assert(keys.to_set() =~= seen.to_set().insert(key));
        if seen.to_set().contains(key) {
            let flows = seen.to_set();
            let idx = key.spec_index();
            assert(flows.insert(key) =~= flows);
            assert(indexed_flow(flows, idx, key));
            lemma_index_entry(flows, idx, key);
            assert(index_with(index_of(flows), key) =~= index_of(flows));
        } else {
            lemma_index_with(seen.to_set(), index_of(seen.to_set()), key);
            lemma_index_is_unique(keys.to_set(), index_from(keys));
        }
    }
}

proof fn lemma_index_with(
    flows: Set<UdpFlowKey>,
    peers: UdpPeers,
    key: UdpFlowKey,
)
    requires
        is_index(flows, peers),
        !flows.contains(key),
    ensures
        is_index(flows.insert(key), index_with(peers, key)),
{
    let more = flows.insert(key);
    let after = index_with(peers, key);
    assert forall|idx: UdpIndexKey|
        #![trigger after.contains_key(idx)]
        #![trigger index_entry(more, idx)]
        match index_entry(more, idx) {
            Some(entry) => after.contains_key(idx) && after[idx] == entry,
            None => !after.contains_key(idx),
        } by {
        let before = index_entry(flows, idx);
        assert(peers.contains_key(idx) == (before is Some));
        if idx == key.spec_index() {
            assert(indexed_flow(more, idx, key));
            lemma_index_entry(more, idx, key);
            if before is Some {
                let k = choose|k: UdpFlowKey| indexed_flow(flows, idx, k);
                assert(indexed_flow(flows, idx, k));
                assert(indexed_flow(more, idx, k) && k != key);
                if before == Some(Some(k)) {
                    assert(peers[idx] != Some(key));
                }
            } else {
                assert forall|o: UdpFlowKey| indexed_flow(more, idx, o) implies o == key by {
                    if o != key {
                        assert(indexed_flow(flows, idx, o));
                    }
                }
            }
        } else {
            assert(forall|k: UdpFlowKey|
                indexed_flow(more, idx, k) == #[trigger] indexed_flow(flows, idx, k));
            assert(forall|k: UdpFlowKey|
                #[trigger] indexed_flow(more, idx, k) == indexed_flow(flows, idx, k));
            if before is Some {
                let k = choose|k: UdpFlowKey| indexed_flow(flows, idx, k);
                assert(indexed_flow(flows, idx, k));
                lemma_index_entry(flows, idx, k);
                lemma_index_entry(more, idx, k);
                if exists|o: UdpFlowKey| indexed_flow(flows, idx, o) && o != k {
                    let o = choose|o: UdpFlowKey| indexed_flow(flows, idx, o) && o != k;
                    assert(indexed_flow(more, idx, o) && o != k);
                }
            } else {
                assert(!exists|k: UdpFlowKey| indexed_flow(more, idx, k));
            }
            assert(index_entry(more, idx) == before);
        }
    }
}

/// Enters one more flow into an index.
pub fn insert_peer_index(by_peer: &mut Table<UdpIndexKey, Option<UdpFlowKey>>, key: UdpFlowKey)
    requires
        old(by_peer).wf(),
    ensures
        final(by_peer).wf(),
        final(by_peer)@ == index_with(old(by_peer)@, key),
{
    let index_key = UdpIndexKey::new(key.dst_ip, key.src_port);
    let several = match by_peer.get(&index_key) {
        Some(Some(k)) => !k.same(&key),
        Some(None) => true,
        None => false,
    };
    if several {
        by_peer.insert(index_key, None);
    } else {
        by_peer.insert(index_key, Some(key));
    }
}

/// The UDP flows, and an index of them by what the receiver of a datagram sees.
pub struct UdpMappings {
    pub by_flow: Table<UdpFlowKey, UdpPortMapping>,
    pub by_peer: Table<UdpIndexKey, Option<UdpFlowKey>>,
}

impl UdpMappings {
    /// The index belongs to the flows.
    pub open spec fn wf(&self) -> bool {
        &&& self.by_flow.wf()
        &&& self.by_peer.wf()
        &&& is_index(self.by_flow@.dom(), self.by_peer@)
    }

    /// No flows.
    pub fn new() -> (r: Self)
        ensures
            r.wf(),
            r.by_flow@ == Map::<UdpFlowKey, UdpPortMapping>::empty(),
            r.by_peer@ == UdpPeers::empty(),
    {
        UdpMappings { by_flow: Table::new(), by_peer: Table::new() }
    }

    /// Enters a flow, in place of what was known of it.
    pub fn insert(&mut self, key: UdpFlowKey, entry: UdpPortMapping)
        requires
            old(self).wf(),
        ensures
            final(self).wf(),
            final(self).by_flow@ == old(self).by_flow@.insert(key, entry),
    {
        let existing = self.by_flow.contains(&key);
        self.by_flow.insert(key, entry);
        proof {
            if existing {
                assert(self.by_flow@.dom() =~= old(self).by_flow@.dom());
            } else {
                assert(self.by_flow@.dom() =~= old(self).by_flow@.dom().insert(key));
                lemma_index_with(old(self).by_flow@.dom(), old(self).by_peer@, key);
            }
        }
        if !existing {
            insert_peer_index(&mut self.by_peer, key);
        }
    }

    /// Keeps the flows on whose entry `keep` says yes, and makes the index anew, whatever it held.
    pub fn retain_active<F: Fn(&UdpPortMapping) -> bool>(&mut self, keep: F)
        requires
            old(self).by_flow.wf(),
            old(self).by_peer.wf(),
            forall|entry: &UdpPortMapping| call_requires(keep, (entry,)),
        ensures
            final(self).wf(),
            forall|k: UdpFlowKey| #[trigger]
                final(self).by_flow@.contains_key(k) ==> old(self).by_flow@.contains_key(k)
                    && final(self).by_flow@[k] == old(self).by_flow@[k] && call_ensures(
                    keep,
                    (&old(self).by_flow@[k],),
                    true,
                ),
            forall|k: UdpFlowKey| #[trigger]
                old(self).by_flow@.contains_key(k) && !final(self).by_flow@.contains_key(k)
                    ==> call_ensures(keep, (&old(self).by_flow@[k],), false),
    {
        self.by_flow.retain(keep);
        self.rebuild_peer_index();
    }

    /// Makes the index anew from the flows, whatever it held.
    pub fn rebuild_peer_index(&mut self)
        requires
            old(self).by_flow.wf(),
            old(self).by_peer.wf(),
        ensures
            final(self).wf(),
            final(self).by_flow == old(self).by_flow,
            (final(self).by_flow@, final(self).by_peer@) == reindexed(
                old(self).by_flow@,
                old(self).by_peer@,
            ),
    {
        self.by_peer.clear();
        let ghost keys = self.by_flow.keys();
        proof {
            self.by_flow.lemma_keys();
            assert(keys.take(0).to_set() =~= Set::<UdpFlowKey>::empty());
        }
        let n: usize = self.by_flow.len();
        let mut i: usize = 0;
        while i < n
            invariant
                i <= n,
                n == keys.len(),
                n == self.by_flow@.len(),
                keys == self.by_flow.keys(),
                keys.no_duplicates(),
                self.by_flow.wf(),
                self.by_peer.wf(),
                self.by_flow == old(self).by_flow,
                is_index(keys.take(i as int).to_set(), self.by_peer@),
            decreases n - i,
        {
            let key = self.by_flow.key(i);
            proof {
                let seen = keys.take(i as int);
                assert(key == keys[i as int]);
                assert(!seen.to_set().contains(key)) by {
                    if seen.contains(key) {
                        let j = choose|j: int| 0 <= j < seen.len() && seen[j] == key;
                        assert(keys[j] == key);
                    }
                }
                lemma_index_with(seen.to_set(), self.by_peer@, key);
                let next = keys.take(i + 1);
                assert(next =~= seen.push(key));
                assert forall|k: UdpFlowKey|
                    next.to_set().contains(k) == seen.to_set().insert(key).contains(k) by {
                    if seen.contains(k) {
                        let j = choose|j: int| 0 <= j < seen.len() && seen[j] == k;
                        assert(next[j] == k);
                    }
                    if k == key {
                        assert(next[i as int] == k);
                    }
                    if next.contains(k) && k != key {
                        let j = choose|j: int| 0 <= j < next.len() && next[j] == k;
                        assert(seen[j] == k);
                    }
                }
                assert(next.to_set() =~= seen.to_set().insert(key));
            }
            insert_peer_index(&mut self.by_peer, key);
            i += 1;
        }
        proof {
            assert(keys.take(n as int) =~= keys);
            self.by_flow.lemma_keys();
            assert forall|k: UdpFlowKey|
                keys.to_set().contains(k) == self.by_flow@.dom().contains(k) by {
                assert(self.by_flow@.contains_key(k) <==> self.by_flow.keys().contains(k));
            }
            assert(keys.to_set() =~= self.by_flow@.dom());
            lemma_index_is_unique(self.by_flow@.dom(), self.by_peer@);
        }
    }
}

/// An index is made anew from the flows alone: what it held before has no influence, and making it
/// a second time changes nothing. Every map that belongs to the flows is that one.
pub proof fn law_reindexing_depends_on_flows(flows: UdpFlows, a: UdpPeers, b: UdpPeers)
    ensures
        reindexed(flows, a) == reindexed(flows, b),
        reindexed(reindexed(flows, a).0, reindexed(flows, a).1) == reindexed(flows, a),
        reindexed(flows, a).0 == flows,
        is_index(flows.dom(), reindexed(flows, a).1),
        is_index(flows.dom(), b) ==> b == reindexed(flows, a).1,
{
    lemma_index_of(flows.dom());
    if is_index(flows.dom(), b) {
        lemma_index_is_unique(flows.dom(), b);
    }
}

/// The order in which flows are entered into an index, and how often each one is, has no
/// influence on it.
pub proof fn law_index_ignores_order(a: Seq<UdpFlowKey>, b: Seq<UdpFlowKey>)
    requires
        a.to_set() == b.to_set(),
    ensures
        index_from(a) == index_from(b),
        index_from(a) == index_of(a.to_set()),
{
    lemma_index_from(a);
    lemma_index_from(b);
}

/// Entering flows into any index commutes and is idempotent, and a mark that several flows look
/// alike is never taken back.
pub proof fn law_entering_commutes(
    peers: UdpPeers,
    a: UdpFlowKey,
    b: UdpFlowKey,
    idx: UdpIndexKey,
)
    ensures
        index_with(index_with(peers, a), b) == index_with(index_with(peers, b), a),
        index_with(index_with(peers, a), a) == index_with(peers, a),
        peers.contains_key(idx) && peers[idx] is None ==> index_with(peers, a).contains_key(idx)
            && index_with(peers, a)[idx] is None,
{
    assert(index_with(index_with(peers, a), b) =~= index_with(index_with(peers, b), a));
    assert(index_with(index_with(peers, a), a) =~= index_with(peers, a));
}

/// The first name, in the order in which they were given, that stands in the path of the
/// process.
pub open spec fn name_matches(names: Seq<(Seq<char>, usize)>, path: Seq<char>, i: int) -> bool {
    &&& 0 <= i < names.len()
    &&& text::occurs(path, names[i].0)
    &&& forall|j: int| 0 <= j < i ==> !text::occurs(path, (#[trigger] names[j]).0)
}

/// The proxy that a process goes through.
pub open spec fn proxy_of(names: Seq<(Seq<char>, usize)>, path: Seq<char>) -> Option<usize> {
    if exists|i: int| name_matches(names, path, i) {
        Some(names[choose|i: int| name_matches(names, path, i)].1)
    } else {
        None
    }
}

/// The port of a proxy for a transport protocol and an address family.
pub open spec fn local_port(proxy: TransparentProxy, udp: bool, v6: bool) -> u16 {
    match (udp, v6) {
        (false, false) => proxy.tcp_port_v4,
        (false, true) => proxy.tcp_port_v6,
        (true, false) => proxy.udp_port_v4,
        (true, true) => proxy.udp_port_v6,
    }
}

/// One of the proxies listens on `port`.
pub open spec fn listens_on(proxies: Seq<TransparentProxy>, udp: bool, port: u16) -> bool {
    exists|i: int|
        0 <= i < proxies.len() && (local_port(#[trigger] proxies[i], udp, false) == port
            || local_port(proxies[i], udp, true) == port)
}

/// The TCP connections that are redirected.
pub type TcpFlows = Map<TcpFlowKey, TcpPortMapping>;

/// The UDP flows that are redirected.
pub type UdpFlows = Map<UdpFlowKey, UdpPortMapping>;

/// The index of the UDP flows by what the receiver of a datagram sees: the flow, or that there are
/// several.
pub type UdpPeers = Map<UdpIndexKey, Option<UdpFlowKey>>;

/// The connection that a segment of a client belongs to.
pub open spec fn tcp_key(info: PacketInfo) -> TcpFlowKey {
    TcpFlowKey { dst_ip: info.dst_ip, src_ip: info.src_ip, src_port: info.src_port }
}

/// The connection that a segment of a proxy belongs to.
pub open spec fn tcp_reply_key(info: PacketInfo) -> TcpFlowKey {
    TcpFlowKey { dst_ip: info.dst_ip, src_ip: info.src_ip, src_port: info.dst_port }
}

/// The flow that a datagram of a client belongs to.
pub open spec fn udp_key(info: PacketInfo) -> UdpFlowKey {
    UdpFlowKey { dst_ip: info.dst_ip, src_ip: info.src_ip, src_port: info.src_port }
}

/// The flow that a datagram of a proxy belongs to.
pub open spec fn udp_reply_key(info: PacketInfo) -> UdpFlowKey {
    UdpFlowKey { dst_ip: info.dst_ip, src_ip: info.src_ip, src_port: info.dst_port }
}

/// The first segment of a connection.
pub open spec fn opens_connection(info: PacketInfo) -> bool {
    info.syn && !info.ack
}

/// The connections after a segment under `key`: one that closes the connection takes it out.
pub open spec fn after_segment(m: TcpFlows, key: TcpFlowKey, info: PacketInfo) -> TcpFlows {
    if info.rst || info.fin {
        m.remove(key)
    } else {
        m
    }
}

/// A segment that no client sent: the reply of a proxy if it comes from a proxy's port and
/// its connection is known, else nothing to the router.
pub open spec fn tcp_reply(m: TcpFlows, info: PacketInfo, from_proxy: bool) -> (
    TcpFlows,
    Option<PortRewrite>,
) {
    let key = tcp_reply_key(info);
    if from_proxy && m.contains_key(key) {
        (after_segment(m, key, info), Some(PortRewrite::FromProxy(m[key].dst_port)))
    } else {
        (m, None)
    }
}

/// A segment inside a connection.
pub open spec fn tcp_inside(m: TcpFlows, info: PacketInfo, from_proxy: bool) -> (
    TcpFlows,
    Option<PortRewrite>,
) {
    let key = tcp_key(info);
    if m.contains_key(key) {
        (after_segment(m, key, info), Some(PortRewrite::ToProxy(m[key].proxy_port)))
    } else {
        tcp_reply(m, info, from_proxy)
    }
}

/// The first segment of a connection of a process that goes to the proxy at `proxy_port`,
/// zero for none. A connection that is known already stays as it is known.
pub open spec fn tcp_opened(
    m: TcpFlows,
    info: PacketInfo,
    proxy_port: u16,
    from_proxy: bool,
) -> (TcpFlows, Option<PortRewrite>) {
    let key = tcp_key(info);
    if proxy_port == 0 {
        tcp_reply(m, info, from_proxy)
    } else if m.contains_key(key) {
        (m, Some(PortRewrite::ToProxy(proxy_port)))
    } else {
        (
            m.insert(
                key,
                TcpPortMapping { dst_ip: info.dst_ip, dst_port: info.dst_port, proxy_port },
            ),
            Some(PortRewrite::ToProxy(proxy_port)),
        )
    }
}

/// A datagram of a flow that is known: it is redirected if it goes where the flow went.
pub open spec fn udp_inside(m: UdpFlows, info: PacketInfo, now: u64) -> (
    UdpFlows,
    Option<PortRewrite>,
) {
    let key = udp_key(info);
    if m[key].dst_port == info.dst_port {
        (
            m.insert(key, UdpPortMapping { last_active: now, ..m[key] }),
            Some(PortRewrite::ToProxy(m[key].proxy_port)),
        )
    } else {
        (m, None)
    }
}

/// A datagram of a flow that was not known, of a process that goes to the proxy at
/// `proxy_port`, zero for none.
pub open spec fn udp_opened(
    m: UdpFlows,
    info: PacketInfo,
    proxy_port: u16,
    from_proxy: bool,
    now: u64,
) -> (UdpFlows, Option<PortRewrite>) {
    let reply = udp_reply_key(info);
    if proxy_port != 0 {
        (
            m.insert(
                udp_key(info),
                UdpPortMapping {
                    dst_ip: info.dst_ip,
                    dst_port: info.dst_port,
                    proxy_port,
                    last_active: now,
                },
            ),
            Some(PortRewrite::ToProxy(proxy_port)),
        )
    } else if from_proxy && m.contains_key(reply) {
        (m, Some(PortRewrite::FromProxy(m[reply].dst_port)))
    } else {
        (m, None)
    }
}

/// The flows that are still live at `now`.
pub open spec fn live_flows(m: UdpFlows, now: u64) -> UdpFlows {
    Map::new(|k| m.contains_key(k) && flow_live(m[k], now), |k| m[k])
}

/// What becomes of a packet, and of the connections and flows, before the process at its
/// source is known.
pub open spec fn flow_outcome(
    tcp: TcpFlows,
    udp: UdpFlows,
    proxies: Seq<TransparentProxy>,
    info: PacketInfo,
    now: u64,
) -> (TcpFlows, UdpFlows, FlowStep) {
    if info.kind.spec_is_udp() {
        if udp.contains_key(udp_key(info)) {
            let (after, rewrite) = udp_inside(udp, info, now);
            (tcp, after, FlowStep::Decided(rewrite))
        } else {
            (tcp, udp, FlowStep::Lookup)
        }
    } else if opens_connection(info) {
        (tcp, udp, FlowStep::Lookup)
    } else {
        let (after, rewrite) = tcp_inside(tcp, info, listens_on(proxies, false, info.src_port));
        (after, udp, FlowStep::Decided(rewrite))
    }
}

/// What becomes of a packet, and of the connections and flows, once it is known that the
/// process at its source goes to the proxy at `proxy_port`, zero for none.
pub open spec fn found_outcome(
    tcp: TcpFlows,
    udp: UdpFlows,
    proxies: Seq<TransparentProxy>,
    info: PacketInfo,
    proxy_port: u16,
    now: u64,
) -> (TcpFlows, UdpFlows, Option<PortRewrite>) {
    if info.kind.spec_is_udp() {
        let (after, rewrite) = udp_opened(
            udp,
            info,
            proxy_port,
            listens_on(proxies, true, info.src_port),
            now,
        );
        (tcp, after, rewrite)
    } else {
        let (after, rewrite) = tcp_opened(
            tcp,
            info,
            proxy_port,
            listens_on(proxies, false, info.src_port),
        );
        (after, udp, rewrite)
    }
}

/// What the router knows of a packet: what to do with it, or that it depends on the process
/// at its source.
#[derive(Clone, Copy, Debug, PartialEq, Eq, Structural)]
pub enum FlowStep {
    Decided(Option<PortRewrite>),
    Lookup,
}

impl SocksLocalRouter {
    /// The port of the proxy that the process at `path` goes to, zero for none.
    pub open spec fn proxy_port_for(&self, udp: bool, path: Seq<char>, v6: bool) -> u16 {
        match proxy_of(names_text(self.name_to_proxy@), path) {
            Some(id) => local_port(self.proxies@[id as int], udp, v6),
            None => 0,
        }
    }

    /// The port for a process whose path may not be known.
    pub open spec fn port_if_known(&self, udp: bool, path: Option<Seq<char>>, v6: bool) -> u16 {
        match path {
            Some(p) => self.proxy_port_for(udp, p, v6),
            None => 0,
        }
    }

    /// The number of the proxy that the process at `path` goes through.
    fn find_proxy(&self, process_path: &str) -> (r: Option<usize>)
        requires
            self.wf(),
        ensures
            r == proxy_of(names_text(self.name_to_proxy@), process_path@),
            r matches Some(id) ==> id < self.proxies@.len(),
    {
        let ghost names = names_text(self.name_to_proxy@);
        let mut i: usize = 0;
        while i < self.name_to_proxy.len()
            invariant
                i <= self.name_to_proxy@.len(),
                self.wf(),
                names == names_text(self.name_to_proxy@),
                forall|j: int|
                    0 <= j < i ==> !text::occurs(process_path@, (#[trigger] names[j]).0),
            decreases self.name_to_proxy@.len() - i,
        {
            assert(names[i as int] == (
                self.name_to_proxy@[i as int].0@,
                self.name_to_proxy@[i as int].1,
            ));
            if text::contains_str(process_path, self.name_to_proxy[i].0.as_str()) {
                proof {
                    assert(name_matches(names, process_path@, i as int));
                    let k = choose|k: int| name_matches(names, process_path@, k);
                    assert(name_matches(names, process_path@, k));
                    assert(k == i) by {
                        if k < i {
                            assert(!text::occurs(process_path@, names[k].0));
                        }
                        if i < k {
                            assert(!text::occurs(process_path@, names[i as int].0));
                        }
                    }
                }
                return Some(self.name_to_proxy[i].1);
            }
            i += 1;
        }
        None
    }

    /// The TCP port of the proxy that the process at `process_path` goes to, zero for none.
    pub fn get_proxy_port_tcp(&self, process_path: &str, is_v6: bool) -> (r: u16)
        requires
            self.wf(),
        ensures
            r == self.proxy_port_for(false, process_path@, is_v6),
    {
        match self.find_proxy(process_path) {
            Some(id) => if is_v6 {
                self.proxies[id].get_local_tcp_proxy_port_v6()
            } else {
                self.proxies[id].get_local_tcp_proxy_port_v4()
            },
            None => 0,
        }
    }

    /// The UDP port of the proxy that the process at `process_path` goes to, zero for none.
    pub fn get_proxy_port_udp(&self, process_path: &str, is_v6: bool) -> (r: u16)
        requires
            self.wf(),
        ensures
            r == self.proxy_port_for(true, process_path@, is_v6),
    {
        match self.find_proxy(process_path) {
            Some(id) => if is_v6 {
                self.proxies[id].get_local_udp_proxy_port_v6()
            } else {
                self.proxies[id].get_local_udp_proxy_port_v4()
            },
            None => 0,
        }
    }

    /// Whether one of the proxies listens on this TCP port.
    pub fn is_tcp_proxy_port(&self, port: u16) -> (r: bool)
        ensures
            r == listens_on(self.proxies@, false, port),
    {
        let mut i: usize = 0;
        while i < self.proxies.len()
            invariant
                i <= self.proxies@.len(),
                forall|j: int|
                    0 <= j < i ==> local_port(#[trigger] self.proxies@[j], false, false) != port
                        && local_port(self.proxies@[j], false, true) != port,
            decreases self.proxies@.len() - i,
        {
            let proxy = &self.proxies[i];
            if proxy.get_local_tcp_proxy_port_v4() == port || proxy.get_local_tcp_proxy_port_v6()
                == port {
                assert(local_port(self.proxies@[i as int], false, false) == port || local_port(
                    self.proxies@[i as int],
                    false,
                    true,
                ) == port);
                return true;
            }
            i += 1;
        }
        false
    }

    /// Whether one of the proxies listens on this UDP port.
    pub fn is_udp_proxy_port(&self, port: u16) -> (r: bool)
        ensures
            r == listens_on(self.proxies@, true, port),
    {
        let mut i: usize = 0;
        while i < self.proxies.len()
            invariant
                i <= self.proxies@.len(),
                forall|j: int|
                    0 <= j < i ==> local_port(#[trigger] self.proxies@[j], true, false) != port
                        && local_port(self.proxies@[j], true, true) != port,
            decreases self.proxies@.len() - i,
        {
            let proxy = &self.proxies[i];
            if proxy.get_local_udp_proxy_port_v4() == port || proxy.get_local_udp_proxy_port_v6()
                == port {
                assert(local_port(self.proxies@[i as int], true, false) == port || local_port(
                    self.proxies@[i as int],
                    true,
                    true,
                ) == port);
                return true;
            }
            i += 1;
        }
        false
    }

    /// Takes the connection under `key` out if the segment closes it.
    fn note_segment(&mut self, key: &TcpFlowKey, info: &PacketInfo)
        requires
            old(self).wf(),
        ensures
            final(self).wf(),
            *final(self) == (SocksLocalRouter {
                tcp_connections: final(self).tcp_connections,
                ..*old(self)
            }),
            final(self).tcp_connections@ == after_segment(
                old(self).tcp_connections@,
                *key,
                *info,
            ),
    {
        if info.rst || info.fin {
            let _ = self.tcp_connections.remove(key);
        }
    }

    /// Takes a segment that no client sent.
    fn tcp_from_proxy(&mut self, info: &PacketInfo) -> (r: Option<PortRewrite>)
        requires
            old(self).wf(),
        ensures
            final(self).wf(),
            *final(self) == (SocksLocalRouter {
                tcp_connections: final(self).tcp_connections,
                ..*old(self)
            }),
            (final(self).tcp_connections@, r) == tcp_reply(
                old(self).tcp_connections@,
                *info,
                listens_on(old(self).proxies@, false, info.src_port),
            ),
    {
        if !self.is_tcp_proxy_port(info.src_port) {
            return None;
        }
        let key = TcpFlowKey {
            dst_ip: info.dst_ip,
            src_ip: info.src_ip,
            src_port: info.dst_port,
        };
        let port: u16 = match self.tcp_connections.get(&key) {
            Some(entry) => entry.dst_port,
            None => return None,
        };
        self.note_segment(&key, info);
        Some(PortRewrite::FromProxy(port))
    }

    /// Takes a TCP segment. The first segment of a connection waits for the path of the
    /// process at its source, with which `tcp_process_found` goes on.
    pub fn process_tcp_payload(&mut self, info: &PacketInfo) -> (r: FlowStep)
        requires
            old(self).wf(),
        ensures
            final(self).wf(),
            *final(self) == (SocksLocalRouter {
                tcp_connections: final(self).tcp_connections,
                ..*old(self)
            }),
            if opens_connection(*info) {
                r is Lookup && final(self).tcp_connections == old(self).tcp_connections
            } else {
                r matches FlowStep::Decided(rewrite) && (
                    final(self).tcp_connections@,
                    rewrite,
                ) == tcp_inside(
                    old(self).tcp_connections@,
                    *info,
                    listens_on(old(self).proxies@, false, info.src_port),
                )
            },
    {
        if info.syn && !info.ack {
            return FlowStep::Lookup;
        }
        let key = TcpFlowKey { dst_ip: info.dst_ip, src_ip: info.src_ip, src_port: info.src_port };
        let port: u16 = match self.tcp_connections.get(&key) {
            Some(entry) => entry.proxy_port,
            None => return FlowStep::Decided(self.tcp_from_proxy(info)),
        };
        self.note_segment(&key, info);
        FlowStep::Decided(Some(PortRewrite::ToProxy(port)))
    }

    /// Goes on with the first segment of a connection. `None` means that the process at its
    /// source is not known.
    pub fn tcp_process_found(&mut self, info: &PacketInfo, path: Option<&str>) -> (r: Option<
        PortRewrite,
    >)
        requires
            old(self).wf(),
        ensures
            final(self).wf(),
            *final(self) == (SocksLocalRouter {
                tcp_connections: final(self).tcp_connections,
                ..*old(self)
            }),
            (final(self).tcp_connections@, r) == tcp_opened(
                old(self).tcp_connections@,
                *info,
                old(self).port_if_known(false, path_text(path), info.kind.spec_is_v6()),
                listens_on(old(self).proxies@, false, info.src_port),
            ),
    {
        let proxy_port: u16 = match path {
            Some(path) => self.get_proxy_port_tcp(path, info.kind.is_v6()),
            None => 0,
        };
        if proxy_port == 0 {
            return self.tcp_from_proxy(info);
        }
        let key = TcpFlowKey { dst_ip: info.dst_ip, src_ip: info.src_ip, src_port: info.src_port };
        if !self.tcp_connections.contains(&key) {
            self.tcp_connections.insert(
                key,
                TcpPortMapping { dst_ip: info.dst_ip, dst_port: info.dst_port, proxy_port },
            );
        }
        Some(PortRewrite::ToProxy(proxy_port))
    }

    /// Takes a UDP datagram. One of a flow that is not known waits for the path of the process
    /// at its source, with which `udp_process_found` goes on.
    pub fn process_udp_payload(&mut self, info: &PacketInfo, now: u64) -> (r: FlowStep)
        requires
            old(self).wf(),
        ensures
            final(self).wf(),
            *final(self) == (SocksLocalRouter {
                udp_endpoints: final(self).udp_endpoints,
                ..*old(self)
            }),
            if old(self).udp_endpoints.by_flow@.contains_key(udp_key(*info)) {
                r matches FlowStep::Decided(rewrite) && (
                    final(self).udp_endpoints.by_flow@,
                    rewrite,
                ) == udp_inside(old(self).udp_endpoints.by_flow@, *info, now)
            } else {
                r is Lookup && final(self).udp_endpoints == old(self).udp_endpoints
            },
    {
        let key = UdpFlowKey::new(info.dst_ip, info.src_ip, info.src_port);
        let entry = match self.udp_endpoints.by_flow.get(&key) {
            Some(entry) => *entry,
            None => return FlowStep::Lookup,
        };
        if entry.dst_port != info.dst_port {
            return FlowStep::Decided(None);
        }
        self.udp_endpoints.insert(key, UdpPortMapping { last_active: now, ..entry });
        FlowStep::Decided(Some(PortRewrite::ToProxy(entry.proxy_port)))
    }

    /// Goes on with a datagram of a flow that was not known. `None` means that the process at
    /// its source is not known.
    pub fn udp_process_found(&mut self, info: &PacketInfo, path: Option<&str>, now: u64) -> (r:
        Option<PortRewrite>)
        requires
            old(self).wf(),
        ensures
            final(self).wf(),
            *final(self) == (SocksLocalRouter {
                udp_endpoints: final(self).udp_endpoints,
                ..*old(self)
            }),
            (final(self).udp_endpoints.by_flow@, r) == udp_opened(
                old(self).udp_endpoints.by_flow@,
                *info,
                old(self).port_if_known(true, path_text(path), info.kind.spec_is_v6()),
                listens_on(old(self).proxies@, true, info.src_port),
                now,
            ),
    {
        let proxy_port: u16 = match path {
            Some(path) => self.get_proxy_port_udp(path, info.kind.is_v6()),
            None => 0,
        };
        if proxy_port != 0 {
            self.udp_endpoints.insert(
                UdpFlowKey::new(info.dst_ip, info.src_ip, info.src_port),
                UdpPortMapping {
                    dst_ip: info.dst_ip,
                    dst_port: info.dst_port,
                    proxy_port,
                    last_active: now,
                },
            );
            return Some(PortRewrite::ToProxy(proxy_port));
        }
        if !self.is_udp_proxy_port(info.src_port) {
            return None;
        }
        let reply = UdpFlowKey::new(info.dst_ip, info.src_ip, info.dst_port);
        match self.udp_endpoints.by_flow.get(&reply) {
            Some(entry) => Some(PortRewrite::FromProxy(entry.dst_port)),
            None => None,
        }
    }

    /// Everything but the connections and flows is as in `before`.
    pub open spec fn same_but_flows(&self, before: &Self) -> bool {
        *self == (SocksLocalRouter {
            tcp_connections: self.tcp_connections,
            udp_endpoints: self.udp_endpoints,
            ..*before
        })
    }

    /// Takes a packet of either protocol.
    pub fn process_flow(&mut self, info: &PacketInfo, now: u64) -> (r: FlowStep)
        requires
            old(self).wf(),
        ensures
            final(self).wf(),
            final(self).same_but_flows(old(self)),
            (final(self).tcp_connections@, final(self).udp_endpoints.by_flow@, r) == flow_outcome(
                old(self).tcp_connections@,
                old(self).udp_endpoints.by_flow@,
                old(self).proxies@,
                *info,
                now,
            ),
    {
        if info.kind.is_udp() {
            self.process_udp_payload(info, now)
        } else {
            self.process_tcp_payload(info)
        }
    }

    /// Goes on with a packet for which the process at its source was looked up. `None` means
    /// that it is not known.
    pub fn process_found(&mut self, info: &PacketInfo, path: Option<&str>, now: u64) -> (r: Option<
        PortRewrite,
    >)
        requires
            old(self).wf(),
        ensures
            final(self).wf(),
            final(self).same_but_flows(old(self)),
            (final(self).tcp_connections@, final(self).udp_endpoints.by_flow@, r) == found_outcome(
                old(self).tcp_connections@,
                old(self).udp_endpoints.by_flow@,
                old(self).proxies@,
                *info,
                old(self).port_if_known(
                    info.kind.spec_is_udp(),
                    path_text(path),
                    info.kind.spec_is_v6(),
                ),
                now,
            ),
    {
        if info.kind.is_udp() {
            self.udp_process_found(info, path, now)
        } else {
            self.tcp_process_found(info, path)
        }
    }

    /// Drops the UDP flows that were not used for a while.
    pub fn cleanup_stale_udp_endpoints(&mut self, now: u64)
        requires
            old(self).wf(),
        ensures
            final(self).wf(),
            *final(self) == (SocksLocalRouter {
                udp_endpoints: final(self).udp_endpoints,
                ..*old(self)
            }),
            final(self).udp_endpoints.by_flow@ == live_flows(
                old(self).udp_endpoints.by_flow@,
                now,
            ),
    {
        let live = |entry: &UdpPortMapping| -> (keep: bool)
            ensures
                keep == flow_live(*entry, now),
        {
            entry.is_live(now)
        };
        self.udp_endpoints.retain_active(live);
        assert(self.udp_endpoints.by_flow@ =~= live_flows(old(self).udp_endpoints.by_flow@, now));
    }
}

/// A path that may not be known, as text.
pub open spec fn path_text(path: Option<&str>) -> Option<Seq<char>> {
    match path {
        Some(p) => Some(p@),
        None => None,
    }
}

/// Whether a character separates the components of a path. A backslash does so on Windows alone.
pub open spec fn is_separator(windows: bool, c: char) -> bool {
    c == '/' || (windows && c == '\\')
}

/// Where the part after the last separator of a path starts.
pub open spec fn name_start(windows: bool, path: Seq<char>) -> int
    decreases path.len(),
{
    if path.len() == 0 {
        0
    } else if is_separator(windows, path.last()) {
        path.len() as int
    } else {
        name_start(windows, path.drop_last())
    }
}

/// The last component of a path without a drive, if it names something. Empty parts and single
/// dots do not count, and two dots name nothing.
pub open spec fn last_component(windows: bool, path: Seq<char>) -> Option<Seq<char>>
    decreases path.len(),
{
    let i = name_start(windows, path);
    let part = path.skip(i);
    if part.len() == 0 || part == seq!['.'] {
        if 0 < i <= path.len() {
            last_component(windows, path.take(i - 1))
        } else {
            None
        }
    } else if part == seq!['.', '.'] {
        None
    } else {
        Some(part)
    }
}

/// Whether a path starts with the letter of a drive.
pub open spec fn has_drive(path: Seq<char>) -> bool {
    path.len() >= 2 && path[1] == ':' && ('a' <= path[0] <= 'z' || 'A' <= path[0] <= 'Z')
}

/// A path without its drive.
pub open spec fn without_drive(path: Seq<char>) -> Seq<char> {
    if has_drive(path) {
        path.skip(2)
    } else {
        path
    }
}

/// Whether a path starts neither with two separators, as those to a server do, nor with a colon
/// at its second place that follows no letter.
pub open spec fn plain_start(path: Seq<char>) -> bool {
    &&& !(path.len() >= 2 && is_separator(true, path[0]) && is_separator(true, path[1]))
    &&& path.len() >= 2 && path[1] == ':' ==> has_drive(path)
}

/// Whether a path is read alike on all systems: it has no backslash and no colon, and does not
/// start with two slashes.
pub open spec fn portable(path: Seq<char>) -> bool {
    &&& !path.contains('\\')
    &&& !path.contains(':')
    &&& !(path.len() >= 2 && path[0] == '/' && path[1] == '/')
}

/// Whether a portable path consists of a directory, a slash and the name of a file.
pub open spec fn slash_path(path: Seq<char>, dir: Seq<char>, name: Seq<char>) -> bool {
    &&& portable(path)
    &&& path == dir.push('/') + name
    &&& name.len() > 0
    &&& !name.contains('/')
    &&& name != seq!['.']
    &&& name != seq!['.', '.']
}

/// Whether a part of a path stands at its start or behind a separator or a colon.
pub open spec fn begins_part(path: Seq<char>, part: Seq<char>, i: int) -> bool {
    &&& text::occurs_at(path, part, i)
    &&& i == 0 || path[i - 1] == '/' || path[i - 1] == '\\' || path[i - 1] == ':'
}

/// What the final component of a path can be: a part of it that is not empty and starts where a
/// component can. It is the last component where only slashes separate, or else, for a path with
/// a plain start, the last one behind its drive where backslashes separate as well.
pub open spec fn is_file_name(path: Seq<char>, name: Option<Seq<char>>) -> bool {
    &&& name matches Some(n) ==> n.len() > 0 && exists|i: int| begins_part(path, n, i)
    &&& name == last_component(false, path) || (plain_start(path) ==> name == last_component(
        true,
        without_drive(path),
    ))
}

/// A name that may be missing, as text.
pub open spec fn name_text(name: Option<String>) -> Option<Seq<char>> {
    match name {
        Some(n) => Some(n@),
        None => None,
    }
}

/// Calls `std::path::Path::file_name`, the final component of a path, if it has one that names
/// something. Slashes separate components on every system; on Windows backslashes do so too, and
/// the letter of a drive stands before them. Which of the two holds depends on the system, and is
/// left unsaid. Of a Windows path that starts with two separators only that the name is a part of
/// it, and where such a part can start, is said.
#[verifier::external_body]
fn file_name(path: &str) -> (r: Option<String>)
    ensures
        is_file_name(path@, name_text(r)),
{
    match std::path::Path::new(path).file_name() {
        Some(name) => name.to_str().map(|name| name.to_string()),
        None => None,
    }
}

/// The name under which a process is logged: the name of its file, or the whole path if that
/// has none.
pub open spec fn label_of(name: Option<Seq<char>>, path: Seq<char>) -> Seq<char> {
    match name {
        Some(n) => n,
        None => path,
    }
}

/// The name under which a process is logged: the name of its file, or the whole path if that
/// has none.
pub fn process_label(file_name: Option<String>, path: &str) -> (r: String)
    ensures
        r@ == label_of(name_text(file_name), path@),
{
    match file_name {
        Some(name) => name,
        None => path.to_owned(),
    }
}

/// The name under which the process at `path` is logged: the name of its file, or the whole path
/// if that has none. Whether backslashes and drives count depends on the system; a path without
/// them has the same label on all systems.
pub fn format_process_label(path: &str) -> (r: String)
    ensures
        portable(path@) ==> r@ == label_of(last_component(false, path@), path@),
        r@ == label_of(last_component(false, path@), path@) || (plain_start(path@) ==> r@
            == label_of(last_component(true, without_drive(path@)), path@)),
        forall|dir: Seq<char>, name: Seq<char>| #[trigger]
            slash_path(path@, dir, name) ==> r@ == name,
        r@ == path@ || (r@.len() > 0 && exists|i: int| begins_part(path@, r@, i)),
{
    proof {
        if portable(path@) {
            law_portable_paths_agree(path@);
        }
        assert forall|dir: Seq<char>, name: Seq<char>| #[trigger]
            slash_path(path@, dir, name) implies last_component(false, path@) == Some(name) by {
            assert forall|i: int| 0 <= i < name.len() implies !is_separator(
                false,
                #[trigger] name[i],
            ) by {
                assert(name.contains(name[i]));
            }
            law_name_follows_last_separator(false, dir, '/', name);
        }
    }
    process_label(file_name(path), path)
}

proof fn lemma_same_start(path: Seq<char>)
    requires
        !path.contains('\\'),
    ensures
        name_start(true, path) == name_start(false, path),
    decreases path.len(),
{
    if path.len() > 0 {
        assert(path.contains(path.last()));
        assert forall|i: int| 0 <= i < path.len() - 1 implies path.drop_last()[i] != '\\' by {
            assert(path.contains(path[i]));
        }
        lemma_same_start(path.drop_last());
    }
}

proof fn lemma_same_component(path: Seq<char>)
    requires
        !path.contains('\\'),
    ensures
        last_component(true, path) == last_component(false, path),
    decreases path.len(),
{
    let i = name_start(false, path);
    lemma_same_start(path);
    if 0 < i <= path.len() {
        let head = path.take(i - 1);
        assert forall|k: int| 0 <= k < head.len() implies head[k] != '\\' by {
            assert(path.contains(path[k]));
        }
        lemma_same_component(head);
    }
}

/// A portable path has the same last component on all systems.
pub proof fn law_portable_paths_agree(path: Seq<char>)
    requires
        portable(path),
    ensures
        plain_start(path),
        last_component(true, without_drive(path)) == last_component(false, path),
{
    assert forall|i: int| 0 <= i < path.len() implies path[i] != '\\' && path[i] != ':' by {
        assert(path.contains(path[i]));
    }
    lemma_same_component(path);
}

/// The last component of a path is what stands behind its last separator, if that is not empty and
/// does not consist of one or two dots; also if further separators follow.
pub proof fn law_name_follows_last_separator(
    windows: bool,
    dir: Seq<char>,
    separator: char,
    name: Seq<char>,
)
    requires
        is_separator(windows, separator),
        name.len() > 0,
        forall|i: int| 0 <= i < name.len() ==> !is_separator(windows, #[trigger] name[i]),
        name != seq!['.'],
        name != seq!['.', '.'],
    ensures
        last_component(windows, dir.push(separator) + name) == Some(name),
        last_component(windows, name) == Some(name),
        last_component(windows, (dir.push(separator) + name).push(separator)) == Some(name),
{
    let path = dir.push(separator) + name;
    lemma_start_behind(windows, dir.push(separator), name);
    assert(path.skip(dir.len() as int + 1) =~= name);
    assert(Seq::<char>::empty() + name =~= name);
    lemma_start_behind(windows, Seq::<char>::empty(), name);
    assert(name.skip(0) =~= name);
    let longer = path.push(separator);
    assert(longer.skip(longer.len() as int).len() == 0);
    assert(longer.take(longer.len() - 1) =~= path);
}

proof fn lemma_start_behind(windows: bool, dir: Seq<char>, name: Seq<char>)
    requires
        dir.len() == 0 || is_separator(windows, dir.last()),
        forall|i: int| 0 <= i < name.len() ==> !is_separator(windows, #[trigger] name[i]),
    ensures
        name_start(windows, dir + name) == dir.len(),
    decreases name.len(),
{
    if name.len() == 0 {
        assert(dir + name =~= dir);
    } else {
        assert((dir + name).last() == name[name.len() - 1]);
        assert((dir + name).drop_last() =~= dir + name.drop_last());
        lemma_start_behind(windows, dir, name.drop_last());
    }
}

/// A process is only ever redirected to a port that one of the proxies listens on, so that the
/// answers are known for a proxy's when they come back.
pub proof fn law_redirected_to_listening_port(
    router: &SocksLocalRouter,
    udp: bool,
    path: Seq<char>,
    v6: bool,
)
    requires
        router.wf(),
        router.proxy_port_for(udp, path, v6) != 0,
    ensures
        listens_on(router.proxies@, udp, router.proxy_port_for(udp, path, v6)),
{
    let names = names_text(router.name_to_proxy@);
    let i = choose|i: int| name_matches(names, path, i);
    assert(name_matches(names, path, i));
    assert(names[i].1 == router.name_to_proxy@[i].1);
    let proxy = router.proxies@[names[i].1 as int];
    assert(local_port(proxy, udp, v6) == router.proxy_port_for(udp, path, v6));
}

} // verus!
