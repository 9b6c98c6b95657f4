//! IP and socket addresses as plain octets.
use vstd::prelude::*;
use crate::table::Key;

verus! {

/// An IPv4 address, most significant octet first.
#[derive(Clone, Copy, Debug, PartialEq, Eq, Hash)]
pub struct Ipv4Addr {
    pub octets: [u8; 4],
}

/// An IPv6 address, most significant octet first.
#[derive(Clone, Copy, Debug, PartialEq, Eq, Hash)]
pub struct Ipv6Addr {
    pub octets: [u8; 16],
}

/// An address of either family.
#[derive(Clone, Copy, Debug, PartialEq, Eq, Hash)]
pub enum IpAddr {
    V4(Ipv4Addr),
    V6(Ipv6Addr),
}

/// An IPv4 socket address.
#[derive(Clone, Copy, Debug, PartialEq, Eq, Hash)]
pub struct SocketAddrV4 {
    pub ip: Ipv4Addr,
    pub port: u16,
}

/// An IPv6 socket address.
#[derive(Clone, Copy, Debug, PartialEq, Eq, Hash)]
pub struct SocketAddrV6 {
    pub ip: Ipv6Addr,
    pub port: u16,
    pub flowinfo: u32,
    pub scope_id: u32,
}

/// A socket address of either family.
#[derive(Clone, Copy, Debug, PartialEq, Eq, Hash)]
pub enum SocketAddr {
    V4(SocketAddrV4),
    V6(SocketAddrV6),
}

/// The IPv4 address whose octets stand at `s[i..i + 4]`.
pub open spec fn ipv4_at(s: Seq<u8>, i: int) -> Ipv4Addr {
    Ipv4Addr { octets: [s[i], s[i + 1], s[i + 2], s[i + 3]] }
}

/// The IPv6 address whose octets stand at `s[i..i + 16]`.
pub open spec fn ipv6_at(s: Seq<u8>, i: int) -> Ipv6Addr {
    Ipv6Addr {
        octets: [
            s[i],
            s[i + 1],
            s[i + 2],
            s[i + 3],
            s[i + 4],
            s[i + 5],
            s[i + 6],
            s[i + 7],
            s[i + 8],
            s[i + 9],
            s[i + 10],
            s[i + 11],
            s[i + 12],
            s[i + 13],
            s[i + 14],
            s[i + 15],
        ],
    }
}

/// The 16-bit number stored at `s[i..i + 2]`, most significant octet first.
pub open spec fn be16(s: Seq<u8>, i: int) -> u16 {
    (s[i] * 256 + s[i + 1]) as u16
}

/// The two octets of `v`, most significant first.
pub open spec fn be16_bytes(v: u16) -> Seq<u8> {
    seq![(v / 256) as u8, (v % 256) as u8]
}

/// Two IPv4 addresses with the same octets are the same address.
pub proof fn lemma_ipv4_octets(a: Ipv4Addr, b: Ipv4Addr)
    requires
        a.octets@ == b.octets@,
    ensures
        a == b,
{
    assert(forall|i: int| 0 <= i < 4 ==> a.octets@[i] == b.octets@[i]);
    assert(a.octets =~= b.octets);
}

/// Two IPv6 addresses with the same octets are the same address.
pub proof fn lemma_ipv6_octets(a: Ipv6Addr, b: Ipv6Addr)
    requires
        a.octets@ == b.octets@,
    ensures
        a == b,
{
    assert(forall|i: int| 0 <= i < 16 ==> a.octets@[i] == b.octets@[i]);
    assert(a.octets =~= b.octets);
}

/// Reading the two octets of a port gives the port back.
pub proof fn lemma_be16_roundtrip(v: u16, s: Seq<u8>, i: int)
    requires
        s[i] == be16_bytes(v)[0],
        s[i + 1] == be16_bytes(v)[1],
    ensures
        be16(s, i) == v,
{
}

/// Reads the 16-bit number at `buf[at..at + 2]`.
pub fn read_be16(buf: &[u8], at: usize) -> (r: u16)
    requires
        at + 2 <= buf@.len(),
    ensures
        r == be16(buf@, at as int),
{
    (buf[at] as u16) * 256 + (buf[at + 1] as u16)
}

/// Reads the IPv4 address at `buf[at..at + 4]`.
pub fn read_ipv4(buf: &[u8], at: usize) -> (r: Ipv4Addr)
    requires
        at + 4 <= buf@.len(),
    ensures
        r == ipv4_at(buf@, at as int),
        r.octets@ == buf@.subrange(at as int, at + 4),
{
    Ipv4Addr { octets: [buf[at], buf[at + 1], buf[at + 2], buf[at + 3]] }
}

/// Reads the IPv6 address at `buf[at..at + 16]`.
pub fn read_ipv6(buf: &[u8], at: usize) -> (r: Ipv6Addr)
    requires
        at + 16 <= buf@.len(),
    ensures
        r == ipv6_at(buf@, at as int),
        r.octets@ == buf@.subrange(at as int, at + 16),
{
    Ipv6Addr {
        octets: [
            buf[at],
            buf[at + 1],
            buf[at + 2],
            buf[at + 3],
            buf[at + 4],
            buf[at + 5],
            buf[at + 6],
            buf[at + 7],
            buf[at + 8],
            buf[at + 9],
            buf[at + 10],
            buf[at + 11],
            buf[at + 12],
            buf[at + 13],
            buf[at + 14],
            buf[at + 15],
        ],
    }
}

/// The octets of `::ffff:a.b.c.d` for an IPv4 address `a.b.c.d`.
pub open spec fn mapped(v4: Ipv4Addr) -> Ipv6Addr {
    Ipv6Addr {
        octets: [
            0,
            0,
            0,
            0,
            0,
            0,
            0,
            0,
            0,
            0,
            0xff,
            0xff,
            v4.octets[0],
            v4.octets[1],
            v4.octets[2],
            v4.octets[3],
        ],
    }
}

/// The first `n` octets are zero.
pub open spec fn leading_zeros(s: Seq<u8>, n: int) -> bool {
    forall|i: int| 0 <= i < n ==> s[i] == 0
}

/// `v6` has the form `::ffff:a.b.c.d`.
pub open spec fn is_mapped(v6: Ipv6Addr) -> bool {
    leading_zeros(v6.octets@, 10) && v6.octets[10] == 0xff && v6.octets[11] == 0xff
}

/// `v6` has the form `::a.b.c.d`.
pub open spec fn is_compatible(v6: Ipv6Addr) -> bool {
    leading_zeros(v6.octets@, 12)
}

impl Key for Ipv4Addr {
    fn same(&self, other: &Self) -> (r: bool) {
        let mut i: usize = 0;
        while i < 4
            invariant
                i <= 4,
                forall|k: int| 0 <= k < i ==> self.octets[k] == other.octets[k],
            decreases 4 - i,
        {
            if self.octets[i] != other.octets[i] {
                return false;
            }
            i = i + 1;
        }
        assert(self.octets =~= other.octets);
        true
    }
}

impl Key for Ipv6Addr {
    fn same(&self, other: &Self) -> (r: bool) {
        let mut i: usize = 0;
        while i < 16
            invariant
                i <= 16,
                forall|k: int| 0 <= k < i ==> self.octets[k] == other.octets[k],
            decreases 16 - i,
        {
            if self.octets[i] != other.octets[i] {
                return false;
            }
            i = i + 1;
        }
        assert(self.octets =~= other.octets);
        true
    }
}

impl Key for IpAddr {
    fn same(&self, other: &Self) -> (r: bool) {
        match (self, other) {
            (IpAddr::V4(a), IpAddr::V4(b)) => a.same(b),
            (IpAddr::V6(a), IpAddr::V6(b)) => a.same(b),
            _ => false,
        }
    }
}

impl Ipv4Addr {
    /// The address `a.b.c.d`.
    pub fn new(a: u8, b: u8, c: u8, d: u8) -> (r: Self)
        ensures
            r == (Ipv4Addr { octets: [a, b, c, d] }),
    {
        Ipv4Addr { octets: [a, b, c, d] }
    }

    /// `0.0.0.0`.
    pub open spec fn spec_unspecified() -> Self {
        Ipv4Addr { octets: [0, 0, 0, 0] }
    }

    /// Whether this is `0.0.0.0`.
    pub fn is_unspecified(&self) -> (r: bool)
        ensures
            r == (*self == Ipv4Addr::spec_unspecified()),
    {
        self.same(&Ipv4Addr { octets: [0, 0, 0, 0] })
    }

    /// The block `224.0.0.0/4`.
    pub open spec fn spec_is_multicast(self) -> bool {
        224 <= self.octets[0] <= 239
    }

    /// Whether the address lies in `224.0.0.0/4`.
    pub fn is_multicast(&self) -> (r: bool)
        ensures
            r == self.spec_is_multicast(),
    {
        224 <= self.octets[0] && self.octets[0] <= 239
    }

    /// `255.255.255.255`.
    pub open spec fn spec_is_broadcast(self) -> bool {
        self == Ipv4Addr { octets: [255, 255, 255, 255] }
    }

    /// Whether this is `255.255.255.255`.
    pub fn is_broadcast(&self) -> (r: bool)
        ensures
            r == self.spec_is_broadcast(),
    {
        self.same(&Ipv4Addr { octets: [255, 255, 255, 255] })
    }

    /// `::ffff:a.b.c.d`.
    pub fn to_ipv6_mapped(&self) -> (r: Ipv6Addr)
        ensures
            r == mapped(*self),
    {
        Ipv6Addr {
            octets: [
                0,
                0,
                0,
                0,
                0,
                0,
                0,
                0,
                0,
                0,
                0xff,
                0xff,
                self.octets[0],
                self.octets[1],
                self.octets[2],
                self.octets[3],
            ],
        }
    }
}

impl Ipv6Addr {
    /// `::`.
    pub open spec fn spec_is_unspecified(self) -> bool {
        leading_zeros(self.octets@, 16)
    }

    /// The number of leading zero octets, counted up to `n`, reaches `n`.
    fn zeros(&self, n: usize) -> (r: bool)
        requires
            n <= 16,
        ensures
            r == leading_zeros(self.octets@, n as int),
    {
        let mut i: usize = 0;
        while i < n
            invariant
                i <= n <= 16,
                forall|k: int| 0 <= k < i ==> self.octets[k] == 0,
            decreases n - i,
        {
            if self.octets[i] != 0 {
                assert(self.octets@[i as int] != 0);
                return false;
            }
            i = i + 1;
        }
        true
    }

    /// Whether this is `::`.
    pub fn is_unspecified(&self) -> (r: bool)
        ensures
            r == self.spec_is_unspecified(),
    {
        self.zeros(16)
    }

    /// The block `ff00::/8`.
    pub open spec fn spec_is_multicast(self) -> bool {
        self.octets[0] == 0xff
    }

    /// Whether the address lies in `ff00::/8`.
    pub fn is_multicast(&self) -> (r: bool)
        ensures
            r == self.spec_is_multicast(),
    {
        self.octets[0] == 0xff
    }

    /// The address `a.b.c.d` of `::ffff:a.b.c.d`.
    pub open spec fn spec_to_ipv4_mapped(self) -> Option<Ipv4Addr> {
        if is_mapped(self) {
            Some(ipv4_at(self.octets@, 12))
        } else {
            None
        }
    }

    /// Converts `::ffff:a.b.c.d` to `a.b.c.d`; every other address gives `None`.
    pub fn to_ipv4_mapped(&self) -> (r: Option<Ipv4Addr>)
        ensures
            r == self.spec_to_ipv4_mapped(),
    {
        if self.zeros(10) && self.octets[10] == 0xff && self.octets[11] == 0xff {
            Some(
                Ipv4Addr {
                    octets: [self.octets[12], self.octets[13], self.octets[14], self.octets[15]],
                },
            )
        } else {
            None
        }
    }

    /// The address `a.b.c.d` of `::ffff:a.b.c.d` or `::a.b.c.d`.
    pub open spec fn spec_to_ipv4(self) -> Option<Ipv4Addr> {
        if is_mapped(self) || is_compatible(self) {
            Some(ipv4_at(self.octets@, 12))
        } else {
            None
        }
    }

    /// Converts `::ffff:a.b.c.d` and `::a.b.c.d` to `a.b.c.d`; every other address gives
    /// `None`.
    pub fn to_ipv4(&self) -> (r: Option<Ipv4Addr>)
        ensures
            r == self.spec_to_ipv4(),
    {
        if self.zeros(12) {
            Some(
                Ipv4Addr {
                    octets: [self.octets[12], self.octets[13], self.octets[14], self.octets[15]],
                },
            )
        } else {
            self.to_ipv4_mapped()
        }
    }
}

impl IpAddr {
    /// `0.0.0.0` or `::`.
    pub open spec fn spec_is_unspecified(self) -> bool {
        match self {
            IpAddr::V4(ip) => ip == Ipv4Addr::spec_unspecified(),
            IpAddr::V6(ip) => ip.spec_is_unspecified(),
        }
    }

    /// Whether this is `0.0.0.0` or `::`.
    pub fn is_unspecified(&self) -> (r: bool)
        ensures
            r == self.spec_is_unspecified(),
    {
        match self {
            IpAddr::V4(ip) => ip.is_unspecified(),
            IpAddr::V6(ip) => ip.is_unspecified(),
        }
    }
}

impl SocketAddr {
    /// The socket address of `ip` and `port`, without flow information or scope.
    pub open spec fn spec_new(ip: IpAddr, port: u16) -> Self {
        match ip {
            IpAddr::V4(ip) => SocketAddr::V4(SocketAddrV4 { ip, port }),
            IpAddr::V6(ip) => SocketAddr::V6(
                SocketAddrV6 { ip, port, flowinfo: 0, scope_id: 0 },
            ),
        }
    }

    /// The socket address of `ip` and `port`, without flow information or scope.
    pub fn new(ip: IpAddr, port: u16) -> (r: Self)
        ensures
            r == SocketAddr::spec_new(ip, port),
    {
        match ip {
            IpAddr::V4(ip) => SocketAddr::V4(SocketAddrV4 { ip, port }),
            IpAddr::V6(ip) => SocketAddr::V6(
                SocketAddrV6 { ip, port, flowinfo: 0, scope_id: 0 },
            ),
        }
    }

    /// The IP address.
    pub open spec fn spec_ip(self) -> IpAddr {
        match self {
            SocketAddr::V4(a) => IpAddr::V4(a.ip),
            SocketAddr::V6(a) => IpAddr::V6(a.ip),
        }
    }

    /// The IP address.
    pub fn ip(&self) -> (r: IpAddr)
        ensures
            r == self.spec_ip(),
    {
        match self {
            SocketAddr::V4(a) => IpAddr::V4(a.ip),
            SocketAddr::V6(a) => IpAddr::V6(a.ip),
        }
    }

    /// The port.
    pub open spec fn spec_port(self) -> u16 {
        match self {
            SocketAddr::V4(a) => a.port,
            SocketAddr::V6(a) => a.port,
        }
    }

    /// The port.
    pub fn port(&self) -> (r: u16)
        ensures
            r == self.spec_port(),
    {
        match self {
            SocketAddr::V4(a) => a.port,
            SocketAddr::V6(a) => a.port,
        }
    }

    /// Whether this is an IPv6 socket address.
    pub fn is_ipv6(&self) -> (r: bool)
        ensures
            r == (self is V6),
    {
        match self {
            SocketAddr::V4(_) => false,
            SocketAddr::V6(_) => true,
        }
    }
}

/// Turns an IPv4-mapped IPv6 socket address into the IPv4 address it stands for, and
/// leaves every other address as it is.
pub open spec fn normalized(addr: SocketAddr) -> SocketAddr {
    match addr {
        SocketAddr::V6(v6) => match v6.ip.spec_to_ipv4_mapped() {
            Some(v4) => SocketAddr::V4(SocketAddrV4 { ip: v4, port: v6.port }),
            None => addr,
        },
        SocketAddr::V4(_) => addr,
    }
}

/// Turns an IPv4-mapped IPv6 socket address into the IPv4 address it stands for, and
/// leaves every other address as it is.
pub fn normalize_mapped_ipv6(addr: SocketAddr) -> (r: SocketAddr)
    ensures
        r == normalized(addr),
{
    match addr {
        SocketAddr::V6(v6) => match v6.ip.to_ipv4_mapped() {
            Some(v4) => SocketAddr::V4(SocketAddrV4 { ip: v4, port: v6.port }),
            None => addr,
        },
        SocketAddr::V4(_) => addr,
    }
}

/// An IPv4 address in its IPv4-mapped form when `prefer_mapped`; every other address, and
/// every address otherwise, unchanged.
pub open spec fn maybe_mapped(addr: SocketAddr, prefer_mapped: bool) -> SocketAddr {
    match addr {
        SocketAddr::V4(v4) if prefer_mapped => SocketAddr::spec_new(
            IpAddr::V6(mapped(v4.ip)),
            v4.port,
        ),
        _ => addr,
    }
}

/// Writes an IPv4 address in its IPv4-mapped form when `prefer_mapped`; every other
/// address, and every address otherwise, stays as it is.
pub fn maybe_map_ipv4_to_ipv6_mapped(addr: SocketAddr, prefer_mapped: bool) -> (r: SocketAddr)
    ensures
        r == maybe_mapped(addr, prefer_mapped),
{
    if !prefer_mapped {
        return addr;
    }
    match addr {
        SocketAddr::V4(v4) => SocketAddr::new(IpAddr::V6(v4.ip.to_ipv6_mapped()), v4.port),
        SocketAddr::V6(v6) => SocketAddr::V6(v6),
    }
}

/// The mapped form of an IPv4 address reads back as that address.
pub proof fn lemma_mapped_reads_back(v4: Ipv4Addr)
    ensures
        mapped(v4).spec_to_ipv4_mapped() == Some(v4),
        mapped(v4).spec_to_ipv4() == Some(v4),
{
    let m = mapped(v4);
    assert(leading_zeros(m.octets@, 10));
    assert(ipv4_at(m.octets@, 12).octets =~= v4.octets);
}

/// Mapping an IPv4 socket address into IPv6 and normalising it gives the address back:
/// whatever family the proxy speaks, the flow is found under the same key.
pub proof fn law_normalize_undoes_mapping(v4: SocketAddrV4, prefer_mapped: bool)
    ensures
        normalized(maybe_mapped(SocketAddr::V4(v4), prefer_mapped)) == SocketAddr::V4(v4),
{
    lemma_mapped_reads_back(v4.ip);
}

/// Normalising twice is normalising once.
pub proof fn law_normalize_idempotent(addr: SocketAddr)
    ensures
        normalized(normalized(addr)) == normalized(addr),
{
}

} // verus!
