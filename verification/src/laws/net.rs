//! Addresses and numbers as octets.
use vstd::prelude::*;
use crate::clock::time_since;
use crate::net::{
    be16, be16_bytes, ipv4_at, ipv6_at, is_mapped, mapped, maybe_mapped, normalized, IpAddr,
    Ipv4Addr, Ipv6Addr, SocketAddr,
};

verus! {

/// A 16-bit number stands with its upper octet first, read and written alike.
pub proof fn law_numbers_stand_high_octet_first(s: Seq<u8>, i: int, v: u16)
    requires
        0 <= i,
        i + 2 <= s.len(),
    ensures
        be16(s, i) / 256 == s[i],
        be16(s, i) % 256 == s[i + 1],
        be16_bytes(v).len() == 2,
        be16_bytes(v)[0] * 256 + be16_bytes(v)[1] == v,
{
}

/// An address that is read has the octets that stand there, in their order.
pub proof fn law_addresses_are_read_in_order(s: Seq<u8>, i: int, k: int)
    requires
        0 <= i,
        0 <= k < 16,
        i + 16 <= s.len(),
    ensures
        ipv6_at(s, i).octets@[k] == s[i + k],
        k < 4 ==> ipv4_at(s, i).octets@[k] == s[i + k],
{
}

/// The mapped form of an IPv4 address: ten zeros, two octets of ones, and the address.
pub proof fn law_mapped_form(ip: Ipv4Addr, k: int)
    requires
        0 <= k < 16,
    ensures
        k < 10 ==> mapped(ip).octets@[k] == 0,
        10 <= k < 12 ==> mapped(ip).octets@[k] == 0xff,
        12 <= k ==> mapped(ip).octets@[k] == ip.octets@[k - 12],
{
}

/// Exactly the addresses of the mapped form are turned into IPv4 addresses: into their last four
/// octets, with the same port. Every other address stays as it is.
pub proof fn law_mapped_addresses_are_unwrapped(addr: SocketAddr)
    ensures
        addr is V4 ==> normalized(addr) == addr,
        addr matches SocketAddr::V6(a) ==> {
            let wrapped = (forall|k: int| 0 <= k < 10 ==> a.ip.octets@[k] == 0)
                && a.ip.octets@[10] == 0xff && a.ip.octets@[11] == 0xff;
            if wrapped {
                normalized(addr) matches SocketAddr::V4(b) && b.port == a.port && forall|k: int|
                    0 <= k < 4 ==> b.ip.octets@[k] == a.ip.octets@[12 + k]
            } else {
                normalized(addr) == addr
            }
        },
{
    if let SocketAddr::V6(a) = addr {
        if is_mapped(a.ip) {
            assert(forall|k: int| 0 <= k < 10 ==> a.ip.octets@[k] == 0);
        }
    }
}

/// Only an IPv4 address, and only where that is wanted, is wrapped: into zeros, ones and its own
/// octets, with the same port.
pub proof fn law_ipv4_addresses_are_wrapped(addr: SocketAddr, prefer: bool)
    ensures
        !prefer || addr is V6 ==> maybe_mapped(addr, prefer) == addr,
        addr matches SocketAddr::V4(a) ==> prefer ==> {
            maybe_mapped(addr, prefer) matches SocketAddr::V6(b) && b.port == a.port && b.flowinfo
                == 0 && b.scope_id == 0 && (forall|k: int|
                0 <= k < 10 ==> b.ip.octets@[k] == 0) && b.ip.octets@[10] == 0xff
                && b.ip.octets@[11] == 0xff && forall|k: int|
                12 <= k < 16 ==> b.ip.octets@[k] == a.ip.octets@[k - 12]
        },
{
}

/// The IPv4 address inside an IPv6 address: behind ten zeros and either two octets of ones or two
/// more zeros.
pub proof fn law_embedded_ipv4(ip: Ipv6Addr)
    ensures
        ({
            let zeros = forall|k: int| 0 <= k < 10 ==> ip.octets@[k] == 0;
            let ones = ip.octets@[10] == 0xff && ip.octets@[11] == 0xff;
            let none = ip.octets@[10] == 0 && ip.octets@[11] == 0;
            &&& ip.spec_to_ipv4() is Some <==> zeros && (ones || none)
            &&& ip.spec_to_ipv4_mapped() is Some <==> zeros && ones
            &&& ip.spec_to_ipv4() matches Some(a) ==> forall|k: int|
                0 <= k < 4 ==> a.octets@[k] == ip.octets@[12 + k]
            &&& ip.spec_to_ipv4_mapped() matches Some(a) ==> forall|k: int|
                0 <= k < 4 ==> a.octets@[k] == ip.octets@[12 + k]
        }),
{
    if crate::net::is_compatible(ip) {
        assert(ip.octets@[10] == 0 && ip.octets@[11] == 0);
        assert(forall|k: int| 0 <= k < 10 ==> ip.octets@[k] == 0);
    }
    if is_mapped(ip) {
        assert(forall|k: int| 0 <= k < 10 ==> ip.octets@[k] == 0);
    }
    if (forall|k: int| 0 <= k < 10 ==> ip.octets@[k] == 0) && ip.octets@[10] == 0
        && ip.octets@[11] == 0 {
        assert(crate::net::leading_zeros(ip.octets@, 12));
    }
}

/// Which addresses stand for many receivers, and which for none in particular.
pub proof fn law_address_classes(a: Ipv4Addr, b: Ipv6Addr)
    ensures
        a.spec_is_multicast() <==> a.octets@[0] / 16 == 14,
        a.spec_is_broadcast() <==> forall|k: int| 0 <= k < 4 ==> a.octets@[k] == 255,
        IpAddr::V4(a).spec_is_unspecified() <==> forall|k: int| 0 <= k < 4 ==> a.octets@[k] == 0,
        b.spec_is_multicast() <==> b.octets@[0] == 255,
        IpAddr::V6(b).spec_is_unspecified() <==> forall|k: int| 0 <= k < 16 ==> b.octets@[k] == 0,
{
    if forall|k: int| 0 <= k < 4 ==> a.octets@[k] == 255 {
        assert(a.octets =~= [255u8, 255, 255, 255]);
    }
    if forall|k: int| 0 <= k < 4 ==> a.octets@[k] == 0 {
        assert(a.octets =~= [0u8, 0, 0, 0]);
    }
}

/// A socket address is made of an address and a port, and gives them back.
pub proof fn law_socket_address_parts(addr: SocketAddr, ip: IpAddr, port: u16)
    ensures
        SocketAddr::spec_new(ip, port).spec_ip() == ip,
        SocketAddr::spec_new(ip, port).spec_port() == port,
        SocketAddr::spec_new(ip, port) matches SocketAddr::V6(a) ==> a.flowinfo == 0 && a.scope_id
            == 0,
        match addr {
            SocketAddr::V4(a) => addr.spec_ip() == IpAddr::V4(a.ip) && addr.spec_port() == a.port,
            SocketAddr::V6(a) => addr.spec_ip() == IpAddr::V6(a.ip) && addr.spec_port() == a.port,
        },
{
}

/// The time between two moments leads from the earlier to the later one; there is none between a
/// moment and one before it.
pub proof fn law_time_leads_on(now: u64, earlier: u64)
    ensures
        earlier <= now ==> earlier + time_since(now, earlier) == now,
        now <= earlier ==> time_since(now, earlier) == 0,
{
}

} // verus!
