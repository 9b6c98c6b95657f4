use proxifyre::net::{
    maybe_map_ipv4_to_ipv6_mapped, normalize_mapped_ipv6, IpAddr, Ipv4Addr, Ipv6Addr, SocketAddr,
    SocketAddrV6,
};
use proxifyre::table::{Key, Table};
use proxifyre::text;

#[test]
fn mapping_is_undone_by_normalising() {
    let addr = SocketAddr::new(IpAddr::V4(Ipv4Addr::new(203, 0, 113, 7)), 443);
    let mapped = maybe_map_ipv4_to_ipv6_mapped(addr, true);
    assert!(mapped.is_ipv6());
    assert_eq!(mapped.port(), 443);
    assert_eq!(normalize_mapped_ipv6(mapped), addr);
    assert_eq!(normalize_mapped_ipv6(addr), addr);
    assert_eq!(maybe_map_ipv4_to_ipv6_mapped(addr, false), addr);
    assert_eq!(maybe_map_ipv4_to_ipv6_mapped(mapped, true), mapped);
}

#[test]
fn other_ipv6_addresses_stay() {
    let mut octets = [0u8; 16];
    octets[15] = 1;
    let v6 = SocketAddr::V6(SocketAddrV6 {
        ip: Ipv6Addr { octets },
        port: 1,
        flowinfo: 2,
        scope_id: 3,
    });
    assert_eq!(normalize_mapped_ipv6(v6), v6);
}

#[test]
fn address_classes() {
    assert!(Ipv4Addr::new(0, 0, 0, 0).is_unspecified());
    assert!(!Ipv4Addr::new(0, 0, 0, 1).is_unspecified());
    assert!(Ipv4Addr::new(224, 0, 0, 1).is_multicast());
    assert!(Ipv4Addr::new(239, 255, 255, 255).is_multicast());
    assert!(!Ipv4Addr::new(240, 0, 0, 0).is_multicast());
    assert!(Ipv4Addr::new(255, 255, 255, 255).is_broadcast());
    let mut octets = [0u8; 16];
    assert!(Ipv6Addr { octets }.is_unspecified());
    octets[0] = 0xff;
    assert!(Ipv6Addr { octets }.is_multicast());
    let compatible = Ipv6Addr { octets: [0, 0, 0, 0, 0, 0, 0, 0, 0, 0, 0, 0, 1, 2, 3, 4] };
    assert_eq!(compatible.to_ipv4(), Some(Ipv4Addr::new(1, 2, 3, 4)));
    assert_eq!(compatible.to_ipv4_mapped(), None);
    assert!(Ipv4Addr::new(1, 2, 3, 4).same(&Ipv4Addr::new(1, 2, 3, 4)));
    assert!(!Ipv4Addr::new(1, 2, 3, 4).same(&Ipv4Addr::new(1, 2, 3, 5)));
}

#[test]
fn a_table_keeps_one_value_per_key() {
    let key = |n: u8| Ipv4Addr::new(192, 0, 2, n);
    let mut table: Table<Ipv4Addr, &str> = Table::new();
    table.insert(key(1), "a");
    table.insert(key(2), "b");
    table.insert(key(1), "c");
    assert_eq!(table.len(), 2);
    assert_eq!(table.get(&key(1)), Some(&"c"));
    assert!(table.contains(&key(2)));
    assert!(table.remove(&key(1)));
    assert!(!table.remove(&key(1)));
    assert_eq!(table.get(&key(1)), None);
    table.insert(key(3), "c");
    table.insert(key(4), "c");
    table.retain(|value| *value == "c");
    assert_eq!(table.len(), 2);
    assert!(!table.contains(&key(2)));
    table.clear();
    assert_eq!(table.len(), 0);
}

#[test]
fn text_is_searched_and_trimmed() {
    assert_eq!(text::find_str("a://b://c", "://"), Some(1));
    assert_eq!(text::find_str("abc", "abcd"), None);
    assert_eq!(text::find_str("abc", ""), Some(0));
    assert!(text::contains_str("C:\\firefox.exe", "firefox"));
    assert!(!text::contains_str("firefo", "firefox"));
    assert_eq!(text::find_char("äbä", 'ä'), Some(0));
    assert_eq!(text::rfind_char("äbä", 'ä'), Some(2));
    assert_eq!(text::rfind_char("äbä", 'x'), None);
    assert_eq!(text::trim(" \t\u{3000}a b\u{85}\n"), "a b");
    assert_eq!(text::trim(" \n "), "");
}

#[test]
fn white_space_is_that_of_unicode() {
    for n in 0u32..0x11_0000 {
        if let Some(c) = char::from_u32(n) {
            assert_eq!(text::is_white_space(c), c.is_whitespace(), "{}", n);
        }
    }
}

#[test]
fn ports_are_parsed_like_numbers() {
    for s in ["0", "65535", "65536", "+7", "-7", "", "+", "7 ", "00080", "1e3", "٣", "99999999999999999999"] {
        assert_eq!(text::parse_u16(s), s.parse::<u16>().ok(), "{}", s);
    }
}

#[test]
fn numbers_are_written() {
    let mut out = String::new();
    text::append_decimal(&mut out, 0);
    out.push(' ');
    text::append_decimal(&mut out, u64::MAX);
    out.push(' ');
    text::append_two_digits(&mut out, 7);
    text::append_two_digits(&mut out, 123);
    text::append_padded(&mut out, "ab", 4);
    text::append_padded(&mut out, "abcde", 4);
    assert_eq!(out, "0 18446744073709551615 07123  ababcde");
}
