use ip_bypass_plus_frag::addr::{parse_ip, parse_ipv4, IpAddr, IpNet, Ipv4Addr, Ipv6Addr};

fn v4(a: u8, b: u8, c: u8, d: u8) -> Ipv4Addr {
    Ipv4Addr { bits: u32::from_be_bytes([a, b, c, d]) }
}

#[test]
fn ipv4_addresses_are_read() {
    assert_eq!(parse_ipv4("104.16.0.1"), Some(v4(104, 16, 0, 1)));
    assert_eq!(parse_ipv4("255.255.255.255"), Some(Ipv4Addr { bits: u32::MAX }));
    for text in ["", "1.2.3", "1.2.3.4.5", "256.1.1.1", "01.1.1.1", "1.1.1.1 ", "a.b.c.d", "1..1.1"] {
        assert_eq!(parse_ipv4(text), None, "{text}");
    }
}

#[test]
fn ipv6_addresses_are_read() {
    for (text, bits) in [
        ("::", 0x0),
        ("::1", 0x1),
        ("1::", 0x10000000000000000000000000000),
        ("2001:db8::1", 0x20010db8000000000000000000000001),
        ("1:2:3:4:5:6:7:8", 0x10002000300040005000600070008),
        ("1:2:3:4:5:6:7::", 0x10002000300040005000600070000),
        ("::2:3:4:5:6:7:8", 0x2000300040005000600070008),
        ("::ffff:1.2.3.4", 0xffff01020304),
        ("64:ff9b::1.2.3.4", 0x64ff9b000000000000000001020304),
        ("1:2:3:4:5:6:1.2.3.4", 0x10002000300040005000601020304),
        ("ABCD:ef01::", 0xabcdef01000000000000000000000000),
        ("::0001", 0x1),
        ("1::3:4:5:6:7:8", 0x10000000300040005000600070008),
    ] {
        assert_eq!(parse_ip(text), Some(IpAddr::V6(Ipv6Addr { bits })), "{text}");
    }
}

#[test]
fn other_texts_are_no_addresses() {
    for text in [
        "",
        "1.2.3.004",
        "1.2.3.",
        ".1.2.3",
        "1:2:3:4:5:6:7:8:9",
        "1:2:3",
        "1::2::3",
        ":1:2:3:4:5:6:7",
        "::1.2.3.4.5",
        "1:2:3:4:5:6:7:1.2.3.4",
        "12345::",
        "g::",
        "fe80::1%eth0",
        "1:2:3:4::5:6:7:8",
        ":::",
        "1.2.3.4::",
        "::1 ",
        "[::1]",
    ] {
        assert_eq!(parse_ip(text), None, "{text}");
    }
}

#[test]
fn families_are_told_apart() {
    assert!(parse_ip("::1").unwrap().is_ipv6());
    assert!(!parse_ip("127.0.0.1").unwrap().is_ipv6());
}

#[test]
fn networks_contain_their_addresses() {
    let net = IpNet::V4(v4(104, 16, 0, 0), 16);
    assert!(net.contains(&IpAddr::V4(v4(104, 16, 0, 0))));
    assert!(net.contains(&IpAddr::V4(v4(104, 16, 255, 255))));
    assert!(!net.contains(&IpAddr::V4(v4(104, 17, 0, 0))));
    assert!(!net.contains(&IpAddr::V4(v4(104, 15, 255, 255))));
    assert!(!net.contains(&parse_ip("::1").unwrap()));
    // A network may be written with one of its hosts.
    let host = IpNet::V4(v4(10, 1, 2, 3), 8);
    assert!(host.contains(&IpAddr::V4(v4(10, 200, 0, 1))));
    let all = IpNet::V4(v4(1, 2, 3, 4), 0);
    assert!(all.contains(&IpAddr::V4(v4(255, 0, 0, 1))));
    let one = IpNet::V4(v4(1, 2, 3, 4), 32);
    assert!(one.contains(&IpAddr::V4(v4(1, 2, 3, 4))));
    assert!(!one.contains(&IpAddr::V4(v4(1, 2, 3, 5))));
}

#[test]
fn ipv6_networks_contain_their_addresses() {
    let base = match parse_ip("2001:db8::") {
        Some(IpAddr::V6(a)) => a,
        _ => unreachable!(),
    };
    let net = IpNet::V6(base, 32);
    assert!(net.contains(&parse_ip("2001:db8:ffff::1").unwrap()));
    assert!(!net.contains(&parse_ip("2001:db9::").unwrap()));
    assert!(!net.contains(&parse_ip("1.2.3.4").unwrap()));
    assert!(IpNet::V6(base, 0).contains(&parse_ip("::").unwrap()));
    assert!(!IpNet::V6(base, 128).contains(&parse_ip("2001:db8::1").unwrap()));
}
