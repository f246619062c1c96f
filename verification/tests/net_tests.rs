use aether::net::{decimal_text, IpAddress, SocketAddress};

#[test]
fn ipv4_addresses_parse_and_print_like_std() {
    assert_eq!(IpAddress::parse("162.159.192.1"), Some(IpAddress::V4(162, 159, 192, 1)));
    assert_eq!(IpAddress::parse("162.159.192.1").unwrap().to_string(), "162.159.192.1");
    for bad in ["", "1.2.3", "1.2.3.4.5", "256.1.1.1", "01.2.3.4", "1.2.3.4 ", "a.b.c.d"] {
        assert_eq!(IpAddress::parse(bad), None, "{bad:?}");
    }
}

#[test]
fn ipv6_addresses_parse_and_print_in_canonical_form() {
    let cases = [
        ("::", "::"),
        ("::1", "::1"),
        ("2606:4700:4700::1111", "2606:4700:4700::1111"),
        ("2001:db8:0:0:1:0:0:1", "2001:db8::1:0:0:1"),
        ("2001:0db8:0000:0000:0000:0000:0000:0001", "2001:db8::1"),
        ("fe80::1:0:0:0", "fe80::1:0:0:0"),
        ("1:0:0:2:0:0:0:3", "1:0:0:2::3"),
        ("1:0:2:3:4:5:6:7", "1:0:2:3:4:5:6:7"),
        ("::ffff:1.2.3.4", "::ffff:1.2.3.4"),
    ];
    for (input, printed) in cases {
        let ip = IpAddress::parse(input).unwrap_or_else(|| panic!("{input} parses"));
        assert_eq!(ip.to_string(), printed, "{input}");
        assert!(ip.is_ipv6());
    }
    for bad in [":::", "1::2::3", "12345::", "1:2:3:4:5:6:7:8:9", "g::1"] {
        assert_eq!(IpAddress::parse(bad), None, "{bad:?}");
    }
}

#[test]
fn socket_addresses_need_a_port() {
    let a = SocketAddress::parse("127.0.0.1:1819").unwrap();
    assert_eq!((a.ip, a.port), (IpAddress::V4(127, 0, 0, 1), 1819));
    assert_eq!(a.to_string(), "127.0.0.1:1819");
    let b = SocketAddress::parse("[::1]:2408").unwrap();
    assert_eq!(b.to_string(), "[::1]:2408");
    assert!(b.ip.is_loopback());
    assert_eq!(SocketAddress::parse("[fe80::1%3]:80").unwrap().to_string(), "[fe80::1%3]:80");
    for bad in ["127.0.0.1", "::1:80", "127.0.0.1:65536", "127.0.0.1:", ":80", "[::1]"] {
        assert_eq!(SocketAddress::parse(bad), None, "{bad:?}");
    }
}

#[test]
fn loopback_covers_the_whole_127_block() {
    assert!(IpAddress::V4(127, 9, 9, 9).is_loopback());
    assert!(!IpAddress::V4(0, 0, 0, 0).is_loopback());
    assert!(!IpAddress::parse("::").unwrap().is_loopback());
}

#[test]
fn decimal_text_is_plain() {
    assert_eq!(decimal_text(0), "0");
    assert_eq!(decimal_text(1819), "1819");
    assert_eq!(decimal_text(u64::MAX), "18446744073709551615");
}
