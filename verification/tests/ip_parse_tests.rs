use void_proxy::addr::IpAddress;
use void_proxy::ip_parse::parse_ip;

#[test]
fn parses_dotted_quads() {
    assert_eq!(parse_ip("127.0.0.1"), Some(IpAddress::V4(0x7F000001)));
    assert_eq!(parse_ip("0.0.0.0"), Some(IpAddress::V4(0)));
    assert_eq!(parse_ip("255.255.255.255"), Some(IpAddress::V4(0xFFFFFFFF)));
    assert_eq!(parse_ip("192.168.1.100"), Some(IpAddress::V4(0xC0A80164)));
}

#[test]
fn rejects_malformed_dotted_quads() {
    assert_eq!(parse_ip(""), None);
    assert_eq!(parse_ip("256.0.0.1"), None);
    assert_eq!(parse_ip("1.2.3"), None);
    assert_eq!(parse_ip("1.2.3.4.5"), None);
    assert_eq!(parse_ip("01.2.3.4"), None);
    assert_eq!(parse_ip("1.2.3."), None);
    assert_eq!(parse_ip(".1.2.3"), None);
    assert_eq!(parse_ip("a.b.c.d"), None);
    assert_eq!(parse_ip("1.2.3.4 "), None);
}

#[test]
fn parses_full_ipv6() {
    assert_eq!(
        parse_ip("1:2:3:4:5:6:7:8"),
        Some(IpAddress::V6(0x00010002000300040005000600070008)),
    );
    assert_eq!(
        parse_ip("2001:db8:0:0:0:0:0:1"),
        Some(IpAddress::V6(0x20010db8000000000000000000000001)),
    );
    assert_eq!(
        parse_ip("ffff:FFFF:0:0:0:0:0:0"),
        Some(IpAddress::V6(0xffffffff000000000000000000000000)),
    );
}

#[test]
fn parses_compressed_ipv6() {
    assert_eq!(parse_ip("::"), Some(IpAddress::V6(0)));
    assert_eq!(parse_ip("::1"), Some(IpAddress::V6(1)));
    assert_eq!(
        parse_ip("2001:db8::1"),
        Some(IpAddress::V6(0x20010db8000000000000000000000001)),
    );
    assert_eq!(
        parse_ip("fe80::"),
        Some(IpAddress::V6(0xfe800000000000000000000000000000)),
    );
    assert_eq!(
        parse_ip("1:2:3:4:5:6:7::"),
        Some(IpAddress::V6(0x00010002000300040005000600070000)),
    );
}

#[test]
fn rejects_malformed_ipv6() {
    assert_eq!(parse_ip(":::"), None);
    assert_eq!(parse_ip("1::2::3"), None);
    assert_eq!(parse_ip("1:2:3:4:5:6:7"), None);
    assert_eq!(parse_ip("1:2:3:4:5:6:7:8:9"), None);
    assert_eq!(parse_ip("1:2:3:4:5:6:7:8::"), None);
    assert_eq!(parse_ip("12345::"), None);
    assert_eq!(parse_ip(":1::2"), None);
    assert_eq!(parse_ip("g::1"), None);
}

#[test]
fn parses_embedded_ipv4_tails() {
    assert_eq!(
        parse_ip("::ffff:192.168.1.100"),
        Some(IpAddress::V6(0x0000000000000000_0000_ffff_c0a8_0164)),
    );
    assert_eq!(parse_ip("::127.0.0.1"), Some(IpAddress::V6(0x7f000001)),);
    assert_eq!(
        parse_ip("1:2:3:4:5:6:1.2.3.4"),
        Some(IpAddress::V6(0x000100020003000400050006_0102_0304)),
    );
    assert_eq!(
        parse_ip("64:ff9b::1.2.3.4"),
        Some(IpAddress::V6(0x0064ff9b000000000000000001020304)),
    );
}

#[test]
fn rejects_malformed_embedded_ipv4_tails() {
    assert_eq!(parse_ip("1.2.3.4::"), None);
    assert_eq!(parse_ip("::1.2.3"), None);
    assert_eq!(parse_ip("::256.1.1.1"), None);
    assert_eq!(parse_ip("1:2:3:4:5:6:7:1.2.3.4"), None);
    assert_eq!(parse_ip("1:2:3:4:5:6::1.2.3.4"), None);
    assert_eq!(parse_ip("1.2.3.4:5::"), None);
}
