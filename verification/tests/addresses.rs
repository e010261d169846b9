//! Address text handling: parsing, formatting, lists, trimming.

use dyndns::{
    Ipv4Address, Ipv6Address, format_ipv4, format_ipv6, format_ipv6_list, parse_ipv4, parse_ipv6,
    parse_ipv6_list, trim_bytes,
};

fn v4(a: u8, b: u8, c: u8, d: u8) -> Ipv4Address {
    Ipv4Address { o0: a, o1: b, o2: c, o3: d }
}

fn v6(gs: [u16; 8]) -> Ipv6Address {
    Ipv6Address {
        g0: gs[0],
        g1: gs[1],
        g2: gs[2],
        g3: gs[3],
        g4: gs[4],
        g5: gs[5],
        g6: gs[6],
        g7: gs[7],
    }
}

#[test]
fn parses_dotted_quads() {
    assert_eq!(parse_ipv4(b"10.0.0.5"), Some(v4(10, 0, 0, 5)));
    assert_eq!(parse_ipv4(b"255.255.255.255"), Some(v4(255, 255, 255, 255)));
    assert_eq!(parse_ipv4(b"0.0.0.0"), Some(v4(0, 0, 0, 0)));
}

#[test]
fn rejects_malformed_dotted_quads() {
    assert_eq!(parse_ipv4(b""), None);
    assert_eq!(parse_ipv4(b"1.2.3"), None);
    assert_eq!(parse_ipv4(b"1.2.3.4.5"), None);
    assert_eq!(parse_ipv4(b"256.1.1.1"), None);
    assert_eq!(parse_ipv4(b"01.2.3.4"), None);
    assert_eq!(parse_ipv4(b"1..2.3"), None);
    assert_eq!(parse_ipv4(b"a.b.c.d"), None);
    assert_eq!(parse_ipv4(b"1.2.3.4 "), None);
}

#[test]
fn formats_dotted_quads() {
    assert_eq!(format_ipv4(&v4(10, 0, 0, 5)), b"10.0.0.5".to_vec());
    assert_eq!(format_ipv4(&v4(255, 0, 100, 9)), b"255.0.100.9".to_vec());
}

#[test]
fn ipv4_round_trips() {
    for addr in [v4(0, 0, 0, 0), v4(10, 0, 0, 5), v4(255, 255, 255, 255), v4(192, 168, 1, 77)] {
        assert_eq!(parse_ipv4(&format_ipv4(&addr)), Some(addr));
    }
}

#[test]
fn parses_full_ipv6_forms() {
    assert_eq!(
        parse_ipv6(b"2001:db8:0:0:0:0:0:1"),
        Some(v6([0x2001, 0xdb8, 0, 0, 0, 0, 0, 1]))
    );
    assert_eq!(
        parse_ipv6(b"2001:DB8:0:0:0:0:0:1"),
        Some(v6([0x2001, 0xdb8, 0, 0, 0, 0, 0, 1]))
    );
    assert_eq!(
        parse_ipv6(b"fe80:0000:0000:0000:0000:0000:0000:0001"),
        Some(v6([0xfe80, 0, 0, 0, 0, 0, 0, 1]))
    );
}

#[test]
fn parses_elided_ipv6_forms() {
    assert_eq!(parse_ipv6(b"2001:db8::1"), Some(v6([0x2001, 0xdb8, 0, 0, 0, 0, 0, 1])));
    assert_eq!(parse_ipv6(b"::1"), Some(v6([0, 0, 0, 0, 0, 0, 0, 1])));
    assert_eq!(parse_ipv6(b"::"), Some(v6([0, 0, 0, 0, 0, 0, 0, 0])));
    assert_eq!(parse_ipv6(b"fe80::"), Some(v6([0xfe80, 0, 0, 0, 0, 0, 0, 0])));
    assert_eq!(
        parse_ipv6(b"1:2:3:4:5:6:7::"),
        Some(v6([1, 2, 3, 4, 5, 6, 7, 0]))
    );
    assert_eq!(
        parse_ipv6(b"::2:3:4:5:6:7:8"),
        Some(v6([0, 2, 3, 4, 5, 6, 7, 8]))
    );
}

#[test]
fn parses_ipv4_mapped_ipv6_forms() {
    assert_eq!(
        parse_ipv6(b"::ffff:192.0.2.1"),
        Some(v6([0, 0, 0, 0, 0, 0xffff, 0xc000, 0x0201]))
    );
    assert_eq!(
        parse_ipv6(b"1:2:3:4:5:6:1.2.3.4"),
        Some(v6([1, 2, 3, 4, 5, 6, 0x0102, 0x0304]))
    );
    assert_eq!(
        parse_ipv6(b"1::2:1.2.3.4"),
        Some(v6([1, 0, 0, 0, 0, 2, 0x0102, 0x0304]))
    );
    assert_eq!(
        parse_ipv6(b"::1.2.3.4"),
        Some(v6([0, 0, 0, 0, 0, 0, 0x0102, 0x0304]))
    );
}

#[test]
fn rejects_malformed_ipv4_mapped_forms() {
    // The quad must be last, well formed, and leave room for the groups.
    assert_eq!(parse_ipv6(b"1.2.3.4"), None);
    assert_eq!(parse_ipv6(b"::1.2.3.4.5"), None);
    assert_eq!(parse_ipv6(b"::1.2.3.4:5"), None);
    assert_eq!(parse_ipv6(b"1:2:3:4:5:6:7:1.2.3.4"), None);
    assert_eq!(parse_ipv6(b"::ffff:1.2.3.400"), None);
}

#[test]
fn rejects_malformed_ipv6_forms() {
    assert_eq!(parse_ipv6(b""), None);
    assert_eq!(parse_ipv6(b":"), None);
    assert_eq!(parse_ipv6(b":::"), None);
    assert_eq!(parse_ipv6(b"1:2:3:4:5:6:7"), None);
    assert_eq!(parse_ipv6(b"1:2:3:4:5:6:7:8:9"), None);
    assert_eq!(parse_ipv6(b"1:2:3:4:5:6:7:8::"), None);
    assert_eq!(parse_ipv6(b"::1:2:3:4:5:6:7:8"), None);
    assert_eq!(parse_ipv6(b"1::2::3"), None);
    assert_eq!(parse_ipv6(b"1:2:"), None);
    assert_eq!(parse_ipv6(b":1:2:3:4:5:6:7"), None);
    assert_eq!(parse_ipv6(b"12345::"), None);
    assert_eq!(parse_ipv6(b"g::1"), None);
}

#[test]
fn formats_ipv6_in_full_lowercase_form() {
    assert_eq!(
        format_ipv6(&v6([0x2001, 0xdb8, 0, 0, 0, 0, 0, 1])),
        b"2001:db8:0:0:0:0:0:1".to_vec()
    );
    assert_eq!(
        format_ipv6(&v6([0xfe80, 0, 0, 0, 0xabcd, 0x12, 0x345, 0xffff])),
        b"fe80:0:0:0:abcd:12:345:ffff".to_vec()
    );
}

#[test]
fn ipv6_round_trips() {
    for addr in [
        v6([0, 0, 0, 0, 0, 0, 0, 0]),
        v6([0x2001, 0xdb8, 0, 0, 0, 0, 0, 1]),
        v6([0xffff, 0xffff, 0xffff, 0xffff, 0xffff, 0xffff, 0xffff, 0xffff]),
        v6([0xfe80, 0, 0x12, 0x345, 0x6789, 0xa, 0xbc, 0xdef]),
    ] {
        assert_eq!(parse_ipv6(&format_ipv6(&addr)), Some(addr));
    }
}

#[test]
fn link_local_detection_follows_the_fe80_mask() {
    assert!(v6([0xfe80, 0, 0, 0, 0, 0, 0, 1]).is_link_local());
    assert!(v6([0xfebf, 0, 0, 0, 0, 0, 0, 1]).is_link_local());
    assert!(!v6([0xfec0, 0, 0, 0, 0, 0, 0, 1]).is_link_local());
    assert!(!v6([0x2001, 0xdb8, 0, 0, 0, 0, 0, 1]).is_link_local());
}

#[test]
fn parses_comma_joined_lists_dropping_junk() {
    let parsed = parse_ipv6_list(b"2001:db8::1, 2001:db8::2 ,junk,");
    assert_eq!(
        parsed,
        vec![
            v6([0x2001, 0xdb8, 0, 0, 0, 0, 0, 1]),
            v6([0x2001, 0xdb8, 0, 0, 0, 0, 0, 2]),
        ]
    );
    assert_eq!(parse_ipv6_list(b""), Vec::<Ipv6Address>::new());
}

#[test]
fn ipv6_lists_round_trip_through_their_stored_form() {
    let addrs = vec![
        v6([0x2001, 0xdb8, 0, 0, 0, 0, 0, 1]),
        v6([0xfd00, 0, 0, 0, 0, 0, 0, 2]),
    ];
    let stored = format_ipv6_list(&addrs);
    assert_eq!(stored, b"2001:db8:0:0:0:0:0:1,fd00:0:0:0:0:0:0:2".to_vec());
    assert_eq!(parse_ipv6_list(&stored), addrs);
}

#[test]
fn trimming_strips_ascii_whitespace() {
    assert_eq!(trim_bytes(b"  good\n"), b"good");
    assert_eq!(trim_bytes(b"\t\r\n "), b"");
    assert_eq!(trim_bytes(b"a b"), b"a b");
    assert_eq!(trim_bytes(b""), b"");
}
