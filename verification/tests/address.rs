use amalgam::Host;

#[test]
fn ipv4_literal_is_read() {
    assert_eq!(Host::parse("10.0.0.5"), Some(Host::V4(0x0a00_0005)));
    assert_eq!(Host::parse("0.0.0.0"), Some(Host::V4(0)));
    assert_eq!(Host::parse("255.255.255.255"), Some(Host::V4(u32::MAX)));
    assert_eq!(Host::parse("1.2.3.4"), Some(Host::v4(1, 2, 3, 4)));
    assert_eq!(Host::v4(192, 168, 1, 20), Host::V4(0xc0a8_0114));
}

#[test]
fn ipv4_literal_is_strict() {
    for text in [
        "", "1", "1.2.3", "1.2.3.4.5", "1.2.3.", ".1.2.3", "1..2.3", "256.1.1.1", "1.2.3.256",
        "01.2.3.4", "1.2.3.04", "1.2.3.0004", "1.2.3.4 ", " 1.2.3.4", "1.2.3.a", "1,2,3,4",
        "+1.2.3.4", "1.2.3.-4", "١.٢.٣.٤",
    ] {
        assert_eq!(Host::parse(text), None, "{:?}", text);
    }
}

#[test]
fn ipv6_literal_is_read() {
    assert_eq!(Host::parse("::"), Some(Host::V6(0)));
    assert_eq!(Host::parse("::1"), Some(Host::V6(1)));
    assert_eq!(Host::parse("1::"), Some(Host::V6(1 << 112)));
    assert_eq!(
        Host::parse("1:2:3:4:5:6:7:8"),
        Some(Host::V6(0x0001_0002_0003_0004_0005_0006_0007_0008))
    );
    assert_eq!(
        Host::parse("2001:db8::ff00:42:8329"),
        Some(Host::V6(0x2001_0db8_0000_0000_0000_ff00_0042_8329))
    );
    assert_eq!(
        Host::parse("2001:DB8:0:0:0:FF00:42:8329"),
        Some(Host::V6(0x2001_0db8_0000_0000_0000_ff00_0042_8329))
    );
    assert_eq!(
        Host::parse("ffff:ffff:ffff:ffff:ffff:ffff:ffff:ffff"),
        Some(Host::V6(u128::MAX))
    );
    assert_eq!(
        Host::parse("1:2:3:4:5:6:7::"),
        Some(Host::V6(0x0001_0002_0003_0004_0005_0006_0007_0000))
    );
    assert_eq!(
        Host::parse("::2:3:4:5:6:7:8"),
        Some(Host::V6(0x0000_0002_0003_0004_0005_0006_0007_0008))
    );
    assert_eq!(Host::parse("0001:0::0"), Some(Host::V6(1 << 112)));
}

#[test]
fn ipv6_literal_may_end_in_ipv4() {
    assert_eq!(Host::parse("::ffff:10.0.0.5"), Some(Host::V6(0xffff_0a00_0005)));
    assert_eq!(Host::parse("::1.2.3.4"), Some(Host::V6(0x0102_0304)));
    assert_eq!(
        Host::parse("1:2:3:4:5:6:1.2.3.4"),
        Some(Host::V6(0x0001_0002_0003_0004_0005_0006_0102_0304))
    );
    assert_eq!(
        Host::parse("64:ff9b::192.0.2.33"),
        Some(Host::V6(0x0064_ff9b_0000_0000_0000_0000_c000_0221))
    );
}

#[test]
fn ipv6_literal_is_strict() {
    for text in [
        ":", ":::", "1", "1:2", "1:2:3:4:5:6:7", "1:2:3:4:5:6:7:8:9", "1:2:3:4:5:6:7:8:",
        ":1:2:3:4:5:6:7:8", "::1:2:3:4:5:6:7:8", "1:2:3:4:5:6:7:8::", "1::2::3", "12345::",
        "::12345", "g::", "1:2:3:4:5:6:7:1.2.3.4", "1.2.3.4::", "1:2:1.2.3.4", "::1.2.3.4:5",
        "::1.2.3", "::1.2.3.256", "::01.2.3.4", "fe80::1%eth0", "[::1]", "::1 ", " ::1", "1:::2",
        "::1:", "1:2:3:4:5:6::7:8",
    ] {
        assert_eq!(Host::parse(text), None, "{:?}", text);
    }
}

#[test]
fn addresses_of_different_families_differ() {
    assert_ne!(Host::parse("0.0.0.1"), Host::parse("::1"));
    assert_ne!(Host::parse("10.0.0.5"), Host::parse("::10.0.0.5"));
}
