use libpnet_pyo3::addr::{ipv4_to_string, mac_to_string, parse_ipv4, parse_mac, Ipv4Addr, MacAddr};
use libpnet_pyo3::error::{MacParseError, PacketError};

#[test]
fn parses_dotted_decimal() {
    assert_eq!(parse_ipv4("192.168.0.1").unwrap(), Ipv4Addr(192, 168, 0, 1));
    assert_eq!(parse_ipv4("0.0.0.0").unwrap(), Ipv4Addr(0, 0, 0, 0));
    assert_eq!(parse_ipv4("255.255.255.255").unwrap(), Ipv4Addr(255, 255, 255, 255));
    assert_eq!(parse_ipv4("10.0.100.9").unwrap(), Ipv4Addr(10, 0, 100, 9));
}

#[test]
fn refuses_malformed_ipv4() {
    for bad in [
        "", "1.2.3", "1.2.3.4.", "1.2.3.4.5", "256.1.1.1", "01.2.3.4", "1.2.3.04", "1..2.3",
        " 1.2.3.4", "1.2.3.4 ", "a.b.c.d", "1000.1.1.1", "1.2.3.-4", "+1.2.3.4", "1.2.3.4a",
        "\u{661}.2.3.4",
    ] {
        match parse_ipv4(bad) {
            Err(PacketError::InvalidIpv4(t)) => assert_eq!(t, bad),
            other => panic!("{bad:?} gave {other:?}"),
        }
    }
}

#[test]
fn ipv4_parse_agrees_with_std() {
    for s in ["1.2.3.4", "127.0.0.1", "0.0.0.0", "00.0.0.0", "1.2.3.256", "1.2.3", "8.8.8.8", "255.0.255.0"] {
        let ours = parse_ipv4(s).ok().map(|a| [a.0, a.1, a.2, a.3]);
        let std_ = s.parse::<pnet::util::core_net::Ipv4Addr>().ok().map(|a| a.octets());
        assert_eq!(ours, std_, "{s}");
    }
}

#[test]
fn ipv4_text_roundtrip() {
    for a in [Ipv4Addr(0, 0, 0, 0), Ipv4Addr(9, 10, 99, 100), Ipv4Addr(255, 1, 20, 200)] {
        let s = ipv4_to_string(a);
        assert_eq!(parse_ipv4(&s).unwrap(), a);
        let std_ = pnet::util::core_net::Ipv4Addr::new(a.0, a.1, a.2, a.3).to_string();
        assert_eq!(s, std_);
    }
    assert_eq!(ipv4_to_string(Ipv4Addr(192, 168, 1, 254)), "192.168.1.254");
}

#[test]
fn mac_text_roundtrip() {
    let m = MacAddr(0x0a, 0x1b, 0x2c, 0x3d, 0x4e, 0xff);
    assert_eq!(mac_to_string(m), "0a:1b:2c:3d:4e:ff");
    assert_eq!(parse_mac("0a:1b:2c:3d:4e:ff").unwrap(), m);
    assert_eq!(parse_mac("12:34:56:78:90:AB").unwrap(), MacAddr(0x12, 0x34, 0x56, 0x78, 0x90, 0xab));
    assert_eq!(mac_to_string(MacAddr::broadcast()), "ff:ff:ff:ff:ff:ff");
    assert_eq!(mac_to_string(MacAddr::zero()), "00:00:00:00:00:00");
}

#[test]
fn mac_parse_errors() {
    match parse_mac("00:11") {
        Err(PacketError::InvalidMac(t, MacParseError::TooFewComponents)) => assert_eq!(t, "00:11"),
        other => panic!("{other:?}"),
    }
    match parse_mac("00:11:22:33:44:55:66") {
        Err(PacketError::InvalidMac(_, MacParseError::TooManyComponents)) => {}
        other => panic!("{other:?}"),
    }
    match parse_mac("00:GG:22:33:44:55") {
        Err(PacketError::InvalidMac(_, MacParseError::InvalidComponent)) => {}
        other => panic!("{other:?}"),
    }
}
