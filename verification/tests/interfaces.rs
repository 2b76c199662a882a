use libpnet_pyo3::addr::{Ipv4Addr, MacAddr};
use libpnet_pyo3::arp::{arp_request_for, build_arp_request};
use libpnet_pyo3::datalink::{
    default_interface, interface_for, interface_or_default, list_interfaces, Interface, IpAddr,
    NetworkInterface,
};
use libpnet_pyo3::error::PacketError;
use libpnet_pyo3::sniff::{
    check_sniff_limits, recv_error_is_retry, sniff_done, wait_step, RecvErrorKind, WaitAction, WaitEvent,
};

fn iface(name: &str, mac: Option<MacAddr>, ips: Vec<IpAddr>, up: bool, lo: bool, index: u32) -> NetworkInterface {
    NetworkInterface { name: name.to_string(), mac, ips, is_up: up, is_loopback: lo, index }
}

fn system() -> Vec<NetworkInterface> {
    vec![
        iface("lo", None, vec![IpAddr::V4(Ipv4Addr(127, 0, 0, 1)), IpAddr::V6("::1".to_string())], true, true, 1),
        iface("eth1", Some(MacAddr(2, 0, 0, 0, 0, 1)), vec![IpAddr::V6("fe80::1".to_string())], true, false, 2),
        iface("eth0", Some(MacAddr(2, 0, 0, 0, 0, 2)), vec![IpAddr::V6("fe80::2".to_string()), IpAddr::V4(Ipv4Addr(10, 1, 2, 3)), IpAddr::V4(Ipv4Addr(10, 9, 9, 9))], true, false, 3),
        iface("wlan0", Some(MacAddr(2, 0, 0, 0, 0, 3)), vec![IpAddr::V4(Ipv4Addr(10, 5, 5, 5))], true, false, 4),
        iface("tun0", None, vec![IpAddr::V4(Ipv4Addr(10, 8, 0, 1))], true, false, 5),
    ]
}

#[test]
fn default_is_first_up_non_loopback_with_ipv4() {
    let info = interface_or_default(system(), None).unwrap();
    assert_eq!(info.name, "eth0");
    assert_eq!(info.mac, Some(MacAddr(2, 0, 0, 0, 0, 2)));
    assert_eq!(info.ipv4, Some(Ipv4Addr(10, 1, 2, 3)));
    assert_eq!(info.pnet.index, 3);
    let d: Interface = default_interface(system()).unwrap();
    assert_eq!(d.name, "eth0");
    assert_eq!(d.ipv4, vec!["10.1.2.3".to_string(), "10.9.9.9".to_string()]);
    assert_eq!(d.ipv6, vec!["fe80::2".to_string()]);
    assert_eq!(d.mac.as_deref(), Some("02:00:00:00:00:02"));
}

#[test]
fn lookup_by_name() {
    let i = interface_for(system(), "lo").unwrap();
    assert!(i.is_loopback);
    assert_eq!(i.mac, None);
    assert_eq!(i.index, 1);
    match interface_for(system(), "nope") {
        Err(PacketError::NoSuchInterface(n)) => assert_eq!(n, "nope"),
        other => panic!("{:?}", other.map(|x| x.name)),
    }
    let info = interface_or_default(system(), Some("eth1")).unwrap();
    assert_eq!(info.ipv4, None);
}

#[test]
fn no_default_interface() {
    let only_lo = vec![iface("lo", None, vec![IpAddr::V4(Ipv4Addr(127, 0, 0, 1))], true, true, 1)];
    assert!(matches!(interface_or_default(only_lo, None), Err(PacketError::NoDefaultInterface)));
    let down = vec![iface("eth0", None, vec![IpAddr::V4(Ipv4Addr(10, 0, 0, 1))], false, false, 1)];
    assert!(matches!(default_interface(down), Err(PacketError::NoDefaultInterface)));
    assert!(matches!(default_interface(Vec::new()), Err(PacketError::NoDefaultInterface)));
}

#[test]
fn list_describes_every_interface() {
    let l = list_interfaces(&system());
    assert_eq!(l.len(), 5);
    assert_eq!(l[0].name, "lo");
    assert_eq!(l[0].ipv4, vec!["127.0.0.1".to_string()]);
    assert_eq!(l[0].ipv6, vec!["::1".to_string()]);
    assert_eq!(l[3].mac.as_deref(), Some("02:00:00:00:00:03"));
    assert!(l[4].mac.is_none());
}

#[test]
fn arp_request_from_interface() {
    let f = build_arp_request("10.1.2.1", system(), None, None, None).unwrap();
    assert_eq!(&f[6..12], &[2, 0, 0, 0, 0, 2]);
    assert_eq!(&f[28..32], &[10, 1, 2, 3]);
    assert_eq!(&f[38..42], &[10, 1, 2, 1]);
    let f = build_arp_request("10.1.2.1", system(), Some("eth1"), None, Some("aa:bb:cc:dd:ee:ff")).unwrap();
    assert_eq!(&f[6..12], &[0xaa, 0xbb, 0xcc, 0xdd, 0xee, 0xff]);
    assert_eq!(&f[28..32], &[0, 0, 0, 0]);
    let f = build_arp_request("10.1.2.1", system(), Some("tun0"), Some("1.2.3.4"), Some("aa:bb:cc:dd:ee:ff")).unwrap();
    assert_eq!(&f[28..32], &[1, 2, 3, 4]);
    assert!(matches!(build_arp_request("10.1.2.1", system(), Some("tun0"), None, None), Err(PacketError::InterfaceHasNoMacAddress(n)) if n == "tun0"));
    assert!(matches!(build_arp_request("10.1.2", system(), None, None, None), Err(PacketError::InvalidIpv4(_))));
    assert!(matches!(build_arp_request("10.1.2.1", system(), Some("x"), None, None), Err(PacketError::NoSuchInterface(_))));
    assert!(matches!(build_arp_request("10.1.2.1", system(), None, Some("1.2.3"), None), Err(PacketError::InvalidIpv4(t)) if t == "1.2.3"));
    assert!(matches!(build_arp_request("10.1.2.1", system(), None, None, Some("zz")), Err(PacketError::InvalidMac(_, _))));
}

#[test]
fn arp_who_has_preparation() {
    let q = arp_request_for("10.1.2.1", system(), None).unwrap();
    assert_eq!(q.target, Ipv4Addr(10, 1, 2, 1));
    assert_eq!(q.iface.name, "eth0");
    assert_eq!(q.bytes.len(), 42);
    assert!(matches!(arp_request_for("10.1.2.1", system(), Some("tun0")), Err(PacketError::IfaceHasNoMac(n)) if n == "tun0"));
    assert!(matches!(arp_request_for("10.1.2.1", system(), Some("eth1")), Err(PacketError::IfaceHasNoIpv4(n)) if n == "eth1"));
}

#[test]
fn sniff_decisions() {
    assert!(matches!(check_sniff_limits(None, false), Err(PacketError::SniffNeedsLimit)));
    assert!(check_sniff_limits(Some(3), false).is_ok());
    assert!(check_sniff_limits(None, true).is_ok());
    assert!(!sniff_done(Some(3), 2, false));
    assert!(sniff_done(Some(3), 3, false));
    assert!(sniff_done(Some(0), 0, false));
    assert!(!sniff_done(None, 100, false));
    assert!(sniff_done(None, 0, true));
    assert!(recv_error_is_retry(RecvErrorKind::TimedOut));
    assert!(recv_error_is_retry(RecvErrorKind::WouldBlock));
    assert!(!recv_error_is_retry(RecvErrorKind::Other));
}

#[test]
fn waiting_for_a_reply() {
    assert_eq!(wait_step(WaitEvent::Answered), WaitAction::Answer);
    assert_eq!(wait_step(WaitEvent::Unrelated), WaitAction::KeepWaiting);
    assert_eq!(wait_step(WaitEvent::NothingYet), WaitAction::KeepWaiting);
    assert_eq!(wait_step(WaitEvent::TimeUp), WaitAction::GiveUp);
    assert_eq!(wait_step(WaitEvent::ReadFailed), WaitAction::GiveUp);
}
