use libpnet_pyo3::addr::{Ipv4Addr, MacAddr};
use libpnet_pyo3::flags::{ACK, SYN};
use libpnet_pyo3::packet::{
    build_arp_request_bytes, build_ipv4_icmp_echo, build_ipv4_icmp_echo_with_ident, build_ipv4_tcp,
    build_ipv4_tcp_with_ident, build_ipv4_udp, build_ipv4_udp_with_ident, check_ipv4_bytes,
};
use libpnet_pyo3::tcp::prepare_tcp_probe;
use libpnet_pyo3::udp::prepare_udp_probe;
use libpnet_pyo3::icmp::prepare_icmp_probe;

use pnet::packet::icmp::MutableIcmpPacket;
use pnet::packet::ip::IpNextHeaderProtocols;
use pnet::packet::ipv4::{Ipv4Flags, MutableIpv4Packet};
use pnet::packet::tcp::MutableTcpPacket;
use pnet::packet::udp::MutableUdpPacket;

fn std_addr(a: Ipv4Addr) -> pnet::util::core_net::Ipv4Addr {
    pnet::util::core_net::Ipv4Addr::new(a.0, a.1, a.2, a.3)
}

fn pnet_ip_header(buf: &mut [u8], total: usize, ident: u16, ttl: u8, proto: u8, src: Ipv4Addr, dst: Ipv4Addr) {
    let mut ip = MutableIpv4Packet::new(&mut buf[..20]).unwrap();
    ip.set_version(4);
    ip.set_header_length(5);
    ip.set_total_length(total as u16);
    ip.set_identification(ident);
    ip.set_flags(Ipv4Flags::DontFragment);
    ip.set_ttl(ttl);
    ip.set_next_level_protocol(pnet::packet::ip::IpNextHeaderProtocol(proto));
    ip.set_source(std_addr(src));
    ip.set_destination(std_addr(dst));
    let c = pnet::packet::ipv4::checksum(&ip.to_immutable());
    ip.set_checksum(c);
}

fn sums_to_ffff(data: &[u8]) -> bool {
    let mut sum: u32 = 0;
    for ch in data.chunks(2) {
        let w = if ch.len() == 2 { (ch[0] as u32) << 8 | ch[1] as u32 } else { (ch[0] as u32) << 8 };
        sum += w;
    }
    while sum >> 16 != 0 {
        sum = (sum >> 16) + (sum & 0xffff);
    }
    sum == 0xffff
}

const A: Ipv4Addr = Ipv4Addr(10, 0, 0, 1);
const B: Ipv4Addr = Ipv4Addr(93, 184, 216, 34);

#[test]
fn tcp_packet_matches_pnet_layout() {
    let payload = b"hello";
    let ours = build_ipv4_tcp_with_ident(A, B, 40000, 80, SYN | ACK, 0x01020304, 0x0a0b0c0d, 64240, 64, 0xbeef, payload);
    let total = 20 + 20 + payload.len();
    let mut buf = vec![0u8; total];
    {
        let mut tcp = MutableTcpPacket::new(&mut buf[20..]).unwrap();
        tcp.set_source(40000);
        tcp.set_destination(80);
        tcp.set_sequence(0x01020304);
        tcp.set_acknowledgement(0x0a0b0c0d);
        tcp.set_data_offset(5);
        tcp.set_flags(SYN | ACK);
        tcp.set_window(64240);
        tcp.set_payload(payload);
        let c = pnet::packet::tcp::ipv4_checksum(&tcp.to_immutable(), &std_addr(A), &std_addr(B));
        tcp.set_checksum(c);
    }
    pnet_ip_header(&mut buf, total, 0xbeef, 64, 6, A, B);
    assert_eq!(ours, buf);
    assert!(sums_to_ffff(&ours[..20]));
    assert_eq!(&ours[..4], &[0x45, 0x00, 0x00, total as u8]);
    assert_eq!(&ours[4..10], &[0xbe, 0xef, 0x40, 0x00, 64, 6]);
    assert_eq!(&ours[12..20], &[10, 0, 0, 1, 93, 184, 216, 34]);
    assert_eq!(&ours[40..], payload);
}

#[test]
fn udp_packet_matches_pnet_layout() {
    let payload = b"abc";
    let ours = build_ipv4_udp_with_ident(A, B, 5353, 53, 17, 7, payload);
    let total = 20 + 8 + payload.len();
    let mut buf = vec![0u8; total];
    {
        let mut udp = MutableUdpPacket::new(&mut buf[20..]).unwrap();
        udp.set_source(5353);
        udp.set_destination(53);
        udp.set_length((8 + payload.len()) as u16);
        udp.set_payload(payload);
        let c = pnet::packet::udp::ipv4_checksum(&udp.to_immutable(), &std_addr(A), &std_addr(B));
        udp.set_checksum(c);
    }
    pnet_ip_header(&mut buf, total, 7, 17, 17, A, B);
    assert_eq!(ours, buf);
    assert_eq!(&ours[20..28], &[0x14, 0xe9, 0x00, 53, 0x00, 11, buf[26], buf[27]]);
}

#[test]
fn echo_packet_matches_pnet_layout() {
    let payload = b"ping";
    let ours = build_ipv4_icmp_echo_with_ident(A, B, 0x1234, 9, 64, 3, payload);
    let total = 20 + 8 + payload.len();
    let mut buf = vec![0u8; total];
    buf[20] = 8;
    buf[24..26].copy_from_slice(&0x1234u16.to_be_bytes());
    buf[26..28].copy_from_slice(&9u16.to_be_bytes());
    buf[28..].copy_from_slice(payload);
    {
        let mut m = MutableIcmpPacket::new(&mut buf[20..]).unwrap();
        let c = pnet::packet::icmp::checksum(&m.to_immutable());
        m.set_checksum(c);
    }
    pnet_ip_header(&mut buf, total, 3, 64, 1, A, B);
    assert_eq!(ours, buf);
    assert!(sums_to_ffff(&ours[20..]));
}

#[test]
fn empty_payloads() {
    let t = build_ipv4_tcp_with_ident(A, B, 1, 2, SYN, 0, 0, 0, 1, 0, &[]);
    assert_eq!(t.len(), 40);
    assert_eq!(t[32], 0x50);
    assert_eq!(t[33], SYN);
    let u = build_ipv4_udp_with_ident(A, B, 1, 2, 1, 0, &[]);
    assert_eq!(u.len(), 28);
    assert_eq!(&u[24..26], &[0, 8]);
    let e = build_ipv4_icmp_echo_with_ident(A, B, 1, 1, 1, 0, &[]);
    assert_eq!(e.len(), 28);
}

#[test]
fn random_ident_builders_keep_the_rest() {
    let t = build_ipv4_tcp(A, B, 1000, 443, SYN, 5, 6, 1024, 64, b"x");
    let ident = u16::from_be_bytes([t[4], t[5]]);
    assert_eq!(t, build_ipv4_tcp_with_ident(A, B, 1000, 443, SYN, 5, 6, 1024, 64, ident, b"x"));
    let u = build_ipv4_udp(A, B, 1000, 53, 64, b"q");
    let ident = u16::from_be_bytes([u[4], u[5]]);
    assert_eq!(u, build_ipv4_udp_with_ident(A, B, 1000, 53, 64, ident, b"q"));
    let e = build_ipv4_icmp_echo(A, B, 77, 1, 64, b"");
    let ident = u16::from_be_bytes([e[4], e[5]]);
    assert_eq!(e, build_ipv4_icmp_echo_with_ident(A, B, 77, 1, 64, ident, b""));
}

#[test]
fn arp_request_layout() {
    let mac = MacAddr(0x02, 0x42, 0xac, 0x11, 0x00, 0x02);
    let f = build_arp_request_bytes(mac, Ipv4Addr(172, 17, 0, 2), Ipv4Addr(172, 17, 0, 1));
    let expect: Vec<u8> = vec![
        0xff, 0xff, 0xff, 0xff, 0xff, 0xff, 0x02, 0x42, 0xac, 0x11, 0x00, 0x02, 0x08, 0x06, //
        0x00, 0x01, 0x08, 0x00, 6, 4, 0x00, 0x01, //
        0x02, 0x42, 0xac, 0x11, 0x00, 0x02, 172, 17, 0, 2, //
        0, 0, 0, 0, 0, 0, 172, 17, 0, 1,
    ];
    assert_eq!(f, expect);
}

#[test]
fn probes_choose_defaults() {
    let p = prepare_tcp_probe(A, B, 80, "S", None, None, 0, 64240, 64, None);
    assert!((32768..60999).contains(&p.sport));
    assert_eq!(u16::from_be_bytes([p.bytes[20], p.bytes[21]]), p.sport);
    assert_eq!(u32::from_be_bytes([p.bytes[24], p.bytes[25], p.bytes[26], p.bytes[27]]), p.seq);
    assert_eq!(p.bytes[33], SYN);
    assert_eq!(p.bytes.len(), 40);
    let p = prepare_tcp_probe(A, B, 80, "SA", Some(1234), Some(99), 7, 512, 32, Some(b"hi".to_vec()));
    assert_eq!((p.sport, p.seq), (1234, 99));
    assert_eq!(p.bytes[33], SYN | ACK);
    assert_eq!(&p.bytes[40..], b"hi");
    let u = prepare_udp_probe(A, B, 53, None, 64, b"");
    assert!((32768..60999).contains(&u.sport));
    let e = prepare_icmp_probe(A, B, Some(42), 3, 64, None);
    assert_eq!(e.ident, 42);
    assert_eq!(&e.bytes[24..28], &[0, 42, 0, 3]);
}

#[test]
fn send_bytes_need_an_ipv4_header() {
    assert!(check_ipv4_bytes(&[0u8; 19]).is_err());
    assert!(check_ipv4_bytes(&[0u8; 20]).is_ok());
}

#[test]
fn two_builds_differ_only_in_identification() {
    let a = build_ipv4_tcp(A, B, 1000, 443, SYN, 5, 6, 1024, 64, b"payload");
    let b = build_ipv4_tcp(A, B, 1000, 443, SYN, 5, 6, 1024, 64, b"payload");
    assert_eq!(a.len(), b.len());
    for k in 0..a.len() {
        if !((4..6).contains(&k) || (10..12).contains(&k)) {
            assert_eq!(a[k], b[k], "byte {k}");
        }
    }
}
