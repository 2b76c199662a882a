use libpnet_pyo3::addr::{Ipv4Addr, MacAddr};
use libpnet_pyo3::arp::arp_reply_from_frame;
use libpnet_pyo3::flags::{ACK, RST, SYN};
use libpnet_pyo3::icmp::icmp_reply_from;
use libpnet_pyo3::packet::{
    build_arp_request_bytes, build_ipv4_icmp_echo_with_ident, build_ipv4_tcp_with_ident,
    build_ipv4_udp_with_ident,
};
use libpnet_pyo3::sniff::ethertype_of;
use libpnet_pyo3::tcp::tcp_reply_from;
use libpnet_pyo3::udp::udp_reply_from;

const ME: Ipv4Addr = Ipv4Addr(192, 168, 1, 10);
const PEER: Ipv4Addr = Ipv4Addr(192, 168, 1, 1);

#[test]
fn tcp_reply_is_read_back() {
    let reply = build_ipv4_tcp_with_ident(PEER, ME, 80, 40000, SYN | ACK, 1000, 2001, 29200, 63, 1, b"data");
    let r = tcp_reply_from(&reply, ME, PEER, 40000, 80).expect("a reply");
    assert_eq!(r.src, "192.168.1.1");
    assert_eq!(r.dst, "192.168.1.10");
    assert_eq!((r.sport, r.dport), (80, 40000));
    assert_eq!((r.seq, r.ack, r.window, r.ttl), (1000, 2001, 29200, 63));
    assert_eq!(r.flags, SYN | ACK);
    assert_eq!(r.payload, b"data");
    assert!(r.is_synack());
    assert!(r.has_flag(SYN));
    assert!(!r.has_flag(SYN | RST));
    assert!(!r.is_rst());
}

#[test]
fn tcp_reply_filters() {
    let reply = build_ipv4_tcp_with_ident(PEER, ME, 80, 40000, RST, 0, 0, 0, 64, 1, b"");
    assert!(tcp_reply_from(&reply, ME, PEER, 40001, 80).is_none());
    assert!(tcp_reply_from(&reply, ME, PEER, 40000, 81).is_none());
    assert!(tcp_reply_from(&reply, PEER, ME, 40000, 80).is_none());
    assert!(tcp_reply_from(&reply[..30], ME, PEER, 40000, 80).is_none());
    assert!(tcp_reply_from(&reply[..10], ME, PEER, 40000, 80).is_none());
    let r = tcp_reply_from(&reply, ME, PEER, 40000, 80).unwrap();
    assert!(r.is_rst());
    assert!(r.payload.is_empty());
    let udp = build_ipv4_udp_with_ident(PEER, ME, 80, 40000, 64, 1, b"");
    assert!(tcp_reply_from(&udp, ME, PEER, 40000, 80).is_none());
}

#[test]
fn tcp_payload_follows_options_and_total_length() {
    let mut reply = build_ipv4_tcp_with_ident(PEER, ME, 80, 40000, ACK, 0, 0, 0, 64, 1, b"abcdefgh");
    // Data offset of six words: the first four payload bytes are options.
    reply[32] = 0x60;
    let r = tcp_reply_from(&reply, ME, PEER, 40000, 80).unwrap();
    assert_eq!(r.payload, b"efgh");
    // Trailing bytes beyond the IPv4 total length are not payload.
    let mut padded = build_ipv4_tcp_with_ident(PEER, ME, 80, 40000, ACK, 0, 0, 0, 64, 1, b"ab");
    padded.extend_from_slice(&[0, 0, 0, 0]);
    let r = tcp_reply_from(&padded, ME, PEER, 40000, 80).unwrap();
    assert_eq!(r.payload, b"ab");
}

#[test]
fn udp_reply_is_read_back() {
    let reply = build_ipv4_udp_with_ident(PEER, ME, 53, 5555, 60, 9, b"answer");
    let r = udp_reply_from(&reply, ME, PEER, 5555, 53).unwrap();
    assert_eq!(r.src, "192.168.1.1");
    assert_eq!(r.dst, "192.168.1.10");
    assert_eq!((r.sport, r.dport, r.ttl), (53, 5555, 60));
    assert_eq!(r.payload, b"answer");
    assert!(udp_reply_from(&reply, ME, PEER, 5556, 53).is_none());
}

#[test]
fn echo_reply_is_read_back() {
    let mut reply = build_ipv4_icmp_echo_with_ident(PEER, ME, 0x4242, 7, 55, 1, b"xyz");
    reply[20] = 0; // echo reply
    let r = icmp_reply_from(&reply, 0x4242).unwrap();
    assert_eq!(r.src, "192.168.1.1");
    assert!(r.is_echo_reply());
    assert_eq!((r.icmp_type, r.icmp_code, r.ttl, r.ident, r.seq), (0, 0, 55, 0x4242, 7));
    assert_eq!(r.payload, vec![0x42, 0x42, 0, 7, b'x', b'y', b'z']);
    assert!(icmp_reply_from(&reply, 0x4243).is_none());
    // The echo request itself, or any other ICMP type, is not a reply.
    let request = build_ipv4_icmp_echo_with_ident(PEER, ME, 0x4242, 7, 55, 1, b"");
    assert!(icmp_reply_from(&request, 0x4242).is_none());
    let mut unreachable = reply.clone();
    unreachable[20] = 3;
    assert!(icmp_reply_from(&unreachable, 0x4242).is_none());
}

#[test]
fn arp_reply_is_read_back() {
    let mac = MacAddr(0xde, 0xad, 0xbe, 0xef, 0x00, 0x01);
    let request = build_arp_request_bytes(mac, PEER, ME);
    // A request is not a reply, even from the address asked about.
    assert!(arp_reply_from_frame(&request, PEER, "eth0").is_none());
    let mut frame = request.clone();
    frame[21] = 2; // operation: reply
    let r = arp_reply_from_frame(&frame, PEER, "eth0").unwrap();
    assert_eq!(r.ip, "192.168.1.1");
    assert_eq!(r.mac, "de:ad:be:ef:00:01");
    assert_eq!(r.iface, "eth0");
    assert!(arp_reply_from_frame(&frame, ME, "eth0").is_none());
    assert!(arp_reply_from_frame(&frame[..41], PEER, "eth0").is_none());
    let mut not_arp = frame.clone();
    not_arp[13] = 0x00;
    assert!(arp_reply_from_frame(&not_arp, PEER, "eth0").is_none());
}

#[test]
fn ethertype_of_frames() {
    let frame = build_arp_request_bytes(MacAddr::zero(), PEER, ME);
    assert_eq!(ethertype_of(&frame), Some(0x0806));
    assert_eq!(ethertype_of(&frame[..14]), Some(0x0806));
    assert_eq!(ethertype_of(&frame[..13]), None);
    assert_eq!(ethertype_of(&[]), None);
}
