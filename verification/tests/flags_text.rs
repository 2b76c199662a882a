use libpnet_pyo3::flags::{parse_tcp_flags, ACK, CWR, ECE, FIN, PSH, RST, SYN, URG};
use libpnet_pyo3::packet::ip_protocol_for;
use libpnet_pyo3::error::PacketError;

#[test]
fn tcp_flags_from_letters() {
    assert_eq!(parse_tcp_flags("S"), SYN);
    assert_eq!(parse_tcp_flags("SA"), SYN | ACK);
    assert_eq!(parse_tcp_flags("sa"), SYN | ACK);
    assert_eq!(parse_tcp_flags("AS"), SYN | ACK);
    assert_eq!(parse_tcp_flags("SSS"), SYN);
    assert_eq!(parse_tcp_flags(""), 0);
    assert_eq!(parse_tcp_flags("xyz!"), 0);
    assert_eq!(parse_tcp_flags("FSRPAUEC"), FIN | SYN | RST | PSH | ACK | URG | ECE | CWR);
    assert_eq!(parse_tcp_flags("fsrpauec"), 0xff);
    assert_eq!(parse_tcp_flags("R-"), RST);
}

#[test]
fn flag_values_match_tcp_header_bits() {
    assert_eq!(FIN, pnet::packet::tcp::TcpFlags::FIN);
    assert_eq!(SYN, pnet::packet::tcp::TcpFlags::SYN);
    assert_eq!(RST, pnet::packet::tcp::TcpFlags::RST);
    assert_eq!(PSH, pnet::packet::tcp::TcpFlags::PSH);
    assert_eq!(ACK, pnet::packet::tcp::TcpFlags::ACK);
    assert_eq!(URG, pnet::packet::tcp::TcpFlags::URG);
    assert_eq!(ECE, pnet::packet::tcp::TcpFlags::ECE);
    assert_eq!(CWR, pnet::packet::tcp::TcpFlags::CWR);
}

#[test]
fn protocol_names() {
    assert_eq!(ip_protocol_for("tcp").unwrap(), 6);
    assert_eq!(ip_protocol_for("TCP").unwrap(), 6);
    assert_eq!(ip_protocol_for("Udp").unwrap(), 17);
    assert_eq!(ip_protocol_for("iCMP").unwrap(), 1);
    match ip_protocol_for("sctp") {
        Err(PacketError::UnknownProtocol(t)) => assert_eq!(t, "sctp"),
        other => panic!("{other:?}"),
    }
    assert!(ip_protocol_for("tcp ").is_err());
    assert!(ip_protocol_for("").is_err());
}
