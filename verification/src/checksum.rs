//! The checksums pnet computes for IPv4 headers and for the TCP, UDP and ICMP
//! messages they carry.
use vstd::prelude::*;

use crate::addr::Ipv4Addr;

verus! {

/// The longest data that pnet's checksums sum without overflowing their
/// 32-bit accumulator, whatever the bytes and addresses.
pub const MAX_CHECKSUMMED_LEN: usize = 131060;

/// Names what pnet's `packet::ipv4::checksum` gives for an IPv4 header.
pub uninterp spec fn pnet_ipv4_checksum(header: Seq<u8>) -> u16;

/// Names what pnet's `packet::tcp::ipv4_checksum` gives for a TCP segment
/// sent from `src` to `dst` (octets of the two addresses).
pub uninterp spec fn pnet_tcp_ipv4_checksum(segment: Seq<u8>, src: Seq<u8>, dst: Seq<u8>) -> u16;

/// Names what pnet's `packet::udp::ipv4_checksum` gives for a UDP datagram
/// sent from `src` to `dst` (octets of the two addresses).
pub uninterp spec fn pnet_udp_ipv4_checksum(datagram: Seq<u8>, src: Seq<u8>, dst: Seq<u8>) -> u16;

/// Names what pnet's `packet::icmp::checksum` gives for an ICMP message.
pub uninterp spec fn pnet_icmp_checksum(message: Seq<u8>) -> u16;

/// Calls pnet's `packet::ipv4::checksum` on the header `header`. Claimed: the
/// result is what `pnet_ipv4_checksum` names for these bytes.
#[verifier::external_body]
pub(crate) fn ipv4_header_checksum(header: &[u8]) -> (c: u16)
    requires
        header@.len() >= 20,
    ensures
        c == pnet_ipv4_checksum(header@),
{
    let p = pnet::packet::ipv4::Ipv4Packet::new(header).unwrap();
    pnet::packet::ipv4::checksum(&p)
}

/// Calls pnet's `packet::tcp::ipv4_checksum` on `segment`, with the pseudo
/// header of `src` and `dst`. Claimed: the result is what
/// `pnet_tcp_ipv4_checksum` names for these bytes and addresses.
#[verifier::external_body]
pub(crate) fn tcp_ipv4_checksum(segment: &[u8], src: Ipv4Addr, dst: Ipv4Addr) -> (c: u16)
    requires
        20 <= segment@.len() <= MAX_CHECKSUMMED_LEN,
    ensures
        c == pnet_tcp_ipv4_checksum(segment@, src.octets(), dst.octets()),
{
    let p = pnet::packet::tcp::TcpPacket::new(segment).unwrap();
    let s = pnet::util::core_net::Ipv4Addr::new(src.0, src.1, src.2, src.3);
    let d = pnet::util::core_net::Ipv4Addr::new(dst.0, dst.1, dst.2, dst.3);
    pnet::packet::tcp::ipv4_checksum(&p, &s, &d)
}

/// Calls pnet's `packet::udp::ipv4_checksum` on `datagram`, with the pseudo
/// header of `src` and `dst`. Claimed: the result is what
/// `pnet_udp_ipv4_checksum` names for these bytes and addresses.
#[verifier::external_body]
pub(crate) fn udp_ipv4_checksum(datagram: &[u8], src: Ipv4Addr, dst: Ipv4Addr) -> (c: u16)
    requires
        8 <= datagram@.len() <= MAX_CHECKSUMMED_LEN,
    ensures
        c == pnet_udp_ipv4_checksum(datagram@, src.octets(), dst.octets()),
{
    let p = pnet::packet::udp::UdpPacket::new(datagram).unwrap();
    let s = pnet::util::core_net::Ipv4Addr::new(src.0, src.1, src.2, src.3);
    let d = pnet::util::core_net::Ipv4Addr::new(dst.0, dst.1, dst.2, dst.3);
    pnet::packet::udp::ipv4_checksum(&p, &s, &d)
}

/// Calls pnet's `packet::icmp::checksum` on `message`. Claimed: the result is
/// what `pnet_icmp_checksum` names for these bytes.
#[verifier::external_body]
pub(crate) fn icmp_checksum(message: &[u8]) -> (c: u16)
    requires
        4 <= message@.len() <= MAX_CHECKSUMMED_LEN,
    ensures
        c == pnet_icmp_checksum(message@),
{
    let p = pnet::packet::icmp::IcmpPacket::new(message).unwrap();
    pnet::packet::icmp::checksum(&p)
}

} // verus!
