//! UDP probes: the packet sent, and the reply that answers it.
use vstd::prelude::*;

use crate::addr::{ipv4_text, ipv4_to_string, Ipv4Addr};
use crate::bytes::{be16_at, read_be16};
use crate::checksum::MAX_CHECKSUMMED_LEN;
use crate::ipv4::{
    ipv4_destination, ipv4_destination_of, ipv4_payload, ipv4_payload_bytes, ipv4_source,
    ipv4_source_of, udp_payload, udp_payload_bytes,
};
use crate::packet::{build_ipv4_udp, ipv4_ident, ipv4_udp_packet, IPPROTO_UDP, IPV4_HEADER_LEN, UDP_HEADER_LEN};
use crate::random::random_ephemeral_port;
use crate::tcp::payload_or_empty;

verus! {

/// A UDP reply read off the wire.
#[derive(Clone, Debug)]
pub struct UdpResponse {
    pub src: String,
    pub dst: String,
    pub sport: u16,
    pub dport: u16,
    pub ttl: u8,
    pub payload: Vec<u8>,
}

/// `p` is an IPv4 packet carrying a UDP datagram from `dst`:`dport` to
/// `src`:`sport`.
pub open spec fn udp_reply_matches(p: Seq<u8>, src: Ipv4Addr, dst: Ipv4Addr, sport: u16, dport: u16) -> bool {
    let u = ipv4_payload(p);
    &&& p.len() >= 20
    &&& p[9] == IPPROTO_UDP
    &&& ipv4_source(p) == dst
    &&& ipv4_destination(p) == src
    &&& u.len() >= 8
    &&& be16_at(u, 0) == dport
    &&& be16_at(u, 2) == sport
}

/// `x` holds the fields of the UDP reply `p`, sent from `dst` to `src`.
pub open spec fn udp_response_of(x: UdpResponse, p: Seq<u8>, src: Ipv4Addr, dst: Ipv4Addr) -> bool {
    let u = ipv4_payload(p);
    &&& x.src@ == ipv4_text(dst)
    &&& x.dst@ == ipv4_text(src)
    &&& x.sport == be16_at(u, 0)
    &&& x.dport == be16_at(u, 2)
    &&& x.ttl == p[8]
    &&& x.payload@ == udp_payload(u)
}

/// Reads a received IPv4 packet as the reply to a datagram sent from
/// `src_ip`:`sport` to `dst_ip`:`dport`; `None` where it is not one.
pub fn udp_reply_from(packet: &[u8], src_ip: Ipv4Addr, dst_ip: Ipv4Addr, sport: u16, dport: u16) -> (r: Option<UdpResponse>)
    ensures
        r is Some <==> udp_reply_matches(packet@, src_ip, dst_ip, sport, dport),
        r matches Some(x) ==> udp_response_of(x, packet@, src_ip, dst_ip),
{
    if packet.len() < IPV4_HEADER_LEN {
        return None;
    }
    if packet[9] != IPPROTO_UDP {
        return None;
    }
    if ipv4_source_of(packet) != dst_ip || ipv4_destination_of(packet) != src_ip {
        return None;
    }
    let u = ipv4_payload_bytes(packet);
    if u.len() < UDP_HEADER_LEN {
        return None;
    }
    let us = u.as_slice();
    if read_be16(us, 0) != dport || read_be16(us, 2) != sport {
        return None;
    }
    Some(
        UdpResponse {
            src: ipv4_to_string(dst_ip),
            dst: ipv4_to_string(src_ip),
            sport: read_be16(us, 0),
            dport: read_be16(us, 2),
            ttl: packet[8],
            payload: udp_payload_bytes(us),
        },
    )
}

/// A UDP probe ready to send: the source port chosen, and the packet's bytes.
pub struct UdpProbe {
    pub sport: u16,
    pub bytes: Vec<u8>,
}

/// `bytes` is the datagram built from these arguments, with `sport_used` as
/// the source port: the one given, or else one from the range 32768..60999.
pub open spec fn is_udp_probe(
    bytes: Seq<u8>,
    sport_used: u16,
    src: Ipv4Addr,
    dst: Ipv4Addr,
    dport: u16,
    sport: Option<u16>,
    ttl: u8,
    payload: Seq<u8>,
) -> bool {
    &&& (sport matches Some(s) ==> sport_used == s)
    &&& (sport is None ==> 32768 <= sport_used < 60999)
    &&& bytes == ipv4_udp_packet(src, dst, sport_used, dport, ttl, ipv4_ident(bytes), payload)
}

/// Chooses the source port (random where not given) and builds the packet.
pub fn prepare_udp_probe(
    src_ip: Ipv4Addr,
    dst_ip: Ipv4Addr,
    dport: u16,
    sport: Option<u16>,
    ttl: u8,
    payload: &[u8],
) -> (r: UdpProbe)
    requires
        UDP_HEADER_LEN + payload@.len() <= MAX_CHECKSUMMED_LEN,
    ensures
        is_udp_probe(r.bytes@, r.sport, src_ip, dst_ip, dport, sport, ttl, payload@),
{
    let sport = match sport {
        Some(s) => s,
        None => random_ephemeral_port(),
    };
    let bytes = build_ipv4_udp(src_ip, dst_ip, sport, dport, ttl, payload);
    UdpProbe { sport, bytes }
}

/// The bytes of an IPv4/UDP packet with checksums set (source port random
/// where not given).
pub fn build_udp_packet(
    src_ip: Ipv4Addr,
    dst_ip: Ipv4Addr,
    dport: u16,
    sport: Option<u16>,
    ttl: u8,
    payload: Option<Vec<u8>>,
) -> (r: Vec<u8>)
    requires
        UDP_HEADER_LEN + payload_or_empty(payload).len() <= MAX_CHECKSUMMED_LEN,
    ensures
        exists|sp: u16| is_udp_probe(r@, sp, src_ip, dst_ip, dport, sport, ttl, payload_or_empty(payload)),
{
    let payload = match payload {
        Some(p) => p,
        None => Vec::new(),
    };
    let probe = prepare_udp_probe(src_ip, dst_ip, dport, sport, ttl, payload.as_slice());
    probe.bytes
}

} // verus!
