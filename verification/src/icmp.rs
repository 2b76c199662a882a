//! ICMP echo: the request sent, and the reply that answers it.
use vstd::prelude::*;

use crate::addr::{ipv4_text, ipv4_to_string, Ipv4Addr};
use crate::bytes::{be16_at, copy_range, read_be16, tail_from};
use crate::checksum::MAX_CHECKSUMMED_LEN;
use crate::ipv4::{ipv4_payload, ipv4_payload_bytes, ipv4_source, ipv4_source_of};
use crate::packet::{
    build_ipv4_icmp_echo, ipv4_icmp_echo_packet, ipv4_ident, ICMP_ECHO_REPLY, ICMP_HEADER_LEN,
    IPPROTO_ICMP, IPV4_HEADER_LEN,
};
use crate::random::random_u16;
use crate::tcp::payload_or_empty;

verus! {

/// An ICMP echo reply read off the wire in answer to an echo request.
#[derive(Clone, Debug)]
pub struct IcmpResponse {
    pub src: String,
    pub icmp_type: u8,
    pub icmp_code: u8,
    pub ttl: u8,
    pub ident: u16,
    pub seq: u16,
    /// The message after its first four bytes: identifier, sequence number
    /// and data.
    pub payload: Vec<u8>,
}

impl IcmpResponse {
    /// The message is an echo reply.
    pub fn is_echo_reply(&self) -> (r: bool)
        ensures
            r == (self.icmp_type == ICMP_ECHO_REPLY),
    {
        self.icmp_type == ICMP_ECHO_REPLY
    }
}

/// `p` is an IPv4 packet carrying an ICMP echo reply (type 0) of at least
/// eight bytes whose identifier is `ident`.
pub open spec fn icmp_reply_matches(p: Seq<u8>, ident: u16) -> bool {
    let m = ipv4_payload(p);
    &&& p.len() >= 20
    &&& p[9] == IPPROTO_ICMP
    &&& m.len() >= 8
    &&& m[0] == ICMP_ECHO_REPLY
    &&& be16_at(m, 4) == ident
}

/// `x` holds the fields of the ICMP message in `p`.
pub open spec fn icmp_response_of(x: IcmpResponse, p: Seq<u8>) -> bool {
    let m = ipv4_payload(p);
    &&& x.src@ == ipv4_text(ipv4_source(p))
    &&& x.icmp_type == m[0]
    &&& x.icmp_code == m[1]
    &&& x.ttl == p[8]
    &&& x.ident == be16_at(m, 4)
    &&& x.seq == be16_at(m, 6)
    &&& x.payload@ == tail_from(m, 4)
}

/// Reads a received IPv4 packet as the echo reply to an echo request with
/// the identifier `ident`; `None` where it is not one (other ICMP types,
/// the echo request itself among them, are not replies).
pub fn icmp_reply_from(packet: &[u8], ident: u16) -> (r: Option<IcmpResponse>)
    ensures
        r is Some <==> icmp_reply_matches(packet@, ident),
        r matches Some(x) ==> icmp_response_of(x, packet@),
{
    if packet.len() < IPV4_HEADER_LEN {
        return None;
    }
    if packet[9] != IPPROTO_ICMP {
        return None;
    }
    let m = ipv4_payload_bytes(packet);
    if m.len() < ICMP_HEADER_LEN {
        return None;
    }
    let ms = m.as_slice();
    let recv_ident = read_be16(ms, 4);
    let recv_seq = read_be16(ms, 6);
    if ms[0] != ICMP_ECHO_REPLY || recv_ident != ident {
        return None;
    }
    Some(
        IcmpResponse {
            src: ipv4_to_string(ipv4_source_of(packet)),
            icmp_type: ms[0],
            icmp_code: ms[1],
            ttl: packet[8],
            ident: recv_ident,
            seq: recv_seq,
            payload: copy_range(ms, 4, ms.len()),
        },
    )
}

/// An echo request ready to send: the identifier chosen, and the packet's bytes.
pub struct IcmpProbe {
    pub ident: u16,
    pub bytes: Vec<u8>,
}

/// `bytes` is the echo request built from these arguments, with
/// `ident_used` as its identifier: the one given, or else any.
pub open spec fn is_icmp_probe(
    bytes: Seq<u8>,
    ident_used: u16,
    src: Ipv4Addr,
    dst: Ipv4Addr,
    ident: Option<u16>,
    seq: u16,
    ttl: u8,
    payload: Seq<u8>,
) -> bool {
    &&& (ident matches Some(i) ==> ident_used == i)
    &&& bytes == ipv4_icmp_echo_packet(src, dst, ident_used, seq, ttl, ipv4_ident(bytes), payload)
}

/// Chooses the identifier (random where not given) and builds the packet.
pub fn prepare_icmp_probe(
    src_ip: Ipv4Addr,
    dst_ip: Ipv4Addr,
    ident: Option<u16>,
    seq: u16,
    ttl: u8,
    payload: Option<Vec<u8>>,
) -> (r: IcmpProbe)
    requires
        ICMP_HEADER_LEN + payload_or_empty(payload).len() <= MAX_CHECKSUMMED_LEN,
    ensures
        is_icmp_probe(r.bytes@, r.ident, src_ip, dst_ip, ident, seq, ttl, payload_or_empty(payload)),
{
    let ident = match ident {
        Some(i) => i,
        None => random_u16(),
    };
    let payload = match payload {
        Some(p) => p,
        None => Vec::new(),
    };
    let bytes = build_ipv4_icmp_echo(src_ip, dst_ip, ident, seq, ttl, payload.as_slice());
    IcmpProbe { ident, bytes }
}

/// The bytes of an IPv4/ICMP echo request with checksums set (identifier
/// random where not given).
pub fn build_icmp_echo(
    src_ip: Ipv4Addr,
    dst_ip: Ipv4Addr,
    ident: Option<u16>,
    seq: u16,
    ttl: u8,
    payload: Option<Vec<u8>>,
) -> (r: Vec<u8>)
    requires
        ICMP_HEADER_LEN + payload_or_empty(payload).len() <= MAX_CHECKSUMMED_LEN,
    ensures
        exists|id: u16| is_icmp_probe(r@, id, src_ip, dst_ip, ident, seq, ttl, payload_or_empty(payload)),
{
    let probe = prepare_icmp_probe(src_ip, dst_ip, ident, seq, ttl, payload);
    probe.bytes
}

} // verus!
