//! TCP probes: the packet sent, and the reply that answers it.
use vstd::prelude::*;

use crate::addr::{ipv4_text, ipv4_to_string, Ipv4Addr};
use crate::bytes::{be16_at, be32_at, read_be16, read_be32};
use crate::checksum::MAX_CHECKSUMMED_LEN;
use crate::flags::{parse_tcp_flags, tcp_flags_of, ACK, RST, SYN};
use crate::ipv4::{
    ipv4_destination, ipv4_destination_of, ipv4_payload, ipv4_payload_bytes, ipv4_source,
    ipv4_source_of, tcp_payload, tcp_payload_bytes,
};
use crate::packet::{build_ipv4_tcp, ipv4_ident, ipv4_tcp_packet, IPPROTO_TCP, IPV4_HEADER_LEN, TCP_HEADER_LEN};
use crate::random::{random_ephemeral_port, random_u32};

verus! {

/// A TCP reply read off the wire.
#[derive(Clone, Debug)]
pub struct TcpResponse {
    pub src: String,
    pub dst: String,
    pub sport: u16,
    pub dport: u16,
    pub flags: u8,
    pub seq: u32,
    pub ack: u32,
    pub window: u16,
    pub ttl: u8,
    pub payload: Vec<u8>,
}

impl TcpResponse {
    /// Every bit of `flag` is set.
    pub fn has_flag(&self, flag: u8) -> (r: bool)
        ensures
            r == (self.flags & flag == flag),
    {
        self.flags & flag == flag
    }

    /// Both SYN and ACK are set.
    pub fn is_synack(&self) -> (r: bool)
        ensures
            r == (self.flags & (SYN | ACK) == (SYN | ACK)),
    {
        self.flags & (SYN | ACK) == (SYN | ACK)
    }

    /// RST is set.
    pub fn is_rst(&self) -> (r: bool)
        ensures
            r == (self.flags & RST != 0),
    {
        self.flags & RST != 0
    }
}

/// `p` is an IPv4 packet carrying a TCP segment from `dst`:`dport` to
/// `src`:`sport`, i.e. an answer to a probe sent from `src`:`sport` to
/// `dst`:`dport`.
pub open spec fn tcp_reply_matches(p: Seq<u8>, src: Ipv4Addr, dst: Ipv4Addr, sport: u16, dport: u16) -> bool {
    let t = ipv4_payload(p);
    &&& p.len() >= 20
    &&& p[9] == IPPROTO_TCP
    &&& ipv4_source(p) == dst
    &&& ipv4_destination(p) == src
    &&& t.len() >= 20
    &&& be16_at(t, 0) == dport
    &&& be16_at(t, 2) == sport
}

/// `x` holds the fields of the TCP reply `p`, sent from `dst` to `src`.
pub open spec fn tcp_response_of(x: TcpResponse, p: Seq<u8>, src: Ipv4Addr, dst: Ipv4Addr) -> bool {
    let t = ipv4_payload(p);
    &&& x.src@ == ipv4_text(dst)
    &&& x.dst@ == ipv4_text(src)
    &&& x.sport == be16_at(t, 0)
    &&& x.dport == be16_at(t, 2)
    &&& x.flags == t[13]
    &&& x.seq == be32_at(t, 4)
    &&& x.ack == be32_at(t, 8)
    &&& x.window == be16_at(t, 14)
    &&& x.ttl == p[8]
    &&& x.payload@ == tcp_payload(t)
}

/// Reads a received IPv4 packet as the reply to a probe sent from
/// `src_ip`:`sport` to `dst_ip`:`dport`; `None` where it is not one.
pub fn tcp_reply_from(packet: &[u8], src_ip: Ipv4Addr, dst_ip: Ipv4Addr, sport: u16, dport: u16) -> (r: Option<TcpResponse>)
    ensures
        r is Some <==> tcp_reply_matches(packet@, src_ip, dst_ip, sport, dport),
        r matches Some(x) ==> tcp_response_of(x, packet@, src_ip, dst_ip),
{
    if packet.len() < IPV4_HEADER_LEN {
        return None;
    }
    if packet[9] != IPPROTO_TCP {
        return None;
    }
    if ipv4_source_of(packet) != dst_ip {
        return None;
    }
    if ipv4_destination_of(packet) != src_ip {
        return None;
    }
    let t = ipv4_payload_bytes(packet);
    if t.len() < TCP_HEADER_LEN {
        return None;
    }
    let ts = t.as_slice();
    if read_be16(ts, 0) != dport || read_be16(ts, 2) != sport {
        return None;
    }
    Some(
        TcpResponse {
            src: ipv4_to_string(dst_ip),
            dst: ipv4_to_string(src_ip),
            sport: read_be16(ts, 0),
            dport: read_be16(ts, 2),
            flags: ts[13],
            seq: read_be32(ts, 4),
            ack: read_be32(ts, 8),
            window: read_be16(ts, 14),
            ttl: packet[8],
            payload: tcp_payload_bytes(ts),
        },
    )
}

/// The payload given, or no bytes.
pub open spec fn payload_or_empty(payload: Option<Vec<u8>>) -> Seq<u8> {
    match payload {
        Some(p) => p@,
        None => Seq::<u8>::empty(),
    }
}

/// A TCP probe ready to send: the source port and sequence number chosen,
/// and the packet's bytes.
pub struct TcpProbe {
    pub sport: u16,
    pub seq: u32,
    pub bytes: Vec<u8>,
}

/// `bytes` is the probe built from these arguments, with `sport_used` and
/// `seq_used` as the source port and sequence number: the ones given, or
/// else a port from the ephemeral range 32768..60999 and any sequence number.
pub open spec fn is_tcp_probe(
    bytes: Seq<u8>,
    sport_used: u16,
    seq_used: u32,
    src: Ipv4Addr,
    dst: Ipv4Addr,
    dport: u16,
    flags: Seq<char>,
    sport: Option<u16>,
    seq: Option<u32>,
    ack: u32,
    window: u16,
    ttl: u8,
    payload: Seq<u8>,
) -> bool {
    &&& (sport matches Some(s) ==> sport_used == s)
    &&& (sport is None ==> 32768 <= sport_used < 60999)
    &&& (seq matches Some(q) ==> seq_used == q)
    &&& bytes == ipv4_tcp_packet(
        src,
        dst,
        sport_used,
        dport,
        tcp_flags_of(flags),
        seq_used,
        ack,
        window,
        ttl,
        ipv4_ident(bytes),
        payload,
    )
}

/// Chooses the source port and sequence number (random where not given),
/// reads the flags text, and builds the packet.
pub fn prepare_tcp_probe(
    src_ip: Ipv4Addr,
    dst_ip: Ipv4Addr,
    dport: u16,
    flags: &str,
    sport: Option<u16>,
    seq: Option<u32>,
    ack: u32,
    window: u16,
    ttl: u8,
    payload: Option<Vec<u8>>,
) -> (r: TcpProbe)
    requires
        TCP_HEADER_LEN + payload_or_empty(payload).len() <= MAX_CHECKSUMMED_LEN,
    ensures
        is_tcp_probe(r.bytes@, r.sport, r.seq, src_ip, dst_ip, dport, flags@, sport, seq, ack, window, ttl, payload_or_empty(payload)),
{
    let sport = match sport {
        Some(s) => s,
        None => random_ephemeral_port(),
    };
    let seq = match seq {
        Some(q) => q,
        None => random_u32(),
    };
    let flags_u8 = parse_tcp_flags(flags);
    let payload = match payload {
        Some(p) => p,
        None => Vec::new(),
    };
    let bytes = build_ipv4_tcp(src_ip, dst_ip, sport, dport, flags_u8, seq, ack, window, ttl, payload.as_slice());
    TcpProbe { sport, seq, bytes }
}

/// The bytes of an IPv4/TCP probe with checksums set (source port and
/// sequence number random where not given).
pub fn build_tcp_packet(
    src_ip: Ipv4Addr,
    dst_ip: Ipv4Addr,
    dport: u16,
    flags: &str,
    sport: Option<u16>,
    seq: Option<u32>,
    ack: u32,
    window: u16,
    ttl: u8,
    payload: Option<Vec<u8>>,
) -> (r: Vec<u8>)
    requires
        TCP_HEADER_LEN + payload_or_empty(payload).len() <= MAX_CHECKSUMMED_LEN,
    ensures
        exists|sp: u16, sq: u32| is_tcp_probe(r@, sp, sq, src_ip, dst_ip, dport, flags@, sport, seq, ack, window, ttl, payload_or_empty(payload)),
{
    let probe = prepare_tcp_probe(src_ip, dst_ip, dport, flags, sport, seq, ack, window, ttl, payload);
    probe.bytes
}

} // verus!
