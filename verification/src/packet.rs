//! IPv4 packets carrying TCP, UDP or ICMP echo requests, and Ethernet frames
//! carrying ARP requests, built byte by byte with every checksum set.
use vstd::prelude::*;

use crate::addr::{Ipv4Addr, MacAddr};
use crate::bytes::{
    be16, be16_at, be16_of, be32, push_all, push_be16, push_be32, push_ipv4, push_mac, set_be16,
    with_be16, with_be16_of, lemma_be16_roundtrip,
};
use crate::checksum::{
    icmp_checksum, ipv4_header_checksum, pnet_icmp_checksum, pnet_ipv4_checksum,
    pnet_tcp_ipv4_checksum, pnet_udp_ipv4_checksum, tcp_ipv4_checksum, udp_ipv4_checksum,
    MAX_CHECKSUMMED_LEN,
};
use crate::error::PacketError;
use crate::random::random_u16;
use crate::text::chars_of;

verus! {

pub const IPV4_HEADER_LEN: usize = 20;
pub const TCP_HEADER_LEN: usize = 20;
pub const UDP_HEADER_LEN: usize = 8;
pub const ICMP_HEADER_LEN: usize = 8;
pub const ETHERNET_HEADER_LEN: usize = 14;
pub const ARP_PACKET_LEN: usize = 28;

/// IP protocol numbers.
pub const IPPROTO_ICMP: u8 = 1;
pub const IPPROTO_TCP: u8 = 6;
pub const IPPROTO_UDP: u8 = 17;

/// Ethernet frame types.
pub const ETHERTYPE_IPV4: u16 = 0x0800;
pub const ETHERTYPE_ARP: u16 = 0x0806;

/// ARP operations.
pub const ARP_OP_REQUEST: u16 = 1;
pub const ARP_OP_REPLY: u16 = 2;

/// ICMP message types.
pub const ICMP_ECHO_REPLY: u8 = 0;
pub const ICMP_ECHO_REQUEST: u8 = 8;

/// An IPv4 header of five words, with the Don't Fragment flag, no options,
/// and a zero checksum field. The total length field holds `total_len`
/// modulo 2^16.
pub open spec fn ipv4_header_unsummed(
    total_len: nat,
    ident: u16,
    ttl: u8,
    protocol: u8,
    src: Ipv4Addr,
    dst: Ipv4Addr,
) -> Seq<u8> {
    seq![0x45u8, 0x00u8] + be16((total_len % 65536) as int) + be16(ident as int) + seq![
        0x40u8,
        0x00u8,
        ttl,
        protocol,
        0u8,
        0u8,
    ] + src.octets() + dst.octets()
}

/// The IPv4 header, its checksum field set to pnet's header checksum.
pub open spec fn ipv4_header(
    total_len: nat,
    ident: u16,
    ttl: u8,
    protocol: u8,
    src: Ipv4Addr,
    dst: Ipv4Addr,
) -> Seq<u8> {
    let h = ipv4_header_unsummed(total_len, ident, ttl, protocol, src, dst);
    with_be16(h, 10, pnet_ipv4_checksum(h) as int)
}

/// A TCP header of five words (no options, urgent pointer 0) with a zero
/// checksum field, followed by the payload.
pub open spec fn tcp_segment_unsummed(
    sport: u16,
    dport: u16,
    flags: u8,
    seq: u32,
    ack: u32,
    window: u16,
    payload: Seq<u8>,
) -> Seq<u8> {
    be16(sport as int) + be16(dport as int) + be32(seq as int) + be32(ack as int) + seq![
        0x50u8,
        flags,
    ] + be16(window as int) + seq![0u8, 0u8, 0u8, 0u8] + payload
}

/// The TCP segment, its checksum field set to pnet's checksum for it.
pub open spec fn tcp_segment(
    src: Ipv4Addr,
    dst: Ipv4Addr,
    sport: u16,
    dport: u16,
    flags: u8,
    seq: u32,
    ack: u32,
    window: u16,
    payload: Seq<u8>,
) -> Seq<u8> {
    let s = tcp_segment_unsummed(sport, dport, flags, seq, ack, window, payload);
    with_be16(s, 16, pnet_tcp_ipv4_checksum(s, src.octets(), dst.octets()) as int)
}

/// An IPv4 packet carrying a TCP segment.
pub open spec fn ipv4_tcp_packet(
    src: Ipv4Addr,
    dst: Ipv4Addr,
    sport: u16,
    dport: u16,
    flags: u8,
    seq: u32,
    ack: u32,
    window: u16,
    ttl: u8,
    ident: u16,
    payload: Seq<u8>,
) -> Seq<u8> {
    let seg = tcp_segment(src, dst, sport, dport, flags, seq, ack, window, payload);
    ipv4_header(20 + seg.len(), ident, ttl, IPPROTO_TCP, src, dst) + seg
}

/// A UDP header with a zero checksum field, followed by the payload. The
/// length field holds the datagram length modulo 2^16.
pub open spec fn udp_datagram_unsummed(sport: u16, dport: u16, payload: Seq<u8>) -> Seq<u8> {
    be16(sport as int) + be16(dport as int) + be16(((8 + payload.len()) % 65536) as int) + seq![
        0u8,
        0u8,
    ] + payload
}

/// The UDP datagram, its checksum field set to pnet's checksum for it.
pub open spec fn udp_datagram(
    src: Ipv4Addr,
    dst: Ipv4Addr,
    sport: u16,
    dport: u16,
    payload: Seq<u8>,
) -> Seq<u8> {
    let d = udp_datagram_unsummed(sport, dport, payload);
    with_be16(d, 6, pnet_udp_ipv4_checksum(d, src.octets(), dst.octets()) as int)
}

/// An IPv4 packet carrying a UDP datagram.
pub open spec fn ipv4_udp_packet(
    src: Ipv4Addr,
    dst: Ipv4Addr,
    sport: u16,
    dport: u16,
    ttl: u8,
    ident: u16,
    payload: Seq<u8>,
) -> Seq<u8> {
    let d = udp_datagram(src, dst, sport, dport, payload);
    ipv4_header(20 + d.len(), ident, ttl, IPPROTO_UDP, src, dst) + d
}

/// An ICMP echo request (type 8, code 0) with a zero checksum field.
pub open spec fn icmp_echo_unsummed(ident: u16, seq: u16, payload: Seq<u8>) -> Seq<u8> {
    seq![ICMP_ECHO_REQUEST, 0u8, 0u8, 0u8] + be16_of(ident) + be16_of(seq) + payload
}

/// The ICMP echo request, its checksum field set to pnet's checksum for it.
pub open spec fn icmp_echo(ident: u16, seq: u16, payload: Seq<u8>) -> Seq<u8> {
    let m = icmp_echo_unsummed(ident, seq, payload);
    with_be16_of(m, 2, pnet_icmp_checksum(m))
}

/// An IPv4 packet carrying an ICMP echo request.
pub open spec fn ipv4_icmp_echo_packet(
    src: Ipv4Addr,
    dst: Ipv4Addr,
    ident: u16,
    seq: u16,
    ttl: u8,
    ip_ident: u16,
    payload: Seq<u8>,
) -> Seq<u8> {
    let m = icmp_echo(ident, seq, payload);
    ipv4_header(20 + m.len(), ip_ident, ttl, IPPROTO_ICMP, src, dst) + m
}

/// A broadcast Ethernet frame from `mac` carrying an ARP request (Ethernet
/// hardware, IPv4 protocol) that asks who has `target`.
pub open spec fn arp_request_frame(mac: MacAddr, src: Ipv4Addr, target: Ipv4Addr) -> Seq<u8> {
    MacAddr(0xff, 0xff, 0xff, 0xff, 0xff, 0xff).octets() + mac.octets() + be16(
        ETHERTYPE_ARP as int,
    ) + be16(1) + be16(ETHERTYPE_IPV4 as int) + seq![6u8, 4u8] + be16(ARP_OP_REQUEST as int) + mac.octets()
        + src.octets() + MacAddr(0, 0, 0, 0, 0, 0).octets() + target.octets()
}

/// The identification field of an IPv4 header.
pub open spec fn ipv4_ident(p: Seq<u8>) -> u16 {
    be16_at(p, 4) as u16
}

/// Writes the IPv4 header for a packet of `total` bytes, checksum set.
fn ipv4_header_bytes(total: usize, ident: u16, ttl: u8, protocol: u8, src: Ipv4Addr, dst: Ipv4Addr) -> (h: Vec<u8>)
    ensures
        h@ == ipv4_header(total as nat, ident, ttl, protocol, src, dst),
        h@.len() == 20,
{
    let mut h: Vec<u8> = Vec::new();
    h.push(0x45);
    h.push(0x00);
    push_be16(&mut h, (total % 65536) as u16);
    push_be16(&mut h, ident);
    h.push(0x40);
    h.push(0x00);
    h.push(ttl);
    h.push(protocol);
    h.push(0);
    h.push(0);
    push_ipv4(&mut h, src);
    push_ipv4(&mut h, dst);
    proof {
        assert(h@ =~= ipv4_header_unsummed(total as nat, ident, ttl, protocol, src, dst));
    }
    let c = ipv4_header_checksum(h.as_slice());
    set_be16(&mut h, 10, c);
    h
}

/// Builds an IPv4 + TCP packet with the given identification field and all
/// checksums computed.
pub fn build_ipv4_tcp_with_ident(
    src: Ipv4Addr,
    dst: Ipv4Addr,
    sport: u16,
    dport: u16,
    flags: u8,
    seq: u32,
    ack: u32,
    window: u16,
    ttl: u8,
    ident: u16,
    payload: &[u8],
) -> (r: Vec<u8>)
    requires
        TCP_HEADER_LEN + payload@.len() <= MAX_CHECKSUMMED_LEN,
    ensures
        r@ == ipv4_tcp_packet(src, dst, sport, dport, flags, seq, ack, window, ttl, ident, payload@),
{
    let mut seg: Vec<u8> = Vec::new();
    push_be16(&mut seg, sport);
    push_be16(&mut seg, dport);
    push_be32(&mut seg, seq);
    push_be32(&mut seg, ack);
    seg.push(0x50);
    seg.push(flags);
    push_be16(&mut seg, window);
    seg.push(0);
    seg.push(0);
    seg.push(0);
    seg.push(0);
    push_all(&mut seg, payload);
    proof {
        assert(seg@ =~= tcp_segment_unsummed(sport, dport, flags, seq, ack, window, payload@));
    }
    let c = tcp_ipv4_checksum(seg.as_slice(), src, dst);
    set_be16(&mut seg, 16, c);
    let mut h = ipv4_header_bytes(IPV4_HEADER_LEN + seg.len(), ident, ttl, IPPROTO_TCP, src, dst);
    h.append(&mut seg);
    h
}

/// Reading the identification field back gives what was written.
proof fn lemma_ipv4_ident(h: Seq<u8>, rest: Seq<u8>, total: nat, ident: u16, ttl: u8, protocol: u8, src: Ipv4Addr, dst: Ipv4Addr)
    requires
        h == ipv4_header(total, ident, ttl, protocol, src, dst),
    ensures
        ipv4_ident(h + rest) == ident,
{
    let u = ipv4_header_unsummed(total, ident, ttl, protocol, src, dst);
    assert((h + rest)[4] == u[4]);
    assert((h + rest)[5] == u[5]);
    lemma_be16_roundtrip(ident as int);
    assert(u.subrange(4, 6) =~= be16(ident as int));
}

/// Builds an IPv4 + TCP packet with all checksums computed; the IPv4
/// identification field is random. Returns the bytes, with no Ethernet header.
pub fn build_ipv4_tcp(
    src: Ipv4Addr,
    dst: Ipv4Addr,
    sport: u16,
    dport: u16,
    flags: u8,
    seq: u32,
    ack: u32,
    window: u16,
    ttl: u8,
    payload: &[u8],
) -> (r: Vec<u8>)
    requires
        TCP_HEADER_LEN + payload@.len() <= MAX_CHECKSUMMED_LEN,
    ensures
        r@ == ipv4_tcp_packet(src, dst, sport, dport, flags, seq, ack, window, ttl, ipv4_ident(r@), payload@),
{
    let ident = random_u16();
    let r = build_ipv4_tcp_with_ident(src, dst, sport, dport, flags, seq, ack, window, ttl, ident, payload);
    proof {
        let seg = tcp_segment(src, dst, sport, dport, flags, seq, ack, window, payload@);
        lemma_ipv4_ident(ipv4_header(20 + seg.len(), ident, ttl, IPPROTO_TCP, src, dst), seg, 20 + seg.len(), ident, ttl, IPPROTO_TCP, src, dst);
    }
    r
}


/// Builds an IPv4 + UDP packet with the given identification field and all
/// checksums computed.
pub fn build_ipv4_udp_with_ident(
    src: Ipv4Addr,
    dst: Ipv4Addr,
    sport: u16,
    dport: u16,
    ttl: u8,
    ident: u16,
    payload: &[u8],
) -> (r: Vec<u8>)
    requires
        UDP_HEADER_LEN + payload@.len() <= MAX_CHECKSUMMED_LEN,
    ensures
        r@ == ipv4_udp_packet(src, dst, sport, dport, ttl, ident, payload@),
{
    let mut d: Vec<u8> = Vec::new();
    push_be16(&mut d, sport);
    push_be16(&mut d, dport);
    push_be16(&mut d, ((UDP_HEADER_LEN + payload.len()) % 65536) as u16);
    d.push(0);
    d.push(0);
    push_all(&mut d, payload);
    proof {
        assert(d@ =~= udp_datagram_unsummed(sport, dport, payload@));
    }
    let c = udp_ipv4_checksum(d.as_slice(), src, dst);
    set_be16(&mut d, 6, c);
    let mut h = ipv4_header_bytes(IPV4_HEADER_LEN + d.len(), ident, ttl, IPPROTO_UDP, src, dst);
    h.append(&mut d);
    h
}

/// Builds an IPv4 + UDP packet with all checksums computed; the IPv4
/// identification field is random.
pub fn build_ipv4_udp(src: Ipv4Addr, dst: Ipv4Addr, sport: u16, dport: u16, ttl: u8, payload: &[u8]) -> (r: Vec<u8>)
    requires
        UDP_HEADER_LEN + payload@.len() <= MAX_CHECKSUMMED_LEN,
    ensures
        r@ == ipv4_udp_packet(src, dst, sport, dport, ttl, ipv4_ident(r@), payload@),
{
    let ident = random_u16();
    let r = build_ipv4_udp_with_ident(src, dst, sport, dport, ttl, ident, payload);
    proof {
        let d = udp_datagram(src, dst, sport, dport, payload@);
        lemma_ipv4_ident(ipv4_header(20 + d.len(), ident, ttl, IPPROTO_UDP, src, dst), d, 20 + d.len(), ident, ttl, IPPROTO_UDP, src, dst);
    }
    r
}

/// Builds an IPv4 + ICMP echo request packet with the given IPv4
/// identification field and all checksums computed.
pub fn build_ipv4_icmp_echo_with_ident(
    src: Ipv4Addr,
    dst: Ipv4Addr,
    ident: u16,
    seq: u16,
    ttl: u8,
    ip_ident: u16,
    payload: &[u8],
) -> (r: Vec<u8>)
    requires
        ICMP_HEADER_LEN + payload@.len() <= MAX_CHECKSUMMED_LEN,
    ensures
        r@ == ipv4_icmp_echo_packet(src, dst, ident, seq, ttl, ip_ident, payload@),
{
    let mut m: Vec<u8> = Vec::new();
    m.push(ICMP_ECHO_REQUEST);
    m.push(0);
    m.push(0);
    m.push(0);
    push_be16(&mut m, ident);
    push_be16(&mut m, seq);
    push_all(&mut m, payload);
    proof {
        assert(m@ =~= icmp_echo_unsummed(ident, seq, payload@));
    }
    let c = icmp_checksum(m.as_slice());
    set_be16(&mut m, 2, c);
    let mut h = ipv4_header_bytes(IPV4_HEADER_LEN + m.len(), ip_ident, ttl, IPPROTO_ICMP, src, dst);
    h.append(&mut m);
    h
}

/// Builds an IPv4 + ICMP echo request packet with all checksums computed; the
/// IPv4 identification field is random.
pub fn build_ipv4_icmp_echo(src: Ipv4Addr, dst: Ipv4Addr, ident: u16, seq: u16, ttl: u8, payload: &[u8]) -> (r: Vec<u8>)
    requires
        ICMP_HEADER_LEN + payload@.len() <= MAX_CHECKSUMMED_LEN,
    ensures
        r@ == ipv4_icmp_echo_packet(src, dst, ident, seq, ttl, ipv4_ident(r@), payload@),
{
    let ip_ident = random_u16();
    let r = build_ipv4_icmp_echo_with_ident(src, dst, ident, seq, ttl, ip_ident, payload);
    proof {
        let m = icmp_echo(ident, seq, payload@);
        lemma_ipv4_ident(ipv4_header(20 + m.len(), ip_ident, ttl, IPPROTO_ICMP, src, dst), m, 20 + m.len(), ip_ident, ttl, IPPROTO_ICMP, src, dst);
    }
    r
}

/// Builds the Ethernet frame of an ARP request: broadcast, from `iface_mac`,
/// asking who has `target_ip` on behalf of `src_ip`.
pub fn build_arp_request_bytes(iface_mac: MacAddr, src_ip: Ipv4Addr, target_ip: Ipv4Addr) -> (r: Vec<u8>)
    ensures
        r@ == arp_request_frame(iface_mac, src_ip, target_ip),
        r@.len() == ETHERNET_HEADER_LEN + ARP_PACKET_LEN,
{
    let mut f: Vec<u8> = Vec::new();
    push_mac(&mut f, MacAddr::broadcast());
    push_mac(&mut f, iface_mac);
    push_be16(&mut f, ETHERTYPE_ARP);
    push_be16(&mut f, 1);
    push_be16(&mut f, ETHERTYPE_IPV4);
    f.push(6);
    f.push(4);
    push_be16(&mut f, ARP_OP_REQUEST);
    push_mac(&mut f, iface_mac);
    push_ipv4(&mut f, src_ip);
    push_mac(&mut f, MacAddr::zero());
    push_ipv4(&mut f, target_ip);
    proof {
        assert(f@ =~= arp_request_frame(iface_mac, src_ip, target_ip));
    }
    f
}


/// The code of `c` with ASCII upper-case letters taken to lower case.
pub open spec fn ascii_lower_code(c: char) -> u32 {
    let x = c as u32;
    if 65 <= x && x <= 90 {
        (x + 32) as u32
    } else {
        x
    }
}

/// `p`, read without regard to ASCII case, spells the lower-case letters
/// whose codes are `word`.
pub open spec fn spells(p: Seq<char>, word: Seq<u32>) -> bool {
    p.len() == word.len() && forall|i: int| 0 <= i < p.len() ==> ascii_lower_code(#[trigger] p[i]) == word[i]
}

/// The IP protocol a name stands for: `tcp`, `udp` or `icmp`, in any case.
pub open spec fn protocol_named(p: Seq<char>) -> Option<u8> {
    if spells(p, seq![116u32, 99u32, 112u32]) {
        Some(IPPROTO_TCP)
    } else if spells(p, seq![117u32, 100u32, 112u32]) {
        Some(IPPROTO_UDP)
    } else if spells(p, seq![105u32, 99u32, 109u32, 112u32]) {
        Some(IPPROTO_ICMP)
    } else {
        None
    }
}

fn lower_code_of(c: char) -> (r: u32)
    ensures
        r == ascii_lower_code(c),
{
    let x = c as u32;
    if 65 <= x && x <= 90 {
        x + 32
    } else {
        x
    }
}

fn spells_exec(cs: &Vec<char>, word: &[u32]) -> (r: bool)
    ensures
        r == spells(cs@, word@),
{
    if cs.len() != word.len() {
        return false;
    }
    let mut i: usize = 0;
    while i < cs.len()
        invariant
            cs@.len() == word@.len(),
            0 <= i <= cs@.len(),
            forall|j: int| 0 <= j < i ==> ascii_lower_code(#[trigger] cs@[j]) == word@[j],
        decreases cs@.len() - i,
    {
        if lower_code_of(cs[i]) != word[i] {
            return false;
        }
        i = i + 1;
    }
    true
}

/// The IP protocol number for a protocol name (`tcp`, `udp` or `icmp`, in
/// any case); an error for any other name.
pub fn ip_protocol_for(protocol: &str) -> (r: Result<u8, PacketError>)
    ensures
        match protocol_named(protocol@) {
            Some(n) => r == Ok::<u8, PacketError>(n),
            None => r matches Err(e) && e matches PacketError::UnknownProtocol(t) && t@ == protocol@,
        },
{
    let cs = chars_of(protocol);
    let tcp: [u32; 3] = [116, 99, 112];
    let udp: [u32; 3] = [117, 100, 112];
    let ping: [u32; 4] = [105, 99, 109, 112];
    proof {
        assert(tcp@ =~= seq![116u32, 99u32, 112u32]);
        assert(udp@ =~= seq![117u32, 100u32, 112u32]);
        assert(ping@ =~= seq![105u32, 99u32, 109u32, 112u32]);
    }
    if spells_exec(&cs, tcp.as_slice()) {
        Ok(IPPROTO_TCP)
    } else if spells_exec(&cs, udp.as_slice()) {
        Ok(IPPROTO_UDP)
    } else if spells_exec(&cs, ping.as_slice()) {
        Ok(IPPROTO_ICMP)
    } else {
        Err(PacketError::UnknownProtocol(protocol.to_owned()))
    }
}

/// Bytes handed over to be sent as an IPv4 packet must hold an IPv4 header.
pub fn check_ipv4_bytes(packet: &[u8]) -> (r: Result<(), PacketError>)
    ensures
        r is Ok <==> packet@.len() >= 20,
        r matches Err(e) ==> e is PacketTooShortForIpv4,
{
    if packet.len() < IPV4_HEADER_LEN {
        Err(PacketError::PacketTooShortForIpv4)
    } else {
        Ok(())
    }
}

} // verus!
