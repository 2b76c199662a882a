//! Properties that relate the builders, the readers and the text formats.
use vstd::prelude::*;

use crate::addr::{hex_char, ipv4_text, mac_text, Ipv4Addr, MacAddr};
use crate::arp::{arp_reply_matches, arp_sender_ip, arp_sender_mac, ethernet_payload};
use crate::bytes::{
    be16, be16_at, be16_of, be32, be32_at, lemma_be16_of_roundtrip, lemma_be16_roundtrip,
    lemma_be32_roundtrip, tail_from, with_be16,
};
use crate::checksum::pnet_ipv4_checksum;
use crate::ipv4::{ipv4_destination, ipv4_payload, ipv4_source, tcp_payload, udp_payload};
use crate::packet::{
    arp_request_frame, icmp_echo, icmp_echo_unsummed, ipv4_header, ipv4_header_unsummed,
    ipv4_icmp_echo_packet, ipv4_ident, ipv4_tcp_packet, ipv4_udp_packet, tcp_segment, ARP_OP_REQUEST,
    ICMP_ECHO_REPLY, IPPROTO_ICMP,
    tcp_segment_unsummed, udp_datagram, udp_datagram_unsummed, ETHERTYPE_ARP, IPPROTO_TCP, IPPROTO_UDP,
};
use crate::icmp::{icmp_reply_matches, icmp_response_of, IcmpResponse};
use crate::tcp::{tcp_reply_matches, tcp_response_of, TcpResponse};
use crate::udp::udp_reply_matches;

verus! {

/// What a reader sees of an IPv4 packet built by this library whose total
/// length fits the header's 16-bit field: the TTL, protocol and addresses
/// written, and the payload exactly as written.
pub proof fn lemma_ipv4_packet_reads(
    total: nat,
    ident: u16,
    ttl: u8,
    protocol: u8,
    src: Ipv4Addr,
    dst: Ipv4Addr,
    body: Seq<u8>,
)
    requires
        total == 20 + body.len(),
        total <= 65535,
    ensures
        ({
            let p = ipv4_header(total, ident, ttl, protocol, src, dst) + body;
            &&& p.len() == total
            &&& p[2] * 256 + p[3] == total
            &&& p[8] == ttl
            &&& p[9] == protocol
            &&& ipv4_source(p) == src
            &&& ipv4_destination(p) == dst
            &&& ipv4_payload(p) == body
        }),
{
    let u = ipv4_header_unsummed(total, ident, ttl, protocol, src, dst);
    let h = ipv4_header(total, ident, ttl, protocol, src, dst);
    let p = h + body;
    assert(h == with_be16(u, 10, pnet_ipv4_checksum(u) as int));
    assert(h.len() == 20);
    assert(p[0] == u[0]);
    assert(p[2] == u[2]);
    assert(p[3] == u[3]);
    assert(p[8] == u[8]);
    assert(p[9] == u[9]);
    assert(p[12] == u[12]);
    assert(p[13] == u[13]);
    assert(p[14] == u[14]);
    assert(p[15] == u[15]);
    assert(p[16] == u[16]);
    assert(p[17] == u[17]);
    assert(p[18] == u[18]);
    assert(p[19] == u[19]);
    assert(u[0] == 0x45u8);
    assert(total % 65536 == total);
    assert(u.subrange(2, 4) =~= be16(total as int));
    lemma_be16_roundtrip(total as int);
    assert(be16_at(p, 2) == total);
    assert(p.subrange(20, p.len() as int) =~= body);
}

/// A TCP segment built by this library, read back: the header fields written
/// and the payload.
pub proof fn lemma_tcp_segment_reads(
    src: Ipv4Addr,
    dst: Ipv4Addr,
    sport: u16,
    dport: u16,
    flags: u8,
    seq: u32,
    ack: u32,
    window: u16,
    payload: Seq<u8>,
)
    ensures
        ({
            let t = tcp_segment(src, dst, sport, dport, flags, seq, ack, window, payload);
            &&& t.len() == 20 + payload.len()
            &&& be16_at(t, 0) == sport
            &&& be16_at(t, 2) == dport
            &&& be32_at(t, 4) == seq
            &&& be32_at(t, 8) == ack
            &&& t[13] == flags
            &&& be16_at(t, 14) == window
            &&& tcp_payload(t) == payload
        }),
{
    let u = tcp_segment_unsummed(sport, dport, flags, seq, ack, window, payload);
    let t = tcp_segment(src, dst, sport, dport, flags, seq, ack, window, payload);
    assert(u.subrange(0, 2) =~= be16(sport as int));
    assert(u.subrange(2, 4) =~= be16(dport as int));
    assert(u.subrange(4, 8) =~= be32(seq as int));
    assert(u.subrange(8, 12) =~= be32(ack as int));
    assert(u.subrange(14, 16) =~= be16(window as int));
    lemma_be16_roundtrip(sport as int);
    lemma_be16_roundtrip(dport as int);
    lemma_be16_roundtrip(window as int);
    lemma_be32_roundtrip(seq as int);
    lemma_be32_roundtrip(ack as int);
    assert(be16_at(u, 0) == be16_at(u.subrange(0, 2), 0));
    assert(be16_at(u, 2) == be16_at(u.subrange(2, 4), 0));
    assert(be32_at(u, 4) == be32_at(u.subrange(4, 8), 0));
    assert(be32_at(u, 8) == be32_at(u.subrange(8, 12), 0));
    assert(be16_at(u, 14) == be16_at(u.subrange(14, 16), 0));
    assert(u[12] == 0x50u8);
    assert(t.subrange(20, t.len() as int) =~= payload);
}

/// A UDP datagram built by this library, read back: the ports and payload.
pub proof fn lemma_udp_datagram_reads(src: Ipv4Addr, dst: Ipv4Addr, sport: u16, dport: u16, payload: Seq<u8>)
    ensures
        ({
            let d = udp_datagram(src, dst, sport, dport, payload);
            &&& d.len() == 8 + payload.len()
            &&& be16_at(d, 0) == sport
            &&& be16_at(d, 2) == dport
            &&& udp_payload(d) == payload
        }),
{
    let u = udp_datagram_unsummed(sport, dport, payload);
    let d = udp_datagram(src, dst, sport, dport, payload);
    assert(u.subrange(0, 2) =~= be16(sport as int));
    assert(u.subrange(2, 4) =~= be16(dport as int));
    lemma_be16_roundtrip(sport as int);
    lemma_be16_roundtrip(dport as int);
    assert(be16_at(u, 0) == be16_at(u.subrange(0, 2), 0));
    assert(be16_at(u, 2) == be16_at(u.subrange(2, 4), 0));
    assert(d.subrange(8, d.len() as int) =~= payload);
}

/// A TCP probe built by this library from `dst`:`dport` to `src`:`sport`
/// is taken as the reply to a probe sent from `src`:`sport` to
/// `dst`:`dport`, and every field read from it is the one written.
pub proof fn law_tcp_reply_roundtrip(
    src: Ipv4Addr,
    dst: Ipv4Addr,
    sport: u16,
    dport: u16,
    flags: u8,
    seq: u32,
    ack: u32,
    window: u16,
    ttl: u8,
    ident: u16,
    payload: Seq<u8>,
)
    requires
        40 + payload.len() <= 65535,
    ensures
        ({
            let p = ipv4_tcp_packet(dst, src, dport, sport, flags, seq, ack, window, ttl, ident, payload);
            let t = ipv4_payload(p);
            &&& tcp_reply_matches(p, src, dst, sport, dport)
            &&& be16_at(t, 0) == dport
            &&& be16_at(t, 2) == sport
            &&& t[13] == flags
            &&& be32_at(t, 4) == seq
            &&& be32_at(t, 8) == ack
            &&& be16_at(t, 14) == window
            &&& p[8] == ttl
            &&& tcp_payload(t) == payload
        }),
{
    let seg = tcp_segment(dst, src, dport, sport, flags, seq, ack, window, payload);
    lemma_tcp_segment_reads(dst, src, dport, sport, flags, seq, ack, window, payload);
    lemma_ipv4_packet_reads(20 + seg.len(), ident, ttl, IPPROTO_TCP, dst, src, seg);
}

/// A UDP datagram built by this library from `dst`:`dport` to `src`:`sport`
/// is taken as the reply to one sent from `src`:`sport` to `dst`:`dport`,
/// and its TTL and payload read back as written.
pub proof fn law_udp_reply_roundtrip(
    src: Ipv4Addr,
    dst: Ipv4Addr,
    sport: u16,
    dport: u16,
    ttl: u8,
    ident: u16,
    payload: Seq<u8>,
)
    requires
        28 + payload.len() <= 65535,
    ensures
        ({
            let p = ipv4_udp_packet(dst, src, dport, sport, ttl, ident, payload);
            let u = ipv4_payload(p);
            &&& udp_reply_matches(p, src, dst, sport, dport)
            &&& p[8] == ttl
            &&& udp_payload(u) == payload
        }),
{
    let d = udp_datagram(dst, src, dport, sport, payload);
    lemma_udp_datagram_reads(dst, src, dport, sport, payload);
    lemma_ipv4_packet_reads(20 + d.len(), ident, ttl, IPPROTO_UDP, dst, src, d);
}

/// An ARP request frame built by this library is an ARP frame, and it is
/// never taken as a reply: only operation 2 answers.
pub proof fn law_arp_request_not_a_reply(mac: MacAddr, src: Ipv4Addr, target: Ipv4Addr, from: Ipv4Addr)
    ensures
        be16_at(arp_request_frame(mac, src, target), 12) == ETHERTYPE_ARP,
        !arp_reply_matches(arp_request_frame(mac, src, target), from),
{
    let f = arp_request_frame(mac, src, target);
    assert(f.len() == 42);
    assert(f.subrange(12, 14) =~= be16(ETHERTYPE_ARP as int));
    lemma_be16_roundtrip(ETHERTYPE_ARP as int);
    assert(be16_at(f, 12) == be16_at(f.subrange(12, 14), 0));
    let a = ethernet_payload(f);
    assert(a[6] == f[20]);
    assert(a[7] == f[21]);
    assert(f.subrange(20, 22) =~= be16(ARP_OP_REQUEST as int));
    lemma_be16_roundtrip(ARP_OP_REQUEST as int);
    assert(be16_at(a, 6) == be16_at(f.subrange(20, 22), 0));
}

/// The frame laid out by this library, with its operation set to reply, is
/// taken as the reply from the protocol address it was sent from, and the
/// hardware address it was sent from reads back.
pub proof fn law_arp_reply_roundtrip(mac: MacAddr, src: Ipv4Addr, target: Ipv4Addr)
    ensures
        ({
            let f = arp_request_frame(mac, src, target).update(21, 2u8);
            &&& arp_reply_matches(f, src)
            &&& arp_sender_mac(ethernet_payload(f)) == mac
        }),
{
    let f0 = arp_request_frame(mac, src, target);
    let f = f0.update(21, 2u8);
    assert(f0.len() == 42);
    assert(f0.subrange(12, 14) =~= be16(ETHERTYPE_ARP as int));
    lemma_be16_roundtrip(ETHERTYPE_ARP as int);
    assert(be16_at(f, 12) == be16_at(f0.subrange(12, 14), 0));
    let a = ethernet_payload(f);
    assert(a[6] == f[20]);
    assert(a[7] == f[21]);
    assert(f0[20] == 0u8);
    assert(a[8] == f0[22]);
    assert(a[9] == f0[23]);
    assert(a[10] == f0[24]);
    assert(a[11] == f0[25]);
    assert(a[12] == f0[26]);
    assert(a[13] == f0[27]);
    assert(a[14] == f0[28]);
    assert(a[15] == f0[29]);
    assert(a[16] == f0[30]);
    assert(a[17] == f0[31]);
}

/// Two packets built with the same arguments differ only in the IPv4
/// identification field and the header checksum that covers it.
pub proof fn law_ipv4_builds_differ_only_in_ident(
    total: nat,
    ident1: u16,
    ident2: u16,
    ttl: u8,
    protocol: u8,
    src: Ipv4Addr,
    dst: Ipv4Addr,
    body: Seq<u8>,
)
    ensures
        ({
            let p1 = ipv4_header(total, ident1, ttl, protocol, src, dst) + body;
            let p2 = ipv4_header(total, ident2, ttl, protocol, src, dst) + body;
            &&& p1.len() == p2.len()
            &&& forall|k: int|
                0 <= k < p1.len() && !(4 <= k < 6 || 10 <= k < 12) ==> #[trigger] p1[k] == p2[k]
        }),
{
    let u1 = ipv4_header_unsummed(total, ident1, ttl, protocol, src, dst);
    let u2 = ipv4_header_unsummed(total, ident2, ttl, protocol, src, dst);
    let h1 = ipv4_header(total, ident1, ttl, protocol, src, dst);
    let h2 = ipv4_header(total, ident2, ttl, protocol, src, dst);
    let p1 = h1 + body;
    let p2 = h2 + body;
    assert(u1.len() == 20 && u2.len() == 20);
    assert forall|k: int| 0 <= k < 20 && !(4 <= k < 6) implies u1[k] == u2[k] by {
        if k < 2 {
        } else if k < 4 {
        } else if k < 12 {
        } else if k < 16 {
        } else {
        }
    }
    assert forall|k: int|
        0 <= k < p1.len() && !(4 <= k < 6 || 10 <= k < 12) implies #[trigger] p1[k] == p2[k] by {
        if k < 20 {
            assert(p1[k] == h1[k]);
            assert(p2[k] == h2[k]);
            assert(h1[k] == u1[k]);
            assert(h2[k] == u2[k]);
        } else {
            assert(p1[k] == body[k - 20]);
            assert(p2[k] == body[k - 20]);
        }
    }
}

/// Two TCP packets built with the same arguments differ only in the IPv4
/// identification field and the header checksum.
pub proof fn law_tcp_builds_differ_only_in_ident(
    src: Ipv4Addr,
    dst: Ipv4Addr,
    sport: u16,
    dport: u16,
    flags: u8,
    seq: u32,
    ack: u32,
    window: u16,
    ttl: u8,
    ident1: u16,
    ident2: u16,
    payload: Seq<u8>,
)
    ensures
        ({
            let p1 = ipv4_tcp_packet(src, dst, sport, dport, flags, seq, ack, window, ttl, ident1, payload);
            let p2 = ipv4_tcp_packet(src, dst, sport, dport, flags, seq, ack, window, ttl, ident2, payload);
            &&& p1.len() == p2.len()
            &&& forall|k: int|
                0 <= k < p1.len() && !(4 <= k < 6 || 10 <= k < 12) ==> #[trigger] p1[k] == p2[k]
        }),
{
    let seg = tcp_segment(src, dst, sport, dport, flags, seq, ack, window, payload);
    law_ipv4_builds_differ_only_in_ident(20 + seg.len(), ident1, ident2, ttl, IPPROTO_TCP, src, dst, seg);
}

/// Two UDP packets built with the same arguments differ only in the IPv4
/// identification field and the header checksum.
pub proof fn law_udp_builds_differ_only_in_ident(
    src: Ipv4Addr,
    dst: Ipv4Addr,
    sport: u16,
    dport: u16,
    ttl: u8,
    ident1: u16,
    ident2: u16,
    payload: Seq<u8>,
)
    ensures
        ({
            let p1 = ipv4_udp_packet(src, dst, sport, dport, ttl, ident1, payload);
            let p2 = ipv4_udp_packet(src, dst, sport, dport, ttl, ident2, payload);
            &&& p1.len() == p2.len()
            &&& forall|k: int|
                0 <= k < p1.len() && !(4 <= k < 6 || 10 <= k < 12) ==> #[trigger] p1[k] == p2[k]
        }),
{
    let d = udp_datagram(src, dst, sport, dport, payload);
    law_ipv4_builds_differ_only_in_ident(20 + d.len(), ident1, ident2, ttl, IPPROTO_UDP, src, dst, d);
}

/// Two echo request packets built with the same arguments differ only in the
/// IPv4 identification field and the header checksum.
pub proof fn law_echo_builds_differ_only_in_ident(
    src: Ipv4Addr,
    dst: Ipv4Addr,
    ident: u16,
    seq: u16,
    ttl: u8,
    ip_ident1: u16,
    ip_ident2: u16,
    payload: Seq<u8>,
)
    ensures
        ({
            let p1 = ipv4_icmp_echo_packet(src, dst, ident, seq, ttl, ip_ident1, payload);
            let p2 = ipv4_icmp_echo_packet(src, dst, ident, seq, ttl, ip_ident2, payload);
            &&& p1.len() == p2.len()
            &&& forall|k: int|
                0 <= k < p1.len() && !(4 <= k < 6 || 10 <= k < 12) ==> #[trigger] p1[k] == p2[k]
        }),
{
    let m = icmp_echo(ident, seq, payload);
    law_ipv4_builds_differ_only_in_ident(20 + m.len(), ip_ident1, ip_ident2, ttl, IPPROTO_ICMP, src, dst, m);
}

proof fn lemma_hex_char_injective(x: int, y: int)
    requires
        0 <= x < 16,
        0 <= y < 16,
        hex_char(x) == hex_char(y),
    ensures
        x == y,
{
}

/// The text of a MAC address determines the address: reading back the text
/// written for an address gives that address.
pub proof fn law_mac_text_injective(m: MacAddr, n: MacAddr)
    requires
        mac_text(m) == mac_text(n),
    ensures
        m == n,
{
    let s = mac_text(m);
    let t = mac_text(n);
    assert(s[0] == t[0] && s[1] == t[1]);
    lemma_hex_char_injective((m.0 / 16) as int, (n.0 / 16) as int);
    lemma_hex_char_injective((m.0 % 16) as int, (n.0 % 16) as int);
    assert(s[3] == t[3] && s[4] == t[4]);
    lemma_hex_char_injective((m.1 / 16) as int, (n.1 / 16) as int);
    lemma_hex_char_injective((m.1 % 16) as int, (n.1 % 16) as int);
    assert(s[6] == t[6] && s[7] == t[7]);
    lemma_hex_char_injective((m.2 / 16) as int, (n.2 / 16) as int);
    lemma_hex_char_injective((m.2 % 16) as int, (n.2 % 16) as int);
    assert(s[9] == t[9] && s[10] == t[10]);
    lemma_hex_char_injective((m.3 / 16) as int, (n.3 / 16) as int);
    lemma_hex_char_injective((m.3 % 16) as int, (n.3 % 16) as int);
    assert(s[12] == t[12] && s[13] == t[13]);
    lemma_hex_char_injective((m.4 / 16) as int, (n.4 / 16) as int);
    lemma_hex_char_injective((m.4 % 16) as int, (n.4 % 16) as int);
    assert(s[15] == t[15] && s[16] == t[16]);
    lemma_hex_char_injective((m.5 / 16) as int, (n.5 / 16) as int);
    lemma_hex_char_injective((m.5 % 16) as int, (n.5 % 16) as int);
}

/// An echo request built by this library is never taken as an echo reply.
pub proof fn law_echo_request_not_a_reply(
    src: Ipv4Addr,
    dst: Ipv4Addr,
    ident: u16,
    seq: u16,
    ttl: u8,
    ip_ident: u16,
    payload: Seq<u8>,
    wanted: u16,
)
    requires
        28 + payload.len() <= 65535,
    ensures
        !icmp_reply_matches(ipv4_icmp_echo_packet(src, dst, ident, seq, ttl, ip_ident, payload), wanted),
{
    let m = icmp_echo(ident, seq, payload);
    let u = icmp_echo_unsummed(ident, seq, payload);
    lemma_ipv4_packet_reads(20 + m.len(), ip_ident, ttl, IPPROTO_ICMP, src, dst, m);
    assert(m[0] == u[0]);
}

/// The echo message laid out by this library, with its type set to echo
/// reply, is taken as the reply to an echo request with its identifier; its
/// sequence number reads back, and the message after its first four bytes is
/// identifier, sequence number and data.
pub proof fn law_echo_reply_roundtrip(
    src: Ipv4Addr,
    dst: Ipv4Addr,
    ident: u16,
    seq: u16,
    ttl: u8,
    ip_ident: u16,
    payload: Seq<u8>,
)
    requires
        28 + payload.len() <= 65535,
    ensures
        ({
            let r = icmp_echo(ident, seq, payload).update(0, ICMP_ECHO_REPLY);
            let p = ipv4_header(20 + r.len(), ip_ident, ttl, IPPROTO_ICMP, dst, src) + r;
            let m = ipv4_payload(p);
            &&& icmp_reply_matches(p, ident)
            &&& be16_at(m, 6) == seq
            &&& p[8] == ttl
            &&& ipv4_source(p) == dst
            &&& tail_from(m, 4) == be16_of(ident) + be16_of(seq) + payload
        }),
{
    let u = icmp_echo_unsummed(ident, seq, payload);
    let r = icmp_echo(ident, seq, payload).update(0, ICMP_ECHO_REPLY);
    lemma_ipv4_packet_reads(20 + r.len(), ip_ident, ttl, IPPROTO_ICMP, dst, src, r);
    assert(u.subrange(4, 6) =~= be16_of(ident));
    assert(u.subrange(6, 8) =~= be16_of(seq));
    lemma_be16_of_roundtrip(ident);
    lemma_be16_of_roundtrip(seq);
    assert(be16_at(r, 4) == be16_at(u.subrange(4, 6), 0));
    assert(be16_at(r, 6) == be16_at(u.subrange(6, 8), 0));
    assert(tail_from(r, 4) =~= be16_of(ident) + be16_of(seq) + payload);
}

/// Two results of `build_ipv4_tcp` for the same arguments (each of them the
/// packet with whatever identification was drawn) have the same length and
/// differ only in the IPv4 identification field and the header checksum.
pub proof fn law_build_ipv4_tcp_twice(
    r1: Seq<u8>,
    r2: Seq<u8>,
    src: Ipv4Addr,
    dst: Ipv4Addr,
    sport: u16,
    dport: u16,
    flags: u8,
    seq: u32,
    ack: u32,
    window: u16,
    ttl: u8,
    payload: Seq<u8>,
)
    requires
        r1 == ipv4_tcp_packet(src, dst, sport, dport, flags, seq, ack, window, ttl, ipv4_ident(r1), payload),
        r2 == ipv4_tcp_packet(src, dst, sport, dport, flags, seq, ack, window, ttl, ipv4_ident(r2), payload),
    ensures
        r1.len() == r2.len(),
        forall|k: int| 0 <= k < r1.len() && !(4 <= k < 6 || 10 <= k < 12) ==> #[trigger] r1[k] == r2[k],
{
    law_tcp_builds_differ_only_in_ident(
        src,
        dst,
        sport,
        dport,
        flags,
        seq,
        ack,
        window,
        ttl,
        ipv4_ident(r1),
        ipv4_ident(r2),
        payload,
    );
}

/// Two results of `build_ipv4_udp` for the same arguments have the same
/// length and differ only in the IPv4 identification field and the header
/// checksum.
pub proof fn law_build_ipv4_udp_twice(
    r1: Seq<u8>,
    r2: Seq<u8>,
    src: Ipv4Addr,
    dst: Ipv4Addr,
    sport: u16,
    dport: u16,
    ttl: u8,
    payload: Seq<u8>,
)
    requires
        r1 == ipv4_udp_packet(src, dst, sport, dport, ttl, ipv4_ident(r1), payload),
        r2 == ipv4_udp_packet(src, dst, sport, dport, ttl, ipv4_ident(r2), payload),
    ensures
        r1.len() == r2.len(),
        forall|k: int| 0 <= k < r1.len() && !(4 <= k < 6 || 10 <= k < 12) ==> #[trigger] r1[k] == r2[k],
{
    law_udp_builds_differ_only_in_ident(src, dst, sport, dport, ttl, ipv4_ident(r1), ipv4_ident(r2), payload);
}

/// Two results of the echo request builder for the same arguments have the
/// same length and differ only in the IPv4 identification field and the
/// header checksum.
pub proof fn law_build_echo_twice(
    r1: Seq<u8>,
    r2: Seq<u8>,
    src: Ipv4Addr,
    dst: Ipv4Addr,
    ident: u16,
    seq: u16,
    ttl: u8,
    payload: Seq<u8>,
)
    requires
        r1 == ipv4_icmp_echo_packet(src, dst, ident, seq, ttl, ipv4_ident(r1), payload),
        r2 == ipv4_icmp_echo_packet(src, dst, ident, seq, ttl, ipv4_ident(r2), payload),
    ensures
        r1.len() == r2.len(),
        forall|k: int| 0 <= k < r1.len() && !(4 <= k < 6 || 10 <= k < 12) ==> #[trigger] r1[k] == r2[k],
{
    law_echo_builds_differ_only_in_ident(src, dst, ident, seq, ttl, ipv4_ident(r1), ipv4_ident(r2), payload);
}

/// The fields of a TCP reply as read: each port is the big-endian 16-bit
/// word at bytes 0 and 2 of the TCP header, the sequence and acknowledgement
/// numbers the big-endian 32-bit words at bytes 4 and 8, the flags byte 13,
/// the window the big-endian word at byte 14, and the TTL byte 8 of the IPv4
/// header.
pub proof fn law_tcp_response_fields(x: TcpResponse, p: Seq<u8>, src: Ipv4Addr, dst: Ipv4Addr)
    requires
        tcp_response_of(x, p, src, dst),
    ensures
        ({
            let t = ipv4_payload(p);
            &&& x.sport == t[0] * 256 + t[1]
            &&& x.dport == t[2] * 256 + t[3]
            &&& x.seq == t[4] * 16777216 + t[5] * 65536 + t[6] * 256 + t[7]
            &&& x.ack == t[8] * 16777216 + t[9] * 65536 + t[10] * 256 + t[11]
            &&& x.flags == t[13]
            &&& x.window == t[14] * 256 + t[15]
            &&& x.ttl == p[8]
        }),
{
}

/// Reading the reply built from `dst`:`dport` to `src`:`sport` gives back
/// every field it was built with: ports, flags, sequence and acknowledgement
/// numbers, window, TTL, payload and the two addresses.
pub proof fn law_tcp_response_roundtrip(
    x: TcpResponse,
    src: Ipv4Addr,
    dst: Ipv4Addr,
    sport: u16,
    dport: u16,
    flags: u8,
    seq: u32,
    ack: u32,
    window: u16,
    ttl: u8,
    ident: u16,
    payload: Seq<u8>,
)
    requires
        40 + payload.len() <= 65535,
        tcp_response_of(
            x,
            ipv4_tcp_packet(dst, src, dport, sport, flags, seq, ack, window, ttl, ident, payload),
            src,
            dst,
        ),
    ensures
        x.sport == dport,
        x.dport == sport,
        x.flags == flags,
        x.seq == seq,
        x.ack == ack,
        x.window == window,
        x.ttl == ttl,
        x.payload@ == payload,
        x.src@ == ipv4_text(dst),
        x.dst@ == ipv4_text(src),
{
    law_tcp_reply_roundtrip(src, dst, sport, dport, flags, seq, ack, window, ttl, ident, payload);
}

/// The fields of an echo reply as read: type and code are bytes 0 and 1 of
/// the ICMP message, the identifier and the sequence number the big-endian
/// 16-bit words at bytes 4 and 6, and the TTL byte 8 of the IPv4 header.
pub proof fn law_echo_response_fields(x: IcmpResponse, p: Seq<u8>)
    requires
        icmp_response_of(x, p),
    ensures
        ({
            let m = ipv4_payload(p);
            &&& x.icmp_type == m[0]
            &&& x.icmp_code == m[1]
            &&& x.ident == m[4] * 256 + m[5]
            &&& x.seq == m[6] * 256 + m[7]
            &&& x.ttl == p[8]
        }),
{
}

/// Reading the echo reply to a request with identifier `ident` and sequence
/// number `seq` gives back that identifier and sequence number, the TTL, the
/// address it came from, and identifier, sequence number and data as its
/// payload.
pub proof fn law_echo_response_roundtrip(
    x: IcmpResponse,
    src: Ipv4Addr,
    dst: Ipv4Addr,
    ident: u16,
    seq: u16,
    ttl: u8,
    ip_ident: u16,
    payload: Seq<u8>,
)
    requires
        28 + payload.len() <= 65535,
        ({
            let r = icmp_echo(ident, seq, payload).update(0, ICMP_ECHO_REPLY);
            icmp_response_of(x, ipv4_header(20 + r.len(), ip_ident, ttl, IPPROTO_ICMP, dst, src) + r)
        }),
    ensures
        x.ident == ident,
        x.seq == seq,
        x.icmp_type == ICMP_ECHO_REPLY,
        x.icmp_code == 0,
        x.ttl == ttl,
        x.src@ == ipv4_text(dst),
        x.payload@ == be16_of(ident) + be16_of(seq) + payload,
{
    law_echo_reply_roundtrip(src, dst, ident, seq, ttl, ip_ident, payload);
    let u = icmp_echo_unsummed(ident, seq, payload);
    let r = icmp_echo(ident, seq, payload).update(0, ICMP_ECHO_REPLY);
    let p = ipv4_header(20 + r.len(), ip_ident, ttl, IPPROTO_ICMP, dst, src) + r;
    lemma_ipv4_packet_reads(20 + r.len(), ip_ident, ttl, IPPROTO_ICMP, dst, src, r);
    assert(r[1] == u[1]);
}

/// Whether a frame is taken as the ARP reply from `target`, and what is read
/// from it, does not depend on its Ethernet destination: any destination
/// address `d` written over the first six bytes leaves both unchanged.
pub proof fn law_arp_match_ignores_destination(f: Seq<u8>, d: MacAddr, target: Ipv4Addr)
    requires
        f.len() >= 6,
    ensures
        ({
            let g = d.octets() + f.subrange(6, f.len() as int);
            &&& g.len() == f.len()
            &&& ethernet_payload(g) == ethernet_payload(f)
            &&& arp_reply_matches(g, target) == arp_reply_matches(f, target)
        }),
{
    let g = d.octets() + f.subrange(6, f.len() as int);
    assert(g.len() == f.len());
    assert forall|k: int| 6 <= k < f.len() implies #[trigger] g[k] == f[k] by {}
    if f.len() > 14 {
        assert(ethernet_payload(g) =~= ethernet_payload(f));
    }
    if f.len() >= 14 {
        assert(g[12] == f[12] && g[13] == f[13]);
    }
}

/// The reply laid out by this library and sent back to the asker's own
/// hardware address `d` (as hosts answer) is taken as the reply from the
/// protocol address it was sent from, and that sender's hardware address
/// reads back.
pub proof fn law_arp_unicast_reply_roundtrip(mac: MacAddr, src: Ipv4Addr, target: Ipv4Addr, d: MacAddr)
    ensures
        ({
            let f = arp_request_frame(mac, src, target).update(21, 2u8);
            let g = d.octets() + f.subrange(6, f.len() as int);
            &&& arp_reply_matches(g, src)
            &&& arp_sender_mac(ethernet_payload(g)) == mac
            &&& arp_sender_ip(ethernet_payload(g)) == src
        }),
{
    let f = arp_request_frame(mac, src, target).update(21, 2u8);
    law_arp_reply_roundtrip(mac, src, target);
    law_arp_match_ignores_destination(f, d, src);
}

/// The length field of a UDP datagram built by this library is the header's
/// eight bytes plus the payload's length, whenever that fits its 16 bits.
pub proof fn law_udp_length_field(src: Ipv4Addr, dst: Ipv4Addr, sport: u16, dport: u16, payload: Seq<u8>)
    requires
        8 + payload.len() <= 65535,
    ensures
        ({
            let d = udp_datagram(src, dst, sport, dport, payload);
            &&& d.len() == 8 + payload.len()
            &&& d[4] * 256 + d[5] == 8 + payload.len()
        }),
{
    let u = udp_datagram_unsummed(sport, dport, payload);
    let d = udp_datagram(src, dst, sport, dport, payload);
    let n = 8 + payload.len();
    assert(n % 65536 == n);
    assert(u.subrange(4, 6) =~= be16(n as int));
    lemma_be16_roundtrip(n as int);
    assert(d[4] == u[4] && d[5] == u[5]);
}

/// In a UDP packet built by this library, the IPv4 total length is the
/// packet's length and the UDP length is eight plus the payload's length.
pub proof fn law_ipv4_udp_lengths(
    src: Ipv4Addr,
    dst: Ipv4Addr,
    sport: u16,
    dport: u16,
    ttl: u8,
    ident: u16,
    payload: Seq<u8>,
)
    requires
        28 + payload.len() <= 65535,
    ensures
        ({
            let p = ipv4_udp_packet(src, dst, sport, dport, ttl, ident, payload);
            let d = ipv4_payload(p);
            &&& p.len() == 28 + payload.len()
            &&& p[2] * 256 + p[3] == p.len()
            &&& d[4] * 256 + d[5] == 8 + payload.len()
        }),
{
    let d = udp_datagram(src, dst, sport, dport, payload);
    law_udp_length_field(src, dst, sport, dport, payload);
    lemma_ipv4_packet_reads(20 + d.len(), ident, ttl, IPPROTO_UDP, src, dst, d);
}

} // verus!
