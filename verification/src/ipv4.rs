//! Reading received IPv4 packets and the headers they carry, field by field,
//! with the same bounds as pnet's packet views.
use vstd::prelude::*;

use crate::addr::Ipv4Addr;
use crate::bytes::{be16_at, copy_range, read_be16};

verus! {

/// The header length of an IPv4 packet in bytes, from its IHL field.
pub open spec fn ipv4_ihl_bytes(p: Seq<u8>) -> int {
    (p[0] % 16) * 4
}

/// The payload of an IPv4 packet: from the end of the header (at least 20
/// bytes in) for as many bytes as the total length leaves after the header,
/// cut at the end of the bytes received.
pub open spec fn ipv4_payload(p: Seq<u8>) -> Seq<u8> {
    let ihl = ipv4_ihl_bytes(p);
    let start = if ihl > 20 { ihl } else { 20 };
    let total = be16_at(p, 2);
    let plen = if total > ihl { total - ihl } else { 0 };
    let end = if start + plen < p.len() { start + plen } else { p.len() as int };
    if p.len() <= start {
        Seq::<u8>::empty()
    } else {
        p.subrange(start, end)
    }
}

/// The source address field of an IPv4 packet.
pub open spec fn ipv4_source(p: Seq<u8>) -> Ipv4Addr {
    Ipv4Addr(p[12], p[13], p[14], p[15])
}

/// The destination address field of an IPv4 packet.
pub open spec fn ipv4_destination(p: Seq<u8>) -> Ipv4Addr {
    Ipv4Addr(p[16], p[17], p[18], p[19])
}

/// The payload of a TCP segment: what follows the header and its options.
pub open spec fn tcp_payload(t: Seq<u8>) -> Seq<u8> {
    let off = (t[12] / 16) * 4;
    let start = if off > 20 { off } else { 20 };
    if t.len() <= start {
        Seq::<u8>::empty()
    } else {
        t.subrange(start, t.len() as int)
    }
}

/// The payload of a UDP datagram: what follows its eight-byte header.
pub open spec fn udp_payload(u: Seq<u8>) -> Seq<u8> {
    if u.len() <= 8 {
        Seq::<u8>::empty()
    } else {
        u.subrange(8, u.len() as int)
    }
}

/// The payload of an IPv4 packet.
pub fn ipv4_payload_bytes(p: &[u8]) -> (r: Vec<u8>)
    requires
        p@.len() >= 20,
    ensures
        r@ == ipv4_payload(p@),
{
    let ihl: usize = (p[0] % 16) as usize * 4;
    let start: usize = if ihl > 20 { ihl } else { 20 };
    let total: usize = read_be16(p, 2) as usize;
    let plen: usize = if total > ihl { total - ihl } else { 0 };
    let end: usize = if start + plen < p.len() { start + plen } else { p.len() };
    if p.len() <= start {
        Vec::new()
    } else {
        copy_range(p, start, end)
    }
}

/// The source address field of an IPv4 packet.
pub fn ipv4_source_of(p: &[u8]) -> (a: Ipv4Addr)
    requires
        p@.len() >= 20,
    ensures
        a == ipv4_source(p@),
{
    Ipv4Addr(p[12], p[13], p[14], p[15])
}

/// The destination address field of an IPv4 packet.
pub fn ipv4_destination_of(p: &[u8]) -> (a: Ipv4Addr)
    requires
        p@.len() >= 20,
    ensures
        a == ipv4_destination(p@),
{
    Ipv4Addr(p[16], p[17], p[18], p[19])
}

/// The payload of a TCP segment.
pub fn tcp_payload_bytes(t: &[u8]) -> (r: Vec<u8>)
    requires
        t@.len() >= 20,
    ensures
        r@ == tcp_payload(t@),
{
    let off: usize = (t[12] / 16) as usize * 4;
    let start: usize = if off > 20 { off } else { 20 };
    if t.len() <= start {
        Vec::new()
    } else {
        copy_range(t, start, t.len())
    }
}

/// The payload of a UDP datagram.
pub fn udp_payload_bytes(u: &[u8]) -> (r: Vec<u8>)
    requires
        u@.len() >= 8,
    ensures
        r@ == udp_payload(u@),
{
    if u.len() <= 8 {
        Vec::new()
    } else {
        copy_range(u, 8, u.len())
    }
}

} // verus!
