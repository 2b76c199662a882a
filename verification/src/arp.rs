//! ARP: the request that asks who has an address, and the reply that answers.
use vstd::prelude::*;

use crate::addr::{
    ipv4_text, ipv4_to_string, mac_text, mac_to_string, parse_ipv4, parse_mac, pnet_mac_from_str,
    Ipv4Addr, MacAddr,
};
use crate::bytes::{be16_at, read_be16};
use crate::datalink::{chose_interface, interface_or_default, str_view, InterfaceInfo, NetworkInterface};
use crate::error::{is_invalid_ipv4_text, MacParseError, PacketError};
use crate::packet::{
    arp_request_frame, build_arp_request_bytes, ARP_OP_REPLY, ARP_PACKET_LEN, ETHERNET_HEADER_LEN,
    ETHERTYPE_ARP,
};

verus! {

/// The answer to an ARP request: who has the address.
#[derive(Clone, Debug)]
pub struct ArpReply {
    pub ip: String,
    pub mac: String,
    pub iface: String,
}

/// The payload of an Ethernet frame: what follows its 14-byte header.
pub open spec fn ethernet_payload(f: Seq<u8>) -> Seq<u8> {
    if f.len() <= 14 {
        Seq::<u8>::empty()
    } else {
        f.subrange(14, f.len() as int)
    }
}

/// The sender hardware address of an ARP packet.
pub open spec fn arp_sender_mac(a: Seq<u8>) -> MacAddr {
    MacAddr(a[8], a[9], a[10], a[11], a[12], a[13])
}

/// The sender protocol address of an ARP packet.
pub open spec fn arp_sender_ip(a: Seq<u8>) -> Ipv4Addr {
    Ipv4Addr(a[14], a[15], a[16], a[17])
}

/// `f` is an Ethernet frame carrying an ARP reply (operation 2) sent by
/// `target`.
pub open spec fn arp_reply_matches(f: Seq<u8>, target: Ipv4Addr) -> bool {
    let a = ethernet_payload(f);
    &&& f.len() >= 14
    &&& be16_at(f, 12) == ETHERTYPE_ARP
    &&& a.len() >= 28
    &&& be16_at(a, 6) == ARP_OP_REPLY
    &&& arp_sender_ip(a) == target
}

/// Reads a received Ethernet frame as the ARP reply from `target`, seen on
/// the interface `iface`; `None` where it is not one (requests are not
/// replies).
pub fn arp_reply_from_frame(frame: &[u8], target: Ipv4Addr, iface: &str) -> (r: Option<ArpReply>)
    ensures
        r is Some <==> arp_reply_matches(frame@, target),
        r matches Some(x) ==> x.ip@ == ipv4_text(target) && x.mac@ == mac_text(
            arp_sender_mac(ethernet_payload(frame@)),
        ) && x.iface@ == iface@,
{
    if frame.len() < ETHERNET_HEADER_LEN {
        return None;
    }
    if read_be16(frame, 12) != ETHERTYPE_ARP {
        return None;
    }
    if frame.len() < ETHERNET_HEADER_LEN + ARP_PACKET_LEN {
        return None;
    }
    let sender = Ipv4Addr(frame[28], frame[29], frame[30], frame[31]);
    let mac = MacAddr(frame[22], frame[23], frame[24], frame[25], frame[26], frame[27]);
    proof {
        let a = ethernet_payload(frame@);
        assert(a[14] == frame@[28]);
        assert(a[8] == frame@[22]);
        assert(a[9] == frame@[23]);
        assert(a[10] == frame@[24]);
        assert(a[11] == frame@[25]);
        assert(a[12] == frame@[26]);
        assert(a[13] == frame@[27]);
        assert(a[15] == frame@[29]);
        assert(a[16] == frame@[30]);
        assert(a[17] == frame@[31]);
        assert(a[6] == frame@[20]);
        assert(a[7] == frame@[21]);
    }
    if read_be16(frame, 20) != ARP_OP_REPLY || sender != target {
        return None;
    }
    Some(ArpReply { ip: ipv4_to_string(target), mac: mac_to_string(mac), iface: iface.to_owned() })
}

/// `t` is the text of some IPv4 address.
pub open spec fn is_ipv4_text(t: Seq<char>) -> bool {
    exists|a: Ipv4Addr| ipv4_text(a) == t
}

/// The address whose text is `t`.
pub open spec fn ipv4_of_text(t: Seq<char>) -> Ipv4Addr {
    choose|a: Ipv4Addr| ipv4_text(a) == t
}

fn parse_target(t: &str) -> (r: Result<Ipv4Addr, PacketError>)
    ensures
        is_ipv4_text(t@) <==> r is Ok,
        r matches Ok(a) ==> a == ipv4_of_text(t@),
        r matches Err(e) ==> is_invalid_ipv4_text(e, t@),
{
    let r = parse_ipv4(t);
    proof {
        if let Ok(a) = r {
            assert(ipv4_text(a) == t@);
            crate::addr::lemma_ipv4_text_injective(a, ipv4_of_text(t@));
        }
    }
    r
}

/// The hardware and protocol addresses an ARP request is sent from: those
/// given as text, else the interface's; a request with no hardware address
/// is refused, one with no protocol address asks from `0.0.0.0`.
pub open spec fn arp_source_of(
    info: InterfaceInfo,
    src_ip: Option<Seq<char>>,
    src_mac: Option<Seq<char>>,
    r: Result<(MacAddr, Ipv4Addr), PacketError>,
) -> bool {
    match src_mac {
        Some(tm) => match pnet_mac_from_str(tm) {
            Err(k) => r matches Err(e) && e matches PacketError::InvalidMac(t, k2) && t@ == tm && k2 == k,
            Ok(o) => arp_source_ip_of(info, src_ip, o, r),
        },
        None => match info.mac {
            Some(m) => arp_source_ip_of(info, src_ip, m.octets(), r),
            None => r matches Err(e) && e matches PacketError::InterfaceHasNoMacAddress(n) && n@ == info.name@,
        },
    }
}

/// The protocol address an ARP request is sent from, its hardware address
/// having octets `mac`.
pub open spec fn arp_source_ip_of(
    info: InterfaceInfo,
    src_ip: Option<Seq<char>>,
    mac: Seq<u8>,
    r: Result<(MacAddr, Ipv4Addr), PacketError>,
) -> bool {
    match src_ip {
        Some(ti) => if is_ipv4_text(ti) {
            r matches Ok((m, s)) && m.octets() == mac && s == ipv4_of_text(ti)
        } else {
            r matches Err(e) && is_invalid_ipv4_text(e, ti)
        },
        None => r matches Ok((m, s)) && m.octets() == mac && s == match info.ipv4 {
            Some(a) => a,
            None => Ipv4Addr(0, 0, 0, 0),
        },
    }
}

/// Chooses the addresses an ARP request is sent from.
pub fn arp_request_source(info: &InterfaceInfo, src_ip: Option<&str>, src_mac: Option<&str>) -> (r: Result<(MacAddr, Ipv4Addr), PacketError>)
    ensures
        arp_source_of(*info, str_view(src_ip), str_view(src_mac), r),
{
    let mac = match src_mac {
        Some(m) => match parse_mac(m) {
            Ok(x) => x,
            Err(e) => {
                return Err(e);
            },
        },
        None => match info.mac {
            Some(x) => x,
            None => {
                return Err(PacketError::InterfaceHasNoMacAddress(info.name.clone()));
            },
        },
    };
    let src = match src_ip {
        Some(s) => match parse_target(s) {
            Ok(a) => a,
            Err(e) => {
                return Err(e);
            },
        },
        None => match info.ipv4 {
            Some(a) => a,
            None => Ipv4Addr::unspecified(),
        },
    };
    Ok((mac, src))
}

/// Builds the frame of an ARP request for the address `target_ip`, sent on the
/// interface `iface` (or the default one), from the given or the interface's
/// addresses.
pub fn build_arp_request(
    target_ip: &str,
    ifaces: Vec<NetworkInterface>,
    iface: Option<&str>,
    src_ip: Option<&str>,
    src_mac: Option<&str>,
) -> (r: Result<Vec<u8>, PacketError>)
    ensures
        !is_ipv4_text(target_ip@) ==> (r matches Err(e) && is_invalid_ipv4_text(e, target_ip@)),
        is_ipv4_text(target_ip@) ==> ({
            ||| exists|e: PacketError| chose_interface(ifaces@, str_view(iface), Err(e)) && r == Err::<Vec<u8>, PacketError>(e)
            ||| exists|info: InterfaceInfo, s: Result<(MacAddr, Ipv4Addr), PacketError>| {
                &&& chose_interface(ifaces@, str_view(iface), Ok(info))
                &&& arp_source_of(info, str_view(src_ip), str_view(src_mac), s)
                &&& match s {
                    Ok((m, a)) => r matches Ok(b) && b@ == arp_request_frame(m, a, ipv4_of_text(target_ip@)),
                    Err(e) => r == Err::<Vec<u8>, PacketError>(e),
                }
            }
        }),
{
    let target = match parse_target(target_ip) {
        Ok(a) => a,
        Err(e) => {
            return Err(e);
        },
    };
    let info = match interface_or_default(ifaces, iface) {
        Ok(i) => i,
        Err(e) => {
            return Err(e);
        },
    };
    let source = arp_request_source(&info, src_ip, src_mac);
    match source {
        Ok((mac, src)) => Ok(build_arp_request_bytes(mac, src, target)),
        Err(e) => Err(e),
    }
}

/// An ARP request ready to send on an interface.
pub struct ArpRequest {
    pub target: Ipv4Addr,
    pub iface: InterfaceInfo,
    pub bytes: Vec<u8>,
}

/// Prepares the ARP request that asks who has `target_ip`, sent on the
/// interface `iface` (or the default one) from its own addresses; refused
/// where that interface lacks a MAC or an IPv4 address.
pub fn arp_request_for(target_ip: &str, ifaces: Vec<NetworkInterface>, iface: Option<&str>) -> (r: Result<ArpRequest, PacketError>)
    ensures
        !is_ipv4_text(target_ip@) ==> (r matches Err(e) && is_invalid_ipv4_text(e, target_ip@)),
        is_ipv4_text(target_ip@) ==> ({
            ||| exists|e: PacketError| chose_interface(ifaces@, str_view(iface), Err(e)) && r == Err::<ArpRequest, PacketError>(e)
            ||| exists|info: InterfaceInfo| {
                &&& chose_interface(ifaces@, str_view(iface), Ok(info))
                &&& match (info.mac, info.ipv4) {
                    (Some(m), Some(a)) => r matches Ok(q) && q.target == ipv4_of_text(target_ip@) && q.iface == info
                        && q.bytes@ == arp_request_frame(m, a, q.target),
                    (None, _) => r matches Err(e) && e matches PacketError::IfaceHasNoMac(n) && n@ == info.name@,
                    (Some(_), None) => r matches Err(e) && e matches PacketError::IfaceHasNoIpv4(n) && n@ == info.name@,
                }
            }
        }),
{
    let target = match parse_target(target_ip) {
        Ok(a) => a,
        Err(e) => {
            return Err(e);
        },
    };
    let info = match interface_or_default(ifaces, iface) {
        Ok(i) => i,
        Err(e) => {
            return Err(e);
        },
    };
    let mac = match info.mac {
        Some(m) => m,
        None => {
            return Err(PacketError::IfaceHasNoMac(info.name.clone()));
        },
    };
    let src = match info.ipv4 {
        Some(a) => a,
        None => {
            return Err(PacketError::IfaceHasNoIpv4(info.name.clone()));
        },
    };
    let bytes = build_arp_request_bytes(mac, src, target);
    Ok(ArpRequest { target, iface: info, bytes })
}

} // verus!
