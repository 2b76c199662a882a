//! Network interfaces: their description, and which one a request uses.
use vstd::prelude::*;

use crate::addr::{ipv4_text, ipv4_to_string, mac_text, mac_to_string, Ipv4Addr, MacAddr};
use crate::error::{is_no_such_interface, PacketError};

verus! {

/// An address of an interface: IPv4, or IPv6 held as its text.
#[derive(Clone, Debug)]
pub enum IpAddr {
    V4(Ipv4Addr),
    V6(String),
}

/// A network interface as the system lists it.
#[derive(Clone, Debug)]
pub struct NetworkInterface {
    pub name: String,
    pub mac: Option<MacAddr>,
    pub ips: Vec<IpAddr>,
    pub is_up: bool,
    pub is_loopback: bool,
    pub index: u32,
}

/// The description of an interface handed to callers: addresses as text.
#[derive(Clone, Debug)]
pub struct Interface {
    pub name: String,
    pub mac: Option<String>,
    pub ipv4: Vec<String>,
    pub ipv6: Vec<String>,
    pub is_up: bool,
    pub is_loopback: bool,
    pub index: u32,
}

/// An interface chosen for a request, with its place in the list it was
/// chosen from, its name, MAC address and first IPv4 address.
pub struct InterfaceInfo {
    pub position: usize,
    pub pnet: NetworkInterface,
    pub name: String,
    pub mac: Option<MacAddr>,
    pub ipv4: Option<Ipv4Addr>,
}

/// The texts of the IPv4 addresses among `ips`, in order.
pub open spec fn ipv4_texts(ips: Seq<IpAddr>) -> Seq<Seq<char>>
    decreases ips.len(),
{
    if ips.len() == 0 {
        Seq::empty()
    } else {
        ipv4_texts(ips.drop_last()) + match ips.last() {
            IpAddr::V4(a) => seq![ipv4_text(a)],
            IpAddr::V6(_) => Seq::empty(),
        }
    }
}

/// The texts of the IPv6 addresses among `ips`, in order.
pub open spec fn ipv6_texts(ips: Seq<IpAddr>) -> Seq<Seq<char>>
    decreases ips.len(),
{
    if ips.len() == 0 {
        Seq::empty()
    } else {
        ipv6_texts(ips.drop_last()) + match ips.last() {
            IpAddr::V4(_) => Seq::empty(),
            IpAddr::V6(s) => seq![s@],
        }
    }
}

/// The views of a list of strings.
pub open spec fn texts(v: Seq<String>) -> Seq<Seq<char>> {
    v.map_values(|s: String| s@)
}

/// `x` describes the interface `i`.
pub open spec fn describes(x: Interface, i: NetworkInterface) -> bool {
    &&& x.name@ == i.name@
    &&& match i.mac {
        Some(m) => x.mac matches Some(t) && t@ == mac_text(m),
        None => x.mac is None,
    }
    &&& texts(x.ipv4@) == ipv4_texts(i.ips@)
    &&& texts(x.ipv6@) == ipv6_texts(i.ips@)
    &&& x.is_up == i.is_up
    &&& x.is_loopback == i.is_loopback
    &&& x.index == i.index
}

impl Interface {
    /// Describes an interface, its addresses written as text.
    pub fn from(i: &NetworkInterface) -> (r: Interface)
        ensures
            describes(r, *i),
    {
        let mut v4: Vec<String> = Vec::new();
        let mut v6: Vec<String> = Vec::new();
        let mut k: usize = 0;
        while k < i.ips.len()
            invariant
                0 <= k <= i.ips@.len(),
                texts(v4@) == ipv4_texts(i.ips@.take(k as int)),
                texts(v6@) == ipv6_texts(i.ips@.take(k as int)),
            decreases i.ips@.len() - k,
        {
            let ghost pre = i.ips@.take(k as int);
            proof {
                assert(i.ips@.take(k + 1).drop_last() =~= pre);
                assert(i.ips@.take(k + 1).last() == i.ips@[k as int]);
            }
            match &i.ips[k] {
                IpAddr::V4(a) => {
                    v4.push(ipv4_to_string(*a));
                },
                IpAddr::V6(s) => {
                    v6.push(s.clone());
                },
            }
            proof {
                assert(texts(v4@) =~= ipv4_texts(i.ips@.take(k + 1)));
                assert(texts(v6@) =~= ipv6_texts(i.ips@.take(k + 1)));
            }
            k = k + 1;
        }
        proof {
            assert(i.ips@.take(i.ips@.len() as int) =~= i.ips@);
        }
        let mac = match i.mac {
            Some(m) => Some(mac_to_string(m)),
            None => None,
        };
        Interface {
            name: i.name.clone(),
            mac,
            ipv4: v4,
            ipv6: v6,
            is_up: i.is_up,
            is_loopback: i.is_loopback,
            index: i.index,
        }
    }
}

/// Describes every interface, in order.
pub fn list_interfaces(ifaces: &Vec<NetworkInterface>) -> (r: Vec<Interface>)
    ensures
        r@.len() == ifaces@.len(),
        forall|k: int| 0 <= k < r@.len() ==> describes(#[trigger] r@[k], ifaces@[k]),
{
    let mut r: Vec<Interface> = Vec::new();
    let mut k: usize = 0;
    while k < ifaces.len()
        invariant
            0 <= k <= ifaces@.len(),
            r@.len() == k,
            forall|j: int| 0 <= j < k ==> describes(#[trigger] r@[j], ifaces@[j]),
        decreases ifaces@.len() - k,
    {
        r.push(Interface::from(&ifaces[k]));
        k = k + 1;
    }
    r
}

pub open spec fn is_v4(a: IpAddr) -> bool {
    a is V4
}

/// The interface has an IPv4 address.
pub open spec fn has_ipv4(i: NetworkInterface) -> bool {
    exists|j: int| 0 <= j < i.ips@.len() && is_v4(#[trigger] i.ips@[j])
}

/// The interface may serve as the default: up, not a loopback, with an IPv4
/// address.
pub open spec fn is_default_candidate(i: NetworkInterface) -> bool {
    i.is_up && !i.is_loopback && has_ipv4(i)
}

/// `a` is the first IPv4 address among `ips`; `None` where there is none.
pub open spec fn is_first_ipv4(ips: Seq<IpAddr>, a: Option<Ipv4Addr>) -> bool {
    match a {
        Some(x) => exists|j: int|
            0 <= j < ips.len() && ips[j] == IpAddr::V4(x) && forall|l: int| 0 <= l < j ==> !is_v4(#[trigger] ips[l]),
        None => forall|l: int| 0 <= l < ips.len() ==> !is_v4(#[trigger] ips[l]),
    }
}

fn first_ipv4(ips: &Vec<IpAddr>) -> (r: Option<Ipv4Addr>)
    ensures
        is_first_ipv4(ips@, r),
{
    let mut k: usize = 0;
    while k < ips.len()
        invariant
            0 <= k <= ips@.len(),
            forall|l: int| 0 <= l < k ==> !is_v4(#[trigger] ips@[l]),
        decreases ips@.len() - k,
    {
        match &ips[k] {
            IpAddr::V4(a) => {
                return Some(*a);
            },
            IpAddr::V6(_) => {},
        }
        k = k + 1;
    }
    None
}

fn holds_ipv4(i: &NetworkInterface) -> (r: bool)
    ensures
        r == has_ipv4(*i),
{
    let mut k: usize = 0;
    while k < i.ips.len()
        invariant
            0 <= k <= i.ips@.len(),
            forall|l: int| 0 <= l < k ==> !is_v4(#[trigger] i.ips@[l]),
        decreases i.ips@.len() - k,
    {
        match &i.ips[k] {
            IpAddr::V4(_) => {
                assert(is_v4(i.ips@[k as int]));
                return true;
            },
            IpAddr::V6(_) => {},
        }
        k = k + 1;
    }
    false
}

/// `k` is the first interface named `name`.
pub open spec fn is_first_named(ifaces: Seq<NetworkInterface>, name: Seq<char>, k: int) -> bool {
    &&& 0 <= k < ifaces.len()
    &&& ifaces[k].name@ == name
    &&& forall|l: int| 0 <= l < k ==> (#[trigger] ifaces[l]).name@ != name
}

/// `k` is the first interface that may serve as the default.
pub open spec fn is_first_candidate(ifaces: Seq<NetworkInterface>, k: int) -> bool {
    &&& 0 <= k < ifaces.len()
    &&& is_default_candidate(ifaces[k])
    &&& forall|l: int| 0 <= l < k ==> !is_default_candidate(#[trigger] ifaces[l])
}

/// `info` holds the interface `i`, its name, MAC and first IPv4 address.
pub open spec fn info_of(info: InterfaceInfo, i: NetworkInterface) -> bool {
    &&& info.pnet == i
    &&& info.name@ == i.name@
    &&& info.mac == i.mac
    &&& is_first_ipv4(i.ips@, info.ipv4)
}

/// What choosing an interface gives: the first named `name` where a name is
/// given, else the first that is up, not a loopback, and holds an IPv4
/// address; an error where there is none.
pub open spec fn chose_interface(
    ifaces: Seq<NetworkInterface>,
    name: Option<Seq<char>>,
    r: Result<InterfaceInfo, PacketError>,
) -> bool {
    match name {
        Some(n) => match r {
            Ok(info) => exists|k: int|
                is_first_named(ifaces, n, k) && info.position == k && info_of(info, #[trigger] ifaces[k]),
            Err(e) => (forall|k: int| 0 <= k < ifaces.len() ==> (#[trigger] ifaces[k]).name@ != n)
                && is_no_such_interface(e, n),
        },
        None => match r {
            Ok(info) => exists|k: int|
                is_first_candidate(ifaces, k) && info.position == k && info_of(info, #[trigger] ifaces[k]),
            Err(e) => (forall|k: int| 0 <= k < ifaces.len() ==> !is_default_candidate(#[trigger] ifaces[k]))
                && e is NoDefaultInterface,
        },
    }
}

pub open spec fn str_view(name: Option<&str>) -> Option<Seq<char>> {
    match name {
        Some(n) => Some(n@),
        None => None,
    }
}

fn info_for(chosen: NetworkInterface, position: usize) -> (info: InterfaceInfo)
    ensures
        info_of(info, chosen),
        info.position == position,
{
    let ipv4 = first_ipv4(&chosen.ips);
    let name = chosen.name.clone();
    let mac = chosen.mac;
    InterfaceInfo { position, pnet: chosen, name, mac, ipv4 }
}

/// Chooses the interface named `name` or, where no name is given, the first
/// that is up, not a loopback, and holds an IPv4 address.
#[verifier::loop_isolation(false)]
pub fn interface_or_default(ifaces: Vec<NetworkInterface>, name: Option<&str>) -> (r: Result<InterfaceInfo, PacketError>)
    ensures
        chose_interface(ifaces@, str_view(name), r),
{
    let ghost all = ifaces@;
    let mut ifaces = ifaces;
    match name {
        Some(n) => {
            let wanted = n.to_owned();
            let mut k: usize = 0;
            while k < ifaces.len()
                invariant
                    ifaces@ == all,
                    name == Some(n),
                    wanted@ == n@,
                    0 <= k <= all.len(),
                    forall|l: int| 0 <= l < k ==> (#[trigger] all[l]).name@ != n@,
                decreases all.len() - k,
            {
                if ifaces[k].name == wanted {
                    let chosen = ifaces.remove(k);
                    let info = info_for(chosen, k);
                    proof {
                        assert(is_first_named(all, n@, k as int));
                        assert(info_of(info, all[k as int]));
                    }
                    return Ok(info);
                }
                k = k + 1;
            }
            Err(PacketError::NoSuchInterface(wanted))
        },
        None => {
            let mut k: usize = 0;
            while k < ifaces.len()
                invariant
                    ifaces@ == all,
                    name is None,
                    0 <= k <= all.len(),
                    forall|l: int| 0 <= l < k ==> !is_default_candidate(#[trigger] all[l]),
                decreases all.len() - k,
            {
                if ifaces[k].is_up && !ifaces[k].is_loopback && holds_ipv4(&ifaces[k]) {
                    let chosen = ifaces.remove(k);
                    let info = info_for(chosen, k);
                    proof {
                        assert(is_first_candidate(all, k as int));
                        assert(info_of(info, all[k as int]));
                    }
                    return Ok(info);
                }
                k = k + 1;
            }
            Err(PacketError::NoDefaultInterface)
        },
    }
}

/// Describes the default interface: the first that is up, not a loopback,
/// and holds an IPv4 address.
pub fn default_interface(ifaces: Vec<NetworkInterface>) -> (r: Result<Interface, PacketError>)
    ensures
        match r {
            Ok(x) => exists|k: int| is_first_candidate(ifaces@, k) && describes(x, #[trigger] ifaces@[k]),
            Err(e) => (forall|k: int| 0 <= k < ifaces@.len() ==> !is_default_candidate(#[trigger] ifaces@[k]))
                && e is NoDefaultInterface,
        },
{
    match interface_or_default(ifaces, None) {
        Ok(info) => Ok(Interface::from(&info.pnet)),
        Err(e) => Err(e),
    }
}

/// Describes the first interface named `name`.
pub fn interface_for(ifaces: Vec<NetworkInterface>, name: &str) -> (r: Result<Interface, PacketError>)
    ensures
        match r {
            Ok(x) => exists|k: int| is_first_named(ifaces@, name@, k) && describes(x, #[trigger] ifaces@[k]),
            Err(e) => (forall|k: int| 0 <= k < ifaces@.len() ==> (#[trigger] ifaces@[k]).name@ != name@)
                && is_no_such_interface(e, name@),
        },
{
    match interface_or_default(ifaces, Some(name)) {
        Ok(info) => Ok(Interface::from(&info.pnet)),
        Err(e) => Err(e),
    }
}

} // verus!
