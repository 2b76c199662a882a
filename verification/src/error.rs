//! The errors the library reports.
use vstd::prelude::*;

verus! {

/// Why the parse of a MAC address text failed, as the text-to-address
/// conversion reports it.
#[derive(Clone, Copy, Debug, PartialEq, Eq, Structural)]
pub enum MacParseError {
    TooManyComponents,
    TooFewComponents,
    InvalidComponent,
}

/// The errors of this library. Each names the input that caused it.
#[derive(Debug)]
pub enum PacketError {
    /// The text is not a dotted-decimal IPv4 address.
    InvalidIpv4(String),
    /// The text is not a colon-separated MAC address.
    InvalidMac(String, MacParseError),
    /// No interface has this name.
    NoSuchInterface(String),
    /// No interface is up, not a loopback, and holds an IPv4 address.
    NoDefaultInterface,
    /// The interface chosen to build an ARP request has no MAC address.
    InterfaceHasNoMacAddress(String),
    /// The interface chosen to resolve an address has no MAC address.
    IfaceHasNoMac(String),
    /// The interface chosen to resolve an address has no IPv4 address.
    IfaceHasNoIpv4(String),
    /// The protocol name is none of `tcp`, `udp`, `icmp` (in any case).
    UnknownProtocol(String),
    /// The bytes are too short to hold an IPv4 header.
    PacketTooShortForIpv4,
    /// A capture was asked for with neither a packet count nor a timeout.
    SniffNeedsLimit,
}

/// `e` reports that no interface is named `name`.
pub open spec fn is_no_such_interface(e: PacketError, name: Seq<char>) -> bool {
    e matches PacketError::NoSuchInterface(t) && t@ == name
}

/// `e` reports that the text `s` is not an IPv4 address.
pub open spec fn is_invalid_ipv4_text(e: PacketError, s: Seq<char>) -> bool {
    e matches PacketError::InvalidIpv4(t) && t@ == s
}

} // verus!
