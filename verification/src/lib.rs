//! Packet construction, parsing and matching for raw IPv4 probing (TCP, UDP,
//! ICMP echo, ARP), the address text formats they use, and the choice of the
//! network interface a request goes out on.

pub mod addr;
pub mod arp;
pub mod bytes;
pub mod checksum;
pub mod datalink;
pub mod error;
pub mod flags;
pub mod icmp;
pub mod ipv4;
pub mod laws;
pub mod packet;
mod random;
pub mod raw;
pub mod sniff;
pub mod tcp;
pub mod text;
pub mod udp;
