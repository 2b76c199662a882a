//! Packet bytes handed back to callers that want to look at them.
use vstd::prelude::*;

verus! {

/// The bytes of a TCP packet.
#[derive(Clone, Debug)]
pub struct RawTcp {
    pub bytes: Vec<u8>,
}

impl RawTcp {
    /// The number of bytes.
    pub fn len(&self) -> (r: usize)
        ensures
            r == self.bytes@.len(),
    {
        self.bytes.len()
    }
}

/// The bytes of a UDP packet.
#[derive(Clone, Debug)]
pub struct RawUdp {
    pub bytes: Vec<u8>,
}

/// The bytes of an ICMP echo packet.
#[derive(Clone, Debug)]
pub struct RawIcmpEcho {
    pub bytes: Vec<u8>,
}

} // verus!
