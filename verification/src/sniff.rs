//! Capture and waiting for replies: what a captured frame is, when a
//! capture stops, and what waiting for a reply does on each event.
use vstd::prelude::*;

use crate::bytes::{be16_at, read_be16};
use crate::error::PacketError;
use crate::packet::ETHERNET_HEADER_LEN;

verus! {

/// The frame type of an Ethernet frame; `None` where the bytes are too short
/// to hold an Ethernet header.
pub fn ethertype_of(bytes: &[u8]) -> (r: Option<u16>)
    ensures
        bytes@.len() >= 14 ==> r == Some(be16_at(bytes@, 12) as u16),
        bytes@.len() < 14 ==> r is None,
{
    if bytes.len() < ETHERNET_HEADER_LEN {
        None
    } else {
        Some(read_be16(bytes, 12))
    }
}

/// A capture needs a packet count or a timeout to end.
pub fn check_sniff_limits(count: Option<usize>, has_timeout: bool) -> (r: Result<(), PacketError>)
    ensures
        r is Err <==> count is None && !has_timeout,
        r matches Err(e) ==> e is SniffNeedsLimit,
{
    if count.is_none() && !has_timeout {
        Err(PacketError::SniffNeedsLimit)
    } else {
        Ok(())
    }
}

/// A capture that has `captured` frames stops once it holds `count` frames,
/// where a count was given, or once its deadline has passed.
pub fn sniff_done(count: Option<usize>, captured: usize, past_deadline: bool) -> (r: bool)
    ensures
        r == ((count matches Some(c) && captured >= c) || past_deadline),
{
    match count {
        Some(c) => if captured >= c {
            return true;
        },
        None => {},
    }
    past_deadline
}

/// The kind of an error from reading a frame or packet.
#[derive(Clone, Copy, Debug, PartialEq, Eq, Structural)]
pub enum RecvErrorKind {
    TimedOut,
    WouldBlock,
    Other,
}

/// A read that timed out or would block is tried again; any other error ends
/// the capture.
pub fn recv_error_is_retry(kind: RecvErrorKind) -> (r: bool)
    ensures
        r == (kind is TimedOut || kind is WouldBlock),
{
    match kind {
        RecvErrorKind::TimedOut => true,
        RecvErrorKind::WouldBlock => true,
        RecvErrorKind::Other => false,
    }
}

/// What one turn of waiting for a reply saw.
#[derive(Clone, Copy, Debug, PartialEq, Eq, Structural)]
pub enum WaitEvent {
    /// The deadline has passed.
    TimeUp,
    /// A packet arrived and it is the reply.
    Answered,
    /// A packet arrived that is not the reply.
    Unrelated,
    /// No packet arrived in the time given to the read.
    NothingYet,
    /// The read failed.
    ReadFailed,
}

/// What waiting for a reply does next.
#[derive(Clone, Copy, Debug, PartialEq, Eq, Structural)]
pub enum WaitAction {
    /// Return the reply.
    Answer,
    /// Read again.
    KeepWaiting,
    /// Stop without a reply.
    GiveUp,
}

/// Waiting for a reply returns the first packet that is the reply, reads on
/// past unrelated packets and empty reads, and gives up once the deadline
/// has passed or a read fails.
pub fn wait_step(event: WaitEvent) -> (a: WaitAction)
    ensures
        a is Answer <==> event is Answered,
        a is KeepWaiting <==> (event is Unrelated || event is NothingYet),
        a is GiveUp <==> (event is TimeUp || event is ReadFailed),
{
    match event {
        WaitEvent::Answered => WaitAction::Answer,
        WaitEvent::Unrelated => WaitAction::KeepWaiting,
        WaitEvent::NothingYet => WaitAction::KeepWaiting,
        WaitEvent::TimeUp => WaitAction::GiveUp,
        WaitEvent::ReadFailed => WaitAction::GiveUp,
    }
}

} // verus!
