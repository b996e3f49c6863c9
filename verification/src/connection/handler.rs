//! What becomes of an incoming packet.
use vstd::prelude::*;

verus! {

/// The connection that an incoming packet belongs to, or why it is dropped.
#[derive(Clone, Copy, Debug, PartialEq, Eq)]
pub enum PacketRoute {
    /// The connection at this position of the table.
    Known(usize),
    /// A new connection is to be accepted for it.
    Accept,
    /// No connection knows it and it does not open one.
    DropUnknown,
    /// It would open a connection, but the server is shutting down.
    DropShuttingDown,
}

/// Where a packet goes: to the connection whose ID is its destination ID
/// (`by_dcid`), else to the one whose source ID is (`by_source_id`); else,
/// if it is an Initial packet and the server still accepts connections, to
/// a new connection; else nowhere.
pub fn route_packet(
    by_dcid: Option<usize>,
    by_source_id: Option<usize>,
    is_initial: bool,
    accepting_new: bool,
) -> (r: PacketRoute)
    ensures
        r == (match (by_dcid, by_source_id) {
            (Some(i), _) => PacketRoute::Known(i),
            (None, Some(i)) => PacketRoute::Known(i),
            (None, None) => if !is_initial {
                PacketRoute::DropUnknown
            } else if !accepting_new {
                PacketRoute::DropShuttingDown
            } else {
                PacketRoute::Accept
            },
        }),
{
    if let Some(i) = by_dcid {
        PacketRoute::Known(i)
    } else if let Some(i) = by_source_id {
        PacketRoute::Known(i)
    } else if !is_initial {
        PacketRoute::DropUnknown
    } else if !accepting_new {
        PacketRoute::DropShuttingDown
    } else {
        PacketRoute::Accept
    }
}

/// What a send attempt on a connection gave.
#[derive(Clone, Copy, Debug, PartialEq, Eq)]
pub enum SendOutcome {
    /// A datagram of this many bytes is ready.
    Packet(usize),
    /// Nothing more to send.
    Done,
    /// Sending failed.
    Failed,
}

/// The egress loop: a ready datagram is sent and the loop goes on; it ends
/// when nothing is left or sending fails. The answer is the number of bytes
/// to send, if any.
pub fn egress_step(outcome: SendOutcome) -> (r: Option<usize>)
    ensures
        r == (match outcome {
            SendOutcome::Packet(n) => Some(n),
            _ => None::<usize>,
        }),
{
    match outcome {
        SendOutcome::Packet(n) => Some(n),
        _ => None,
    }
}

} // verus!
