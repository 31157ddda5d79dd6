//! Core of a multi-room collaborative whiteboard server.
//!
//! Any number of independent rooms each hold connected participants who
//! exchange vector-drawing primitives and live cursor positions. This crate
//! holds the coordination engine: the wire protocol shapes, the per-room
//! actor that serializes membership and drawing-log mutation, the room
//! registry with its deletion mailbox, and the join/leave handshake. Every
//! state transition is specified against a mathematical model and verified.
//!
//! Sockets, scheduling and JSON framing live outside this crate: a host
//! drains each mailbox in order, feeds events to the functions here, and
//! performs the deliveries they return.

use vstd::prelude::*;

pub mod client;
pub mod figure;
pub mod handshake;
pub mod laws;
pub mod message;
pub mod room;
pub mod seqs;
pub mod server;
pub mod user;

verus! {

/// Sum of two lengths, defined only where the sum fits the platform word.
pub fn add(left: usize, right: usize) -> (sum: usize)
    requires
        left + right <= usize::MAX,
    ensures
        sum == left + right,
{
    left + right
}

} // verus!
