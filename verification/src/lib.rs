//! A user-space TCP engine: sequence-space arithmetic, the per-connection
//! state machine for the opening handshake, and the table that routes
//! inbound segments to their connection.
//!
//! The engine does no I/O. It is handed raw IPv4 datagrams and hands back
//! the frames to transmit; reading and writing the network interface is the
//! caller's business.
//!
//! - [`seqnum`]: comparison of sequence numbers on the circle of 2^32.
//! - [`wire`]: the header fields the engine works on, and where they stand in
//!   a frame.
//! - [`codec`]: the calls into `etherparse`, which reads and writes the bytes.
//! - [`reply`]: building the datagram for an outbound segment.
//! - [`tcp`]: the connection and its state machine.
//! - [`table`]: the connection table and the dispatcher of inbound frames.

pub mod codec;
pub mod reply;
pub mod seqnum;
pub mod table;
pub mod tcp;
pub mod wire;
