//! Framing and option negotiation for a Telnet-derived byte protocol.
//!
//! The crate is sans-I/O: it classifies buffered bytes into frames and
//! produces the bytes of negotiation commands, and leaves reading from and
//! writing to the peer to its caller.

pub mod buffer;
pub mod frame;
pub mod frame_lemmas;
pub mod negotiation;
pub mod connection;
