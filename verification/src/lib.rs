//! Verified core of a low-bandwidth supervisory control console client.
//!
//! The crate carries the pure logic of the protocol: the pad-indexed
//! authenticated-encryption codec, the little-endian wire conversions, the
//! bounded duplicate filter that suppresses replayed datagrams, and the
//! session state machine that drives subscription, identification, message
//! acknowledgement and recovery.  All I/O (the UDP socket, the terminal, the
//! log file) lives outside: callers hand datagram bytes and clock readings in
//! and carry payload bytes out.

pub mod codec;
pub mod filter;
pub mod session;
pub mod wire;
