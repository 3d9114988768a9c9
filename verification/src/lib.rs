//! A small UDP game-lobby server: a byte cursor over datagram buffers,
//! the little-endian wire encoding of the values it carries, and the
//! server's request handling, all verified.
pub mod clock;
pub mod ops;
pub mod server;
pub mod text;
pub mod wire;
pub mod laws;
