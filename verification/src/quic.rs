//! QUIC Initial packets and the client hello inside them.

pub mod crypto;
pub mod frame;
pub mod handshake;
pub mod initial;
pub mod varint;

pub use frame::{FrameConsumeError, FrameParseError};
pub use handshake::{CryptoCoalesceError, HandshakeCoalescer};
pub use initial::{InitialHeader, InitialPacket, PacketParseError};
