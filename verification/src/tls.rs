//! TLS records, handshake messages and the client hello.

pub mod client_hello;
pub mod extension;
pub mod fragmentation;
pub mod handshake;
pub mod record;
pub mod version;

pub use client_hello::{ClientHello, ClientHelloParseError, ClientHelloView};
pub use extension::{ExtensionParseError, ExtensionType};
pub use handshake::{HandshakeCoalesceError, HandshakeCoalescer, HandshakeMessage};
pub use record::{ContentType, Record, RecordHeader, RecordParseError};
pub use version::RawVersion;
