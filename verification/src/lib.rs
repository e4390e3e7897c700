//! Protocol inspection data plane: handshake parsing, reply parsing,
//! inspection policy and the decisions of the inspection bridge.

pub mod acl;
pub mod action;
pub mod config;
pub mod error;
pub mod limit;
pub mod net;
pub mod quic;
pub mod smtp;
pub mod sni;
pub mod socks5s;
pub mod tls;
pub mod websocket;
pub mod wire;
