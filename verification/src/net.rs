//! Hosts, addresses and server names.

pub mod addr;
pub mod host;
pub mod server_name;

pub use addr::{IpAddr, SocketAddr};
pub use host::{Host, HostView, UpstreamAddr, UpstreamAddrView};
pub use server_name::{TlsServerName, TlsServerNameError};
