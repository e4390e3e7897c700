//! The host and port that a flow is bound for.

use vstd::prelude::*;
use vstd::std_specs::convert::{FromSpec, FromSpecImpl};
use super::addr::IpAddr;
use super::server_name::TlsServerName;

verus! {

/// A destination host: a name or an address.
#[derive(Clone, Debug, PartialEq, Eq, Hash)]
pub enum Host {
    Domain(String),
    Ip(IpAddr),
}

/// A host as mathematical values.
pub ghost enum HostView {
    Domain(Seq<char>),
    Ip(IpAddr),
}

impl View for Host {
    type V = HostView;

    open spec fn view(&self) -> HostView {
        match self {
            Host::Domain(d) => HostView::Domain(d@),
            Host::Ip(ip) => HostView::Ip(*ip),
        }
    }
}

impl From<TlsServerName> for Host {
    /// The host that a server name stands for.
    fn from(name: TlsServerName) -> (r: Host) {
        Host::Domain(name.into_string())
    }
}

impl FromSpecImpl<TlsServerName> for Host {
    open spec fn obeys_from_spec() -> bool {
        true
    }

    open spec fn from_spec(name: TlsServerName) -> Host {
        Host::Domain(name.spec_into_string())
    }
}

/// The host that a server name stands for is the domain of that name.
pub proof fn lemma_host_of_server_name(name: TlsServerName)
    ensures
        <Host as FromSpec<TlsServerName>>::from_spec(name)@ == HostView::Domain(name@),
{
    name.lemma_into_string();
}

/// A destination: host and port.
#[derive(Clone, Debug, PartialEq, Eq, Hash)]
pub struct UpstreamAddr {
    host: Host,
    port: u16,
}

pub ghost struct UpstreamAddrView {
    pub host: HostView,
    pub port: u16,
}

impl View for UpstreamAddr {
    type V = UpstreamAddrView;

    closed spec fn view(&self) -> UpstreamAddrView {
        UpstreamAddrView { host: self.host@, port: self.port }
    }
}

impl UpstreamAddr {
    pub fn new(host: Host, port: u16) -> (r: UpstreamAddr)
        ensures
            r@ == (UpstreamAddrView { host: host@, port }),
    {
        UpstreamAddr { host, port }
    }

    pub fn host(&self) -> (r: &Host)
        ensures
            r@ == self@.host,
    {
        &self.host
    }

    pub fn port(&self) -> (r: u16)
        ensures
            r == self@.port,
    {
        self.port
    }
}

} // verus!
