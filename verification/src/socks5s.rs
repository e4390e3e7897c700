//! Reaching the upstream through a SOCKS5 peer that is spoken to over TLS:
//! what is asked of the peer, and what is made of its answers.

use vstd::prelude::*;
use crate::error::TcpConnectError;
use crate::limit::{
    bytes_in,
    clock_goes_on,
    lemma_no_window_exceeds_the_limits,
    packets_in,
    LimiterOp,
    LimiterView,
    LocalLimiter,
    SocketSpeedLimit,
};
use crate::net::addr::{IpAddr, SocketAddr};
use crate::net::host::UpstreamAddr;

verus! {

/// What is noted of a connection while it is made.
#[derive(Debug)]
pub struct TcpConnectTaskNotes {
    /// Where the task wants to go.
    pub upstream: UpstreamAddr,
    /// The local address of the connection to the peer.
    pub local: Option<SocketAddr>,
    /// The address of the peer.
    pub next: Option<SocketAddr>,
    /// The address from which the peer says it goes on.
    pub outgoing_addr: Option<SocketAddr>,
}

/// How something that was given a time limit ended.
#[derive(Clone, Copy, Debug, PartialEq, Eq, Structural)]
pub enum Timed<T> {
    /// It ended in time, with this outcome.
    Done(T),
    /// The time was up first.
    Elapsed,
}

/// Why a UDP association was not set up.
#[derive(Clone, Copy, Debug, PartialEq, Eq, Structural)]
pub enum UdpAssociateError {
    /// The connection to the peer has no local address.
    NoLocalTcpAddress,
    /// The connection to the peer has no peer address.
    NoPeerTcpAddress,
    /// The peer did not finish the negotiation in time.
    PeerNegotiationTimeout,
    /// The handshake, the negotiation or the socket failed; the caller
    /// holds the cause.
    Failed,
}

impl UdpAssociateError {
    pub fn message(&self) -> (r: &'static str)
        ensures
            r@ == match self {
                UdpAssociateError::NoLocalTcpAddress => "no local tcp address"@,
                UdpAssociateError::NoPeerTcpAddress => "no peer tcp address"@,
                UdpAssociateError::PeerNegotiationTimeout => "peer negotiation timeout"@,
                UdpAssociateError::Failed => "udp associate failed"@,
            },
    {
        match self {
            UdpAssociateError::NoLocalTcpAddress => "no local tcp address",
            UdpAssociateError::NoPeerTcpAddress => "no peer tcp address",
            UdpAssociateError::PeerNegotiationTimeout => "peer negotiation timeout",
            UdpAssociateError::Failed => "udp associate failed",
        }
    }

    /// Whether the error is reported as a timeout.
    pub fn is_timed_out(&self) -> (r: bool)
        ensures
            r == (*self == UdpAssociateError::PeerNegotiationTimeout),
    {
        matches!(self, UdpAssociateError::PeerNegotiationTimeout)
    }
}

/// What is asked of the peer, and where the local socket is bound.
#[derive(Clone, Copy, Debug, PartialEq, Eq, Structural)]
pub struct UdpAssociateRequest {
    /// The address that the peer is told datagrams will come from.
    pub send_udp_addr: SocketAddr,
    /// The address that the local socket is bound to.
    pub bind_ip: IpAddr,
    /// The address of the peer on the control channel.
    pub peer_tcp_ip: IpAddr,
}

/// The request that goes with a control channel from `local` to `peer`:
/// the peer is told the unspecified address of the channel's family and
/// port zero, and the socket is bound to the channel's local address.
pub open spec fn associate_request(local: SocketAddr, peer: SocketAddr) -> UdpAssociateRequest {
    UdpAssociateRequest {
        send_udp_addr: SocketAddr { ip: local.ip.unspecified_like(), port: 0 },
        bind_ip: local.ip,
        peer_tcp_ip: peer.ip,
    }
}

/// What is asked of the peer to set up a UDP association, once the
/// control channel stands.
pub fn socks5_udp_associate(tcp_notes: &TcpConnectTaskNotes) -> (r: Result<
    UdpAssociateRequest,
    UdpAssociateError,
>)
    ensures
        r == match (tcp_notes.local, tcp_notes.next) {
            (None, _) => Err::<UdpAssociateRequest, UdpAssociateError>(
                UdpAssociateError::NoLocalTcpAddress,
            ),
            (Some(_), None) => Err::<UdpAssociateRequest, UdpAssociateError>(
                UdpAssociateError::NoPeerTcpAddress,
            ),
            (Some(local), Some(peer)) => Ok::<UdpAssociateRequest, UdpAssociateError>(
                associate_request(local, peer),
            ),
        },
{
    let local_tcp_addr = match tcp_notes.local {
        Some(a) => a,
        None => {
            return Err(UdpAssociateError::NoLocalTcpAddress);
        },
    };
    let peer_tcp_addr = match tcp_notes.next {
        Some(a) => a,
        None => {
            return Err(UdpAssociateError::NoPeerTcpAddress);
        },
    };
    let send_udp_ip = match local_tcp_addr.ip() {
        IpAddr::V4(_) => IpAddr::V4(0),
        IpAddr::V6(_) => IpAddr::V6(0),
    };
    Ok(
        UdpAssociateRequest {
            send_udp_addr: SocketAddr::new(send_udp_ip, 0),
            bind_ip: local_tcp_addr.ip(),
            peer_tcp_ip: peer_tcp_addr.ip(),
        },
    )
}

/// An IPv4 control channel advertises `0.0.0.0:0`, an IPv6 control channel
/// `[::]:0`.
pub proof fn lemma_advertised_address(local: SocketAddr, peer: SocketAddr)
    ensures
        local.ip is V4 ==> associate_request(local, peer).send_udp_addr == (SocketAddr {
            ip: IpAddr::V4(0),
            port: 0,
        }),
        local.ip is V6 ==> associate_request(local, peer).send_udp_addr == (SocketAddr {
            ip: IpAddr::V6(0),
            port: 0,
        }),
        associate_request(local, peer).send_udp_addr.ip.spec_is_unspecified(),
{
}

/// The address that datagrams are sent to, given the one that the peer
/// said: a peer that says the unspecified address is reached at the
/// address of the control channel, on the port it said.
pub open spec fn spec_transmute_udp_peer_addr(returned: SocketAddr, tcp_peer_ip: IpAddr)
    -> SocketAddr {
    if returned.ip.spec_is_unspecified() {
        SocketAddr { ip: tcp_peer_ip, port: returned.port }
    } else {
        returned
    }
}

pub fn transmute_udp_peer_addr(returned: SocketAddr, tcp_peer_ip: IpAddr) -> (r: SocketAddr)
    ensures
        r == spec_transmute_udp_peer_addr(returned, tcp_peer_ip),
{
    if returned.ip().is_unspecified() {
        SocketAddr::new(tcp_peer_ip, returned.port())
    } else {
        returned
    }
}

/// The outcome of a UDP association that was given a time limit.
pub fn timed_socks5_udp_associate<T>(outcome: Timed<Result<T, UdpAssociateError>>) -> (r: Result<
    T,
    UdpAssociateError,
>)
    ensures
        r == match outcome {
            Timed::Done(done) => done,
            Timed::Elapsed => Err::<T, UdpAssociateError>(
                UdpAssociateError::PeerNegotiationTimeout,
            ),
        },
{
    match outcome {
        Timed::Done(done) => done,
        Timed::Elapsed => Err(UdpAssociateError::PeerNegotiationTimeout),
    }
}

/// Notes the address that the peer goes on from, once it has connected.
/// The address that the peer connects to is not known and not noted.
pub fn socks5_connect_tcp_connect_to(tcp_notes: &mut TcpConnectTaskNotes, outgoing_addr: SocketAddr)
    ensures
        final(tcp_notes).outgoing_addr == Some(outgoing_addr),
        final(tcp_notes).upstream == old(tcp_notes).upstream,
        final(tcp_notes).local == old(tcp_notes).local,
        final(tcp_notes).next == old(tcp_notes).next,
{
    tcp_notes.outgoing_addr = Some(outgoing_addr);
}

/// The outcome of a connect through the peer that was given a time limit.
pub fn timed_socks5_connect_tcp_connect_to<T>(outcome: Timed<Result<T, TcpConnectError>>) -> (r:
    Result<T, TcpConnectError>)
    ensures
        r == match outcome {
            Timed::Done(done) => done,
            Timed::Elapsed => Err::<T, TcpConnectError>(TcpConnectError::NegotiationPeerTimeout),
        },
{
    match outcome {
        Timed::Done(done) => done,
        Timed::Elapsed => Err(TcpConnectError::NegotiationPeerTimeout),
    }
}

/// What is made of a TLS handshake with the upstream.
#[derive(Clone, Copy, Debug, PartialEq, Eq)]
pub struct TlsHandshakeVerdict {
    /// The error that the connect ends with, if it ends with one.
    pub error: Option<TcpConnectError>,
    /// What is written to the escape log, if anything; `None` also where
    /// the cause of the failure is to be logged as it is.
    pub log_message: Option<&'static str>,
    /// Whether the escape log gets an entry.
    pub log: bool,
}

/// What is made of a TLS handshake with the upstream that was given a time
/// limit: a handshake that fails or takes too long is logged and ends the
/// connect.
pub fn socks5_connect_tls_connect_to(outcome: Timed<bool>) -> (r: TlsHandshakeVerdict)
    ensures
        r.error == match outcome {
            Timed::Done(true) => None,
            Timed::Done(false) => Some(TcpConnectError::UpstreamTlsHandshakeFailed),
            Timed::Elapsed => Some(TcpConnectError::UpstreamTlsHandshakeTimeout),
        },
        r.log == (r.error is Some),
        match outcome {
            Timed::Elapsed => r.log_message matches Some(m) && m@
                == "upstream tls handshake timed out"@,
            _ => r.log_message is None,
        },
{
    match outcome {
        Timed::Done(true) => TlsHandshakeVerdict { error: None, log_message: None, log: false },
        Timed::Done(false) => TlsHandshakeVerdict {
            error: Some(TcpConnectError::UpstreamTlsHandshakeFailed),
            log_message: None,
            log: true,
        },
        Timed::Elapsed => TlsHandshakeVerdict {
            error: Some(TcpConnectError::UpstreamTlsHandshakeTimeout),
            log_message: Some("upstream tls handshake timed out"),
            log: true,
        },
    }
}

/// The limiters of the two halves of a relay socket: what comes from the
/// peer is held to the south limits, what goes to it to the north limits.
pub fn udp_setup_relay(limit: &SocketSpeedLimit) -> (r: (LocalLimiter, LocalLimiter))
    ensures
        r.0.wf(),
        r.1.wf(),
        r.0@ == LimiterView::start(limit.spec_south()),
        r.1@ == LimiterView::start(limit.spec_north()),
{
    (LocalLimiter::new(limit.south()), LocalLimiter::new(limit.north()))
}

/// Through the halves of a relay, no window sees more than the limits of
/// its direction allow: what is received is held to the south limits, what
/// is sent to the north limits, whatever is asked of the two limiters and
/// in whatever order, as long as the clock never goes back.
pub proof fn lemma_relay_is_held_to_its_limits(
    limit: SocketSpeedLimit,
    received: Seq<LimiterOp>,
    sent: Seq<LimiterOp>,
    w: nat,
)
    requires
        LimiterView::start(limit.spec_south()).accepts_all(received),
        LimiterView::start(limit.spec_north()).accepts_all(sent),
        clock_goes_on(received),
        clock_goes_on(sent),
    ensures
        bytes_in(LimiterView::start(limit.spec_south()).run(received).log, w)
            <= limit.max_south_bytes,
        packets_in(LimiterView::start(limit.spec_south()).run(received).log, w)
            <= limit.max_south_packets,
        bytes_in(LimiterView::start(limit.spec_north()).run(sent).log, w) <= limit.max_north_bytes,
        packets_in(LimiterView::start(limit.spec_north()).run(sent).log, w)
            <= limit.max_north_packets,
{
    lemma_no_window_exceeds_the_limits(limit.spec_south(), received, w);
    lemma_no_window_exceeds_the_limits(limit.spec_north(), sent, w);
}

} // verus!
