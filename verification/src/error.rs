//! How a task ends when it does not end well.

use vstd::prelude::*;

verus! {

/// Why a server task was given up.
#[derive(Clone, Debug, PartialEq, Eq)]
pub enum ServerTaskError {
    /// The client broke the protocol; the text says how.
    InvalidClientProtocol(&'static str),
    /// The client closed the connection before the request was whole.
    ClosedByClient,
    /// Reading from the client failed. The cause stays with the caller that
    /// did the reading.
    ClientTcpReadFailed,
    /// The inspector itself refused or failed; the text says why.
    InternalAdapterError(String),
}

/// The class that an error falls in, which decides how it is logged and
/// whether the client is told.
#[derive(Clone, Copy, Debug, PartialEq, Eq, Structural)]
pub enum ErrorClass {
    ClientProtocol,
    UpstreamPeer,
    InternalAdapter,
}

/// What is done about an error.
#[derive(Clone, Copy, Debug, PartialEq, Eq, Structural)]
pub struct ErrorHandling {
    /// Whether the flow is given up. It always is: nothing is tried again.
    pub abort: bool,
    /// Whether the log entry tells of the peer.
    pub log_peer: bool,
    /// Whether the client is sent the close of its protocol.
    pub close_client: bool,
    /// Whether the error goes to the caller as it is.
    pub surface: bool,
}

impl ErrorClass {
    /// What is done about an error of this class on a flow whose client
    /// side is, or is not, inside an inspected application protocol.
    pub open spec fn spec_handling(self, client_in_l7: bool) -> ErrorHandling {
        match self {
            ErrorClass::ClientProtocol => ErrorHandling {
                abort: true,
                log_peer: false,
                close_client: false,
                surface: false,
            },
            ErrorClass::UpstreamPeer => ErrorHandling {
                abort: true,
                log_peer: true,
                close_client: client_in_l7,
                surface: false,
            },
            ErrorClass::InternalAdapter => ErrorHandling {
                abort: true,
                log_peer: false,
                close_client: false,
                surface: true,
            },
        }
    }

    pub fn handling(&self, client_in_l7: bool) -> (r: ErrorHandling)
        ensures
            r == self.spec_handling(client_in_l7),
            r.abort,
    {
        match self {
            ErrorClass::ClientProtocol => ErrorHandling {
                abort: true,
                log_peer: false,
                close_client: false,
                surface: false,
            },
            ErrorClass::UpstreamPeer => ErrorHandling {
                abort: true,
                log_peer: true,
                close_client: client_in_l7,
                surface: false,
            },
            ErrorClass::InternalAdapter => ErrorHandling {
                abort: true,
                log_peer: false,
                close_client: false,
                surface: true,
            },
        }
    }
}

/// Whatever the error, the flow is given up and nothing is tried again.
pub proof fn lemma_nothing_is_retried(class: ErrorClass, client_in_l7: bool)
    ensures
        class.spec_handling(client_in_l7).abort,
{
}

impl ServerTaskError {
    pub open spec fn spec_class(&self) -> ErrorClass {
        match self {
            ServerTaskError::InvalidClientProtocol(_) => ErrorClass::ClientProtocol,
            ServerTaskError::ClosedByClient => ErrorClass::ClientProtocol,
            ServerTaskError::ClientTcpReadFailed => ErrorClass::ClientProtocol,
            ServerTaskError::InternalAdapterError(_) => ErrorClass::InternalAdapter,
        }
    }

    pub fn class(&self) -> (r: ErrorClass)
        ensures
            r == self.spec_class(),
    {
        match self {
            ServerTaskError::InvalidClientProtocol(_) => ErrorClass::ClientProtocol,
            ServerTaskError::ClosedByClient => ErrorClass::ClientProtocol,
            ServerTaskError::ClientTcpReadFailed => ErrorClass::ClientProtocol,
            ServerTaskError::InternalAdapterError(_) => ErrorClass::InternalAdapter,
        }
    }
}

/// Why a connection to the upstream, or to the peer that stands for it,
/// was not made.
#[derive(Clone, Copy, Debug, PartialEq, Eq, Structural)]
pub enum TcpConnectError {
    /// The peer did not finish the negotiation in time.
    NegotiationPeerTimeout,
    /// The TLS client could not be set up.
    InternalTlsClientError,
    /// The TLS handshake with the upstream failed.
    UpstreamTlsHandshakeFailed,
    /// The TLS handshake with the upstream did not finish in time.
    UpstreamTlsHandshakeTimeout,
    /// The socket could not be set up.
    SetupSocketFailed,
    /// The upstream has no address.
    UpstreamNotResolved,
    /// The connection was refused or lost.
    ConnectFailed,
}

impl TcpConnectError {
    /// Errors of the upstream or the peer are logged with what is known
    /// of the peer.
    pub fn class(&self) -> (r: ErrorClass)
        ensures
            r == ErrorClass::UpstreamPeer,
    {
        ErrorClass::UpstreamPeer
    }
}

/// Why a stream to a backend was not connected.
#[derive(Clone, Copy, Debug, PartialEq, Eq, Structural)]
pub enum StreamConnectError {
    UpstreamNotResolved,
    SetupSocketFailed,
    ConnectFailed,
}

impl StreamConnectError {
    /// What the error says, before its cause.
    pub fn message(&self) -> (r: &'static str)
        ensures
            r@ == match self {
                StreamConnectError::UpstreamNotResolved => "upstream not resolved"@,
                StreamConnectError::SetupSocketFailed => "setup socket failed"@,
                StreamConnectError::ConnectFailed => "connect failed"@,
            },
    {
        match self {
            StreamConnectError::UpstreamNotResolved => "upstream not resolved",
            StreamConnectError::SetupSocketFailed => "setup socket failed",
            StreamConnectError::ConnectFailed => "connect failed",
        }
    }
}

} // verus!
