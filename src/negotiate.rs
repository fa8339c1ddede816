//! Choosing how a test reaches its application: a real socket, or a call in
//! process that never touches the network.
use vstd::prelude::*;

use crate::address::AddressRequest;
use crate::address::IpAddress;
use crate::error::TransportError;

verus! {

/// The transport a test server is configured with.
#[derive(Clone, Copy, Debug, PartialEq, Eq, Structural)]
pub enum Transport {
    /// A real socket on a port that the system chooses.
    HttpRandomPort,
    /// A real socket on the IP and port given; an absent one is defaulted.
    HttpIpPort { ip: Option<IpAddress>, port: Option<u16> },
    /// No socket: requests are handed to the application in process.
    MockHttp,
}

/// How a transport is to be set up: what remains to do, and the application
/// that it serves.
pub enum TransportSetup<A> {
    /// Bind a socket where the request says, and serve the application on it.
    Http { app: A, request: AddressRequest },
    /// Hand requests to the application in process.
    Mock { app: A },
}

/// The address request of a real-socket transport.
pub open spec fn request_of(t: Transport) -> AddressRequest {
    match t {
        Transport::HttpIpPort { ip, port } => AddressRequest { ip, port },
        _ => AddressRequest { ip: None, port: None },
    }
}

/// An application shape, and the transports that it can run on.
pub trait IntoTransportLayer: Sized {
    /// Whether the shape needs a genuine network peer (its address, say), so
    /// that it cannot be mocked.
    spec fn needs_live_connection() -> bool;

    /// The name of the shape, as error messages give it.
    spec fn shape_name() -> Seq<char>;

    /// Serve on a real socket bound as `request` says.
    fn into_http_transport_layer(self, request: AddressRequest) -> (r: Result<
        TransportSetup<Self>,
        TransportError,
    >)
        ensures
            r == Ok::<TransportSetup<Self>, TransportError>(
                TransportSetup::Http { app: self, request },
            ),
    ;

    /// Serve in process, where the shape allows it.
    fn into_mock_transport_layer(self) -> (r: Result<TransportSetup<Self>, TransportError>)
        ensures
            Self::needs_live_connection() ==> r is Err && r->Err_0 is MockUnsupported
                && r->Err_0->shape@ == Self::shape_name(),
            !Self::needs_live_connection() ==> r == Ok::<TransportSetup<Self>, TransportError>(
                TransportSetup::Mock { app: self },
            ),
    ;

    /// The transport used when none is configured: a real socket.
    fn into_default_transport(self, request: AddressRequest) -> (r: Result<
        TransportSetup<Self>,
        TransportError,
    >)
        ensures
            r == Ok::<TransportSetup<Self>, TransportError>(
                TransportSetup::Http { app: self, request },
            ),
    ;
}

/// A service that extracts connection metadata (the peer's address) from
/// each connection. It runs on real sockets only.
pub struct WithConnectInfo<S> {
    pub service: S,
}

impl<S> IntoTransportLayer for WithConnectInfo<S> {
    open spec fn needs_live_connection() -> bool {
        true
    }

    open spec fn shape_name() -> Seq<char> {
        "IntoMakeServiceWithConnectInfo"@
    }

    fn into_http_transport_layer(self, request: AddressRequest) -> (r: Result<
        TransportSetup<Self>,
        TransportError,
    >) {
        Ok(TransportSetup::Http { app: self, request })
    }

    fn into_mock_transport_layer(self) -> (r: Result<TransportSetup<Self>, TransportError>) {
        Err(TransportError::MockUnsupported { shape: String::from_str("IntoMakeServiceWithConnectInfo") })
    }

    fn into_default_transport(self, request: AddressRequest) -> (r: Result<
        TransportSetup<Self>,
        TransportError,
    >) {
        self.into_http_transport_layer(request)
    }
}

/// A bare service, which needs nothing from the connection and so can also be
/// served in process.
pub struct BareService<S> {
    pub service: S,
}

impl<S> IntoTransportLayer for BareService<S> {
    open spec fn needs_live_connection() -> bool {
        false
    }

    open spec fn shape_name() -> Seq<char> {
        "Router"@
    }

    fn into_http_transport_layer(self, request: AddressRequest) -> (r: Result<
        TransportSetup<Self>,
        TransportError,
    >) {
        Ok(TransportSetup::Http { app: self, request })
    }

    fn into_mock_transport_layer(self) -> (r: Result<TransportSetup<Self>, TransportError>) {
        Ok(TransportSetup::Mock { app: self })
    }

    fn into_default_transport(self, request: AddressRequest) -> (r: Result<
        TransportSetup<Self>,
        TransportError,
    >) {
        self.into_http_transport_layer(request)
    }
}

/// Sets up the transport that `transport` asks for, or the default where it
/// is `None`.
pub fn negotiate<A: IntoTransportLayer>(app: A, transport: Option<Transport>) -> (r: Result<
    TransportSetup<A>,
    TransportError,
>)
    ensures
        match transport {
            Some(Transport::MockHttp) => {
                &&& A::needs_live_connection() ==> r is Err && r->Err_0 is MockUnsupported
                    && r->Err_0->shape@ == A::shape_name()
                &&& !A::needs_live_connection() ==> r == Ok::<TransportSetup<A>, TransportError>(
                    TransportSetup::Mock { app },
                )
            },
            Some(t) => r == Ok::<TransportSetup<A>, TransportError>(
                TransportSetup::Http { app, request: request_of(t) },
            ),
            None => r == Ok::<TransportSetup<A>, TransportError>(
                TransportSetup::Http { app, request: request_of(Transport::HttpRandomPort) },
            ),
        },
{
    match transport {
        Some(Transport::MockHttp) => app.into_mock_transport_layer(),
        Some(Transport::HttpRandomPort) => app.into_http_transport_layer(AddressRequest::ephemeral()),
        Some(Transport::HttpIpPort { ip, port }) => app.into_http_transport_layer(
            AddressRequest { ip, port },
        ),
        None => app.into_default_transport(AddressRequest::ephemeral()),
    }
}

} // verus!
