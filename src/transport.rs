//! A real-socket transport: the address it bound, the base URL that tests
//! send requests to, the port it holds, and the server task it owns.
use vstd::prelude::*;

use crate::address::bound_fits;
use crate::address::push_char;
use crate::address::lemma_socket_address_text_injective;
use crate::address::render_socket_address;
use crate::address::socket_address_text;
use crate::address::AddressRequest;
use crate::address::SocketAddress;
use crate::error::TransportError;
use crate::reservation::reserved_after;
use crate::reservation::PortRegistry;
use crate::reservation::ReservedPort;

verus! {

#[verifier::external_type_specification]
#[verifier::external_body]
pub struct ExParseError(url::ParseError);

#[verifier::external_type_specification]
#[verifier::external_body]
#[verifier::reject_recursive_types(T)]
pub struct ExJoinHandle<T>(tokio::task::JoinHandle<T>);

#[verifier::external_type_specification]
#[verifier::external_body]
pub struct ExJoinError(tokio::task::JoinError);

/// Relies on tokio's JoinHandle::abort: asks the runtime to cancel the task.
pub assume_specification<T>[ tokio::task::JoinHandle::<T>::abort ](h: &tokio::task::JoinHandle<T>);

/// The serialisation of the URL that the url crate parses from a text, or
/// `None` where it rejects the text.
pub uninterp spec fn parsed_url(text: Seq<char>) -> Option<Seq<char>>;

/// Relies on url::Url's `FromStr`: the parsed URL, given back as its
/// serialisation, depends on the text alone.
#[verifier::external_body]
fn parse_url(text: &str) -> (r: Result<String, url::ParseError>)
    ensures
        match parsed_url(text@) {
            Some(u) => r is Ok && r->Ok_0@ == u,
            None => r is Err,
        },
{
    text.parse::<url::Url>().map(String::from)
}

/// `http://a.b.c.d:port`: the base URL of a socket address, before the url
/// crate parses it.
pub open spec fn server_address_text(a: SocketAddress) -> Seq<char> {
    seq!['h', 't', 't', 'p', ':', '/', '/'] + socket_address_text(a)
}

/// The `host:port` part of an `http://` URL text: what follows the scheme.
pub open spec fn host_port_of(url: Seq<char>) -> Seq<char> {
    url.subrange(7, url.len() as int)
}

/// Writes `http://a.b.c.d:port`.
pub fn server_address(a: &SocketAddress) -> (r: String)
    ensures
        r@ == server_address_text(*a),
{
    let mut s = String::new();
    push_char(&mut s, 'h');
    push_char(&mut s, 't');
    push_char(&mut s, 't');
    push_char(&mut s, 'p');
    push_char(&mut s, ':');
    push_char(&mut s, '/');
    push_char(&mut s, '/');
    let rest = render_socket_address(a);
    s.append(rest.as_str());
    assert(s@ =~= server_address_text(*a));
    s
}

/// The base URL from what the url crate made of the server address.
pub fn base_url_from(parsed: Result<String, url::ParseError>) -> (r: Result<String, TransportError>)
    ensures
        parsed is Ok ==> r is Ok && r->Ok_0@ == parsed->Ok_0@,
        parsed is Err ==> r is Err && r->Err_0 is InvalidUrl,
{
    match parsed {
        Ok(u) => Ok(u),
        Err(_) => Err(TransportError::InvalidUrl),
    }
}

/// The base URL of a bound address.
pub fn base_url(a: &SocketAddress) -> (r: Result<String, TransportError>)
    ensures
        match parsed_url(server_address_text(*a)) {
            Some(u) => r is Ok && r->Ok_0@ == u,
            None => r is Err && r->Err_0 is InvalidUrl,
        },
{
    let text = server_address(a);
    base_url_from(parse_url(text.as_str()))
}

/// A transport on a real socket. The socket itself belongs to the server task.
pub struct HttpTransportLayer {
    address: SocketAddress,
    base_url: String,
    reserved_port: Option<ReservedPort>,
    server: Option<tokio::task::JoinHandle<()>>,
}

impl HttpTransportLayer {
    /// The address bound.
    pub closed spec fn spec_address(&self) -> SocketAddress {
        self.address
    }

    /// The base URL, as the url crate serialised it.
    pub closed spec fn spec_base_url(&self) -> Seq<char> {
        self.base_url@
    }

    /// Whether the transport holds its port in a registry.
    pub closed spec fn spec_holds_port(&self) -> bool {
        self.reserved_port is Some
    }

    /// Whether a server task runs for the transport.
    pub closed spec fn spec_running(&self) -> bool {
        self.server is Some
    }

    /// The base URL is the one the url crate makes of the bound address, and
    /// a held port is the bound one.
    pub closed spec fn wf(&self) -> bool {
        &&& parsed_url(server_address_text(self.address)) == Some(self.base_url@)
        &&& self.reserved_port is Some ==> self.reserved_port->0.spec_port() == self.address.port
    }

    /// A transport for the address that the system bound for `request`. A
    /// port that the system chose is held in `registry` until the transport
    /// stops. No server task runs yet.
    pub fn new(request: &AddressRequest, bound: SocketAddress, registry: &mut PortRegistry) -> (r:
        Result<HttpTransportLayer, TransportError>)
        ensures
            !bound_fits(*request, bound) ==> r is Err && r->Err_0 is UnexpectedAddress,
            bound_fits(*request, bound) && parsed_url(server_address_text(bound)) is None ==> r is Err
                && r->Err_0 is InvalidUrl,
            bound_fits(*request, bound) && parsed_url(server_address_text(bound)) is Some
                && request.port is None && old(registry)@.contains(bound.port) ==> r is Err
                && r->Err_0 == (TransportError::PortHeld { port: bound.port }),
            r is Err ==> final(registry)@ == old(registry)@,
            bound_fits(*request, bound) && parsed_url(server_address_text(bound)) is Some && (
            request.port is Some || !old(registry)@.contains(bound.port)) ==> r is Ok,
            r is Ok ==> {
                let t = r->Ok_0;
                &&& t.wf()
                &&& t.spec_address() == bound
                &&& Some(t.spec_base_url()) == parsed_url(server_address_text(bound))
                &&& !t.spec_running()
                &&& t.spec_holds_port() == request.port is None
                &&& final(registry)@ == if request.port is None {
                    reserved_after(old(registry)@, bound.port)->0
                } else {
                    old(registry)@
                }
            },
    {
        if !request.accepts(&bound) {
            return Err(TransportError::UnexpectedAddress);
        }
        let base_url = match base_url(&bound) {
            Ok(u) => u,
            Err(e) => return Err(e),
        };
        let reserved_port = if request.is_ephemeral() {
            match registry.reserve(bound.port) {
                Some(token) => Some(token),
                None => return Err(TransportError::PortHeld { port: bound.port }),
            }
        } else {
            None
        };
        Ok(HttpTransportLayer { address: bound, base_url, reserved_port, server: None })
    }

    /// Hands the transport the task that serves its socket.
    pub fn start(&mut self, server: tokio::task::JoinHandle<()>)
        requires
            !old(self).spec_running(),
        ensures
            final(self).spec_running(),
            final(self).spec_address() == old(self).spec_address(),
            final(self).spec_base_url() == old(self).spec_base_url(),
            final(self).spec_holds_port() == old(self).spec_holds_port(),
            old(self).wf() ==> final(self).wf(),
    {
        self.server = Some(server);
    }

    /// Tears the transport down: the server task is cancelled, with any
    /// request in flight, and a held port is given back to `registry`.
    pub fn stop(&mut self, registry: &mut PortRegistry)
        ensures
            !final(self).spec_running(),
            !final(self).spec_holds_port(),
            final(self).spec_address() == old(self).spec_address(),
            final(self).spec_base_url() == old(self).spec_base_url(),
            old(self).wf() ==> final(self).wf(),
            old(self).wf() && old(self).spec_holds_port() ==> final(registry)@ == old(registry)@.remove(
                old(self).spec_address().port,
            ),
            !old(self).spec_holds_port() ==> final(registry)@ == old(registry)@,
            old(self).wf() && old(self).spec_holds_port() ==> reserved_after(
                final(registry)@,
                old(self).spec_address().port,
            ) is Some,
    {
        if let Some(server) = self.server.take() {
            server.abort();
        }
        if let Some(token) = self.reserved_port.take() {
            registry.release(token);
        }
    }

    /// The address bound.
    pub fn address(&self) -> (r: SocketAddress)
        ensures
            r == self.spec_address(),
    {
        self.address
    }

    /// The base URL that tests send their requests to.
    pub fn base_url(&self) -> (r: &String)
        ensures
            r@ == self.spec_base_url(),
    {
        &self.base_url
    }

    /// Whether a server task runs for the transport.
    pub fn is_running(&self) -> (r: bool)
        ensures
            r == self.spec_running(),
    {
        self.server.is_some()
    }

    /// The port held in a registry, if any.
    pub fn reserved_port(&self) -> (r: Option<u16>)
        ensures
            r is Some == self.spec_holds_port(),
            self.wf() && r is Some ==> r->0 == self.spec_address().port,
    {
        match &self.reserved_port {
            Some(token) => Some(token.port()),
            None => None,
        }
    }
}

/// The base URL of a real-socket transport is the one made from the address
/// that it bound, and the `host:port` of that text names no other address.
pub proof fn lemma_base_url_names_bound_address(t: &HttpTransportLayer, other: SocketAddress)
    requires
        t.wf(),
        host_port_of(server_address_text(other)) == host_port_of(
            server_address_text(t.spec_address()),
        ),
    ensures
        parsed_url(server_address_text(t.spec_address())) == Some(t.spec_base_url()),
        host_port_of(server_address_text(t.spec_address())) == socket_address_text(
            t.spec_address(),
        ),
        other == t.spec_address(),
{
    let a = t.spec_address();
    assert(host_port_of(server_address_text(a)) =~= socket_address_text(a));
    assert(host_port_of(server_address_text(other)) =~= socket_address_text(other));
    lemma_socket_address_text_injective(other, a);
}

} // verus!
