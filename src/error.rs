//! What can go wrong when a transport is set up.
use vstd::prelude::*;

use crate::address::push_char;

verus! {

/// Why a transport could not be set up.
#[derive(Debug)]
pub enum TransportError {
    /// The application shape named cannot run without a real connection.
    MockUnsupported { shape: String },
    /// The system refused to bind the address; the reason is its own.
    BindFailed { reason: String },
    /// The system bound an address that the request does not allow.
    UnexpectedAddress,
    /// A port that the transport would hold is held already.
    PortHeld { port: u16 },
    /// The bound address does not make a well-formed base URL.
    InvalidUrl,
}

/// The text that follows a shape's name when it cannot be mocked.
pub open spec fn mock_unsupported_tail() -> Seq<char> {
    "` cannot be mocked, as it's underlying implementation requires a real connection. Set the `TestServerConfig` to run with a transport of `HttpRandomPort`, or a `HttpIpPort`."@
}

/// The message of a shape that cannot be mocked: its name in backquotes, and
/// the transports to use instead.
pub open spec fn mock_unsupported_message(shape: Seq<char>) -> Seq<char> {
    seq!['`'] + shape + mock_unsupported_tail()
}

impl TransportError {
    /// The human-readable message of this error.
    pub fn message(&self) -> (r: String)
        ensures
            self is MockUnsupported ==> r@ == mock_unsupported_message(self->shape@),
            self is BindFailed ==> r@ == self->reason@,
    {
        match self {
            TransportError::MockUnsupported { shape } => {
                let mut s = String::new();
                push_char(&mut s, '`');
                s.append(shape.as_str());
                s.append("` cannot be mocked, as it's underlying implementation requires a real connection. Set the `TestServerConfig` to run with a transport of `HttpRandomPort`, or a `HttpIpPort`.");
                assert(s@ =~= mock_unsupported_message(shape@));
                s
            },
            TransportError::BindFailed { reason } => reason.clone(),
            TransportError::UnexpectedAddress => String::from_str(
                "the system bound an address that the transport did not ask for",
            ),
            TransportError::PortHeld { port: _ } => String::from_str(
                "the port is already held by another transport",
            ),
            TransportError::InvalidUrl => String::from_str(
                "the bound address does not form a valid base URL",
            ),
        }
    }
}

} // verus!
