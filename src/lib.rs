//! Transport negotiation and lifecycle for an HTTP test harness: which way a
//! test reaches the application under test, the address a real socket binds,
//! the base URL derived from it, and the ports held while a server runs.
pub mod address;
pub mod error;
pub mod negotiate;
pub mod reservation;
pub mod transport;
