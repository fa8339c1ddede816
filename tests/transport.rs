use transport_negotiation::address::AddressRequest;
use transport_negotiation::address::IpAddress;
use transport_negotiation::address::Ipv4Address;
use transport_negotiation::address::Ipv6Address;
use transport_negotiation::address::SocketAddress;
use transport_negotiation::error::TransportError;
use transport_negotiation::reservation::PortRegistry;
use transport_negotiation::transport::base_url;
use transport_negotiation::transport::base_url_from;
use transport_negotiation::transport::server_address;
use transport_negotiation::transport::HttpTransportLayer;

fn loopback(port: u16) -> SocketAddress {
    SocketAddress { ip: IpAddress::V4(Ipv4Address { a: 127, b: 0, c: 0, d: 1 }), port }
}

#[test]
fn server_address_is_http_and_the_address() {
    assert_eq!(server_address(&loopback(8080)), "http://127.0.0.1:8080");
}

#[test]
fn base_url_is_the_parsed_server_address() {
    let url = base_url(&loopback(8080)).expect("valid URL");
    assert_eq!(url, "http://127.0.0.1:8080/");
}

#[test]
fn base_url_from_maps_a_parse_error() {
    assert!(matches!(
        base_url_from(Err(url::ParseError::EmptyHost)),
        Err(TransportError::InvalidUrl)
    ));
    assert_eq!(base_url_from(Ok("http://h/".to_string())).unwrap(), "http://h/");
}

#[test]
fn ephemeral_transport_holds_its_port_until_stopped() {
    let mut reg = PortRegistry::new();
    let request = AddressRequest::ephemeral();
    let mut t = HttpTransportLayer::new(&request, loopback(41234), &mut reg).expect("transport");
    assert_eq!(t.base_url(), "http://127.0.0.1:41234/");
    assert_eq!(t.address(), loopback(41234));
    assert_eq!(t.reserved_port(), Some(41234));
    assert!(!t.is_running());
    assert!(reg.is_held(41234));
    t.stop(&mut reg);
    assert!(!reg.is_held(41234));
    assert_eq!(t.reserved_port(), None);
    assert!(reg.reserve(41234).is_some());
}

#[test]
fn fixed_port_transport_holds_no_token() {
    let mut reg = PortRegistry::new();
    let request = AddressRequest { ip: None, port: Some(3000) };
    let t = HttpTransportLayer::new(&request, loopback(3000), &mut reg).expect("transport");
    assert_eq!(t.reserved_port(), None);
    assert!(!reg.is_held(3000));
}

#[test]
fn unexpected_bound_address_is_refused() {
    let mut reg = PortRegistry::new();
    let request = AddressRequest { ip: None, port: Some(3000) };
    let r = HttpTransportLayer::new(&request, loopback(3001), &mut reg);
    assert!(matches!(r, Err(TransportError::UnexpectedAddress)));
    let e = HttpTransportLayer::new(&AddressRequest::ephemeral(), loopback(0), &mut reg);
    assert!(matches!(e, Err(TransportError::UnexpectedAddress)));
}

#[test]
fn port_held_by_another_transport_is_refused() {
    let mut reg = PortRegistry::new();
    let _held = reg.reserve(42000).expect("free port");
    let r = HttpTransportLayer::new(&AddressRequest::ephemeral(), loopback(42000), &mut reg);
    assert!(matches!(r, Err(TransportError::PortHeld { port: 42000 })));
    assert!(reg.is_held(42000));
}

#[test]
fn ipv6_base_url_is_normalised_by_the_url_crate() {
    let ip = Ipv6Address { s0: 0, s1: 0, s2: 0, s3: 0, s4: 0, s5: 0, s6: 0, s7: 1 };
    let a = SocketAddress { ip: IpAddress::V6(ip), port: 8080 };
    assert_eq!(server_address(&a), "http://[0:0:0:0:0:0:0:1]:8080");
    assert_eq!(base_url(&a).expect("valid URL"), "http://[::1]:8080/");
}
