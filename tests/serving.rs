use axum::extract::connect_info::Connected;
use axum::routing::get;
use axum::serve::IncomingStream;
use axum::Router;
use transport_negotiation::address::IpAddress;
use transport_negotiation::address::Ipv4Address;
use transport_negotiation::address::SocketAddress;
use transport_negotiation::error::TransportError;
use transport_negotiation::negotiate::negotiate;
use transport_negotiation::negotiate::Transport;
use transport_negotiation::negotiate::TransportSetup;
use transport_negotiation::negotiate::WithConnectInfo;
use transport_negotiation::reservation::PortRegistry;
use transport_negotiation::transport::HttpTransportLayer;

async fn get_ping() -> &'static str {
    "pong!"
}

fn bind_text(a: &SocketAddress) -> String {
    match a.ip {
        IpAddress::V4(v) => format!("{}.{}.{}.{}:{}", v.a, v.b, v.c, v.d, a.port),
        IpAddress::V6(_) => panic!("IPv6 is not used here"),
    }
}

fn to_address(ip_text: String, port: u16) -> SocketAddress {
    let octets: Vec<u8> = ip_text.split('.').map(|o| o.parse::<u8>().expect("octet")).collect();
    assert_eq!(octets.len(), 4);
    let ip = Ipv4Address { a: octets[0], b: octets[1], c: octets[2], d: octets[3] };
    SocketAddress { ip: IpAddress::V4(ip), port }
}

#[derive(Clone)]
struct PeerSeen;

impl<'a> Connected<IncomingStream<'a>> for PeerSeen {
    fn connect_info(_target: IncomingStream<'a>) -> Self {
        PeerSeen
    }
}

#[test]
fn connect_info_app_is_served_on_an_ephemeral_port() {
    let runtime = tokio::runtime::Runtime::new().expect("runtime");
    runtime.block_on(async {
        let app = Router::new()
            .route("/ping", get(get_ping))
            .into_make_service_with_connect_info::<PeerSeen>();
        let setup = negotiate(WithConnectInfo { service: app }, Some(Transport::HttpRandomPort))
            .expect("Should create test server");
        let (app, request) = match setup {
            TransportSetup::Http { app, request } => (app, request),
            TransportSetup::Mock { .. } => panic!("expected a real socket"),
        };
        let listener = tokio::net::TcpListener::bind(bind_text(&request.bind_address()))
            .await
            .expect("bind");
        let local = listener.local_addr().expect("local address");
        let bound = to_address(local.ip().to_string(), local.port());
        let mut registry = PortRegistry::new();
        let mut transport =
            HttpTransportLayer::new(&request, bound, &mut registry).expect("Should create test server");
        let service = app.service;
        let handle = tokio::spawn(async move {
            axum::serve(listener, service).await.expect("Expect server to start serving");
        });
        transport.start(handle);

        assert!(transport.is_running());
        assert_eq!(transport.address(), bound);
        assert_eq!(
            transport.base_url().clone(),
            format!("http://127.0.0.1:{}/", bound.port)
        );
        assert_eq!(transport.reserved_port(), Some(bound.port));
        assert!(registry.is_held(bound.port));

        transport.stop(&mut registry);
        assert!(!transport.is_running());
        assert!(!registry.is_held(bound.port));
        assert!(registry.reserve(bound.port).is_some());
    });
}

#[test]
fn fixed_port_already_occupied_fails_to_bind() {
    let runtime = tokio::runtime::Runtime::new().expect("runtime");
    runtime.block_on(async {
        let occupier = tokio::net::TcpListener::bind("127.0.0.1:0").await.expect("bind");
        let local = occupier.local_addr().expect("local address");
        let taken = to_address(local.ip().to_string(), local.port());
        let t = Transport::HttpIpPort { ip: None, port: Some(taken.port) };
        let setup = negotiate(WithConnectInfo { service: () }, Some(t)).expect("real socket");
        let request = match setup {
            TransportSetup::Http { request, .. } => request,
            TransportSetup::Mock { .. } => panic!("expected a real socket"),
        };
        assert_eq!(request.bind_address(), taken);
        let second = tokio::net::TcpListener::bind(bind_text(&request.bind_address())).await;
        let err = match second {
            Ok(_) => panic!("the port is occupied"),
            Err(e) => TransportError::BindFailed { reason: e.to_string() },
        };
        assert!(matches!(err, TransportError::BindFailed { .. }));
    });
}
