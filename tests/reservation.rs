use transport_negotiation::reservation::PortRegistry;

#[test]
fn a_held_port_is_not_handed_out_twice() {
    let mut reg = PortRegistry::new();
    let first = reg.reserve(5000).expect("free port");
    assert_eq!(first.port(), 5000);
    assert!(reg.is_held(5000));
    assert!(reg.reserve(5000).is_none());
}

#[test]
fn reservations_for_many_transports_are_distinct() {
    let mut reg = PortRegistry::new();
    let mut tokens = Vec::new();
    for p in [4000u16, 4001, 4002, 4003, 4001, 4000] {
        if let Some(t) = reg.reserve(p) {
            tokens.push(t);
        }
    }
    let ports: Vec<u16> = tokens.iter().map(|t| t.port()).collect();
    assert_eq!(ports, vec![4000, 4001, 4002, 4003]);
}

#[test]
fn a_released_port_can_be_held_again() {
    let mut reg = PortRegistry::new();
    let token = reg.reserve(6000).expect("free port");
    reg.release(token);
    assert!(!reg.is_held(6000));
    assert!(reg.reserve(6000).is_some());
}
