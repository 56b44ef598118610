use rnet::socket_addr::{parse_address, parse_network_address, AddressError, AddressSpec, NetworkAddress, Protocol};

/// Stands in for a socket address parser in these tests: `host:port` with a
/// numeric port.
fn host_port(text: &str) -> Result<(String, u16), String> {
    match text.rsplit_once(':') {
        Some((host, port)) => port.parse::<u16>().map(|p| (host.to_string(), p)).map_err(|e| e.to_string()),
        None => Err(String::from("missing port")),
    }
}

#[test]
fn test_parse_bad() {
    let err = parse_address("tulip://howdy");
    assert_eq!(err, Err(AddressError::UnsupportedProtocol(String::from("tulip"))));
    assert_eq!(err.unwrap_err().message(), "unsupported protocol: tulip");

    let err = parse_address("howdy");
    assert!(err.is_err());
    assert_eq!(err.unwrap_err().message(), "missing '://' separator");

    let err = parse_address("tcp://");
    assert!(err.is_err());
    assert_eq!(err.unwrap_err().message(), "address body cannot be empty");

    let err = parse_address("unix://");
    assert!(err.is_err());

    let err = parse_address(":foo");
    assert!(err.is_err());
}

#[test]
fn test_edge_cases() {
    let err = parse_network_address("TCP://127.0.0.1:80", &host_port);
    assert!(err.is_err());

    let err = parse_network_address("tcp://127.0.0.1:8080/foo", &host_port);
    assert!(err.is_err());
    assert!(err.unwrap_err().message().contains("invalid tcp address"));
}

#[test]
fn address_body_is_handed_on_as_socket_address_text() {
    let r = parse_address("tcp://127.0.0.1:8080/foo");
    assert_eq!(r, Ok(AddressSpec::Tcp(String::from("127.0.0.1:8080/foo"))));
}

#[test]
fn parse_network_address_tcp_and_udp() {
    let a = parse_network_address("tcp://:8080", &host_port).unwrap();
    assert_eq!(a, NetworkAddress::Tcp((String::from("0.0.0.0"), 8080)));
    assert_eq!(a.protocol(), Protocol::Tcp);
    let a = parse_network_address("udp://127.0.0.1:9991", &host_port).unwrap();
    assert_eq!(a, NetworkAddress::Udp((String::from("127.0.0.1"), 9991)));
    assert_eq!(a.protocol(), Protocol::Udp);
    let a = parse_network_address("udp6://[::1]:53", &host_port).unwrap();
    assert_eq!(a, NetworkAddress::Udp((String::from("[::1]"), 53)));
    let a = parse_network_address("unix:///tmp/x.sock", &host_port).unwrap();
    assert_eq!(a, NetworkAddress::Unix(String::from("/tmp/x.sock")));
    let err = parse_network_address("udp://nohost", &host_port).unwrap_err();
    assert!(err.message().starts_with("invalid udp address: "));
    let err = parse_network_address("udp://", &host_port).unwrap_err();
    assert_eq!(err, AddressError::EmptyBody);
}

#[test]
fn parse_udp_schemes() {
    assert_eq!(parse_address("udp://127.0.0.1:9991"), Ok(AddressSpec::Udp(String::from("127.0.0.1:9991"))));
    assert_eq!(parse_address("udp4://0.0.0.0:9000"), Ok(AddressSpec::Udp(String::from("0.0.0.0:9000"))));
    assert_eq!(parse_address("udp6://[ff02::3%lo0]:9991"), Ok(AddressSpec::Udp(String::from("[ff02::3%lo0]:9991"))));
    assert_eq!(parse_address("udp://:9090"), Ok(AddressSpec::Udp(String::from("0.0.0.0:9090"))));
    assert_eq!(parse_address("udp://:9090").unwrap().protocol(), Protocol::Udp);
}

#[test]
fn parse_tcp_schemes() {
    assert_eq!(parse_address("tcp://127.0.0.1:8080"), Ok(AddressSpec::Tcp(String::from("127.0.0.1:8080"))));
    assert_eq!(parse_address("tcp4://0.0.0.0:9000"), Ok(AddressSpec::Tcp(String::from("0.0.0.0:9000"))));
    assert_eq!(parse_address("tcp6://[::1]:9000"), Ok(AddressSpec::Tcp(String::from("[::1]:9000"))));
    assert_eq!(parse_address("tcp://:8080"), Ok(AddressSpec::Tcp(String::from("0.0.0.0:8080"))));
}

#[test]
fn test_parse_valid_unix() {
    let addr = parse_address("unix:///tmp/rnet.sock").expect("should parse unix");
    assert_eq!(addr, AddressSpec::Unix(String::from("/tmp/rnet.sock")));
    assert_eq!(addr.protocol(), Protocol::Unix);
}

#[test]
fn parse_splits_at_first_separator() {
    assert_eq!(parse_address("unix://a://b"), Ok(AddressSpec::Unix(String::from("a://b"))));
    assert_eq!(parse_address("://x"), Err(AddressError::UnsupportedProtocol(String::new())));
    assert_eq!(parse_address("sctp://127.0.0.1:1"), Err(AddressError::UnsupportedProtocol(String::from("sctp"))));
}
