use rps_server::server::{BuildError, ServerBuilder};

/// A new builder has neither a port nor a bind address.
#[test]
fn test_server_builder_new_creates_default() {
    let builder = ServerBuilder::new();

    assert!(builder.port.is_none());
    assert!(builder.bind_address.is_none());
}

/// `port` sets the port of the builder.
#[test]
fn test_server_builder_with_valid_port() {
    let builder = ServerBuilder::new().port(6767);

    assert_eq!(builder.port, Some(6767));
}

/// With a port given, `build` succeeds and settles on that port and on the
/// default bind address.
#[test]
fn test_server_builder_build_success() {
    let result = ServerBuilder::new().port(6767).build();

    assert!(result.is_ok());

    let server = result.unwrap();
    assert_eq!(server.port, 6767);
    assert_eq!(server.bind_address.ip().to_string(), "127.0.0.1");
    assert_eq!(server.bind_address.port(), 6767);
}

/// Without a port, `build` fails.
#[test]
fn test_server_builder_build_missing_port() {
    let result = ServerBuilder::new().build();

    assert!(result.is_err());

    match result.unwrap_err() {
        BuildError::MissingOrInvalidPort => {}
        _ => panic!("Expected BuildError::MissingOrInvalidPort"),
    }
}

/// `build` succeeds with every port.
#[test]
fn test_server_builder_with_various_valid_ports() {
    let test_ports = [1, 80, 443, 8080, 3000, 65535];

    for port in test_ports {
        let result = ServerBuilder::new().port(port).build();
        assert!(result.is_ok(), "Port {} should be valid", port);

        let server = result.unwrap();
        assert_eq!(server.port, port);
    }
}

/// Where no bind address was given, the server binds the local host.
#[test]
fn test_server_builder_default_bind_address_is_localhost() {
    let server = ServerBuilder::new()
        .port(8080)
        .build()
        .expect("Server should build successfully");

    assert_eq!(server.bind_address.ip().to_string(), "127.0.0.1");
}

#[test]
fn builder_keeps_a_given_bind_address() {
    let builder = ServerBuilder { port: None, bind_address: Some("0.0.0.0".to_string()) };
    let server = builder.port(9000).build().unwrap();

    assert_eq!(server.port, 9000);
    assert_eq!(server.bind_address.ip(), "0.0.0.0");
    assert_eq!(server.bind_address.port(), 9000);
}

#[test]
fn builder_without_port_fails_whatever_the_address() {
    let builder = ServerBuilder { port: None, bind_address: Some("0.0.0.0".to_string()) };

    assert_eq!(builder.build(), Err(BuildError::MissingOrInvalidPort));
}

#[test]
fn builder_takes_the_port_set_last() {
    let server = ServerBuilder::new().port(1).port(2).build();

    assert_eq!(server.map(|s| s.port), Ok(2));
}

#[test]
fn default_builder_has_nothing_set() {
    let builder = ServerBuilder::default();

    assert!(builder.port.is_none());
    assert!(builder.bind_address.is_none());
}

#[test]
fn builder_rejects_a_bind_address_that_names_none() {
    for address in ["not an address", "", "localhost", "256.0.0.1", "127.0.0.1:80", "1:2:3"] {
        let builder = ServerBuilder { port: Some(6767), bind_address: Some(address.to_string()) };

        assert_eq!(builder.build(), Err(BuildError::InvalidBindAddress), "{}", address);
    }
}

#[test]
fn builder_accepts_addresses_of_both_versions() {
    for address in ["127.0.0.1", "0.0.0.0", "::", "::1", "fe80::1", "::ffff:10.0.0.1"] {
        let builder = ServerBuilder { port: Some(6767), bind_address: Some(address.to_string()) };
        let server = builder.build().unwrap();

        assert_eq!(server.port, 6767);
        assert_eq!(server.bind_address.ip(), address);
        assert_eq!(server.bind_address.port(), 6767);
    }
}

#[test]
fn builder_reports_the_missing_port_first() {
    let builder = ServerBuilder { port: None, bind_address: Some("not an address".to_string()) };

    assert_eq!(builder.build(), Err(BuildError::MissingOrInvalidPort));
}
