use tunnel::cli::{command_notice, Commands};
use tunnel::config::{load_config, parse_port_range, tunnel_ports, ConfigError};

fn some(s: &str) -> Option<String> {
    Some(s.to_string())
}

#[test]
fn port_range_fields() {
    assert_eq!(parse_port_range("30000-30010"), Some((30000, 30010)));
    assert_eq!(parse_port_range("-30000--30010-"), Some((30000, 30010)));
    assert_eq!(parse_port_range("30000"), None);
    assert_eq!(parse_port_range("1-2-3"), None);
    assert_eq!(parse_port_range("1-x"), None);
    assert_eq!(parse_port_range("x-1-2"), None);
    assert_eq!(parse_port_range(""), None);
    assert_eq!(parse_port_range("5-70000"), None);
}

#[test]
fn loads_complete_settings() {
    let c = load_config(some("example.org"), some("3000"), some("30000-30002")).unwrap();
    assert_eq!(c.public_host, "example.org");
    assert_eq!(c.port, 3000);
    assert_eq!((c.first_tunnel_port, c.last_tunnel_port), (30000, 30002));
    assert_eq!(tunnel_ports(c.first_tunnel_port, c.last_tunnel_port), vec![30000, 30001, 30002]);
}

#[test]
fn reports_first_problem() {
    let err = |h: Option<String>, p: Option<String>, r: Option<String>| load_config(h, p, r).err().unwrap();
    assert!(err(None, None, None) == ConfigError::MissingPublicHost);
    assert!(err(some("h"), None, some("1-2")) == ConfigError::MissingPort);
    assert!(err(some("h"), some("x"), None) == ConfigError::InvalidPort);
    assert!(err(some("h"), some("80"), None) == ConfigError::MissingTunnelPortRange);
    assert!(err(some("h"), some("80"), some("1-")) == ConfigError::InvalidTunnelPortRange);
    assert!(err(some("h"), some("80"), some("9-1")) == ConfigError::NoTunnelPorts);
}

#[test]
fn error_messages() {
    assert_eq!(ConfigError::MissingPublicHost.message(), "environment variable PUBLIC_HOST is missing");
    assert_eq!(ConfigError::MissingPort.message(), "environment variable PORT is missing");
    assert_eq!(ConfigError::InvalidPort.message(), "PORT is not an u16 number");
    assert_eq!(
        ConfigError::MissingTunnelPortRange.message(),
        "environment variable TUNNEL_PORT_RANGE is missing"
    );
    assert_eq!(ConfigError::InvalidTunnelPortRange.message(), "Unable to parse TUNNEL_PORT_RANGE");
    assert_eq!(ConfigError::NoTunnelPorts.message(), "Zero available tunnel ports");
}

#[test]
fn single_port_range() {
    assert_eq!(tunnel_ports(7, 7), vec![7]);
    assert_eq!(tunnel_ports(0, 2), vec![0, 1, 2]);
    assert!(tunnel_ports(5, 4).is_empty());
}

#[test]
fn command_notices() {
    assert_eq!(command_notice(&Commands::Auth { token: "t0k".to_string() }), "token t0k");
    assert_eq!(command_notice(&Commands::Tcp { port: 8080 }), "forwarding tcp connections to 8080");
    assert_eq!(command_notice(&Commands::Udp { port: 53 }), "forwarding udp connections to 53");
}

#[test]
fn tunnel_message_keeps_its_parts() {
    let m = tunnel::models::TunnelMessage::new("id".to_string(), vec![1, 2]);
    assert_eq!(m.connection_id, "id");
    assert_eq!(m.data, vec![1, 2]);
}
