use mqtt_nexus::config::{broker_address, build_ws_broker_url, resolve_connection};
use mqtt_nexus::models::{AuthIdentity, BrokerConfig, ConnectionProfile, ResolvedConnection, TransportProtocol};
use mqtt_nexus::strings::{normalize_output_path, safe_connection_id, safe_name};

fn profile() -> ConnectionProfile {
    ConnectionProfile {
        id: "home".into(),
        name: "Profile".into(),
        group: None,
        color_tag: None,
        broker_id: None,
        identity_id: None,
        host: "localhost".into(),
        port: 1883,
        protocol: TransportProtocol::Mqtt,
        protocol_version: None,
        path: Some("/ignored".into()),
        ssl: false,
        username: Some("u".into()),
        password: Some("pw".into()),
        client_id: "client".into(),
        clean: true,
    }
}

fn resolved(host: &str, port: u16, path: &str) -> ResolvedConnection {
    ResolvedConnection {
        id: "r".into(),
        host: host.into(),
        port,
        protocol: TransportProtocol::Ws,
        protocol_version: 4,
        path: path.into(),
        username: None,
        password: None,
        client_id: "c".into(),
        clean: true,
    }
}

#[test]
fn plain_profile_resolves_as_is() {
    let r = resolve_connection(profile(), vec![], vec![]).unwrap();
    assert_eq!(r.id, "home");
    assert_eq!(r.host, "localhost");
    assert_eq!(r.port, 1883);
    assert_eq!(r.protocol, TransportProtocol::Mqtt);
    assert_eq!(r.protocol_version, 4);
    assert_eq!(r.path, "");
    assert_eq!(r.username.as_deref(), Some("u"));
    assert_eq!(r.client_id, "client");
    assert!(r.clean);
}

#[test]
fn broker_and_identity_override() {
    let mut p = profile();
    p.broker_id = Some("b2".into());
    p.identity_id = Some("i1".into());
    p.protocol_version = Some(5);
    let brokers = vec![
        BrokerConfig { id: "b1".into(), name: "".into(), host: "one".into(), port: 1, protocol: TransportProtocol::Mqtt, path: None, ssl: false },
        BrokerConfig { id: "b2".into(), name: "".into(), host: "two".into(), port: 8083, protocol: TransportProtocol::Wss, path: Some("  ".into()), ssl: true },
        BrokerConfig { id: "b2".into(), name: "".into(), host: "dup".into(), port: 2, protocol: TransportProtocol::Mqtt, path: None, ssl: false },
    ];
    let ids = vec![AuthIdentity { id: "i1".into(), name: "".into(), username: None, password: Some("s".into()), client_id: Some("override".into()) }];
    let r = resolve_connection(p, brokers, ids).unwrap();
    assert_eq!(r.host, "two");
    assert_eq!(r.port, 8083);
    assert_eq!(r.protocol, TransportProtocol::Wss);
    assert_eq!(r.path, "/mqtt");
    assert_eq!(r.protocol_version, 5);
    assert!(r.username.is_none());
    assert_eq!(r.password.as_deref(), Some("s"));
    assert_eq!(r.client_id, "override");
}

#[test]
fn missing_host_or_port_is_rejected() {
    let mut p = profile();
    p.host = "   ".into();
    assert_eq!(resolve_connection(p, vec![], vec![]).unwrap_err(), "Broker host is required");
    let mut q = profile();
    q.port = 0;
    assert_eq!(resolve_connection(q, vec![], vec![]).unwrap_err(), "Broker port is required");
}

#[test]
fn websocket_urls() {
    assert_eq!(build_ws_broker_url(&resolved(" broker ", 8083, ""), false), "ws://broker:8083/mqtt");
    assert_eq!(build_ws_broker_url(&resolved("broker", 443, "ws"), true), "wss://broker:443/ws");
    assert_eq!(build_ws_broker_url(&resolved("broker", 80, "/x"), false), "ws://broker:80/x");
    assert_eq!(build_ws_broker_url(&resolved("wss://h:1/p", 80, "/x"), false), "wss://h:1/p");
}

#[test]
fn sanitized_names() {
    assert_eq!(safe_connection_id("a b/c-d_e"), "a_b_c-d_e");
    assert_eq!(safe_connection_id(""), "connection");
    assert_eq!(safe_connection_id("../x"), "___x");
    assert_eq!(safe_name("é1"), "_1");
}

#[test]
fn output_paths_get_an_extension() {
    assert_eq!(normalize_output_path("/tmp/out", "csv"), "/tmp/out.csv");
    assert_eq!(normalize_output_path("/tmp/out.txt", "csv"), "/tmp/out.txt");
}

#[test]
fn broker_address_by_transport() {
    let mut c = resolved("h", 8083, "");
    assert_eq!(broker_address(&c), "ws://h:8083/mqtt");
    c.protocol = TransportProtocol::Wss;
    assert_eq!(broker_address(&c), "wss://h:8083/mqtt");
    c.protocol = TransportProtocol::Mqtts;
    assert_eq!(broker_address(&c), "h");
}
