use mqtt_nexus::registry::{connect_slot, disconnect_slot, route_slot, MqttError};

#[test]
fn repeated_connects_keep_one_session() {
    let mut entry: Option<u64> = None;
    let mut shutdowns = Vec::new();
    for session in 1..=5u64 {
        let plan = connect_slot(entry, session);
        if let Some(old) = plan.superseded {
            shutdowns.push(old);
        }
        entry = plan.entry;
    }
    assert_eq!(entry, Some(5));
    assert_eq!(shutdowns, vec![1, 2, 3, 4]);
}

#[test]
fn disconnect_and_route() {
    assert_eq!(disconnect_slot("a", Some(3)).unwrap(), 3);
    match disconnect_slot("a", None) {
        Err(MqttError::ConnectionNotFound(id)) => assert_eq!(id, "a"),
        other => panic!("unexpected {other:?}"),
    }
    assert_eq!(route_slot("b", Some(9)).unwrap(), 9);
    let e = route_slot("b", None).unwrap_err();
    assert_eq!(e.message(), "connection not found: b");
    assert_eq!(MqttError::CommandChannelClosed.message(), "connection command channel closed");
    assert_eq!(MqttError::Mqtt("x".into()).message(), "mqtt error: x");
}
