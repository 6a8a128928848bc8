use mqtt_nexus::models::{ConnectionStatus, MessageDirection};
use mqtt_nexus::session::{
    codec_call, protocol_variant, qos_to_u8, qos_from_u8, CodecCall, PollOutcome, ProtocolVariant,
    QosLevel, SessionCommand, SessionState,
};

fn publish(topic: &str) -> PollOutcome {
    PollOutcome::Publish {
        topic: topic.to_string(),
        payload: "p".to_string(),
        qos: QosLevel::AtLeastOnce,
        retain: true,
    }
}

#[test]
fn start_announces_connecting() {
    let (s, n) = SessionState::start("c1".to_string(), 5);
    assert_eq!(s.status, ConnectionStatus::Connecting);
    assert_eq!(s.variant, ProtocolVariant::V5);
    assert!(s.polling && s.accepting);
    assert_eq!(n.connection_id, "c1");
    assert_eq!(n.status, ConnectionStatus::Connecting);
    assert!(n.last_error.is_none());
    let (v4, _) = SessionState::start("c2".to_string(), 3);
    assert_eq!(v4.variant, ProtocolVariant::V4);
}

#[test]
fn poll_outcomes_map_to_notices_and_messages() {
    let (mut s, _) = SessionState::start("c".to_string(), 4);
    let step = s.on_poll(PollOutcome::ConnAck, 1);
    assert_eq!(step.status.unwrap().status, ConnectionStatus::Connected);
    assert_eq!(s.status, ConnectionStatus::Connected);
    let step = s.on_poll(publish("a/b"), 777);
    assert!(step.status.is_none() && !step.stop);
    let m = step.message.unwrap();
    assert_eq!(m.topic, "a/b");
    assert_eq!(m.qos, 1);
    assert!(m.retain);
    assert_eq!(m.direction, MessageDirection::In);
    assert_eq!(m.timestamp, 777);
    let step = s.on_poll(PollOutcome::Other, 2);
    assert!(step.status.is_none() && step.message.is_none() && !step.stop);
    let step = s.on_poll(PollOutcome::OutgoingDisconnect, 3);
    assert_eq!(step.status.unwrap().status, ConnectionStatus::Disconnected);
}

#[test]
fn poll_error_is_terminal_but_commands_still_run() {
    let (mut s, _) = SessionState::start("c".to_string(), 4);
    s.on_poll(PollOutcome::ConnAck, 1);
    let step = s.on_poll(PollOutcome::Failed("connection reset".to_string()), 2);
    assert!(step.stop);
    let n = step.status.unwrap();
    assert_eq!(n.status, ConnectionStatus::Error);
    assert_eq!(n.last_error.as_deref(), Some("connection reset"));
    assert_eq!(s.status, ConnectionStatus::Error);
    assert!(!s.polling);
    let after = s.on_poll(publish("x"), 3);
    assert!(after.message.is_none() && after.status.is_none() && after.stop);
    assert!(s.accepting);
    let cmd = s.on_command_result(false, Err("request channel closed".to_string()));
    assert!(!cmd.stop);
    assert_eq!(cmd.notices.len(), 1);
    assert_eq!(cmd.notices[0].status, ConnectionStatus::Error);
    assert_eq!(cmd.notices[0].last_error.as_deref(), Some("request channel closed"));
    assert!(s.accepting);
}

#[test]
fn disconnect_always_ends_the_command_loop() {
    let (mut s, _) = SessionState::start("c".to_string(), 4);
    let ok = s.on_command_result(false, Ok(()));
    assert!(ok.notices.is_empty() && !ok.stop);
    let d = s.on_command_result(true, Err("boom".to_string()));
    assert!(d.stop);
    assert_eq!(d.notices.len(), 2);
    assert_eq!(d.notices[0].status, ConnectionStatus::Error);
    assert_eq!(d.notices[1].status, ConnectionStatus::Disconnected);
    assert!(!s.accepting);
    let late = s.on_command_result(false, Err("x".to_string()));
    assert!(late.notices.is_empty() && late.stop);
    let (mut t, _) = SessionState::start("c".to_string(), 4);
    let d = t.on_command_result(true, Ok(()));
    assert_eq!(d.notices.len(), 1);
    assert_eq!(d.notices[0].status, ConnectionStatus::Disconnected);
}

#[test]
fn qos_mapping() {
    assert_eq!(qos_from_u8(0), QosLevel::AtMostOnce);
    assert_eq!(qos_from_u8(1), QosLevel::AtLeastOnce);
    assert_eq!(qos_from_u8(2), QosLevel::ExactlyOnce);
    assert_eq!(qos_from_u8(9), QosLevel::AtMostOnce);
    assert_eq!(qos_to_u8(QosLevel::ExactlyOnce), 2);
    assert_eq!(protocol_variant(5), ProtocolVariant::V5);
    assert_eq!(protocol_variant(4), ProtocolVariant::V4);
}

#[test]
fn commands_become_codec_calls() {
    match codec_call(SessionCommand::Publish {
        topic: "t".into(),
        payload: "p".into(),
        qos: 2,
        retain: true,
    }) {
        CodecCall::Publish { topic, payload, qos, retain } => {
            assert_eq!(topic, "t");
            assert_eq!(payload, "p");
            assert_eq!(qos, QosLevel::ExactlyOnce);
            assert!(retain);
        }
        other => panic!("unexpected {other:?}"),
    }
    match codec_call(SessionCommand::Subscribe { topic: "s".into(), qos: 7 }) {
        CodecCall::Subscribe { topic, qos } => {
            assert_eq!(topic, "s");
            assert_eq!(qos, QosLevel::AtMostOnce);
        }
        other => panic!("unexpected {other:?}"),
    }
    assert!(matches!(codec_call(SessionCommand::Disconnect), CodecCall::Disconnect));
    assert!(matches!(
        codec_call(SessionCommand::Unsubscribe { topic: "u".into() }),
        CodecCall::Unsubscribe { .. }
    ));
}
