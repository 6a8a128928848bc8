use mqtt_nexus::batch::{flush_step, BatchBuffer, BATCH_MAX};
use mqtt_nexus::models::{ConnectionStatus, MessageDirection, MqttBatchItem};

fn msg(i: u64) -> MqttBatchItem {
    MqttBatchItem {
        topic: "t".into(),
        payload: format!("{i}"),
        qos: 0,
        retain: false,
        direction: MessageDirection::In,
        timestamp: i,
    }
}

#[test]
fn forty_nine_then_idle_is_one_batch() {
    let mut b = BatchBuffer::new();
    for i in 0..49 {
        assert!(b.push(msg(i)).is_none());
    }
    let batch = b.tick().expect("one batch");
    assert_eq!(batch.len(), 49);
    for (i, m) in batch.iter().enumerate() {
        assert_eq!(m.timestamp, i as u64);
    }
    assert!(b.tick().is_none());
    assert_eq!(b.len(), 0);
}

#[test]
fn fiftieth_message_flushes() {
    let mut b = BatchBuffer::new();
    for i in 0..(BATCH_MAX as u64 - 1) {
        assert!(b.push(msg(i)).is_none());
    }
    let batch = b.push(msg(49)).expect("full buffer flushes");
    assert_eq!(batch.len(), 50);
    assert_eq!(batch[49].payload, "49");
    assert_eq!(b.len(), 0);
}

#[test]
fn close_flushes_what_is_left() {
    let mut b = BatchBuffer::new();
    assert!(b.close().is_none());
    b.push(msg(1));
    b.push(msg(2));
    let rest = b.close().unwrap();
    assert_eq!(rest.len(), 2);
    assert_eq!(rest[1].payload, "2");
}

#[test]
fn persistence_failure_still_publishes() {
    let id = "conn".to_string();
    let ok = flush_step(&id, vec![msg(1)], Ok(()));
    assert!(ok.status.is_none());
    assert_eq!(ok.batch.messages.len(), 1);
    let bad = flush_step(&id, vec![msg(1), msg(2)], Err("disk full".into()));
    let n = bad.status.unwrap();
    assert_eq!(n.status, ConnectionStatus::Error);
    assert_eq!(n.last_error.as_deref(), Some("failed to persist history: disk full"));
    assert_eq!(bad.batch.connection_id, "conn");
    assert_eq!(bad.batch.messages.len(), 2);
}
