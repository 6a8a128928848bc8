//! The decisions of one connection session.
//!
//! A session runs two loops: the event loop polls the protocol codec and the
//! command loop hands user commands to it one at a time. Both are driven from
//! outside; this module decides, for each poll outcome and each command
//! result, which notifications go out, which message is forwarded to batching
//! and whether the loop goes on.
use vstd::prelude::*;
use crate::models::{ConnectionStatus, MessageDirection, MqttBatchItem, MqttStatusPayload};

verus! {

/// The wire protocol generation of a session, fixed when it starts.
#[derive(Clone, Copy, Debug, PartialEq, Eq, Structural)]
pub enum ProtocolVariant {
    V4,
    V5,
}

/// The variant for a resolved protocol version: 5 selects MQTT 5, anything
/// else MQTT 3.1.1.
pub fn protocol_variant(version: u8) -> (v: ProtocolVariant)
    ensures
        v == (if version == 5 {
            ProtocolVariant::V5
        } else {
            ProtocolVariant::V4
        }),
{
    if version == 5 {
        ProtocolVariant::V5
    } else {
        ProtocolVariant::V4
    }
}

/// Delivery guarantee of a message.
#[derive(Clone, Copy, Debug, PartialEq, Eq, Structural)]
pub enum QosLevel {
    AtMostOnce,
    AtLeastOnce,
    ExactlyOnce,
}

/// The level a numeric QoS asks for: 1 and 2 as such, anything else 0.
pub open spec fn level_of(qos: u8) -> QosLevel {
    if qos == 1 {
        QosLevel::AtLeastOnce
    } else if qos == 2 {
        QosLevel::ExactlyOnce
    } else {
        QosLevel::AtMostOnce
    }
}

/// The number of a level.
pub open spec fn code_of(level: QosLevel) -> u8 {
    match level {
        QosLevel::AtMostOnce => 0,
        QosLevel::AtLeastOnce => 1,
        QosLevel::ExactlyOnce => 2,
    }
}

/// See [`level_of`].
pub fn qos_from_u8(qos: u8) -> (l: QosLevel)
    ensures
        l == level_of(qos),
{
    if qos == 1 {
        QosLevel::AtLeastOnce
    } else if qos == 2 {
        QosLevel::ExactlyOnce
    } else {
        QosLevel::AtMostOnce
    }
}

/// See [`code_of`].
pub fn qos_to_u8(level: QosLevel) -> (q: u8)
    ensures
        q == code_of(level),
{
    match level {
        QosLevel::AtMostOnce => 0,
        QosLevel::AtLeastOnce => 1,
        QosLevel::ExactlyOnce => 2,
    }
}

/// A command queued for a session.
#[derive(Debug)]
pub enum SessionCommand {
    Subscribe { topic: String, qos: u8 },
    Unsubscribe { topic: String },
    Publish { topic: String, payload: String, qos: u8, retain: bool },
    Disconnect,
}

/// The codec call that carries out a command.
#[derive(Debug)]
pub enum CodecCall {
    Subscribe { topic: String, qos: QosLevel },
    Unsubscribe { topic: String },
    Publish { topic: String, payload: String, qos: QosLevel, retain: bool },
    Disconnect,
}

/// The codec call for a command: the same topic, payload and retain flag,
/// the numeric QoS read as a level.
pub open spec fn call_for(command: SessionCommand) -> CodecCall {
    match command {
        SessionCommand::Subscribe { topic, qos } => CodecCall::Subscribe { topic, qos: level_of(qos) },
        SessionCommand::Unsubscribe { topic } => CodecCall::Unsubscribe { topic },
        SessionCommand::Publish { topic, payload, qos, retain } => CodecCall::Publish {
            topic,
            payload,
            qos: level_of(qos),
            retain,
        },
        SessionCommand::Disconnect => CodecCall::Disconnect,
    }
}

/// See [`call_for`].
pub fn codec_call(command: SessionCommand) -> (c: CodecCall)
    ensures
        c == call_for(command),
{
    match command {
        SessionCommand::Subscribe { topic, qos } => CodecCall::Subscribe { topic, qos: qos_from_u8(qos) },
        SessionCommand::Unsubscribe { topic } => CodecCall::Unsubscribe { topic },
        SessionCommand::Publish { topic, payload, qos, retain } => CodecCall::Publish {
            topic,
            payload,
            qos: qos_from_u8(qos),
            retain,
        },
        SessionCommand::Disconnect => CodecCall::Disconnect,
    }
}

/// What one poll of the codec's event source produced.
#[derive(Debug)]
pub enum PollOutcome {
    /// The broker acknowledged the connection.
    ConnAck,
    /// A message arrived.
    Publish { topic: String, payload: String, qos: QosLevel, retain: bool },
    /// The outgoing disconnect frame was sent.
    OutgoingDisconnect,
    /// Any other protocol event.
    Other,
    /// The codec or the transport failed, with its description.
    Failed(String),
}

/// A status notification for the connection.
pub open spec fn notice(
    connection_id: String,
    status: ConnectionStatus,
    last_error: Option<String>,
) -> MqttStatusPayload {
    MqttStatusPayload { connection_id, status, last_error }
}

/// Builds a status notification.
pub fn status_payload(
    connection_id: &String,
    status: ConnectionStatus,
    last_error: Option<String>,
) -> (r: MqttStatusPayload)
    ensures
        r == notice(*connection_id, status, last_error),
{
    MqttStatusPayload { connection_id: connection_id.clone(), status, last_error }
}

/// What the event loop does after one poll.
pub struct EventStep {
    /// Notification to emit, if any.
    pub status: Option<MqttStatusPayload>,
    /// Message to hand to batching, if any.
    pub message: Option<MqttBatchItem>,
    /// Whether the loop ends.
    pub stop: bool,
}

/// The state of one session, as its two loops see it.
pub struct SessionState {
    pub connection_id: String,
    pub variant: ProtocolVariant,
    pub status: ConnectionStatus,
    /// The event loop still polls.
    pub polling: bool,
    /// The command loop still takes commands.
    pub accepting: bool,
}

/// The status after a poll outcome.
pub open spec fn status_after_poll(status: ConnectionStatus, outcome: PollOutcome) -> ConnectionStatus {
    match outcome {
        PollOutcome::ConnAck => ConnectionStatus::Connected,
        PollOutcome::OutgoingDisconnect => ConnectionStatus::Disconnected,
        PollOutcome::Failed(_) => ConnectionStatus::Error,
        _ => status,
    }
}

/// The status after a command result: an error sets `Error`, a disconnect
/// then ends in `Disconnected`.
pub open spec fn status_after_command(
    status: ConnectionStatus,
    is_disconnect: bool,
    failed: bool,
) -> ConnectionStatus {
    if is_disconnect {
        ConnectionStatus::Disconnected
    } else if failed {
        ConnectionStatus::Error
    } else {
        status
    }
}

/// What the command loop does after one command.
pub struct CommandStep {
    /// Notifications to emit, in order.
    pub notices: Vec<MqttStatusPayload>,
    /// Whether the loop ends.
    pub stop: bool,
}

impl SessionState {
    /// A new session for the connection: status `Connecting`, announced before
    /// any network work; both loops running.
    pub fn start(connection_id: String, protocol_version: u8) -> (r: (SessionState, MqttStatusPayload))
        ensures
            r.0.connection_id == connection_id,
            r.0.variant == (if protocol_version == 5 {
                ProtocolVariant::V5
            } else {
                ProtocolVariant::V4
            }),
            r.0.status == ConnectionStatus::Connecting,
            r.0.polling,
            r.0.accepting,
            r.1 == notice(connection_id, ConnectionStatus::Connecting, None),
    {
        let n = status_payload(&connection_id, ConnectionStatus::Connecting, None);
        let s = SessionState {
            connection_id,
            variant: protocol_variant(protocol_version),
            status: ConnectionStatus::Connecting,
            polling: true,
            accepting: true,
        };
        (s, n)
    }

    /// Handles one poll outcome. On an acknowledgment it announces
    /// `Connected`; on a message it forwards an inbound item stamped `now`; on
    /// a sent disconnect it announces `Disconnected`; on a failure it announces
    /// `Error` with the description and stops polling for good. Other events,
    /// and anything once polling has stopped, change nothing.
    pub fn on_poll(&mut self, outcome: PollOutcome, now: u64) -> (r: EventStep)
        ensures
            final(self).connection_id == old(self).connection_id,
            final(self).variant == old(self).variant,
            final(self).accepting == old(self).accepting,
            !old(self).polling ==> {
                &&& final(self).status == old(self).status
                &&& !final(self).polling
                &&& r.status is None
                &&& r.message is None
                &&& r.stop
            },
            old(self).polling ==> {
                &&& final(self).status == status_after_poll(old(self).status, outcome)
                &&& final(self).polling == !(outcome is Failed)
                &&& r.stop == outcome is Failed
                &&& r.status == match outcome {
                    PollOutcome::ConnAck => Some(
                        notice(old(self).connection_id, ConnectionStatus::Connected, None),
                    ),
                    PollOutcome::OutgoingDisconnect => Some(
                        notice(old(self).connection_id, ConnectionStatus::Disconnected, None),
                    ),
                    PollOutcome::Failed(e) => Some(
                        notice(old(self).connection_id, ConnectionStatus::Error, Some(e)),
                    ),
                    _ => None,
                }
                &&& r.message == match outcome {
                    PollOutcome::Publish { topic, payload, qos, retain } => Some(
                        MqttBatchItem {
                            topic,
                            payload,
                            qos: code_of(qos),
                            retain,
                            direction: MessageDirection::In,
                            timestamp: now,
                        },
                    ),
                    _ => None,
                }
            },
    {
        if !self.polling {
            return EventStep { status: None, message: None, stop: true };
        }
        match outcome {
            PollOutcome::ConnAck => {
                self.status = ConnectionStatus::Connected;
                let n = status_payload(&self.connection_id, ConnectionStatus::Connected, None);
                EventStep { status: Some(n), message: None, stop: false }
            },
            PollOutcome::Publish { topic, payload, qos, retain } => {
                let item = MqttBatchItem {
                    topic,
                    payload,
                    qos: qos_to_u8(qos),
                    retain,
                    direction: MessageDirection::In,
                    timestamp: now,
                };
                EventStep { status: None, message: Some(item), stop: false }
            },
            PollOutcome::OutgoingDisconnect => {
                self.status = ConnectionStatus::Disconnected;
                let n = status_payload(&self.connection_id, ConnectionStatus::Disconnected, None);
                EventStep { status: Some(n), message: None, stop: false }
            },
            PollOutcome::Other => EventStep { status: None, message: None, stop: false },
            PollOutcome::Failed(e) => {
                self.status = ConnectionStatus::Error;
                self.polling = false;
                let n = status_payload(&self.connection_id, ConnectionStatus::Error, Some(e));
                EventStep { status: Some(n), message: None, stop: true }
            },
        }
    }

    /// Handles the result of one command. A failure is announced as `Error`
    /// with its description and the loop goes on; a disconnect, whatever its
    /// result, is followed by `Disconnected` and ends the loop. Once the loop
    /// has ended nothing changes.
    pub fn on_command_result(&mut self, is_disconnect: bool, result: Result<(), String>) -> (r:
        CommandStep)
        ensures
            final(self).connection_id == old(self).connection_id,
            final(self).variant == old(self).variant,
            final(self).polling == old(self).polling,
            !old(self).accepting ==> {
                &&& final(self).status == old(self).status
                &&& !final(self).accepting
                &&& r.notices@.len() == 0
                &&& r.stop
            },
            old(self).accepting ==> {
                &&& final(self).status == status_after_command(
                    old(self).status,
                    is_disconnect,
                    result is Err,
                )
                &&& final(self).accepting == !is_disconnect
                &&& r.stop == is_disconnect
                &&& r.notices@ == (match result {
                    Err(e) => seq![notice(old(self).connection_id, ConnectionStatus::Error, Some(e))],
                    Ok(_) => Seq::empty(),
                }) + (if is_disconnect {
                    seq![notice(old(self).connection_id, ConnectionStatus::Disconnected, None)]
                } else {
                    Seq::empty()
                })
            },
    {
        let ghost res = result;
        let mut notices: Vec<MqttStatusPayload> = Vec::new();
        if !self.accepting {
            return CommandStep { notices, stop: true };
        }
        match result {
            Err(e) => {
                self.status = ConnectionStatus::Error;
                notices.push(status_payload(&self.connection_id, ConnectionStatus::Error, Some(e)));
            },
            Ok(_) => {},
        }
        if is_disconnect {
            self.status = ConnectionStatus::Disconnected;
            self.accepting = false;
            notices.push(status_payload(&self.connection_id, ConnectionStatus::Disconnected, None));
        }
        let ghost first = match res {
            Err(e) => seq![notice(old(self).connection_id, ConnectionStatus::Error, Some(e))],
            Ok(_) => Seq::<MqttStatusPayload>::empty(),
        };
        assert(notices@ =~= first + (if is_disconnect {
            seq![notice(old(self).connection_id, ConnectionStatus::Disconnected, None)]
        } else {
            Seq::empty()
        }));
        CommandStep { notices, stop: is_disconnect }
    }
}

} // verus!
