//! The rules of the connection table: at most one live session per
//! connection id.
//!
//! The table itself is a concurrent map owned by the caller; each entry holds
//! the number of the session registered under its id. The functions here
//! decide, for one entry, what a connect, a disconnect or a routed command
//! does to it and which session has to be shut down.
use vstd::prelude::*;
use crate::text::push_str;

verus! {

/// Why a registry operation failed.
#[derive(Debug)]
pub enum MqttError {
    /// No session is registered under the id.
    ConnectionNotFound(String),
    /// The session no longer takes commands.
    CommandChannelClosed,
    /// The protocol client reported a failure.
    Mqtt(String),
}

/// The description of an error.
pub open spec fn error_text(e: MqttError) -> Seq<char> {
    match e {
        MqttError::ConnectionNotFound(id) => "connection not found: "@ + id@,
        MqttError::CommandChannelClosed => "connection command channel closed"@,
        MqttError::Mqtt(m) => "mqtt error: "@ + m@,
    }
}

impl MqttError {
    /// See [`error_text`].
    pub fn message(&self) -> (r: String)
        ensures
            r@ == error_text(*self),
    {
        match self {
            MqttError::ConnectionNotFound(id) => {
                let mut s = String::from_str("connection not found: ");
                push_str(&mut s, id.as_str());
                s
            },
            MqttError::CommandChannelClosed => String::from_str("connection command channel closed"),
            MqttError::Mqtt(m) => {
                let mut s = String::from_str("mqtt error: ");
                push_str(&mut s, m.as_str());
                s
            },
        }
    }
}

/// The outcome of a connect on one entry.
pub struct ConnectPlan {
    /// What the entry holds afterwards: the new session.
    pub entry: Option<u64>,
    /// The session that was registered before, which must now be shut down.
    pub superseded: Option<u64>,
}

/// A connect on an entry: what the entry then holds, and which session
/// must be shut down.
pub open spec fn connect_step(current: Option<u64>, session: u64) -> (Option<u64>, Option<u64>) {
    (Some(session), current)
}

/// A connect: the new session takes the entry, and the one it replaces, if
/// any, is handed back to be shut down without waiting.
pub fn connect_slot(current: Option<u64>, session: u64) -> (r: ConnectPlan)
    ensures
        (r.entry, r.superseded) == connect_step(current, session),
{
    ConnectPlan { entry: Some(session), superseded: current }
}

/// A disconnect: the entry is emptied and its session handed back to be shut
/// down; an empty entry is `ConnectionNotFound`.
pub fn disconnect_slot(connection_id: &str, current: Option<u64>) -> (r: Result<u64, MqttError>)
    ensures
        current matches Some(s) ==> r == Ok::<u64, MqttError>(s),
        current is None ==> (r matches Err(MqttError::ConnectionNotFound(id)) && id@
            == connection_id@),
{
    match current {
        Some(s) => Ok(s),
        None => Err(MqttError::ConnectionNotFound(String::from_str(connection_id))),
    }
}

/// A command for a connection goes to the session of its entry; an empty
/// entry is `ConnectionNotFound`.
pub fn route_slot(connection_id: &str, current: Option<u64>) -> (r: Result<u64, MqttError>)
    ensures
        current matches Some(s) ==> r == Ok::<u64, MqttError>(s),
        current is None ==> (r matches Err(MqttError::ConnectionNotFound(id)) && id@
            == connection_id@),
{
    disconnect_slot(connection_id, current)
}

/// The entry and the shut-down sessions after connects of `sessions`, one
/// after the other, starting from `entry`.
pub open spec fn after_connects(entry: Option<u64>, sessions: Seq<u64>) -> (Option<u64>, Seq<u64>)
    decreases sessions.len(),
{
    if sessions.len() == 0 {
        (entry, Seq::empty())
    } else {
        let prev = after_connects(entry, sessions.drop_last());
        let step = connect_step(prev.0, sessions.last());
        (
            step.0,
            match step.1 {
                Some(s) => prev.1.push(s),
                None => prev.1,
            },
        )
    }
}

/// After `n >= 1` connects under one id, starting from no session, exactly one
/// session is registered, the last one, and exactly `n - 1` shutdowns were
/// issued: one for each earlier session, in order.
pub proof fn lemma_one_session_per_id(sessions: Seq<u64>)
    requires
        sessions.len() >= 1,
    ensures
        after_connects(None, sessions).0 == Some(sessions.last()),
        after_connects(None, sessions).1 == sessions.drop_last(),
        after_connects(None, sessions).1.len() == sessions.len() - 1,
    decreases sessions.len(),
{
    let d = sessions.drop_last();
    let prev = after_connects(None, d);
    if sessions.len() > 1 {
        lemma_one_session_per_id(d);
        assert(d.drop_last().push(d.last()) =~= d);
        assert(after_connects(None, sessions).1 == prev.1.push(d.last()));
    } else {
        assert(d =~= Seq::<u64>::empty());
        assert(prev == (None::<u64>, Seq::<u64>::empty()));
        assert(after_connects(None, sessions).1 == prev.1);
    }
}

} // verus!
