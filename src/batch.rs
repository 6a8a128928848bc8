//! Coalescing of inbound messages into batches.
//!
//! A buffer collects messages in arrival order and hands them out as one
//! batch when it reaches `BATCH_MAX` messages, when the flush timer fires, or
//! when the message inbox closes. The caller persists each batch and then
//! publishes it; see [`flush_step`].
use vstd::prelude::*;
use crate::models::{ConnectionStatus, MqttBatchItem, MqttMessageBatchPayload, MqttStatusPayload};
use crate::session::{notice, status_payload};
use crate::text::push_str;

verus! {

/// A buffer is flushed as soon as it holds this many messages.
pub const BATCH_MAX: usize = 50;

/// Period of the flush timer, in milliseconds. Missed ticks are delayed, not
/// fired in a burst.
pub const BATCH_FLUSH_MS: u64 = 75;

/// Messages waiting to be flushed, in arrival order.
pub struct BatchBuffer {
    items: Vec<MqttBatchItem>,
}

impl BatchBuffer {
    /// The waiting messages.
    pub closed spec fn pending(&self) -> Seq<MqttBatchItem> {
        self.items@
    }

    /// A buffer never rests full.
    pub open spec fn wf(&self) -> bool {
        self.pending().len() < BATCH_MAX
    }

    /// Every buffer is well formed.
    #[verifier::type_invariant]
    spec fn inv(&self) -> bool {
        self.wf()
    }

    /// An empty buffer.
    pub fn new() -> (r: BatchBuffer)
        ensures
            r.wf(),
            r.pending() == Seq::<MqttBatchItem>::empty(),
    {
        BatchBuffer { items: Vec::new() }
    }

    /// Number of waiting messages.
    pub fn len(&self) -> (n: usize)
        ensures
            n == self.pending().len(),
    {
        self.items.len()
    }

    /// Adds an arrived message. When that fills the buffer, the whole buffer,
    /// this message last, comes back as a batch and the buffer is empty;
    /// otherwise nothing comes back.
    pub fn push(&mut self, item: MqttBatchItem) -> (r: Option<Vec<MqttBatchItem>>)
        ensures
            final(self).wf(),
            old(self).pending().len() + 1 >= BATCH_MAX ==> {
                &&& r matches Some(b) && b@ == old(self).pending().push(item)
                &&& final(self).pending() == Seq::<MqttBatchItem>::empty()
            },
            old(self).pending().len() + 1 < BATCH_MAX ==> {
                &&& r is None
                &&& final(self).pending() == old(self).pending().push(item)
            },
    {
        proof {
            use_type_invariant(&*self);
        }
        let mut items: Vec<MqttBatchItem> = Vec::new();
        std::mem::swap(&mut items, &mut self.items);
        items.push(item);
        if items.len() >= BATCH_MAX {
            Some(items)
        } else {
            *self = BatchBuffer { items };
            None
        }
    }

    /// The flush timer fired: everything waiting comes back as one batch,
    /// or nothing when the buffer is empty.
    pub fn tick(&mut self) -> (r: Option<Vec<MqttBatchItem>>)
        ensures
            final(self).wf(),
            final(self).pending() == Seq::<MqttBatchItem>::empty(),
            old(self).pending().len() == 0 ==> r is None,
            old(self).pending().len() > 0 ==> (r matches Some(b) && b@ == old(self).pending()),
    {
        if self.items.len() == 0 {
            None
        } else {
            let mut items: Vec<MqttBatchItem> = Vec::new();
            std::mem::swap(&mut items, &mut self.items);
            Some(items)
        }
    }

    /// The inbox closed: as [`BatchBuffer::tick`], so that no buffered message
    /// is dropped when the emitter ends.
    pub fn close(&mut self) -> (r: Option<Vec<MqttBatchItem>>)
        ensures
            final(self).wf(),
            final(self).pending() == Seq::<MqttBatchItem>::empty(),
            old(self).pending().len() == 0 ==> r is None,
            old(self).pending().len() > 0 ==> (r matches Some(b) && b@ == old(self).pending()),
    {
        self.tick()
    }
}

/// What a flush sends out.
pub struct FlushStep {
    /// `Error` notification when the batch could not be persisted.
    pub status: Option<MqttStatusPayload>,
    /// The batch notification, sent whether or not persistence succeeded.
    pub batch: MqttMessageBatchPayload,
}

/// The text of a persistence failure.
pub open spec fn persist_error_text(error: Seq<char>) -> Seq<char> {
    "failed to persist history: "@ + error
}

/// Decides what a flush sends out once the batch was handed to the store:
/// the batch is always published; a persistence failure is reported as an
/// `Error` status as well, so that the live view is never starved.
pub fn flush_step(
    connection_id: &String,
    batch: Vec<MqttBatchItem>,
    persisted: Result<(), String>,
) -> (r: FlushStep)
    ensures
        r.batch.connection_id == *connection_id,
        r.batch.messages == batch,
        persisted is Ok ==> r.status is None,
        persisted matches Err(e) ==> (r.status matches Some(n) && n.connection_id == *connection_id
            && n.status == ConnectionStatus::Error && (n.last_error matches Some(t) && t@
            == persist_error_text(e@))),
{
    let status = match persisted {
        Ok(_) => None,
        Err(e) => {
            let mut text = String::from_str("failed to persist history: ");
            push_str(&mut text, e.as_str());
            Some(status_payload(connection_id, ConnectionStatus::Error, Some(text)))
        },
    };
    FlushStep {
        status,
        batch: MqttMessageBatchPayload { connection_id: connection_id.clone(), messages: batch },
    }
}

} // verus!
