use vstd::prelude::*;

use crate::event::spec_with_id;
use crate::messages::{map_payload, message_of, parsed_doc, spec_map_message};
use crate::store::EventStore;

verus! {

/// What one pull from the log partition yielded: an infrastructure error, a
/// message with no payload, or a message carrying payload bytes. A message
/// comes with its position (offset) in the partition.
#[derive(Debug)]
pub enum Pulled {
    InfraError,
    NoPayload { offset: u64 },
    Payload { offset: u64, bytes: Vec<u8> },
}

/// What the consumer did with one pull.
#[derive(Clone, Copy, Debug, PartialEq, Eq, Structural)]
pub enum StepOutcome {
    /// Infrastructure error: nothing read; keep pulling.
    Retried,
    /// Empty payload: permanently skipped, cursor not advanced.
    Skipped,
    /// Malformed payload: permanently dropped, cursor not advanced.
    Dropped,
    /// Mapped fine but the store refused the write: cursor not advanced, so
    /// the message stays redeliverable.
    StoreFailed,
    /// Persisted, and only then was the cursor advanced to this message.
    Persisted,
}

/// The consumer's durable position: the offset of the last message whose
/// event write was committed, or nothing before the first commit.
pub struct Consumer {
    pub cursor: Option<u64>,
}

impl Consumer {
    /// A consumer that has committed nothing yet.
    pub fn new() -> (c: Consumer)
        ensures
            c.cursor is None,
    {
        Consumer { cursor: None }
    }

    /// One turn of the ingestion loop: map the pulled message, persist it,
    /// and only on a successful persist advance the cursor to its offset.
    /// Unparseable payloads are dropped without retry; a store failure
    /// leaves both the store and the cursor exactly as they were, so the
    /// message stays redeliverable. The event is stamped `now_micros`, the
    /// ingestion time, never a time from the payload.
    pub fn step(&mut self, store: &mut EventStore, pulled: Pulled, now_micros: i64) -> (o:
        StepOutcome)
        requires
            old(store).wf(),
        ensures
            final(store).wf(),
            final(store)@.len() >= old(store)@.len(),
            forall|i: int| 0 <= i < old(store)@.len() ==> final(store)@[i] == old(store)@[i],
            final(self).cursor != old(self).cursor ==> o == StepOutcome::Persisted,
            o != StepOutcome::Persisted ==> final(store)@ == old(store)@ && final(self).cursor
                == old(self).cursor,
            match pulled {
                Pulled::InfraError => o == StepOutcome::Retried,
                Pulled::NoPayload { .. } => o == StepOutcome::Skipped,
                Pulled::Payload { offset, bytes } => match message_of(parsed_doc(bytes@)) {
                    None => o == StepOutcome::Dropped,
                    Some(m) => if old(store).can_insert() {
                        &&& o == StepOutcome::Persisted
                        &&& final(store)@ == old(store)@.push(
                            spec_with_id(spec_map_message(m, now_micros), old(store).spec_next_id()),
                        )
                        &&& final(self).cursor == Some(offset)
                    } else {
                        o == StepOutcome::StoreFailed
                    },
                },
            },
    {
        match pulled {
            Pulled::InfraError => StepOutcome::Retried,
            Pulled::NoPayload { .. } => StepOutcome::Skipped,
            Pulled::Payload { offset, bytes } => {
                match map_payload(bytes.as_slice(), now_micros) {
                    Err(_) => StepOutcome::Dropped,
                    Ok(event) => match store.insert(event) {
                        Ok(_) => {
                            self.cursor = Some(offset);
                            StepOutcome::Persisted
                        },
                        Err(_) => StepOutcome::StoreFailed,
                    },
                }
            },
        }
    }
}

} // verus!
