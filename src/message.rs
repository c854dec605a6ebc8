//! Messages as the queue delivers them, and the check that makes one acknowledgeable.
use vstd::prelude::*;

use crate::ack::AckEntry;

verus! {

/// A message as received: each field may be absent.
pub struct Message {
    pub message_id: Option<String>,
    pub body: Option<String>,
    pub receipt_handle: Option<String>,
}

/// Why a message cannot be processed; such a message is dropped locally.
#[derive(PartialEq, Eq, Structural, Clone, Copy, Debug)]
pub enum MessageError {
    MissingId,
    MissingBody,
    MissingReceiptHandle,
}

/// The entry that acknowledges `m`, or the first missing field, checked in the
/// order id, body, receipt handle.
pub open spec fn validate_spec(m: Message) -> Result<AckEntry, MessageError> {
    match (m.message_id, m.body, m.receipt_handle) {
        (None, _, _) => Err(MessageError::MissingId),
        (Some(_), None, _) => Err(MessageError::MissingBody),
        (Some(_), Some(_), None) => Err(MessageError::MissingReceiptHandle),
        (Some(id), Some(_), Some(rh)) => Ok(AckEntry { id, receipt_handle: rh }),
    }
}

/// Checks that `m` has an id, a body and a receipt handle, and builds the entry
/// that will acknowledge it.
pub fn validate(m: &Message) -> (r: Result<AckEntry, MessageError>)
    ensures
        r == validate_spec(*m),
{
    let id = match &m.message_id {
        Some(id) => id.clone(),
        None => return Err(MessageError::MissingId),
    };
    if m.body.is_none() {
        return Err(MessageError::MissingBody);
    }
    let receipt_handle = match &m.receipt_handle {
        Some(rh) => rh.clone(),
        None => return Err(MessageError::MissingReceiptHandle),
    };
    Ok(AckEntry { id, receipt_handle })
}

/// What a per-message task sends to the acknowledger once the handler has run:
/// the entry when the handler succeeded, nothing when it failed.
pub fn ack_after_handler(entry: AckEntry, handler_succeeded: bool) -> (r: Option<AckEntry>)
    ensures
        r == if handler_succeeded { Some(entry) } else { None::<AckEntry> },
{
    if handler_succeeded {
        Some(entry)
    } else {
        None
    }
}

} // verus!
