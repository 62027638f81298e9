//! Event records received from the remote service.

use vstd::prelude::*;

verus! {

/// One event as received on the long-poll stream: a globally unique id (to
/// the client's dedup horizon), the stream it belongs to, and an opaque
/// structured payload.
pub struct EventDto {
    pub event_id: String,
    pub stream_id: String,
    pub body: serde_json::Value,
}

} // verus!
