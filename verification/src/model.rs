//! Descriptor returned by the caller-supplied initializer capability.

use vstd::prelude::*;

verus! {

/// What the initializer reports back: the channel address to bind and the
/// stream ids to subscribe to on it.
pub struct StreamSpec {
    pub channel: String,
    pub streams: Vec<String>,
}

} // verus!
