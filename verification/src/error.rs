//! Error taxonomy of the client.

use vstd::prelude::*;

verus! {

/// Failure while preparing a long-poll connection: the URL assembled from
/// the base URL and the channel address is not a valid request target.
#[derive(Debug, Clone, PartialEq, Eq)]
pub enum Error {
    InvalidUrl { url: String },
}

/// Failure of single-response consumption.
#[derive(Debug, Clone, PartialEq, Eq)]
pub enum DelayedResponseError {
    /// The initializer capability failed; carries its message.
    InitializationError(String),
    /// The delivery endpoint closed before any message arrived.
    MissingResponse,
    /// The first message arrived but could not be deserialized.
    DeserializationError(String),
}

} // verus!
