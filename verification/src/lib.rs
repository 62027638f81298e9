//! Client-side multiplexing layer for a remote publish/subscribe channel
//! service reached over a streamed HTTP long-poll transport.
//!
//! The verified core is the stream multiplexing and reconnection engine:
//! a bounded recency cache that suppresses duplicate events, a subscription
//! registry with fan-out and pruning, the single bound channel address, and
//! the per-iteration decisions of the long-poll reader state machine.
//! The surrounding async transport (HTTP requests, delivery queues) performs
//! the actions these decisions call for.

pub mod cache;
pub mod client;
pub mod constants;
pub mod dto;
pub mod error;
pub mod ext;
pub mod frame;
pub mod laws;
pub mod model;
pub mod registry;

pub use cache::RecencyCache;
pub use client::MegaphoneClient;
