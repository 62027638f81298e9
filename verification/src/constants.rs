//! Feature flags and protocol names shared with the remote service.

use vstd::prelude::*;

verus! {

/// Feature bit: the channel supports chunked streaming.
pub const CHAN_CHUNKED_STREAM: u32 = 1u32 << 0;

/// Protocol name of newline-delimited JSON over a streamed HTTP response.
pub const HTTP_STREAM_NDJSON_V1: &'static str = "HTTP_STREAM_NDJSON_V1";

} // verus!
