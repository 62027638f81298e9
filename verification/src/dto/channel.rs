//! Request and response records of the remote channel service's
//! administration API. The library only carries these as data; the
//! surrounding transport encodes and decodes them on the wire.

use vstd::prelude::*;
use std::collections::HashMap;
use std::collections::HashSet;

verus! {

/// Request to create a channel.
pub struct ChannelCreateReqDto {
    /// Protocols supported by the client, sorted by preference (first is
    /// the preferred).
    pub protocols: Vec<String>,
}

/// Response to channel creation.
pub struct ChannelCreateResDto {
    /// Superseded by `producer_address` and `consumer_address`.
    pub channel_id: String,
    pub producer_address: String,
    pub consumer_address: String,
    /// Superseded: the agent name is embedded in the two addresses.
    pub agent_name: String,
    /// Protocols supported by the channel.
    pub protocols: Vec<String>,
}

/// Request to write a batch of messages to a set of channels.
pub struct WriteBatchReqDto {
    pub channels: HashSet<String>,
    pub messages: Vec<ChanMessage>,
}

/// One message to write: the stream it belongs to and an opaque payload.
pub struct ChanMessage {
    pub stream_id: String,
    pub body: serde_json::Value,
}

/// Response to a batch write.
pub struct WriteBatchResDto {
    pub failures: Vec<MessageDeliveryFailure>,
}

/// One message of a batch that could not be delivered.
pub struct MessageDeliveryFailure {
    pub channel: String,
    pub index: usize,
    pub reason: String,
}

/// Request asking which of a set of channels exist.
pub struct ChanExistsReqDto {
    pub channels: HashSet<String>,
}

/// Response naming, for each asked channel, whether it exists.
pub struct ChanExistsResDto {
    pub channels: HashMap<String, bool>,
}

/// Paging parameters of the channel listing API.
pub struct ChannelsListParams {
    pub agents: HashSet<String>,
    pub skip: usize,
    pub limit: usize,
}

/// The page size used when a listing request names none.
pub fn default_limit() -> (limit: usize)
    ensures
        limit == 50,
{
    50
}

/// A channel address together with the agent that serves it.
pub struct ChannelInfoDto {
    pub address: String,
    pub agent_id: String,
}

/// The agent embedded in a channel address: the prefix before the first
/// `'.'`, or the whole address if it has none.
pub open spec fn agent_of(address: Seq<char>) -> Seq<char> {
    match address.index_of_first('.') {
        Some(i) => address.take(i),
        None => address,
    }
}

impl ChannelInfoDto {
    /// Read a channel address: the address is kept whole and the agent is
    /// the prefix before its first `'.'`.
    pub fn from_address(s: &str) -> (info: ChannelInfoDto)
        ensures
            info.address@ == s@,
            info.agent_id@ == agent_of(s@),
    {
        let n = s.unicode_len();
        let mut i: usize = 0;
        while i < n && s.get_char(i) != '.'
            invariant
                n == s@.len(),
                i <= n,
                forall|j: int| 0 <= j < i ==> s@[j] != '.',
            decreases n - i,
        {
            i += 1;
        }
        let prefix = s.substring_char(0, i);
        proof {
            s@.index_of_first_ensures('.');
            if i < n {
                assert(s@[i as int] == '.');
                assert(s@.contains('.'));
                let k = s@.index_of_first('.').unwrap();
                assert(!(k < i) && !(i < k));
                assert(agent_of(s@) == s@.take(i as int));
            } else {
                if s@.contains('.') {
                    let w = choose|w: int| 0 <= w < s@.len() && s@[w] == '.';
                    assert(s@[w] != '.');
                }
                assert(s@.index_of_first('.') is None);
                assert(prefix@ =~= s@);
            }
        }
        ChannelInfoDto { address: s.to_owned(), agent_id: prefix.to_owned() }
    }
}

} // verus!
