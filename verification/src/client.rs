//! Client facade and the decisions of the long-poll reader state machine.
//!
//! `MegaphoneClient` is the shared state of one client instance: the base
//! URL, the single currently bound channel address, the recency cache and
//! the subscription registry. The surrounding asynchronous transport holds
//! it behind a lock, runs one reader task per bound address, and calls in
//! here for every decision: what a registration changes and whether it must
//! spawn a reader, which endpoints an incoming event is delivered to,
//! whether a reader reconnects or terminates, and what its teardown clears.

use vstd::prelude::*;
use crate::cache::RecencyCache;
use crate::cache::record_spec;
use crate::dto::message::EventDto;
use crate::error::DelayedResponseError;
use crate::error::Error;
use crate::ext::parse_uri;
use crate::ext::uri_parse_ok;
use crate::model::StreamSpec;
use crate::registry::Registry;
use crate::registry::Subscription;
use crate::registry::fanout_targets_spec;
use crate::registry::has_open_subscriber_spec;
use crate::registry::prune_spec;

verus! {

/// Whether the recorded channel address is exactly `bound`.
pub open spec fn bound_to(current: Option<String>, bound: Seq<char>) -> bool {
    current matches Some(c) && c@ == bound
}

/// The reader bound to `bound` stops when a newer reader has taken over
/// (the recorded address differs) or when no subscription for `bound` has
/// an open endpoint any more.
pub open spec fn should_terminate_spec(
    current: Option<String>,
    bound: Seq<char>,
    subs: Seq<Subscription>,
    closed: Seq<bool>,
) -> bool {
    !bound_to(current, bound) || !has_open_subscriber_spec(subs, closed, bound)
}

/// The endpoints an event is fanned out to: none if its id was already
/// seen, otherwise every open subscription matching its channel and stream.
pub open spec fn handle_event_targets_spec(
    cache: Seq<Seq<char>>,
    subs: Seq<Subscription>,
    closed: Seq<bool>,
    bound: Seq<char>,
    event_id: Seq<char>,
    stream: Seq<char>,
) -> Seq<u64> {
    if cache.contains(event_id) {
        Seq::empty()
    } else {
        fanout_targets_spec(subs, closed, bound, stream)
    }
}

/// The recency cache after an event is handled: unchanged for an already
/// seen id, otherwise the id is recorded.
pub open spec fn handle_event_cache_spec(
    cache: Seq<Seq<char>>,
    capacity: nat,
    event_id: Seq<char>,
) -> Seq<Seq<char>> {
    if cache.contains(event_id) {
        cache
    } else {
        record_spec(cache, capacity, event_id)
    }
}

/// What a reader decides once one streamed response is exhausted.
#[derive(Debug, PartialEq, Eq, Structural)]
pub enum ReaderDecision {
    /// Open the next long-poll request against the same address.
    Reconnect,
    /// Stop: a newer reader took over, or no subscriber is left.
    Terminate,
}

/// Shared state of one client instance.
pub struct MegaphoneClient {
    /// Base URL of the remote service.
    pub url: String,
    /// The single currently bound channel address, if any. Non-empty only
    /// while a reader bound to that exact address may be running.
    pub channel_address: Option<String>,
    /// Recency cache shared across all channels and streams of this
    /// client. Event-id collisions across distinct channels therefore
    /// suppress delivery across channels; kept as designed, pending owner
    /// confirmation.
    pub cache: RecencyCache,
    /// The active subscriptions.
    pub registry: Registry,
}

impl MegaphoneClient {
    /// A fresh client: nothing bound, nothing subscribed, an empty recency
    /// cache of capacity `buf_len`.
    pub fn new(url: &str, buf_len: usize) -> (client: Self)
        ensures
            client.url@ == url@,
            client.channel_address is None,
            client.cache@ == Seq::<Seq<char>>::empty(),
            client.cache.spec_capacity() == buf_len,
            client.cache.wf(),
            client.registry@ == Seq::<Subscription>::empty(),
    {
        MegaphoneClient {
            url: url.to_owned(),
            channel_address: None,
            cache: RecencyCache::new(buf_len),
            registry: Registry::new(),
        }
    }

    /// Apply an initializer's descriptor: subscribe `endpoint` to every
    /// stream of the descriptor's channel, and bind that channel. Returns
    /// the address a new reader must be spawned for — exactly when the
    /// descriptor's channel differs from the previously bound one.
    pub fn register(&mut self, descriptor: &StreamSpec, endpoint: u64) -> (spawn: Option<String>)
        ensures
            final(self).registry@.len() == old(self).registry@.len() + descriptor.streams@.len(),
            forall|i: int|
                0 <= i < old(self).registry@.len() ==> final(self).registry@[i] == old(
                    self,
                ).registry@[i],
            forall|i: int|
                0 <= i < descriptor.streams@.len() ==> final(self).registry@[old(
                    self,
                ).registry@.len() + i] == (Subscription {
                    channel_address: descriptor.channel,
                    stream_id: descriptor.streams@[i],
                    endpoint,
                }),
            spawn is Some <==> !bound_to(old(self).channel_address, descriptor.channel@),
            spawn matches Some(address) ==> address == descriptor.channel,
            final(self).channel_address == (if !bound_to(
                old(self).channel_address,
                descriptor.channel@,
            ) {
                Some(descriptor.channel)
            } else {
                old(self).channel_address
            }),
            final(self).cache == old(self).cache,
            final(self).url == old(self).url,
    {
        let ghost pre = self.registry@;
        let mut j: usize = 0;
        while j < descriptor.streams.len()
            invariant
                j <= descriptor.streams.len(),
                self.registry@.len() == pre.len() + j,
                forall|i: int| 0 <= i < pre.len() ==> self.registry@[i] == pre[i],
                forall|i: int|
                    0 <= i < j ==> self.registry@[pre.len() + i] == (Subscription {
                        channel_address: descriptor.channel,
                        stream_id: descriptor.streams@[i],
                        endpoint,
                    }),
                self.channel_address == old(self).channel_address,
                self.cache == old(self).cache,
                self.url == old(self).url,
            decreases descriptor.streams.len() - j,
        {
            let sub = Subscription {
                channel_address: descriptor.channel.clone(),
                stream_id: descriptor.streams[j].clone(),
                endpoint,
            };
            self.registry.add(sub);
            j += 1;
        }
        let changed = match &self.channel_address {
            Some(current) => !(*current == descriptor.channel),
            None => true,
        };
        if changed {
            self.channel_address = Some(descriptor.channel.clone());
            Some(descriptor.channel.clone())
        } else {
            None
        }
    }

    /// Handle one parsed event inside a reader bound to `bound`: check and
    /// record its id in the recency cache and, if it was unseen, name every
    /// open subscription matching (`bound`, the event's stream) as a
    /// delivery target. Check and record are one step, so a given id is
    /// fanned out at most once while it stays in the cache.
    pub fn handle_event(&mut self, bound: &String, event: &EventDto, closed: &Vec<bool>) -> (targets:
        Vec<u64>)
        requires
            closed@.len() == old(self).registry@.len(),
            old(self).cache.wf(),
        ensures
            targets@ == handle_event_targets_spec(
                old(self).cache@,
                old(self).registry@,
                closed@,
                bound@,
                event.event_id@,
                event.stream_id@,
            ),
            final(self).cache@ == handle_event_cache_spec(
                old(self).cache@,
                old(self).cache.spec_capacity(),
                event.event_id@,
            ),
            final(self).cache.spec_capacity() == old(self).cache.spec_capacity(),
            final(self).cache.wf(),
            final(self).registry == old(self).registry,
            final(self).channel_address == old(self).channel_address,
            final(self).url == old(self).url,
    {
        if self.cache.contains(&event.event_id) {
            Vec::new()
        } else {
            let targets = self.registry.fanout_targets(bound, &event.stream_id, closed);
            self.cache.record(event.event_id.clone());
            targets
        }
    }

    /// The per-iteration decision of a reader bound to `bound`, taken once
    /// a streamed response ends: reconnect, or terminate because a newer
    /// reader took the address over or no open subscriber for `bound` is
    /// left.
    pub fn reader_decision(&self, bound: &String, closed: &Vec<bool>) -> (decision: ReaderDecision)
        requires
            closed@.len() == self.registry@.len(),
        ensures
            decision == (if should_terminate_spec(
                self.channel_address,
                bound@,
                self.registry@,
                closed@,
            ) {
                ReaderDecision::Terminate
            } else {
                ReaderDecision::Reconnect
            }),
    {
        let stale = match &self.channel_address {
            Some(current) => !(*current == *bound),
            None => true,
        };
        if stale || !self.registry.has_open_subscriber(bound, closed) {
            ReaderDecision::Terminate
        } else {
            ReaderDecision::Reconnect
        }
    }

    /// Cleanup of a terminating reader bound to `bound`: clear the bound
    /// address only if it is still this reader's own (never clobbering a
    /// newer reader's address), then remove every subscription that is
    /// closed or belongs to `bound`.
    pub fn reader_teardown(&mut self, bound: &String, closed: &Vec<bool>)
        requires
            closed@.len() == old(self).registry@.len(),
        ensures
            final(self).channel_address == (if bound_to(old(self).channel_address, bound@) {
                None::<String>
            } else {
                old(self).channel_address
            }),
            final(self).registry@ == prune_spec(old(self).registry@, closed@, bound@),
            final(self).cache == old(self).cache,
            final(self).url == old(self).url,
    {
        let still_own = match &self.channel_address {
            Some(current) => *current == *bound,
            None => false,
        };
        if still_own {
            self.channel_address = None;
        }
        self.registry.prune(bound, closed);
    }

    /// The request target of a reader bound to `address`: the base URL,
    /// stripped of leading and trailing slashes, joined to the address with
    /// one slash, parsed as a URI. Fails with `InvalidUrl`, naming the
    /// offending string, exactly when the URI parser rejects it.
    pub fn reader_target(&self, address: &String) -> (target: Result<hyper::Uri, Error>)
        ensures
            target is Ok <==> uri_parse_ok(poll_url_spec(self.url@, address@)),
            target matches Err(e) ==> (e matches Error::InvalidUrl { url } && url@ == poll_url_spec(
                self.url@,
                address@,
            )),
    {
        let url = poll_url(&self.url, address);
        parse_uri(&url)
    }
}

/// Single-response consumption: the first event delivered to a fresh
/// subscription, or `MissingResponse` if the delivery endpoint closed
/// before any event arrived.
pub fn single_response(received: Option<EventDto>) -> (response: Result<
    serde_json::Value,
    DelayedResponseError,
>)
    ensures
        received matches Some(event) ==> (response matches Ok(body) && body == event.body),
        received is None ==> (response matches Err(e) && e == DelayedResponseError::MissingResponse),
{
    match received {
        Some(event) => Ok(event.body),
        None => Err(DelayedResponseError::MissingResponse),
    }
}

/// `s` without leading slashes.
pub open spec fn trim_leading(s: Seq<char>) -> Seq<char>
    decreases s.len(),
{
    if s.len() > 0 && s[0] == '/' {
        trim_leading(s.drop_first())
    } else {
        s
    }
}

/// `s` without trailing slashes.
pub open spec fn trim_trailing(s: Seq<char>) -> Seq<char>
    decreases s.len(),
{
    if s.len() > 0 && s.last() == '/' {
        trim_trailing(s.drop_last())
    } else {
        s
    }
}

/// The URL a reader polls: the base URL without leading and trailing
/// slashes, a single slash, and the channel address.
pub open spec fn poll_url_spec(base: Seq<char>, address: Seq<char>) -> Seq<char> {
    trim_trailing(trim_leading(base)) + seq!['/'] + address
}

proof fn lemma_trim_leading_at(s: Seq<char>, k: int)
    requires
        0 <= k <= s.len(),
        forall|j: int| 0 <= j < k ==> s[j] == '/',
        k == s.len() || s[k] != '/',
    ensures
        trim_leading(s) == s.skip(k),
    decreases k,
{
    if k == 0 {
        assert(s.skip(0) =~= s);
    } else {
        assert(s[0] == '/');
        lemma_trim_leading_at(s.drop_first(), k - 1);
        assert(s.drop_first().skip(k - 1) =~= s.skip(k));
    }
}

proof fn lemma_trim_trailing_at(s: Seq<char>, m: int)
    requires
        0 <= m <= s.len(),
        forall|j: int| m <= j < s.len() ==> s[j] == '/',
        m == 0 || s[m - 1] != '/',
    ensures
        trim_trailing(s) == s.take(m),
    decreases s.len(),
{
    if m == s.len() {
        if s.len() > 0 && s.last() == '/' {
            assert(false);
        }
        assert(s.take(m) =~= s);
    } else {
        assert(s.last() == '/');
        lemma_trim_trailing_at(s.drop_last(), m);
        assert(s.drop_last().take(m) =~= s.take(m));
    }
}

/// Join the base URL and a channel address: the base is stripped of
/// leading and trailing slashes and the address appended after one slash.
pub fn poll_url(base: &String, address: &String) -> (url: String)
    ensures
        url@ == poll_url_spec(base@, address@),
{
    let s = base.as_str();
    let n = s.unicode_len();
    let mut start: usize = 0;
    while start < n && s.get_char(start) == '/'
        invariant
            n == s@.len(),
            start <= n,
            forall|j: int| 0 <= j < start ==> s@[j] == '/',
        decreases n - start,
    {
        start += 1;
    }
    let mut end: usize = n;
    while end > start && s.get_char(end - 1) == '/'
        invariant
            n == s@.len(),
            start <= end <= n,
            forall|j: int| end <= j < n ==> s@[j] == '/',
        decreases end,
    {
        end -= 1;
    }
    let core = s.substring_char(start, end);
    proof {
        lemma_trim_leading_at(s@, start as int);
        let tail = s@.skip(start as int);
        lemma_trim_trailing_at(tail, end - start);
        assert(tail.take(end - start) =~= s@.subrange(start as int, end as int));
        assert(core@ == trim_trailing(trim_leading(base@)));
    }
    let mut url = core.to_owned();
    url.append("/");
    url.append(address.as_str());
    proof {
        reveal_strlit("/");
        assert("/"@ =~= seq!['/']);
        assert(url@ =~= poll_url_spec(base@, address@));
    }
    url
}

} // verus!
