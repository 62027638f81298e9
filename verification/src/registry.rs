//! Subscription registry: the mutable collection of active subscriptions.
//!
//! Each subscription names a channel address, a stream id, and the delivery
//! endpoint that matching events are handed to. The registry supports
//! appending, fan-out target lookup by (channel, stream), pruning at reader
//! teardown, and the "any open subscriber left" check of the reader's
//! termination decision.
//!
//! Delivery endpoints are named by plain identifiers; the queues they stand
//! for live with the surrounding transport code, which also reports whether
//! each endpoint's consumer side is still open. Every operation that depends
//! on openness takes a `closed` vector aligned with the registry's contents.

use vstd::prelude::*;

verus! {

/// One active subscription: a (channel, stream) filter plus the identifier
/// of the delivery endpoint its events go to.
pub struct Subscription {
    pub channel_address: String,
    pub stream_id: String,
    pub endpoint: u64,
}

/// Whether a subscription matches an event on channel `bound` and stream
/// `stream`.
pub open spec fn sub_matches(sub: Subscription, bound: Seq<char>, stream: Seq<char>) -> bool {
    sub.channel_address@ == bound && sub.stream_id@ == stream
}

/// The delivery endpoints, in registration order, of the subscriptions that
/// match channel `bound` and stream `stream` and whose endpoint is open.
pub open spec fn fanout_targets_spec(
    subs: Seq<Subscription>,
    closed: Seq<bool>,
    bound: Seq<char>,
    stream: Seq<char>,
) -> Seq<u64>
    decreases subs.len(),
{
    if subs.len() == 0 {
        Seq::empty()
    } else {
        let rest = fanout_targets_spec(subs.drop_last(), closed.drop_last(), bound, stream);
        if sub_matches(subs.last(), bound, stream) && !closed[subs.len() - 1] {
            rest.push(subs.last().endpoint)
        } else {
            rest
        }
    }
}

/// Whether a subscription survives the teardown sweep of a reader bound to
/// `bound`: it survives only if its endpoint is open and it belongs to a
/// different channel.
pub open spec fn keeps_at_teardown(sub: Subscription, closed: bool, bound: Seq<char>) -> bool {
    !closed && sub.channel_address@ != bound
}

/// The subscriptions surviving the teardown sweep of a reader bound to
/// `bound`, in their original order.
pub open spec fn prune_spec(
    subs: Seq<Subscription>,
    closed: Seq<bool>,
    bound: Seq<char>,
) -> Seq<Subscription>
    decreases subs.len(),
{
    if subs.len() == 0 {
        Seq::empty()
    } else {
        let rest = prune_spec(subs.drop_last(), closed.drop_last(), bound);
        if keeps_at_teardown(subs.last(), closed[subs.len() - 1], bound) {
            rest.push(subs.last())
        } else {
            rest
        }
    }
}

/// Whether some subscription for channel `bound` still has an open endpoint:
/// the remaining consumer interest a reader checks before reconnecting.
pub open spec fn has_open_subscriber_spec(
    subs: Seq<Subscription>,
    closed: Seq<bool>,
    bound: Seq<char>,
) -> bool {
    exists|i: int| 0 <= i < subs.len() && subs[i].channel_address@ == bound && !closed[i]
}

/// The mutable collection of active subscriptions, in registration order.
pub struct Registry {
    subs: Vec<Subscription>,
}

impl View for Registry {
    type V = Seq<Subscription>;

    closed spec fn view(&self) -> Seq<Subscription> {
        self.subs@
    }
}

impl Registry {
    /// An empty registry.
    pub fn new() -> (registry: Self)
        ensures
            registry@ == Seq::<Subscription>::empty(),
    {
        let registry = Registry { subs: Vec::new() };
        proof {
            assert(registry@ =~= Seq::<Subscription>::empty());
        }
        registry
    }

    /// Append a subscription. No uniqueness is imposed: several
    /// subscriptions may share a channel and stream, and each then receives
    /// its own copy of matching events.
    pub fn add(&mut self, sub: Subscription)
        ensures
            final(self)@ == old(self)@.push(sub),
    {
        self.subs.push(sub);
    }

    /// How many subscriptions are registered.
    pub fn len(&self) -> (n: usize)
        ensures
            n == self@.len(),
    {
        self.subs.len()
    }

    /// The endpoint identifier of each subscription, in registration order.
    /// The surrounding transport uses this to report endpoint closedness.
    pub fn endpoint_ids(&self) -> (ids: Vec<u64>)
        ensures
            ids@ == self@.map_values(|sub: Subscription| sub.endpoint),
    {
        let mut ids: Vec<u64> = Vec::new();
        let mut i: usize = 0;
        while i < self.subs.len()
            invariant
                i <= self.subs.len(),
                ids@ =~= self.subs@.take(i as int).map_values(|sub: Subscription| sub.endpoint),
            decreases self.subs.len() - i,
        {
            ids.push(self.subs[i].endpoint);
            proof {
                assert(self.subs@.take(i + 1).drop_last() =~= self.subs@.take(i as int));
                assert(self.subs@.take(i + 1).map_values(|sub: Subscription| sub.endpoint)
                    =~= self.subs@.take(i as int).map_values(
                    |sub: Subscription| sub.endpoint,
                ).push(self.subs@[i as int].endpoint));
            }
            i += 1;
        }
        proof {
            assert(self.subs@.take(self.subs@.len() as int) =~= self.subs@);
        }
        ids
    }

    /// The endpoints owed a copy of an event on channel `bound` and stream
    /// `stream`, given which endpoints are closed: every open matching
    /// subscription contributes its endpoint, in registration order.
    pub fn fanout_targets(&self, bound: &String, stream: &String, closed: &Vec<bool>) -> (targets:
        Vec<u64>)
        requires
            closed@.len() == self@.len(),
        ensures
            targets@ == fanout_targets_spec(self@, closed@, bound@, stream@),
    {
        let mut targets: Vec<u64> = Vec::new();
        let mut i: usize = 0;
        while i < self.subs.len()
            invariant
                i <= self.subs.len(),
                closed@.len() == self.subs@.len(),
                targets@ == fanout_targets_spec(
                    self.subs@.take(i as int),
                    closed@.take(i as int),
                    bound@,
                    stream@,
                ),
            decreases self.subs.len() - i,
        {
            proof {
                assert(self.subs@.take(i + 1).drop_last() =~= self.subs@.take(i as int));
                assert(closed@.take(i + 1).drop_last() =~= closed@.take(i as int));
                assert(self.subs@.take(i + 1).last() == self.subs@[i as int]);
            }
            if self.subs[i].channel_address == *bound && self.subs[i].stream_id == *stream
                && !closed[i] {
                targets.push(self.subs[i].endpoint);
            }
            i += 1;
        }
        proof {
            assert(self.subs@.take(self.subs@.len() as int) =~= self.subs@);
            assert(closed@.take(closed@.len() as int) =~= closed@);
        }
        targets
    }

    /// Whether any subscription for channel `bound` still has an open
    /// endpoint.
    pub fn has_open_subscriber(&self, bound: &String, closed: &Vec<bool>) -> (open: bool)
        requires
            closed@.len() == self@.len(),
        ensures
            open == has_open_subscriber_spec(self@, closed@, bound@),
    {
        let mut i: usize = 0;
        while i < self.subs.len()
            invariant
                i <= self.subs.len(),
                closed@.len() == self.subs@.len(),
                forall|j: int|
                    0 <= j < i ==> !(self.subs@[j].channel_address@ == bound@ && !closed@[j]),
            decreases self.subs.len() - i,
        {
            if self.subs[i].channel_address == *bound && !closed[i] {
                return true;
            }
            i += 1;
        }
        false
    }

    /// Remove, in one sweep, every subscription that is closed or that
    /// belongs to channel `bound`. Performed when the reader bound to
    /// `bound` terminates.
    pub fn prune(&mut self, bound: &String, closed: &Vec<bool>)
        requires
            closed@.len() == old(self)@.len(),
        ensures
            final(self)@ == prune_spec(old(self)@, closed@, bound@),
    {
        let ghost orig = self.subs@;
        let ghost orig_closed = closed@;
        let mut k: usize = 0;
        let mut i: usize = 0;
        while k < closed.len()
            invariant
                orig_closed == closed@,
                orig_closed.len() == orig.len(),
                k <= orig.len(),
                i <= k,
                self.subs@ =~= prune_spec(orig.take(k as int), closed@.take(k as int), bound@)
                    + orig.skip(k as int),
                i == prune_spec(orig.take(k as int), closed@.take(k as int), bound@).len(),
            decreases orig.len() - k,
        {
            proof {
                assert(orig.take(k + 1).drop_last() =~= orig.take(k as int));
                assert(closed@.take(k + 1).drop_last() =~= closed@.take(k as int));
                assert(orig.take(k + 1).last() == orig[k as int]);
                assert(self.subs@[i as int] == orig[k as int]);
            }
            if !closed[k] && !(self.subs[i].channel_address == *bound) {
                i += 1;
                proof {
                    assert(self.subs@ =~= prune_spec(
                        orig.take(k + 1),
                        closed@.take(k + 1),
                        bound@,
                    ) + orig.skip(k + 1));
                }
            } else {
                self.subs.remove(i);
                proof {
                    assert(self.subs@ =~= prune_spec(
                        orig.take(k + 1),
                        closed@.take(k + 1),
                        bound@,
                    ) + orig.skip(k + 1));
                }
            }
            k += 1;
        }
        proof {
            assert(orig.take(orig.len() as int) =~= orig);
            assert(closed@.take(closed@.len() as int) =~= closed@);
            assert(orig.skip(orig.len() as int) =~= Seq::<Subscription>::empty());
            assert(self.subs@ =~= prune_spec(orig, closed@, bound@));
        }
    }
}

} // verus!
