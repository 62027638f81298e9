//! Delivery laws of the multiplexing engine, proved over the same spec
//! functions that the executable functions' contracts use.

use vstd::prelude::*;
use crate::cache::record_spec;
use crate::client::bound_to;
use crate::client::handle_event_cache_spec;
use crate::client::handle_event_targets_spec;
use crate::client::should_terminate_spec;
use crate::registry::Subscription;
use crate::registry::fanout_targets_spec;
use crate::registry::has_open_subscriber_spec;
use crate::registry::keeps_at_teardown;
use crate::registry::sub_matches;
use crate::registry::prune_spec;

verus! {

/// Recording an id keeps it in the cache whenever the capacity is at least
/// one: the freshly recorded id is never the entry evicted.
pub proof fn lemma_record_keeps_id(cache: Seq<Seq<char>>, capacity: nat, id: Seq<char>)
    requires
        capacity >= 1,
    ensures
        record_spec(cache, capacity, id).contains(id),
{
    let pushed = cache.push(id);
    assert(pushed[pushed.len() - 1] == id);
    if pushed.len() > capacity {
        let after = pushed.drop_first();
        assert(after[after.len() - 1] == pushed[pushed.len() - 1]);
    }
}

/// A distinct event id is fanned out at most once while it stays in the
/// cache: handling an event whose id the cache already holds delivers to no
/// endpoint and changes nothing. In particular, right after an unseen id is
/// handled (with capacity at least one), handling the same id again
/// delivers nothing.
pub proof fn lemma_duplicate_suppressed(
    cache: Seq<Seq<char>>,
    capacity: nat,
    subs: Seq<Subscription>,
    closed: Seq<bool>,
    bound: Seq<char>,
    event_id: Seq<char>,
    stream: Seq<char>,
)
    requires
        capacity >= 1,
        !cache.contains(event_id),
    ensures
        handle_event_targets_spec(
            handle_event_cache_spec(cache, capacity, event_id),
            subs,
            closed,
            bound,
            event_id,
            stream,
        ) == Seq::<u64>::empty(),
        handle_event_cache_spec(
            handle_event_cache_spec(cache, capacity, event_id),
            capacity,
            event_id,
        ) == handle_event_cache_spec(cache, capacity, event_id),
{
    lemma_record_keeps_id(cache, capacity, event_id);
}

/// Every open subscription matching an event's channel and stream is among
/// the event's fan-out targets: in particular, two subscriptions sharing
/// one channel and stream both receive every undeduplicated matching event.
pub proof fn lemma_fanout_reaches_every_open_match(
    subs: Seq<Subscription>,
    closed: Seq<bool>,
    bound: Seq<char>,
    stream: Seq<char>,
    i: int,
)
    requires
        closed.len() == subs.len(),
        0 <= i < subs.len(),
        sub_matches(subs[i], bound, stream),
        !closed[i],
    ensures
        fanout_targets_spec(subs, closed, bound, stream).contains(subs[i].endpoint),
    decreases subs.len(),
{
    let targets = fanout_targets_spec(subs, closed, bound, stream);
    if i == subs.len() - 1 {
        assert(targets[targets.len() - 1] == subs[i].endpoint);
    } else {
        lemma_fanout_reaches_every_open_match(
            subs.drop_last(),
            closed.drop_last(),
            bound,
            stream,
            i,
        );
        let rest = fanout_targets_spec(subs.drop_last(), closed.drop_last(), bound, stream);
        let k = choose|k: int| 0 <= k < rest.len() && rest[k] == subs[i].endpoint;
        if sub_matches(subs.last(), bound, stream) && !closed[subs.len() - 1] {
            assert(targets[k] == subs[i].endpoint);
        }
    }
}

/// A suppressed event reaches nobody, and an unseen one reaches exactly the
/// open matching subscriptions: the fan-out targets of an unseen event are
/// its open matching subscriptions' endpoints, in registration order.
pub proof fn lemma_unseen_event_fans_out(
    cache: Seq<Seq<char>>,
    subs: Seq<Subscription>,
    closed: Seq<bool>,
    bound: Seq<char>,
    event_id: Seq<char>,
    stream: Seq<char>,
)
    requires
        !cache.contains(event_id),
    ensures
        handle_event_targets_spec(cache, subs, closed, bound, event_id, stream)
            == fanout_targets_spec(subs, closed, bound, stream),
{
}

/// A reader whose address was taken over terminates: if the recorded
/// channel address differs from the reader's bound address, the reader's
/// next decision is to stop, whatever its subscriptions look like.
pub proof fn lemma_stale_reader_terminates(
    current: Option<String>,
    bound: Seq<char>,
    subs: Seq<Subscription>,
    closed: Seq<bool>,
)
    requires
        !bound_to(current, bound),
    ensures
        should_terminate_spec(current, bound, subs, closed),
{
}

/// Once every subscription for a channel has closed its consumer end, the
/// reader bound to that channel terminates at its next decision point.
pub proof fn lemma_no_subscribers_terminates(
    current: Option<String>,
    bound: Seq<char>,
    subs: Seq<Subscription>,
    closed: Seq<bool>,
)
    requires
        forall|i: int| 0 <= i < subs.len() && subs[i].channel_address@ == bound ==> closed[i],
    ensures
        should_terminate_spec(current, bound, subs, closed),
{
    assert(!has_open_subscriber_spec(subs, closed, bound));
}

/// The recency cache after a reader handles a sequence of event ids in
/// order, starting from `cache`.
pub open spec fn run_cache_spec(
    cache: Seq<Seq<char>>,
    capacity: nat,
    ids: Seq<Seq<char>>,
) -> Seq<Seq<char>>
    decreases ids.len(),
{
    if ids.len() == 0 {
        cache
    } else {
        handle_event_cache_spec(run_cache_spec(cache, capacity, ids.drop_last()), capacity, ids.last())
    }
}

/// Recording can only add the recorded id: any id found in the cache after
/// a record was either there before or is the recorded one.
proof fn lemma_record_adds_only_own_id(
    cache: Seq<Seq<char>>,
    capacity: nat,
    recorded: Seq<char>,
    id: Seq<char>,
)
    requires
        record_spec(cache, capacity, recorded).contains(id),
    ensures
        cache.contains(id) || recorded == id,
{
    let pushed = cache.push(recorded);
    let after = record_spec(cache, capacity, recorded);
    let k = choose|k: int| 0 <= k < after.len() && after[k] == id;
    if pushed.len() > capacity {
        assert(after[k] == pushed[k + 1]);
    }
}

/// An id that none of a batch's records carries and that was not cached
/// beforehand is still not cached after the whole batch is handled.
proof fn lemma_run_cache_adds_only_batch_ids(
    cache: Seq<Seq<char>>,
    capacity: nat,
    ids: Seq<Seq<char>>,
    id: Seq<char>,
)
    requires
        !cache.contains(id),
        forall|i: int| 0 <= i < ids.len() ==> ids[i] != id,
    ensures
        !run_cache_spec(cache, capacity, ids).contains(id),
    decreases ids.len(),
{
    if ids.len() > 0 {
        lemma_run_cache_adds_only_batch_ids(cache, capacity, ids.drop_last(), id);
        let before = run_cache_spec(cache, capacity, ids.drop_last());
        if !before.contains(ids.last()) {
            if record_spec(before, capacity, ids.last()).contains(id) {
                lemma_record_adds_only_own_id(before, capacity, ids.last(), id);
            }
        }
    }
}

/// A batch of records with distinct ids, none seen before, is delivered in
/// full and in record order: at each step, the record handled there is
/// fanned out to every open matching subscription — its id cannot have
/// entered the cache through the records before it.
pub proof fn lemma_fresh_batch_fully_delivered(
    cache: Seq<Seq<char>>,
    capacity: nat,
    subs: Seq<Subscription>,
    closed: Seq<bool>,
    bound: Seq<char>,
    ids: Seq<Seq<char>>,
    streams: Seq<Seq<char>>,
    k: int,
)
    requires
        ids.len() == streams.len(),
        forall|i: int, j: int| 0 <= i < j < ids.len() ==> ids[i] != ids[j],
        forall|i: int| 0 <= i < ids.len() ==> !cache.contains(ids[i]),
        0 <= k < ids.len(),
    ensures
        handle_event_targets_spec(
            run_cache_spec(cache, capacity, ids.take(k)),
            subs,
            closed,
            bound,
            ids[k],
            streams[k],
        ) == fanout_targets_spec(subs, closed, bound, streams[k]),
{
    assert(forall|i: int| 0 <= i < k ==> ids.take(k)[i] == ids[i]);
    lemma_run_cache_adds_only_batch_ids(cache, capacity, ids.take(k), ids[k]);
}

/// Teardown of a reader bound to `bound` prunes that channel completely:
/// no subscription for `bound` survives the sweep.
pub proof fn lemma_teardown_prunes_bound(
    subs: Seq<Subscription>,
    closed: Seq<bool>,
    bound: Seq<char>,
)
    requires
        closed.len() == subs.len(),
    ensures
        forall|k: int|
            0 <= k < prune_spec(subs, closed, bound).len() ==> prune_spec(
                subs,
                closed,
                bound,
            )[k].channel_address@ != bound,
    decreases subs.len(),
{
    if subs.len() > 0 {
        lemma_teardown_prunes_bound(subs.drop_last(), closed.drop_last(), bound);
        let kept = prune_spec(subs, closed, bound);
        let rest = prune_spec(subs.drop_last(), closed.drop_last(), bound);
        assert forall|k: int| 0 <= k < kept.len() implies kept[k].channel_address@ != bound by {
            if keeps_at_teardown(subs.last(), closed[subs.len() - 1], bound) {
                if k < rest.len() {
                    assert(kept[k] == rest[k]);
                } else {
                    assert(kept[k] == subs.last());
                }
            } else {
                assert(kept[k] == rest[k]);
            }
        }
    }
}

/// What teardown keeps, it keeps unchanged and in order: every surviving
/// subscription is an open subscription of another channel that was
/// already registered, and every open subscription of another channel
/// survives.
pub proof fn lemma_teardown_keeps_open_others(
    subs: Seq<Subscription>,
    closed: Seq<bool>,
    bound: Seq<char>,
    i: int,
)
    requires
        closed.len() == subs.len(),
        0 <= i < subs.len(),
        !closed[i],
        subs[i].channel_address@ != bound,
    ensures
        prune_spec(subs, closed, bound).contains(subs[i]),
    decreases subs.len(),
{
    let kept = prune_spec(subs, closed, bound);
    if i == subs.len() - 1 {
        assert(kept[kept.len() - 1] == subs[i]);
    } else {
        lemma_teardown_keeps_open_others(subs.drop_last(), closed.drop_last(), bound, i);
        let rest = prune_spec(subs.drop_last(), closed.drop_last(), bound);
        let k = choose|k: int| 0 <= k < rest.len() && rest[k] == subs[i];
        if !closed[subs.len() - 1] && subs.last().channel_address@ != bound {
            assert(kept[k] == subs[i]);
        }
    }
}

} // verus!
