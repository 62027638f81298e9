use megaphone_client::MegaphoneClient;
use megaphone_client::cache::RecencyCache;
use megaphone_client::client::ReaderDecision;
use megaphone_client::client::single_response;
use megaphone_client::dto::message::EventDto;
use megaphone_client::error::DelayedResponseError;
use megaphone_client::error::Error;
use megaphone_client::model::StreamSpec;

fn event(id: &str, stream: &str) -> EventDto {
    EventDto {
        event_id: String::from(id),
        stream_id: String::from(stream),
        body: serde_json::Value::Null,
    }
}

fn spec(channel: &str, streams: &[&str]) -> StreamSpec {
    StreamSpec {
        channel: String::from(channel),
        streams: streams.iter().map(|s| String::from(*s)).collect(),
    }
}

#[test]
fn cache_records_and_evicts_oldest() {
    let mut cache = RecencyCache::new(2);
    assert!(!cache.contains(&String::from("a")));
    cache.record(String::from("a"));
    cache.record(String::from("b"));
    assert!(cache.contains(&String::from("a")));
    assert!(cache.contains(&String::from("b")));
    cache.record(String::from("c"));
    assert!(!cache.contains(&String::from("a")));
    assert!(cache.contains(&String::from("b")));
    assert!(cache.contains(&String::from("c")));
    assert_eq!(cache.capacity(), 2);
}

#[test]
fn cache_capacity_zero_holds_nothing() {
    let mut cache = RecencyCache::new(0);
    cache.record(String::from("a"));
    assert!(!cache.contains(&String::from("a")));
}

#[test]
fn duplicate_suppressed_within_window() {
    // Ids a, b, c, a on one stream with one subscriber, with the ids
    // within the recency window: the subscriber receives a, b, c and the
    // second a is suppressed.
    let mut client = MegaphoneClient::new("http://example.org", 4);
    let spawn = client.register(&spec("ch1", &["s1"]), 7);
    assert_eq!(spawn, Some(String::from("ch1")));
    let bound = String::from("ch1");
    let closed = vec![false];
    let mut received: Vec<u64> = Vec::new();
    for id in ["a", "b", "c", "a"] {
        let targets = client.handle_event(&bound, &event(id, "s1"), &closed);
        received.extend(targets);
    }
    assert_eq!(received, vec![7, 7, 7]);
    assert!(client.cache.contains(&String::from("a")));
    assert!(client.cache.contains(&String::from("b")));
    assert!(client.cache.contains(&String::from("c")));
}

#[test]
fn capacity_two_scenario() {
    // With capacity 2, recording c evicts the oldest id a; dedup is
    // best-effort, bounded by the finite recency window, so a arriving
    // again after its eviction is delivered anew and re-recorded.
    let mut client = MegaphoneClient::new("http://example.org", 2);
    client.register(&spec("ch1", &["s1"]), 7);
    let bound = String::from("ch1");
    let closed = vec![false];
    let mut received: Vec<u64> = Vec::new();
    for id in ["a", "b", "c"] {
        let targets = client.handle_event(&bound, &event(id, "s1"), &closed);
        received.extend(targets);
    }
    assert_eq!(received, vec![7, 7, 7]);
    // The capacity eviction at c removed a; the cache holds {b, c}.
    assert!(!client.cache.contains(&String::from("a")));
    assert!(client.cache.contains(&String::from("b")));
    assert!(client.cache.contains(&String::from("c")));
    // a again: outside the window now, so it is fanned out once more.
    let targets = client.handle_event(&bound, &event("a", "s1"), &closed);
    assert_eq!(targets, vec![7]);
}

#[test]
fn two_subscriptions_same_stream_both_receive() {
    let mut client = MegaphoneClient::new("http://example.org", 8);
    assert_eq!(client.register(&spec("ch1", &["s1"]), 1), Some(String::from("ch1")));
    // Same channel again: no new reader is spawned.
    assert_eq!(client.register(&spec("ch1", &["s1"]), 2), None);
    let targets = client.handle_event(&String::from("ch1"), &event("e1", "s1"), &vec![false, false]);
    assert_eq!(targets, vec![1, 2]);
}

#[test]
fn mismatched_stream_or_channel_receives_nothing() {
    let mut client = MegaphoneClient::new("http://example.org", 8);
    client.register(&spec("ch1", &["s1", "s2"]), 1);
    let targets = client.handle_event(&String::from("ch1"), &event("e1", "s3"), &vec![false, false]);
    assert_eq!(targets, Vec::<u64>::new());
    let targets = client.handle_event(&String::from("ch9"), &event("e2", "s1"), &vec![false, false]);
    assert_eq!(targets, Vec::<u64>::new());
}

#[test]
fn closed_endpoints_are_skipped() {
    let mut client = MegaphoneClient::new("http://example.org", 8);
    client.register(&spec("ch1", &["s1"]), 1);
    client.register(&spec("ch1", &["s1"]), 2);
    let targets = client.handle_event(&String::from("ch1"), &event("e1", "s1"), &vec![true, false]);
    assert_eq!(targets, vec![2]);
}

#[test]
fn channel_switch_scenario() {
    // Initializer call 1 binds ch1; call 2 reports ch2: the state moves to
    // ch2, a second reader is called for, and the ch1 reader sees the
    // mismatch, terminates and prunes all ch1 subscriptions.
    let mut client = MegaphoneClient::new("http://example.org", 8);
    assert_eq!(client.register(&spec("ch1", &["s1"]), 1), Some(String::from("ch1")));
    assert_eq!(client.register(&spec("ch2", &["s1"]), 2), Some(String::from("ch2")));
    assert_eq!(client.channel_address, Some(String::from("ch2")));

    let closed = vec![false, false];
    let ch1 = String::from("ch1");
    assert_eq!(client.reader_decision(&ch1, &closed), ReaderDecision::Terminate);
    client.reader_teardown(&ch1, &closed);
    // The ch1 subscription is gone, the ch2 one survives, and the newer
    // reader's address is not clobbered.
    assert_eq!(client.registry.endpoint_ids(), vec![2]);
    assert_eq!(client.channel_address, Some(String::from("ch2")));
}

#[test]
fn all_consumers_closed_terminates_and_clears() {
    let mut client = MegaphoneClient::new("http://example.org", 8);
    client.register(&spec("ch1", &["s1", "s2"]), 1);
    let ch1 = String::from("ch1");
    let open = vec![false, false];
    assert_eq!(client.reader_decision(&ch1, &open), ReaderDecision::Reconnect);
    let closed = vec![true, true];
    assert_eq!(client.reader_decision(&ch1, &closed), ReaderDecision::Terminate);
    client.reader_teardown(&ch1, &closed);
    assert_eq!(client.channel_address, None);
    assert_eq!(client.registry.len(), 0);
}

#[test]
fn teardown_sweeps_closed_subscriptions_of_other_channels() {
    let mut client = MegaphoneClient::new("http://example.org", 8);
    client.register(&spec("ch1", &["s1"]), 1);
    client.register(&spec("ch2", &["s1"]), 2);
    // Tearing down ch1 also removes the closed ch2 subscription.
    client.reader_teardown(&String::from("ch1"), &vec![false, true]);
    assert_eq!(client.registry.len(), 0);
}

#[test]
fn single_response_missing_when_closed_before_any_event() {
    let response = single_response(None);
    assert_eq!(response, Err(DelayedResponseError::MissingResponse));
}

#[test]
fn single_response_returns_first_body() {
    let mut evt = event("e1", "s1");
    evt.body = serde_json::Value::String(String::from("payload"));
    let response = single_response(Some(evt));
    assert_eq!(response, Ok(serde_json::Value::String(String::from("payload"))));
}

#[test]
fn batch_round_trip_delivers_each_record_once_in_order() {
    // A newline-delimited batch of three distinct-id records, split across
    // chunk boundaries that do not split a record, produces exactly three
    // deliveries to the matching subscription, in record order.
    let mut client = MegaphoneClient::new("http://example.org", 8);
    client.register(&spec("ch1", &["s1"]), 1);
    let bound = String::from("ch1");
    let closed = vec![false];
    let chunks: [&[u8]; 2] = [
        b"{\"eventId\":\"e1\",\"streamId\":\"s1\",\"body\":1}\n{\"eventId\":\"e2\",\"streamId\":\"s1\",\"body\":2}\n",
        b"{\"eventId\":\"e3\",\"streamId\":\"s1\",\"body\":3}\n",
    ];
    let mut delivered: Vec<(u64, String)> = Vec::new();
    for chunk in chunks {
        for line in megaphone_client::frame::split_lines(chunk) {
            let value: serde_json::Value = serde_json::from_slice(&line).unwrap();
            let evt = event(
                value.get("eventId").unwrap().as_str().unwrap(),
                value.get("streamId").unwrap().as_str().unwrap(),
            );
            for target in client.handle_event(&bound, &evt, &closed) {
                delivered.push((target, evt.event_id.clone()));
            }
        }
    }
    assert_eq!(
        delivered,
        vec![
            (1, String::from("e1")),
            (1, String::from("e2")),
            (1, String::from("e3")),
        ]
    );
}

#[test]
fn reader_target_joins_and_trims() {
    let client = MegaphoneClient::new("https://example.org///", 8);
    let target = client.reader_target(&String::from("ch1")).unwrap();
    assert_eq!(target.to_string(), "https://example.org/ch1");
}

#[test]
fn reader_target_rejects_invalid_url() {
    let client = MegaphoneClient::new("http://exa mple.org", 8);
    let err = client.reader_target(&String::from("ch1")).unwrap_err();
    assert_eq!(
        err,
        Error::InvalidUrl { url: String::from("http://exa mple.org/ch1") }
    );
}
