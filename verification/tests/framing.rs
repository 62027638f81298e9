use std::collections::HashMap;
use std::collections::HashSet;

use megaphone_client::frame::split_lines;
use megaphone_client::dto::channel::ChanExistsReqDto;
use megaphone_client::dto::channel::ChanExistsResDto;
use megaphone_client::dto::channel::ChanMessage;
use megaphone_client::dto::channel::ChannelCreateReqDto;
use megaphone_client::dto::channel::ChannelCreateResDto;
use megaphone_client::dto::channel::ChannelInfoDto;
use megaphone_client::dto::channel::ChannelsListParams;
use megaphone_client::dto::channel::MessageDeliveryFailure;
use megaphone_client::dto::channel::WriteBatchReqDto;
use megaphone_client::dto::channel::WriteBatchResDto;
use megaphone_client::dto::channel::default_limit;

fn lines_of(chunk: &[u8]) -> Vec<Vec<u8>> {
    split_lines(chunk)
}

#[test]
fn splits_records_on_newlines() {
    let lines = lines_of(b"r1\nr2\n");
    assert_eq!(lines, vec![b"r1".to_vec(), b"r2".to_vec()]);
}

#[test]
fn discards_empty_fragments() {
    let lines = lines_of(b"\n\nr1\n\n\nr2\n");
    assert_eq!(lines, vec![b"r1".to_vec(), b"r2".to_vec()]);
}

#[test]
fn keeps_trailing_record_without_newline() {
    let lines = lines_of(b"r1\nr2");
    assert_eq!(lines, vec![b"r1".to_vec(), b"r2".to_vec()]);
}

#[test]
fn empty_chunk_has_no_records() {
    assert_eq!(lines_of(b""), Vec::<Vec<u8>>::new());
    assert_eq!(lines_of(b"\n\n"), Vec::<Vec<u8>>::new());
}

#[test]
fn chunking_at_record_boundaries_preserves_records() {
    // Three records split across chunk boundaries that never fall inside a
    // record: framing each chunk separately yields the same records as
    // framing the whole stream.
    let whole: &[u8] = b"{\"a\":1}\n{\"b\":2}\n{\"c\":3}\n";
    let splits: &[(&[u8], &[u8])] = &[
        (b"{\"a\":1}\n", b"{\"b\":2}\n{\"c\":3}\n"),
        (b"{\"a\":1}\n{\"b\":2}\n", b"{\"c\":3}\n"),
        (b"{\"a\":1}\n{\"b\":2}\n{\"c\":3}\n", b""),
    ];
    let expected = lines_of(whole);
    assert_eq!(expected.len(), 3);
    for (first, second) in splits {
        let mut got = lines_of(first);
        got.extend(lines_of(second));
        assert_eq!(got, expected);
    }
}

#[test]
fn default_limit_is_fifty() {
    assert_eq!(default_limit(), 50);
}

#[test]
fn channel_info_extracts_agent() {
    let info = ChannelInfoDto::from_address("agent-1.pipe.42");
    assert_eq!(info.address, "agent-1.pipe.42");
    assert_eq!(info.agent_id, "agent-1");
}

#[test]
fn channel_info_without_dot_keeps_whole_address() {
    let info = ChannelInfoDto::from_address("solo");
    assert_eq!(info.address, "solo");
    assert_eq!(info.agent_id, "solo");
}

#[test]
fn admin_records_carry_their_fields() {
    let create_req = ChannelCreateReqDto { protocols: vec![String::from("p1")] };
    assert_eq!(create_req.protocols, vec![String::from("p1")]);
    let create_res = ChannelCreateResDto {
        channel_id: String::new(),
        producer_address: String::from("agent.prod"),
        consumer_address: String::from("agent.cons"),
        agent_name: String::new(),
        protocols: Vec::new(),
    };
    assert_eq!(create_res.consumer_address, "agent.cons");

    let mut channels = HashSet::new();
    channels.insert(String::from("ch1"));
    let batch = WriteBatchReqDto {
        channels,
        messages: vec![ChanMessage {
            stream_id: String::from("s1"),
            body: serde_json::Value::Bool(true),
        }],
    };
    assert_eq!(batch.messages.len(), 1);
    assert!(batch.channels.contains("ch1"));

    let failure = MessageDeliveryFailure {
        channel: String::from("ch1"),
        index: 0,
        reason: String::from("closed"),
    };
    let batch_res = WriteBatchResDto { failures: vec![failure] };
    assert_eq!(batch_res.failures[0].reason, "closed");

    let mut asked = HashSet::new();
    asked.insert(String::from("ch1"));
    let exists_req = ChanExistsReqDto { channels: asked };
    assert_eq!(exists_req.channels.len(), 1);
    let mut known = HashMap::new();
    known.insert(String::from("ch1"), true);
    let exists_res = ChanExistsResDto { channels: known };
    assert_eq!(exists_res.channels["ch1"], true);

    let params = ChannelsListParams { agents: HashSet::new(), skip: 0, limit: default_limit() };
    assert_eq!(params.limit, 50);
}

#[test]
fn channel_info_of_empty_address() {
    let info = ChannelInfoDto::from_address("");
    assert_eq!(info.address, "");
    assert_eq!(info.agent_id, "");
}
