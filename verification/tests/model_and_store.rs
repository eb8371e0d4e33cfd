use ironmind::json::Json;
use ironmind::model::{Conversation, ConversationMeta, Message, MessageRole, ToolCallRecord};
use ironmind::store::{
    blob_key, blob_reference, conversation_key, externalize_blobs, meta_of, prepare_save_at,
    profile_key, remove_meta, blob_to_write, sort_newest_first, upsert_meta, user_index_key, BlobWrite,
    BLOB_THRESHOLD_BYTES,
};
use ironmind::time::{now, timestamp_of_reading, ClockReading, Timestamp};

fn ts(secs: i64, nanos: u32) -> Timestamp {
    Timestamp { secs, nanos }
}

fn msg(role: MessageRole, content: &str, tool_calls: Vec<ToolCallRecord>) -> Message {
    Message { id: "m".into(), role, content: content.into(), tool_calls, created_at: ts(1, 0) }
}

fn call(result: &str) -> ToolCallRecord {
    ToolCallRecord { name: "t".into(), args: Json::Null, result: result.into(), blob_key: None }
}

fn conv_with(messages: Vec<Message>) -> Conversation {
    let mut c = Conversation::new_at("c1".into(), "u1".into(), "http://x".into(), ts(5, 0));
    c.messages = messages;
    c
}

fn meta(id: &str, secs: i64) -> ConversationMeta {
    ConversationMeta { id: id.into(), title: format!("t-{}", id), updated_at: ts(secs, 0) }
}

#[test]
fn new_conversation_defaults() {
    let c = Conversation::new_at("c".into(), "u".into(), "url".into(), ts(9, 3));
    assert_eq!(c.title, "New conversation");
    assert!(c.messages.is_empty());
    assert_eq!(c.created_at, ts(9, 3));
    assert_eq!(c.updated_at, ts(9, 3));
    let d = Conversation::new("c".into(), "u".into(), "url".into());
    assert_eq!(d.created_at, d.updated_at);
}

#[test]
fn title_from_first_user_message() {
    let mut c = conv_with(vec![
        msg(MessageRole::System, "sys", vec![]),
        msg(MessageRole::User, "Make a bracket", vec![]),
        msg(MessageRole::User, "second", vec![]),
    ]);
    c.derive_title();
    assert_eq!(c.title, "Make a bracket");
}

#[test]
fn title_truncates_long_message() {
    let long = "x".repeat(70);
    let mut c = conv_with(vec![msg(MessageRole::User, &long, vec![])]);
    c.derive_title();
    assert_eq!(c.title, format!("{}…", "x".repeat(60)));
    let exact = "y".repeat(60);
    let mut c = conv_with(vec![msg(MessageRole::User, &exact, vec![])]);
    c.derive_title();
    assert_eq!(c.title, exact);
}

#[test]
fn title_counts_characters() {
    // 31 two-byte characters: 62 bytes, but only 31 characters, so nothing is cut.
    let text = "é".repeat(31);
    let mut c = conv_with(vec![msg(MessageRole::User, &text, vec![])]);
    c.derive_title();
    assert_eq!(c.title, text);
    let long = "é".repeat(61);
    let mut c = conv_with(vec![msg(MessageRole::User, &long, vec![])]);
    c.derive_title();
    assert_eq!(c.title, format!("{}…", "é".repeat(60)));
    c.derive_title();
    assert_eq!(c.title, format!("{}…", "é".repeat(60)));
}

#[test]
fn title_kept_without_user_message() {
    let mut c = conv_with(vec![msg(MessageRole::Assistant, "hi", vec![])]);
    c.derive_title();
    assert_eq!(c.title, "New conversation");
}

#[test]
fn storage_keys() {
    assert_eq!(conversation_key("abc"), "conversations/abc.json");
    assert_eq!(user_index_key("u"), "users/u/conversations.json");
    assert_eq!(profile_key("u"), "users/u/profile.json");
    assert_eq!(blob_key("ff00"), "blobs/ff00");
    assert_eq!(blob_reference("ff00"), "[blob:ff00]");
}

#[test]
fn large_results_become_blobs() {
    let big = "r".repeat(BLOB_THRESHOLD_BYTES + 1);
    let small = "s".repeat(BLOB_THRESHOLD_BYTES);
    let mut c = conv_with(vec![msg(MessageRole::Assistant, "a", vec![call(&small), call(&big)])]);
    let writes = externalize_blobs(&mut c);
    let hex = blake3::hash(big.as_bytes()).to_hex().to_string();
    assert_eq!(
        writes,
        vec![BlobWrite { key: format!("blobs/{}", hex), content: big.as_bytes().to_vec() }]
    );
    let calls = &c.messages[0].tool_calls;
    assert_eq!(calls[0], call(&small));
    assert_eq!(calls[1].result, format!("[blob:{}]", hex));
    assert_eq!(calls[1].blob_key, Some(format!("blobs/{}", hex)));
    assert_ne!(calls[1].result, big);
}

#[test]
fn externalize_is_idempotent() {
    let big = "q".repeat(5000);
    let mut c = conv_with(vec![msg(MessageRole::Assistant, "a", vec![call(&big)])]);
    let first = externalize_blobs(&mut c);
    assert_eq!(first.len(), 1);
    let snapshot = c.clone();
    let second = externalize_blobs(&mut c);
    assert!(second.is_empty());
    assert_eq!(c, snapshot);
}

#[test]
fn same_content_same_blob() {
    let big = "z".repeat(4097);
    let mut c = conv_with(vec![
        msg(MessageRole::Assistant, "a", vec![call(&big)]),
        msg(MessageRole::Assistant, "b", vec![call(&big)]),
    ]);
    let writes = externalize_blobs(&mut c);
    assert_eq!(writes.len(), 2);
    assert_eq!(writes[0].key, writes[1].key);
}

#[test]
fn prepare_save_sets_time_title_and_blobs() {
    let big = "w".repeat(4100);
    let mut c = conv_with(vec![
        msg(MessageRole::User, "hello", vec![]),
        msg(MessageRole::Assistant, "a", vec![call(&big)]),
    ]);
    let writes = prepare_save_at(&mut c, ts(100, 7));
    assert_eq!(c.updated_at, ts(100, 7));
    assert_eq!(c.created_at, ts(5, 0));
    assert_eq!(c.title, "hello");
    assert_eq!(writes.len(), 1);
}

#[test]
fn upsert_replaces_or_appends() {
    let mut index = vec![meta("a", 1), meta("b", 2)];
    upsert_meta(&mut index, meta("b", 9));
    assert_eq!(index, vec![meta("a", 1), meta("b", 9)]);
    upsert_meta(&mut index, meta("c", 3));
    assert_eq!(index, vec![meta("a", 1), meta("b", 9), meta("c", 3)]);
}

#[test]
fn meta_describes_conversation() {
    let mut c = conv_with(vec![]);
    c.title = "T".into();
    let m = meta_of(&c);
    assert_eq!(m, ConversationMeta { id: "c1".into(), title: "T".into(), updated_at: ts(5, 0) });
}

#[test]
fn remove_drops_every_entry_of_id() {
    let mut index = vec![meta("a", 1), meta("b", 2), meta("a", 3), meta("c", 4)];
    remove_meta(&mut index, "a");
    assert_eq!(index, vec![meta("b", 2), meta("c", 4)]);
    remove_meta(&mut index, "zzz");
    assert_eq!(index, vec![meta("b", 2), meta("c", 4)]);
}

#[test]
fn sort_is_newest_first_and_stable() {
    let mut index = vec![meta("a", 1), meta("b", 3), meta("c", 1), meta("d", 2), meta("e", 3)];
    sort_newest_first(&mut index);
    let ids: Vec<&str> = index.iter().map(|m| m.id.as_str()).collect();
    assert_eq!(ids, vec!["b", "e", "d", "a", "c"]);
    let mut fine = vec![
        ConversationMeta { id: "x".into(), title: String::new(), updated_at: ts(1, 5) },
        ConversationMeta { id: "y".into(), title: String::new(), updated_at: ts(1, 9) },
    ];
    sort_newest_first(&mut fine);
    assert_eq!(fine[0].id, "y");
}

#[test]
fn timestamp_order() {
    assert!(ts(1, 0).is_before(&ts(2, 0)));
    assert!(ts(1, 1).is_before(&ts(1, 2)));
    assert!(!ts(1, 2).is_before(&ts(1, 2)));
    assert!(!ts(3, 0).is_before(&ts(2, 999)));
}

#[test]
fn message_new_fields() {
    let m = Message::new(MessageRole::User, "hi".into(), vec![]);
    assert_eq!(m.role, MessageRole::User);
    assert_eq!(m.content, "hi");
    assert!(m.tool_calls.is_empty());
    assert_eq!(m.id.len(), 36);
    assert_eq!(m.id.chars().nth(14), Some('4'));
    assert!(uuid::Uuid::parse_str(&m.id).is_ok());
}

#[test]
fn second_save_keeps_title_and_blobs() {
    let big = "v".repeat(5000);
    let mut c = conv_with(vec![
        msg(MessageRole::User, &"long question ".repeat(10), vec![]),
        msg(MessageRole::Assistant, "a", vec![call(&big)]),
    ]);
    let first = prepare_save_at(&mut c, ts(10, 0));
    let title = c.title.clone();
    let calls = c.messages[1].tool_calls.clone();
    let second = prepare_save_at(&mut c, ts(11, 0));
    assert_eq!(first.len(), 1);
    assert!(second.is_empty());
    assert_eq!(c.title, title);
    assert_eq!(c.messages[1].tool_calls, calls);
    assert_eq!(c.updated_at, ts(11, 0));
}

#[test]
fn clock_readings_to_timestamps() {
    assert_eq!(timestamp_of_reading(ClockReading::AfterEpoch { secs: 5, nanos: 7 }), ts(5, 7));
    assert_eq!(timestamp_of_reading(ClockReading::BeforeEpoch { secs: 5, nanos: 0 }), ts(-5, 0));
    assert_eq!(
        timestamp_of_reading(ClockReading::BeforeEpoch { secs: 5, nanos: 250_000_000 }),
        ts(-6, 750_000_000)
    );
    assert_eq!(
        timestamp_of_reading(ClockReading::AfterEpoch { secs: u64::MAX, nanos: 1 }),
        ts(i64::MAX, 1)
    );
    let t = now();
    assert!(t.secs > 1_600_000_000 && t.nanos < 1_000_000_000);
}

#[test]
fn stored_blob_is_not_written_again() {
    let w = BlobWrite { key: "blobs/ab".into(), content: vec![1, 2] };
    assert_eq!(blob_to_write(w.clone(), &None), Some(w.clone()));
    assert_eq!(blob_to_write(w, &Some(vec![1, 2])), None);
}
