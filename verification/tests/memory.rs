use agent_runtime::memory::{
    find_record, list_recent, recall, sort_newest_first, tokenize, JsonlMemoryStore, MemoryQuery,
    MemoryRecord, MemorySource, ShardBy,
};

fn mk(id: &str, ts: &str, summary: &str, channel: &str, confidence: &str) -> MemoryRecord {
    MemoryRecord {
        schema_version: 1,
        id: id.into(),
        actor_id: "actor_test".into(),
        ts: ts.into(),
        record_type: "fact".into(),
        status: "accepted".into(),
        summary: summary.into(),
        detail: String::new(),
        confidence: confidence.into(),
        source: MemorySource { channel_id: channel.into(), thread_id: String::new(), message_ids: vec![] },
        tags: vec![],
    }
}

fn ids(records: &[MemoryRecord]) -> Vec<&str> {
    records.iter().map(|r| r.id.as_str()).collect()
}

#[test]
fn append_and_list_recent() {
    let loaded = vec![
        mk("a", "2026-04-01T10:00:00Z", "first", "ch1", "high"),
        mk("b", "2026-04-02T10:00:00Z", "second", "ch1", "low"),
    ];
    let got = list_recent(loaded, 10);
    assert_eq!(ids(&got), vec!["b", "a"]);
}

#[test]
fn month_sharding_splits_files() {
    let store = JsonlMemoryStore::new("/mem".into());
    assert_eq!(store.shard_name_for_ts("2026-03-31T10:00:00Z"), "2026-03.jsonl");
    assert_eq!(store.shard_name_for_ts("2026-04-01T10:00:00Z"), "2026-04.jsonl");
    assert_eq!(store.shard_path_for_ts("2026-04-01T10:00:00Z"), "/mem/2026-04.jsonl");
}

#[test]
fn day_sharding_names_files_by_date() {
    let store = JsonlMemoryStore::with_shard_by("/mem".into(), "day");
    assert_eq!(store.shard_name_for_ts("2026-04-01T23:30:00-02:00"), "2026-04-02.jsonl");
    assert_eq!(ShardBy::parse("day"), ShardBy::Day);
    assert_eq!(ShardBy::parse("anything"), ShardBy::Month);
    assert_eq!(ShardBy::Month.shard_name(987, 1, 2), "0987-01.jsonl");
}

#[test]
fn channel_scope_filters_records() {
    let loaded = vec![
        mk("a", "2026-04-01T10:00:00Z", "private", "ch_secret", "high"),
        mk("b", "2026-04-02T10:00:00Z", "public", "ch_public", "high"),
    ];
    let q = MemoryQuery { channel_scope: Some("ch_public".into()), limit: 10, ..Default::default() };
    let got = recall(loaded, &q);
    assert_eq!(ids(&got), vec!["b"]);
}

#[test]
fn query_text_overlap_and_cjk_substring() {
    let loaded = vec![
        mk("a", "2026-04-01T10:00:00Z", "user prefers Rust", "ch1", "high"),
        mk("b", "2026-04-02T10:00:00Z", "用户喜欢中文响应", "ch1", "high"),
    ];
    let ascii = recall(loaded.clone(), &MemoryQuery { text: Some("rust".into()), limit: 10, ..Default::default() });
    assert_eq!(ids(&ascii), vec!["a"]);
    let cjk = recall(loaded, &MemoryQuery { text: Some("中文".into()), limit: 10, ..Default::default() });
    assert_eq!(ids(&cjk), vec!["b"]);
}

#[test]
fn non_accepted_excluded_by_default() {
    let mut r = mk("a", "2026-04-01T10:00:00Z", "draft", "ch1", "high");
    r.status = "pending".into();
    assert!(list_recent(vec![r.clone()], 10).is_empty());
    assert!(recall(vec![r.clone()], &MemoryQuery { limit: 10, ..Default::default() }).is_empty());
    let all = recall(vec![r], &MemoryQuery { include_non_accepted: true, limit: 10, ..Default::default() });
    assert_eq!(all.len(), 1);
}

#[test]
fn malformed_lines_are_skipped() {
    // Lines that do not parse never reach the store's record list.
    let got = list_recent(vec![mk("a", "2026-04-01T10:00:00Z", "ok", "ch1", "high")], 10);
    assert_eq!(ids(&got), vec!["a"]);
}

#[test]
fn newest_first_is_stable_for_equal_timestamps() {
    let loaded = vec![
        mk("x", "2026-01-01T00:00:00Z", "", "c", "high"),
        mk("y", "2026-02-01T00:00:00Z", "", "c", "high"),
        mk("z", "2026-01-01T00:00:00Z", "", "c", "high"),
    ];
    let sorted = sort_newest_first(loaded);
    assert_eq!(ids(&sorted), vec!["y", "x", "z"]);
}

#[test]
fn list_recent_limits_and_zero_means_nothing() {
    let loaded = vec![
        mk("a", "2026-04-01T10:00:00Z", "", "c", "high"),
        mk("b", "2026-04-02T10:00:00Z", "", "c", "high"),
        mk("c", "2026-04-03T10:00:00Z", "", "c", "high"),
    ];
    assert_eq!(ids(&list_recent(loaded.clone(), 2)), vec!["c", "b"]);
    assert!(list_recent(loaded, 0).is_empty());
}

#[test]
fn find_record_by_id() {
    let loaded = vec![mk("a", "2026-04-01T10:00:00Z", "", "c", "high"), mk("b", "2026-04-02T10:00:00Z", "", "c", "high")];
    assert_eq!(find_record(loaded.clone(), "a").map(|r| r.id), Some("a".to_string()));
    assert!(find_record(loaded, "zzz").is_none());
}

#[test]
fn tokenize_lowercases_words() {
    let t = tokenize("User prefers RUST, tabs");
    assert!(t.contains(&"rust".to_string()));
    assert!(t.contains(&"prefers".to_string()));
}
