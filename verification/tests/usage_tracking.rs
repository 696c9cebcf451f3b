use granite_cli::json::Json;
use granite_cli::launchers::usage::{
    collect_bob_usage, parse_costs_json, sum_usage, TASK_TREE_QUERY,
};
use granite_cli::proxy::usage::{parse_usage, UsageStats, UsageTracker};
use rusqlite::Connection;

fn json(text: &str) -> Json {
    Json::parse(text).unwrap()
}

fn tokens(input_tokens: u64, output_tokens: u64) -> UsageStats {
    UsageStats { input_tokens, output_tokens, ..UsageStats::default() }
}

#[test]
fn tracker_records_and_accumulates_by_label() {
    let mut tracker = UsageTracker::new();
    tracker.record("chat", tokens(10, 5));
    tracker.record("chat", tokens(3, 7));
    tracker.record("other", tokens(100, 0));

    let snapshot = tracker.snapshot();
    let chat = snapshot.get("chat").unwrap();
    assert_eq!(chat.requests, 2);
    assert_eq!(chat.input_tokens, 13);
    assert_eq!(chat.output_tokens, 12);
    assert_eq!(snapshot.get("other").unwrap().input_tokens, 100);
    assert_eq!(snapshot.len(), 2);
}

#[test]
fn recording_counts_one_request_whatever_the_usage_says() {
    let mut tracker = UsageTracker::new();
    tracker.record("chat", UsageStats { requests: 9, ..UsageStats::default() });
    assert_eq!(tracker.recorded("chat").requests, 1);
}

#[test]
fn a_tracker_knows_when_a_total_is_full() {
    let mut tracker = UsageTracker::new();
    tracker.set("chat", tokens(u64::MAX - 1, 0));
    assert!(tracker.can_record("chat", tokens(1, 0)));
    assert!(!tracker.can_record("chat", tokens(2, 0)));
    assert!(tracker.can_record("other", tokens(2, 0)));
    tracker.set("chat", UsageStats { requests: u64::MAX, ..UsageStats::default() });
    assert!(!tracker.can_record("chat", UsageStats::default()));
}

#[test]
fn merge_max_takes_running_totals_not_sums() {
    let mut running = tokens(10, 1);
    running.merge_max(&tokens(10, 4));
    assert_eq!(running.input_tokens, 10);
    assert_eq!(running.output_tokens, 4);
    running.merge_max(&UsageStats { requests: 8, cache_read_tokens: 3, ..UsageStats::default() });
    assert_eq!(running.requests, 0);
    assert_eq!(running.cache_read_tokens, 3);
    assert_eq!(running.input_tokens, 10);
}

#[test]
fn parse_usage_anthropic_non_streaming() {
    let body = json(
        r#"{"usage":{"input_tokens":12,"output_tokens":34,
            "cache_creation_input_tokens":5,"cache_read_input_tokens":6}}"#,
    );
    let usage = parse_usage(&body).unwrap();
    assert_eq!(usage.input_tokens, 12);
    assert_eq!(usage.output_tokens, 34);
    assert_eq!(usage.cache_creation_tokens, 5);
    assert_eq!(usage.cache_read_tokens, 6);
    assert_eq!(usage.requests, 0);
}

#[test]
fn parse_usage_missing_usage_returns_none() {
    assert!(parse_usage(&json(r#"{"content":[]}"#)).is_none());
}

#[test]
fn parse_usage_anthropic_message_start() {
    let event = json(
        r#"{"type":"message_start","message":{"usage":
            {"input_tokens":100,"output_tokens":1,"cache_read_input_tokens":20}}}"#,
    );
    let usage = parse_usage(&event).unwrap();
    assert_eq!(usage.input_tokens, 100);
    assert_eq!(usage.cache_read_tokens, 20);
}

#[test]
fn parse_usage_anthropic_message_delta() {
    let event = json(r#"{"type":"message_delta","usage":{"output_tokens":42}}"#);
    assert_eq!(parse_usage(&event).unwrap().output_tokens, 42);
}

#[test]
fn parse_usage_openai_with_cached_tokens() {
    let body = json(
        r#"{"usage":{"prompt_tokens":50,"completion_tokens":25,
            "prompt_tokens_details":{"cached_tokens":10}}}"#,
    );
    let usage = parse_usage(&body).unwrap();
    assert_eq!(usage.input_tokens, 50);
    assert_eq!(usage.output_tokens, 25);
    assert_eq!(usage.cache_read_tokens, 10);
}

#[test]
fn parse_usage_ollama_done() {
    let body = json(r#"{"done":true,"prompt_eval_count":8,"eval_count":16}"#);
    let usage = parse_usage(&body).unwrap();
    assert_eq!(usage.input_tokens, 8);
    assert_eq!(usage.output_tokens, 16);
}

#[test]
fn parse_usage_ollama_non_done_line_without_counts_is_none() {
    assert!(parse_usage(&json(r#"{"done":false,"response":"partial"}"#)).is_none());
}

#[test]
fn parse_usage_counts_what_is_no_integer_as_zero() {
    let usage = parse_usage(&json(r#"{"usage":{"input_tokens":"x","output_tokens":-3}}"#)).unwrap();
    assert_eq!(usage, UsageStats::default());
    let usage = parse_usage(&json(r#"{"usage":{"input_tokens":1.0,"output_tokens":2}}"#)).unwrap();
    assert_eq!((usage.input_tokens, usage.output_tokens), (0, 2));
    assert!(parse_usage(&json(r#"{"eval_count":"x"}"#)).is_none());
}

#[test]
fn parse_usage_falls_back_to_the_top_level_counts() {
    let usage = parse_usage(&json(r#"{"usage":{},"eval_count":4}"#)).unwrap();
    assert_eq!(usage.output_tokens, 4);
    let usage = parse_usage(&json(r#"{"message":{"role":"x"},"usage":{"prompt_tokens":4}}"#)).unwrap();
    assert_eq!(usage.input_tokens, 4);
}

#[test]
fn tracker_set_replaces_not_accumulates() {
    let mut tracker = UsageTracker::new();
    tracker.set("bob", tokens(10, 5));
    tracker.set("bob", tokens(100, 50));
    let snapshot = tracker.snapshot();
    let bob = snapshot.get("bob").unwrap();
    assert_eq!(bob.input_tokens, 100);
    assert_eq!(bob.output_tokens, 50);
    assert_ne!(bob.input_tokens, 110);
}

#[test]
fn tracker_set_does_not_modify_requests_beyond_passed_value() {
    let mut tracker = UsageTracker::new();
    tracker.set("bob", UsageStats { requests: 42, ..tokens(10, 5) });
    let snapshot = tracker.snapshot();
    let bob = snapshot.get("bob").unwrap();
    assert_eq!(bob.requests, 42);
    assert_eq!(bob.input_tokens, 10);
    assert_eq!(bob.output_tokens, 5);
    tracker.record("bob", UsageStats::default());
    assert_eq!(tracker.snapshot().get("bob").unwrap().requests, 43);
    assert_eq!(bob.requests, 42);
}

/// A database with tasks, each with its id, its parent and its costs.
fn database(tasks: &[(&str, Option<&str>, Option<&str>)]) -> Connection {
    let connection = Connection::open_in_memory().unwrap();
    connection
        .execute_batch("CREATE TABLE tasks (id TEXT PRIMARY KEY, parent_id TEXT, costs TEXT)")
        .unwrap();
    for (id, parent_id, costs) in tasks {
        connection
            .execute(
                "INSERT INTO tasks (id, parent_id, costs) VALUES (?1, ?2, ?3)",
                (id, parent_id, costs),
            )
            .unwrap();
    }
    connection
}

fn usage_of_tree(connection: &Connection, root: &str) -> UsageStats {
    let mut statement = connection.prepare(TASK_TREE_QUERY).unwrap();
    let mut rows = statement.query([root]).unwrap();
    let mut costs: Vec<Option<String>> = Vec::new();
    while let Some(row) = rows.next().unwrap() {
        costs.push(row.get(0).unwrap());
    }
    collect_bob_usage(&costs)
}

#[test]
fn root_with_subagent_child_summation() {
    let database = database(&[
        (
            "root-task",
            None,
            Some(r#"{"input":100, "output":50, "cacheRead":20, "cacheWrite":10}"#),
        ),
        (
            "child-task",
            Some("root-task"),
            Some(r#"{"input":30, "output":15, "cacheRead":5, "cacheWrite":2}"#),
        ),
    ]);
    let result = usage_of_tree(&database, "root-task");
    assert_eq!(result.requests, 2);
    assert_eq!(result.input_tokens, 130);
    assert_eq!(result.output_tokens, 65);
    assert_eq!(result.cache_read_tokens, 25);
    assert_eq!(result.cache_creation_tokens, 12);
}

#[test]
fn a_task_tree_is_followed_to_its_leaves_and_no_further() {
    let database = database(&[
        ("a", None, Some(r#"{"input":1}"#)),
        ("b", Some("a"), Some(r#"{"input":2}"#)),
        ("c", Some("b"), Some(r#"{"input":4}"#)),
        ("d", Some("c"), Some(r#"{"input":8}"#)),
        ("x", None, Some(r#"{"input":16}"#)),
    ]);
    assert_eq!(usage_of_tree(&database, "b"), UsageStats { requests: 3, ..tokens(14, 0) });
}

#[test]
fn tasks_that_are_each_others_parents_are_counted_once() {
    let database = database(&[
        ("a", Some("c"), Some(r#"{"input":1}"#)),
        ("b", Some("a"), Some(r#"{"input":2}"#)),
        ("c", Some("b"), Some(r#"{"input":4}"#)),
        ("own", Some("own"), Some(r#"{"input":8}"#)),
    ]);
    assert_eq!(usage_of_tree(&database, "a"), UsageStats { requests: 3, ..tokens(7, 0) });
    assert_eq!(usage_of_tree(&database, "own"), UsageStats { requests: 1, ..tokens(8, 0) });
}

#[test]
fn malformed_costs_row_treated_as_zero() {
    let database = database(&[
        ("root-task", None, Some(r#"{"input":100, "output":50}"#)),
        ("bad-child", Some("root-task"), Some("this is not json at all")),
    ]);
    let result = usage_of_tree(&database, "root-task");
    assert_eq!(result.requests, 2);
    assert_eq!(result.input_tokens, 100);
    assert_eq!(result.output_tokens, 50);
}

#[test]
fn nonexistent_root_returns_default() {
    let database = database(&[("other-task", None, Some(r#"{"input":999}"#))]);
    assert_eq!(usage_of_tree(&database, "does-not-exist"), UsageStats::default());
}

#[test]
fn nonexistent_db_path_returns_default() {
    assert_eq!(collect_bob_usage(&Vec::new()), UsageStats::default());
}

#[test]
fn null_costs_row_treated_as_zero() {
    let database = database(&[
        ("root-task", None, Some(r#"{"input":100, "output":50}"#)),
        ("null-child", Some("root-task"), None),
    ]);
    let result = usage_of_tree(&database, "root-task");
    assert_eq!(result.requests, 2);
    assert_eq!(result.input_tokens, 100);
    assert_eq!(result.output_tokens, 50);
}

#[test]
fn costs_that_are_no_object_report_nothing() {
    assert_eq!(parse_costs_json("[1,2]"), UsageStats::default());
    assert_eq!(parse_costs_json("7"), UsageStats::default());
    assert_eq!(parse_costs_json(r#"{"input":"7","output":1.5,"cacheRead":3}"#).cache_read_tokens, 3);
}

#[test]
fn sums_stay_at_the_largest_count() {
    let total = sum_usage(&vec![tokens(u64::MAX, 1), tokens(5, 2)]);
    assert_eq!(total.input_tokens, u64::MAX);
    assert_eq!(total.output_tokens, 3);
    assert_eq!(total.requests, 2);
}
