//! What a server says of itself, and how it is printed.
use tgrep::json::{parse, Json};
use tgrep::status::{
    coverage_label, format_timestamp, index_status, no_index, reply_result, server_status,
    status_request, write_refresh_status, MetaCounts, StatusResult,
};

const NOW: u64 = 1_700_000_000;

fn legacy_status() -> Json {
    parse(
        r#"{"num_files": 152, "num_trigrams": 12265, "cache_size": 2,
            "cache_capacity": 50000, "watcher_active": true}"#,
    )
    .unwrap()
}

fn render(status: &StatusResult) -> String {
    write_refresh_status(status, NOW)
}

#[test]
fn refresh_legacy_status_remains_compatible() {
    let status = StatusResult::from_json(&legacy_status()).unwrap();
    assert!(status.watcher_active);
    assert!(!status.indexing);
    assert!(status.hidden_complete.is_none());
    assert!(!status.reconcile_running);
    assert!(status.watch_mode_requested.is_none());
    assert!(status.watch_mode_active.is_none());
    assert!(status.watch_budget.is_none());
    assert!(status.poll_interval_secs.is_none());
    assert!(status.reconcile_pending.is_none());
    assert!(status.reconcile_overdue.is_none());
    assert_eq!(render(&status), "");
}

#[test]
fn refresh_status_renders_fallback_timing_and_failure() {
    let json = legacy_status()
        .put("watcher_active", Json::Bool(false))
        .put("watch_mode_requested", Json::text("auto"))
        .put("watch_mode_active", Json::text("poll"))
        .put("watch_fallback_reason", Json::text("watch_budget_exceeded"))
        .put("watch_budget", Json::unsigned(8192))
        .put("poll_interval_secs", Json::unsigned(120))
        .put("last_reconcile_at", Json::unsigned(1))
        .put("last_reconcile_duration_ms", Json::unsigned(42))
        .put("last_reconcile_error", Json::text("reconcile failed"))
        .put("reconcile_running", Json::Bool(true))
        .put("reconcile_pending", Json::Bool(true))
        .put("reconcile_overdue", Json::Bool(true))
        .put("future_status_field", Json::text("ignored"));
    let status = StatusResult::from_json(&json).unwrap();
    assert!(!status.watcher_active);
    let output = render(&status);
    for expected in [
        "Watch mode: poll (requested: auto)",
        "Fallback:   watch_budget_exceeded",
        "Watch budget: 8192",
        "Poll interval: 120s (after completion)",
        "Reconcile:  running",
        "Reconcile pending: yes",
        "Reconcile overdue: yes",
        "Last reconcile duration: 42ms",
        "Last reconcile error: reconcile failed",
    ] {
        assert!(output.contains(expected), "missing {expected:?} in {output}");
    }
    assert!(output.contains(&format!(
        "Last successful reconcile: {}",
        format_timestamp(1, NOW)
    )));
}

#[test]
fn refresh_status_accepts_null_optional_fields_and_each_mode() {
    for (requested, active) in [
        ("auto", "native"),
        ("auto", "starting"),
        ("poll", "poll"),
        ("disabled", "disabled"),
    ] {
        let json = legacy_status()
            .put("watch_mode_requested", Json::text(requested))
            .put("watch_mode_active", Json::text(active))
            .put("watch_fallback_reason", Json::Null)
            .put("watch_budget", Json::Null)
            .put("poll_interval_secs", Json::Null)
            .put("last_reconcile_at", Json::Null)
            .put("last_reconcile_duration_ms", Json::Null)
            .put("last_reconcile_error", Json::Null)
            .put("reconcile_running", Json::Bool(false))
            .put("reconcile_pending", Json::Bool(false))
            .put("reconcile_overdue", Json::Bool(false));
        let status = StatusResult::from_json(&json).unwrap();
        let output = render(&status);
        assert!(output.contains(&format!("Watch mode: {active} (requested: {requested})")));
        assert!(output.contains("Reconcile:  idle"));
        assert!(output.contains("Reconcile pending: no"));
        assert!(output.contains("Reconcile overdue: no"));
        assert!(output.contains("Last successful reconcile: never"));
        assert!(!output.contains("Fallback:"));
        assert!(!output.contains("Last reconcile error:"));
    }
}

#[test]
fn malformed_status_is_refused() {
    for text in [
        r#"{}"#,
        r#"{"num_files": -1, "num_trigrams": 1, "cache_size": 2, "cache_capacity": 3, "watcher_active": true}"#,
        r#"{"num_files": 1, "num_trigrams": 1, "cache_size": 2, "cache_capacity": 3, "watcher_active": 1}"#,
    ] {
        assert!(StatusResult::from_json(&parse(text).unwrap()).is_none(), "{text}");
    }
}

#[test]
fn status_may_be_a_list_of_its_fields() {
    let nulls = "null, null, null, null, null, null, null, null";
    let text = format!("[152, 12265, 2, 50000, true, {nulls}, false, null, null, true, 1, 2, null]");
    let status = StatusResult::from_json(&parse(&text).unwrap()).unwrap();
    assert_eq!((status.num_files, status.index_total), (152, 2));
    assert!(status.indexing && status.watcher_active);
    assert!(StatusResult::from_json(&parse("[152, 12265, 2, 50000, true]").unwrap()).is_none());
}

#[test]
fn ages_are_rounded_down() {
    assert_eq!(format_timestamp(NOW, NOW), "0s ago");
    assert_eq!(format_timestamp(NOW - 59, NOW), "59s ago");
    assert_eq!(format_timestamp(NOW - 60, NOW), "1m ago");
    assert_eq!(format_timestamp(NOW - 7199, NOW), "1h ago");
    assert_eq!(format_timestamp(NOW - 86400, NOW), "1d ago");
    assert_eq!(format_timestamp(NOW + 5, NOW), "0s ago");
}

#[test]
fn coverage_is_named() {
    assert_eq!(coverage_label(true), "complete");
    assert_ne!(coverage_label(false), "complete");
}

#[test]
fn printed_status_names_root_and_server() {
    let status = StatusResult::from_json(&legacy_status()).unwrap();
    let text = server_status("/repo", 77, 4242, &status, NOW);
    assert!(text.contains("/repo"), "{text}");
    assert!(text.contains("152"), "{text}");
    assert!(text.contains("12265"), "{text}");
    assert!(text.contains("4242"), "{text}");
    assert!(text.contains("77"), "{text}");
}

#[test]
fn printed_index_status_is_exact() {
    let meta = MetaCounts { num_files: 3, num_trigrams: 9, created_at: NOW - 120, updated_at: NOW };
    assert_eq!(
        index_status("/repo", &meta, true, NOW),
        "Index status for /repo\n  Files:      3\n  Trigrams:   9\n  Created:    2m ago\n  \
         Updated:    0s ago\n  Server:     not running\n  Hidden coverage: complete\n"
    );
    assert!(no_index("/repo/.tgrep", "/repo").contains("/repo"));
}

#[test]
fn status_is_asked_for_and_read() {
    let request = status_request();
    assert_eq!(request.get_str("method"), Some("status"));
    assert_eq!(request.get_str("jsonrpc"), Some("2.0"));
    let reply = parse(r#"{"id": 1, "result": {"num_files": 7}}"#).unwrap();
    assert_eq!(reply_result(&reply).ok().unwrap().get_u64("num_files"), Some(7));
    assert!(reply_result(&parse("{}").unwrap()).is_err());
}
