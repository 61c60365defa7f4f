//! Searches that a server answers.
use tgrep::json::{parse, Json};
use tgrep::options::{new_writer_to, SearchOptions};
use tgrep::paths::IndexScope;
use tgrep::rows::{Row, RowScope};
use tgrep::server_reply::{finish_reply, read_reply};
use tgrep::server_search::{
    files_in_reply, files_request, require_server_coverage, search_request, search_result,
    spans_are_sound,
};
use tgrep::server_stats::{count_reported_matches, read_file_stats};
use tgrep::sort::{SortKey, SortMode};

fn row(kind: &str, file: &str, line: u64, spans: u64) -> Row {
    let spans: Vec<Json> = (0..spans)
        .map(|i| Json::List(vec![Json::unsigned(i), Json::unsigned(i + 1)]))
        .collect();
    Row::from_json(
        &Json::object()
            .put("type", Json::text(kind))
            .put("file", Json::text(file))
            .put("line", Json::unsigned(line))
            .put("spans", Json::List(spans)),
    )
}

fn whole() -> RowScope {
    RowScope { scope: IndexScope::Whole, named: String::new(), max_depth: None, binary: false }
}

#[test]
fn server_response_requires_explicit_complete_hidden_coverage() {
    for response in ["{}", r#"{"hidden_complete": false}"#, r#"{"hidden_complete": null}"#] {
        assert!(require_server_coverage(&parse(response).unwrap()).is_err());
    }
    assert!(require_server_coverage(&parse(r#"{"hidden_complete": true}"#).unwrap()).is_ok());
}

#[test]
fn stats_counts_one_match_per_span() {
    let rows = vec![row("match", "a.rs", 1, 3)];
    assert_eq!(count_reported_matches(&rows), (3, 1));
}

#[test]
fn stats_ignores_context_rows() {
    let rows = vec![
        row("context", "a.rs", 1, 0),
        row("match", "a.rs", 2, 1),
        row("context", "a.rs", 3, 0),
    ];
    assert_eq!(count_reported_matches(&rows), (1, 1));
}

#[test]
fn stats_deduplicates_lines_across_rows() {
    let rows = vec![row("match", "a.rs", 7, 1), row("match", "a.rs", 7, 1)];
    assert_eq!(count_reported_matches(&rows), (2, 1));
}

#[test]
fn stats_keeps_same_line_number_in_different_files_apart() {
    let rows = vec![row("match", "a.rs", 4, 1), row("match", "b.rs", 4, 1)];
    assert_eq!(count_reported_matches(&rows), (2, 2));
}

#[test]
fn stats_reports_no_matches_for_inverted_rows() {
    let rows = vec![row("match", "a.rs", 1, 0), row("match", "a.rs", 2, 0)];
    assert_eq!(count_reported_matches(&rows), (0, 2));
}

#[test]
fn stats_uses_the_line_count_a_binary_row_carries() {
    let rows = vec![Row::from_json(
        &parse(r#"{"type": "binary", "file": "a.bin", "lines": 5}"#).unwrap(),
    )];
    assert_eq!(count_reported_matches(&rows), (5, 5));
}

#[test]
fn stats_on_no_rows_is_zero() {
    assert_eq!(count_reported_matches(&Vec::new()), (0, 0));
}

#[test]
fn stats_treats_a_row_without_spans_as_no_matches() {
    let rows = vec![Row::from_json(
        &parse(r#"{"type": "match", "file": "a.rs", "line": 1}"#).unwrap(),
    )];
    assert_eq!(count_reported_matches(&rows), (0, 1));
}

#[test]
fn requests_carry_what_was_asked_for() {
    let opts = SearchOptions {
        pattern: "foo".to_string(),
        extra_patterns: vec!["bar".to_string()],
        hidden: true,
        max_depth: Some(2),
        after_context: Some(3),
        ..Default::default()
    };
    let patterns = opts.all_patterns(None);
    let scope = IndexScope::Subtree("src/".to_string());
    let request = search_request(&opts, &scope, &patterns, true, false);
    assert_eq!(request.get_str("method"), Some("search"));
    let params = request.get("params").unwrap();
    assert_eq!(params.get_str("pattern"), Some("foo"));
    let extras = params.get_list("extra_patterns").unwrap();
    assert_eq!(extras.len(), 1);
    assert_eq!(extras[0].as_str(), Some("bar"));
    assert_eq!(params.get_bool("case_insensitive"), Some(true));
    assert_eq!(params.get_bool("hidden"), Some(true));
    assert_eq!(params.get_str("scope"), Some("src/"));
    assert_eq!(params.get_u64("max_depth"), Some(2));
    assert_eq!(params.get_u64("after_context"), Some(3));
    assert!(params.get("max_count").unwrap().is_null());
    let counted = SearchOptions { count: true, after_context: Some(3), ..Default::default() };
    let request = search_request(&counted, &IndexScope::Whole, &Vec::new(), false, false);
    assert_eq!(request.get("params").unwrap().get_u64("after_context"), Some(0));

    let files = files_request(true, &scope);
    assert_eq!(files.get_str("method"), Some("files"));
    assert_eq!(files.get("params").unwrap().get_str("scope"), Some("src/"));
}

#[test]
fn refused_replies_say_why() {
    let error = parse(r#"{"error": {"message": "busy"}}"#).unwrap();
    assert_eq!(search_result(&error).err(), Some("server error: busy".to_string()));
    let blank = parse(r#"{"error": {}}"#).unwrap();
    assert_eq!(search_result(&blank).err(), Some("server error: unknown error".to_string()));
    let none = parse("{}").unwrap();
    assert_eq!(search_result(&none).err(), Some("no result in response".to_string()));
    let old = parse(r#"{"result": {"matches": []}}"#).unwrap();
    assert_eq!(
        search_result(&old).err(),
        Some("server does not support complete hidden-file coverage".to_string())
    );
    assert!(read_reply("not json", &whole()).is_err());
    assert!(read_reply(r#"{"result": {"matches": []}}"#, &whole()).is_err());
}

#[test]
fn listed_files_are_texts() {
    let good = parse(r#"{"result": {"hidden_complete": true, "files": ["a", "b/c"]}}"#).unwrap();
    assert_eq!(files_in_reply(&good), Ok(vec!["a".to_string(), "b/c".to_string()]));
    let bad = parse(r#"{"result": {"hidden_complete": true, "files": ["a", 1]}}"#).unwrap();
    assert_eq!(
        files_in_reply(&bad),
        Err("server returned a non-string file path".to_string())
    );
    let none = parse(r#"{"result": {"hidden_complete": true}}"#).unwrap();
    assert_eq!(files_in_reply(&none), Err("server response did not contain files".to_string()));
}

const REPLY: &str = r#"{"result": {"hidden_complete": true, "matches": [
    {"type": "match", "file": "src/z.rs", "line": 2, "content": "a needle", "spans": [[2, 8]], "columns": [3]},
    {"type": "context", "file": "src/z.rs", "line": 3, "content": "after"},
    {"type": "match", "file": "src/a.rs", "line": 1, "content": "needle", "spans": [[0, 6]], "columns": [1]},
    {"type": "match", "file": "other/b.rs", "line": 1, "content": "needle", "spans": [[0, 6]], "columns": [1]},
    {"type": "binary", "file": "src/x.bin", "lines": 2, "offset": 4},
    {"type": "match", "file": "src/x.bin", "line": 1, "content": "needle", "spans": [[0, 6]], "columns": [1]}
], "file_stats": [
    {"file": "src/z.rs", "matches": 1, "matched_lines": 1},
    {"file": "src/a.rs", "matches": 1, "matched_lines": 1},
    {"file": "other/b.rs", "matches": 1, "matched_lines": 1},
    {"file": "src/x.bin", "matches": 9, "matched_lines": 9}
]}}"#;

fn subtree() -> RowScope {
    RowScope {
        scope: IndexScope::Subtree("src/".to_string()),
        named: String::new(),
        max_depth: None,
        binary: false,
    }
}

#[test]
fn replies_are_scoped_sorted_and_printed() {
    let reply = read_reply(REPLY, &subtree()).ok().unwrap();
    let files: Vec<Option<String>> = reply.rows.iter().map(|r| r.file.clone()).collect();
    let name = |s: &str| Some(s.to_string());
    assert_eq!(files, [name("z.rs"), name("z.rs"), name("a.rs")]);

    let opts = SearchOptions {
        sort: Some(SortMode { key: SortKey::Path, reverse: false }),
        field_match_separator: ":".to_string(),
        field_context_separator: "-".to_string(),
        stats: true,
        ..Default::default()
    };
    let mut writer = new_writer_to(&opts);
    let printed =
        finish_reply(reply, &subtree(), &opts, &vec![None, None], Some("1.5"), &mut writer)
            .unwrap();
    assert!(printed.had_matches);
    assert_eq!(
        printed.stats.as_deref(),
        Some("2 matches (2 matched lines) in 1.5ms (via server)\n")
    );
    let (out, _) = writer.take_output();
    assert_eq!(out, "a.rs:1:needle\nz.rs:2:a needle\nz.rs-3-after\n");
}

#[test]
fn replies_are_counted_per_file() {
    let reply = read_reply(REPLY, &subtree()).ok().unwrap();
    let opts = SearchOptions {
        count: true,
        field_match_separator: ":".to_string(),
        ..Default::default()
    };
    let mut writer = new_writer_to(&opts);
    let printed =
        finish_reply(reply, &subtree(), &opts, &Vec::new(), Some("1.0"), &mut writer).unwrap();
    assert!(printed.stats.is_none());
    assert_eq!(writer.take_output().0, "z.rs:1\na.rs:1\n");
}

#[test]
fn quiet_replies_print_nothing() {
    let reply = read_reply(REPLY, &subtree()).ok().unwrap();
    let opts = SearchOptions { quiet: true, stats: true, ..Default::default() };
    let mut writer = new_writer_to(&opts);
    let printed =
        finish_reply(reply, &subtree(), &opts, &Vec::new(), Some("1.0"), &mut writer).unwrap();
    assert!(printed.had_matches);
    assert_eq!(
        printed.stats.as_deref(),
        Some("1 matches (1 matched lines) in 1.0ms (via server)\n")
    );
    assert_eq!(writer.take_output().0, "");
}

#[test]
fn unsound_spans_are_found() {
    assert!(spans_are_sound(&read_reply(REPLY, &whole()).ok().unwrap().rows));
    let bad = Row::from_json(
        &parse(r#"{"type": "match", "file": "a", "line": 1, "content": "é", "spans": [[0, 1]]}"#)
            .unwrap(),
    );
    assert!(!spans_are_sound(&vec![bad]));
}

#[test]
fn malformed_counts_are_refused() {
    assert!(read_file_stats(&parse(r#"[{"file": "a", "matches": 1}]"#).unwrap()).is_none());
    let listed = read_file_stats(&parse(r#"[["a", 1, 2]]"#).unwrap()).unwrap();
    assert_eq!((listed[0].file.as_str(), listed[0].matches, listed[0].matched_lines), ("a", 1, 2));
    assert!(read_file_stats(&parse(r#"[["a", 1]]"#).unwrap()).is_none());
    assert_eq!(
        read_file_stats(
            &parse(r#"[{"file": "a", "matches": 1, "matched_lines": 2}]"#).unwrap()
        )
        .unwrap()
        .len(),
        1
    );
}
